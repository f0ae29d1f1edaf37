//! Commands to the viewer.

use vstd::prelude::*;

verus! {

/// What the viewer can be told to do.
#[derive(Debug, Clone)]
pub enum Command {
    LoadModel(String),
}

/// Where commands come from.
pub struct CommandInterpreter {}

impl CommandInterpreter {
    /// The next command: always the loading of the model `yep`.
    pub fn listen() -> (r: Command)
        ensures
            r matches Command::LoadModel(name) && name@ == "yep"@,
    {
        Command::LoadModel("yep".to_owned())
    }
}

} // verus!
