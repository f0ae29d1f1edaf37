//! What the keys of the viewer do: switches that a key turns over, and the
//! movement keys that are held down.

use vstd::prelude::*;
use vstd::string::StringSliceAdditionalSpecFns;
use crate::text::is_word;

verus! {

/// The switches of the viewer.
#[derive(Debug, Clone, Copy, PartialEq, Eq, Structural)]
pub struct Flags {
    pub rotate: bool,
    pub display_bounding_box: bool,
    pub display_axes: bool,
    pub cull_back_face: bool,
    pub user_camera_control: bool,
    pub display_debug_normals: bool,
    pub display_debug_wireframe: bool,
    pub display_mesh: bool,
    pub display_texture: bool,
    pub light: bool,
}

/// The movement keys that are held down.
#[derive(Debug, Clone, Copy, PartialEq, Eq, Structural)]
pub struct Keys {
    pub forward: bool,
    pub back: bool,
    pub left: bool,
    pub right: bool,
    pub up: bool,
    pub down: bool,
    pub translate_forward: bool,
    pub translate_back: bool,
    pub translate_left: bool,
    pub translate_right: bool,
    pub translate_up: bool,
    pub translate_down: bool,
}

/// A switch that a key turns over.
#[derive(Debug, Clone, Copy, PartialEq, Eq, Structural)]
pub enum Flag {
    DisplayBoundingBox,
    DisplayAxes,
    Rotate,
    CullBackFace,
    DisplayDebugNormals,
    DisplayDebugWireframe,
    DisplayMesh,
    DisplayTexture,
    Light,
}

/// A movement key.
#[derive(Debug, Clone, Copy, PartialEq, Eq, Structural)]
pub enum Movement {
    Forward,
    Back,
    Left,
    Right,
    Up,
    Down,
    TranslateForward,
    TranslateBack,
    TranslateLeft,
    TranslateRight,
    TranslateUp,
    TranslateDown,
}

/// What the viewer has to do after a key went down.
#[derive(Debug, Clone, Copy, PartialEq, Eq, Structural)]
pub enum KeyAction {
    /// Nothing.
    Nothing,
    /// A switch was turned over and has the given value now.
    Toggled(Flag, bool),
    /// The camera is, or is no longer, under the user's control.
    CameraControl(bool),
    /// The user is to be asked for a model; the camera is released.
    LoadModel,
    /// The model is to turn the other way round.
    ReverseRotation,
}

/// The switch that the key of this name turns over.
pub open spec fn flag_of(name: Seq<u8>) -> Option<Flag> {
    if name == "B".spec_bytes() {
        Some(Flag::DisplayBoundingBox)
    } else if name == "X".spec_bytes() {
        Some(Flag::DisplayAxes)
    } else if name == "P".spec_bytes() {
        Some(Flag::Rotate)
    } else if name == "I".spec_bytes() {
        Some(Flag::CullBackFace)
    } else if name == "N".spec_bytes() {
        Some(Flag::DisplayDebugNormals)
    } else if name == "Z".spec_bytes() {
        Some(Flag::DisplayDebugWireframe)
    } else if name == "K".spec_bytes() {
        Some(Flag::DisplayMesh)
    } else if name == "T".spec_bytes() {
        Some(Flag::DisplayTexture)
    } else if name == "L".spec_bytes() {
        Some(Flag::Light)
    } else {
        None
    }
}

/// The movement that the key of this name stands for.
pub open spec fn movement_of(name: Seq<u8>) -> Option<Movement> {
    if name == "W".spec_bytes() {
        Some(Movement::Forward)
    } else if name == "A".spec_bytes() {
        Some(Movement::Left)
    } else if name == "S".spec_bytes() {
        Some(Movement::Back)
    } else if name == "D".spec_bytes() {
        Some(Movement::Right)
    } else if name == "Space".spec_bytes() {
        Some(Movement::Up)
    } else if name == "Left Shift".spec_bytes() {
        Some(Movement::Down)
    } else if name == "Up".spec_bytes() {
        Some(Movement::TranslateForward)
    } else if name == "Left".spec_bytes() {
        Some(Movement::TranslateLeft)
    } else if name == "Down".spec_bytes() {
        Some(Movement::TranslateBack)
    } else if name == "Right".spec_bytes() {
        Some(Movement::TranslateRight)
    } else if name == "U".spec_bytes() {
        Some(Movement::TranslateUp)
    } else if name == "J".spec_bytes() {
        Some(Movement::TranslateDown)
    } else {
        None
    }
}

/// The value of a switch.
pub open spec fn flag_value(flags: Flags, flag: Flag) -> bool {
    match flag {
        Flag::DisplayBoundingBox => flags.display_bounding_box,
        Flag::DisplayAxes => flags.display_axes,
        Flag::Rotate => flags.rotate,
        Flag::CullBackFace => flags.cull_back_face,
        Flag::DisplayDebugNormals => flags.display_debug_normals,
        Flag::DisplayDebugWireframe => flags.display_debug_wireframe,
        Flag::DisplayMesh => flags.display_mesh,
        Flag::DisplayTexture => flags.display_texture,
        Flag::Light => flags.light,
    }
}

/// The switches with one of them turned over.
pub open spec fn toggled(flags: Flags, flag: Flag) -> Flags {
    match flag {
        Flag::DisplayBoundingBox => Flags {
            display_bounding_box: !flags.display_bounding_box,
            ..flags
        },
        Flag::DisplayAxes => Flags { display_axes: !flags.display_axes, ..flags },
        Flag::Rotate => Flags { rotate: !flags.rotate, ..flags },
        Flag::CullBackFace => Flags { cull_back_face: !flags.cull_back_face, ..flags },
        Flag::DisplayDebugNormals => Flags {
            display_debug_normals: !flags.display_debug_normals,
            ..flags
        },
        Flag::DisplayDebugWireframe => Flags {
            display_debug_wireframe: !flags.display_debug_wireframe,
            ..flags
        },
        Flag::DisplayMesh => Flags { display_mesh: !flags.display_mesh, ..flags },
        Flag::DisplayTexture => Flags { display_texture: !flags.display_texture, ..flags },
        Flag::Light => Flags { light: !flags.light, ..flags },
    }
}

/// The movement keys with one of them down or up.
pub open spec fn with_movement(keys: Keys, movement: Movement, down: bool) -> Keys {
    match movement {
        Movement::Forward => Keys { forward: down, ..keys },
        Movement::Back => Keys { back: down, ..keys },
        Movement::Left => Keys { left: down, ..keys },
        Movement::Right => Keys { right: down, ..keys },
        Movement::Up => Keys { up: down, ..keys },
        Movement::Down => Keys { down: down, ..keys },
        Movement::TranslateForward => Keys { translate_forward: down, ..keys },
        Movement::TranslateBack => Keys { translate_back: down, ..keys },
        Movement::TranslateLeft => Keys { translate_left: down, ..keys },
        Movement::TranslateRight => Keys { translate_right: down, ..keys },
        Movement::TranslateUp => Keys { translate_up: down, ..keys },
        Movement::TranslateDown => Keys { translate_down: down, ..keys },
    }
}

/// The switches, the movement keys and the action after the key `name` went
/// down. A repeated key does nothing. A switch key turns its switch over;
/// `C` hands the camera over or takes it back; `M` releases the camera and
/// asks for a model; `Return` reverses the rotation; a movement key is down
/// from then on.
pub open spec fn after_key_down(name: Seq<u8>, repeat: bool, flags: Flags, keys: Keys) -> (
    Flags,
    Keys,
    KeyAction,
) {
    if repeat {
        (flags, keys, KeyAction::Nothing)
    } else if flag_of(name) is Some {
        (
            toggled(flags, flag_of(name)->0),
            keys,
            KeyAction::Toggled(flag_of(name)->0, !flag_value(flags, flag_of(name)->0)),
        )
    } else if name == "M".spec_bytes() {
        (Flags { user_camera_control: false, ..flags }, keys, KeyAction::LoadModel)
    } else if name == "Return".spec_bytes() {
        (flags, keys, KeyAction::ReverseRotation)
    } else if name == "C".spec_bytes() {
        (
            Flags { user_camera_control: !flags.user_camera_control, ..flags },
            keys,
            KeyAction::CameraControl(!flags.user_camera_control),
        )
    } else if movement_of(name) is Some {
        (flags, with_movement(keys, movement_of(name)->0, true), KeyAction::Nothing)
    } else {
        (flags, keys, KeyAction::Nothing)
    }
}

/// The movement keys after the key `name` went up.
pub open spec fn after_key_up(name: Seq<u8>, repeat: bool, keys: Keys) -> Keys {
    if !repeat && movement_of(name) is Some {
        with_movement(keys, movement_of(name)->0, false)
    } else {
        keys
    }
}

impl Flag {
    /// The switch of a key.
    pub fn of_key(name: &str) -> (r: Option<Flag>)
        ensures
            r == flag_of(name.spec_bytes()),
    {
        if is_word(name, "B") {
            Some(Flag::DisplayBoundingBox)
        } else if is_word(name, "X") {
            Some(Flag::DisplayAxes)
        } else if is_word(name, "P") {
            Some(Flag::Rotate)
        } else if is_word(name, "I") {
            Some(Flag::CullBackFace)
        } else if is_word(name, "N") {
            Some(Flag::DisplayDebugNormals)
        } else if is_word(name, "Z") {
            Some(Flag::DisplayDebugWireframe)
        } else if is_word(name, "K") {
            Some(Flag::DisplayMesh)
        } else if is_word(name, "T") {
            Some(Flag::DisplayTexture)
        } else if is_word(name, "L") {
            Some(Flag::Light)
        } else {
            None
        }
    }

    /// The name under which the viewer reports the switch.
    pub fn name(self) -> (r: &'static str)
        ensures
            r@ == match self {
                Flag::DisplayBoundingBox => "display_bounding_box"@,
                Flag::DisplayAxes => "display_axes"@,
                Flag::Rotate => "rotate"@,
                Flag::CullBackFace => "cull_back_face"@,
                Flag::DisplayDebugNormals => "display_debug_normals"@,
                Flag::DisplayDebugWireframe => "display_debug_wireframe"@,
                Flag::DisplayMesh => "display_mesh"@,
                Flag::DisplayTexture => "display_texture"@,
                Flag::Light => "light"@,
            },
    {
        match self {
            Flag::DisplayBoundingBox => "display_bounding_box",
            Flag::DisplayAxes => "display_axes",
            Flag::Rotate => "rotate",
            Flag::CullBackFace => "cull_back_face",
            Flag::DisplayDebugNormals => "display_debug_normals",
            Flag::DisplayDebugWireframe => "display_debug_wireframe",
            Flag::DisplayMesh => "display_mesh",
            Flag::DisplayTexture => "display_texture",
            Flag::Light => "light",
        }
    }
}

impl Movement {
    /// The movement of a key.
    pub fn of_key(name: &str) -> (r: Option<Movement>)
        ensures
            r == movement_of(name.spec_bytes()),
    {
        if is_word(name, "W") {
            Some(Movement::Forward)
        } else if is_word(name, "A") {
            Some(Movement::Left)
        } else if is_word(name, "S") {
            Some(Movement::Back)
        } else if is_word(name, "D") {
            Some(Movement::Right)
        } else if is_word(name, "Space") {
            Some(Movement::Up)
        } else if is_word(name, "Left Shift") {
            Some(Movement::Down)
        } else if is_word(name, "Up") {
            Some(Movement::TranslateForward)
        } else if is_word(name, "Left") {
            Some(Movement::TranslateLeft)
        } else if is_word(name, "Down") {
            Some(Movement::TranslateBack)
        } else if is_word(name, "Right") {
            Some(Movement::TranslateRight)
        } else if is_word(name, "U") {
            Some(Movement::TranslateUp)
        } else if is_word(name, "J") {
            Some(Movement::TranslateDown)
        } else {
            None
        }
    }
}

impl Flags {
    /// The switches as the viewer starts with them.
    pub fn new() -> (r: Flags)
        ensures
            r == (Flags {
                rotate: true,
                display_bounding_box: false,
                display_axes: false,
                cull_back_face: true,
                user_camera_control: false,
                display_debug_normals: false,
                display_mesh: true,
                display_debug_wireframe: false,
                display_texture: false,
                light: false,
            }),
    {
        Flags {
            rotate: true,
            display_bounding_box: false,
            display_axes: false,
            cull_back_face: true,
            user_camera_control: false,
            display_debug_normals: false,
            display_mesh: true,
            display_debug_wireframe: false,
            display_texture: false,
            light: false,
        }
    }

    /// Turns a switch over and returns its new value.
    pub fn toggle(&mut self, flag: Flag) -> (r: bool)
        ensures
            *final(self) == toggled(*old(self), flag),
            r == !flag_value(*old(self), flag),
    {
        match flag {
            Flag::DisplayBoundingBox => {
                self.display_bounding_box = !self.display_bounding_box;
                self.display_bounding_box
            },
            Flag::DisplayAxes => {
                self.display_axes = !self.display_axes;
                self.display_axes
            },
            Flag::Rotate => {
                self.rotate = !self.rotate;
                self.rotate
            },
            Flag::CullBackFace => {
                self.cull_back_face = !self.cull_back_face;
                self.cull_back_face
            },
            Flag::DisplayDebugNormals => {
                self.display_debug_normals = !self.display_debug_normals;
                self.display_debug_normals
            },
            Flag::DisplayDebugWireframe => {
                self.display_debug_wireframe = !self.display_debug_wireframe;
                self.display_debug_wireframe
            },
            Flag::DisplayMesh => {
                self.display_mesh = !self.display_mesh;
                self.display_mesh
            },
            Flag::DisplayTexture => {
                self.display_texture = !self.display_texture;
                self.display_texture
            },
            Flag::Light => {
                self.light = !self.light;
                self.light
            },
        }
    }
}

impl Keys {
    /// No key is down.
    pub fn new() -> (r: Keys)
        ensures
            r == (Keys {
                forward: false,
                back: false,
                left: false,
                right: false,
                up: false,
                down: false,
                translate_forward: false,
                translate_back: false,
                translate_left: false,
                translate_right: false,
                translate_up: false,
                translate_down: false,
            }),
    {
        Keys {
            forward: false,
            back: false,
            left: false,
            right: false,
            up: false,
            down: false,
            translate_forward: false,
            translate_back: false,
            translate_left: false,
            translate_right: false,
            translate_up: false,
            translate_down: false,
        }
    }

    /// Records that a movement key is down or up.
    pub fn set(&mut self, movement: Movement, down: bool)
        ensures
            *final(self) == with_movement(*old(self), movement, down),
    {
        let keys = *self;
        *self = match movement {
            Movement::Forward => Keys { forward: down, ..keys },
            Movement::Back => Keys { back: down, ..keys },
            Movement::Left => Keys { left: down, ..keys },
            Movement::Right => Keys { right: down, ..keys },
            Movement::Up => Keys { up: down, ..keys },
            Movement::Down => Keys { down: down, ..keys },
            Movement::TranslateForward => Keys { translate_forward: down, ..keys },
            Movement::TranslateBack => Keys { translate_back: down, ..keys },
            Movement::TranslateLeft => Keys { translate_left: down, ..keys },
            Movement::TranslateRight => Keys { translate_right: down, ..keys },
            Movement::TranslateUp => Keys { translate_up: down, ..keys },
            Movement::TranslateDown => Keys { translate_down: down, ..keys },
        };
    }
}

/// Handles a key that went down.
pub fn handle_keydown(name: &str, repeat: bool, flags: &mut Flags, keys: &mut Keys) -> (r:
    KeyAction)
    ensures
        (*final(flags), *final(keys), r) == after_key_down(
            name.spec_bytes(),
            repeat,
            *old(flags),
            *old(keys),
        ),
{
    if repeat {
        return KeyAction::Nothing;
    }
    if let Some(flag) = Flag::of_key(name) {
        let value = flags.toggle(flag);
        return KeyAction::Toggled(flag, value);
    }
    if is_word(name, "M") {
        flags.user_camera_control = false;
        return KeyAction::LoadModel;
    }
    if is_word(name, "Return") {
        return KeyAction::ReverseRotation;
    }
    if is_word(name, "C") {
        flags.user_camera_control = !flags.user_camera_control;
        return KeyAction::CameraControl(flags.user_camera_control);
    }
    if let Some(movement) = Movement::of_key(name) {
        keys.set(movement, true);
    }
    KeyAction::Nothing
}

/// Handles a key that went up.
pub fn handle_keyup(name: &str, repeat: bool, keys: &mut Keys)
    ensures
        *final(keys) == after_key_up(name.spec_bytes(), repeat, *old(keys)),
{
    if repeat {
        return ;
    }
    if let Some(movement) = Movement::of_key(name) {
        keys.set(movement, false);
    }
}

} // verus!
