//! Shader sources: one file holds the code of all stages, told apart by
//! `#pragma` lines, with the entry point of each stage marked by `@entry`.

use vstd::prelude::*;
use vstd::string::StringExecFns;
use vstd::string::StringSliceAdditionalSpecFns;
use vstd::utf8::*;
use crate::text::begins_with;
use crate::text::bytes_of;
use crate::text::is_word;
use crate::text::lead_width;
use crate::text::lemma_next_cut;
use crate::text::lemma_text_of;
use crate::text::slice_str;
use crate::text::split_whitespace;
use crate::text::starts_with;
use crate::text::tokens;
use crate::text::trim_from;
use crate::text::same_bytes;
use crate::text::trimmed;
use crate::utils::NonNegativeI32;

verus! {

/// The code of each stage of a program.
#[derive(Debug)]
pub struct ShaderSource {
    pub vertex_source: String,
    pub fragment_source: String,
    pub geometry_source: Option<String>,
}

/// The mathematical value of a `ShaderSource`.
pub struct ShaderSourceView {
    pub vertex_source: Seq<char>,
    pub fragment_source: Seq<char>,
    pub geometry_source: Option<Seq<char>>,
}

impl View for ShaderSource {
    type V = ShaderSourceView;

    open spec fn view(&self) -> ShaderSourceView {
        ShaderSourceView {
            vertex_source: self.vertex_source@,
            fragment_source: self.fragment_source@,
            geometry_source: match self.geometry_source {
                Some(text) => Some(text@),
                None => None,
            },
        }
    }
}

/// The part of a file that a line belongs to.
#[derive(Debug, Clone, Copy, PartialEq, Eq, Structural)]
pub enum ShaderPragma {
    Shared,
    Vertex,
    Fragment,
    Geometry,
}

/// What can be wrong with a shader file or with the program made of it.
#[derive(Debug)]
pub enum ShaderError {
    UnknownPragma(String),
    VertexCompileError(String),
    FragmentCompileError(String),
    GeometryCompileError(String),
    EntryPointError(String),
    LinkError(String),
    MissingVertexEntryPoint,
    MissingFragmentEntryPoint,
}

/// The mathematical value of a `ShaderError`.
pub enum ShaderErrorView {
    UnknownPragma(Seq<char>),
    VertexCompileError(Seq<char>),
    FragmentCompileError(Seq<char>),
    GeometryCompileError(Seq<char>),
    EntryPointError(Seq<char>),
    LinkError(Seq<char>),
    MissingVertexEntryPoint,
    MissingFragmentEntryPoint,
}

impl View for ShaderError {
    type V = ShaderErrorView;

    open spec fn view(&self) -> ShaderErrorView {
        match *self {
            ShaderError::UnknownPragma(text) => ShaderErrorView::UnknownPragma(text@),
            ShaderError::VertexCompileError(text) => ShaderErrorView::VertexCompileError(text@),
            ShaderError::FragmentCompileError(text) => ShaderErrorView::FragmentCompileError(
                text@,
            ),
            ShaderError::GeometryCompileError(text) => ShaderErrorView::GeometryCompileError(
                text@,
            ),
            ShaderError::EntryPointError(text) => ShaderErrorView::EntryPointError(text@),
            ShaderError::LinkError(text) => ShaderErrorView::LinkError(text@),
            ShaderError::MissingVertexEntryPoint => ShaderErrorView::MissingVertexEntryPoint,
            ShaderError::MissingFragmentEntryPoint => ShaderErrorView::MissingFragmentEntryPoint,
        }
    }
}

/// The position of the first `(` from `i` on, or the end.
pub open spec fn name_end(s: Seq<u8>, i: int) -> int
    decreases s.len() - i,
{
    if i < 0 || i >= s.len() || s[i] == 0x28 {
        i
    } else {
        name_end(s, i + 1)
    }
}

/// The tokens, each followed by a space.
pub open spec fn spaced(parts: Seq<Seq<u8>>) -> Seq<char>
    decreases parts.len(),
{
    if parts.len() == 0 {
        Seq::empty()
    } else {
        spaced(parts.drop_last()) + decode_utf8(parts.last()) + " "@
    }
}

/// The line `@entry <type> <name>(<rest> <more> ...` with the marker taken
/// out and the name replaced by `main`: the type, a space, `main` with what
/// follows the name in its token, and each further token followed by a
/// space. A line of fewer than three tokens, or whose first token is not
/// `@entry`, is an error.
pub open spec fn entry_as_main(line: Seq<u8>) -> Result<Seq<char>, ShaderErrorView> {
    let parts = tokens(line);
    if parts.len() < 3 || parts[0] != "@entry".spec_bytes() {
        Err(ShaderErrorView::EntryPointError("Invalid entry point"@))
    } else {
        Ok(
            decode_utf8(parts[1]) + " "@ + "main"@ + decode_utf8(
                parts[2].subrange(name_end(parts[2], 0), parts[2].len() as int),
            ) + spaced(parts.subrange(3, parts.len() as int)),
        )
    }
}

/// The mathematical value of a text or an error.
pub open spec fn text_outcome(r: Result<String, ShaderError>) -> Result<
    Seq<char>,
    ShaderErrorView,
> {
    match r {
        Ok(text) => Ok(text@),
        Err(e) => Err(e@),
    }
}

/// Rewrites the line of an entry point so that the function is called
/// `main`.
pub fn replace_entry_with_main(line: &str) -> (r: Result<String, ShaderError>)
    ensures
        text_outcome(r) == entry_as_main(line.spec_bytes()),
{
    let parts = split_whitespace(line);
    if parts.len() < 3 || !is_word(parts[0], "@entry") {
        return Err(ShaderError::EntryPointError("Invalid entry point".to_owned()));
    }
    let ghost words = tokens(line.spec_bytes());
    let declared = parts[2];
    let bytes = declared.as_bytes();
    let mut at: usize = 0;
    while at < bytes.len() && bytes[at] != 0x28
        invariant
            at <= bytes.len(),
            name_end(bytes@, 0) == name_end(bytes@, at as int),
        decreases bytes.len() - at,
    {
        at = at + 1;
    }
    proof {
        encode_utf8_valid_utf8(declared@);
    }
    let rest = slice_str(declared, at, bytes.len());
    let mut out = parts[1].to_owned();
    out.append(" ");
    out.append("main");
    out.append(rest);
    proof {
        lemma_text_of(parts@[1]);
        lemma_text_of(rest);
        assert(words.subrange(3, 3) =~= Seq::<Seq<u8>>::empty());
    }
    let ghost head = out@;
    let mut k: usize = 3;
    while k < parts.len()
        invariant
            3 <= k <= parts.len(),
            bytes_of(parts@) == words,
            out@ == head + spaced(words.subrange(3, k as int)),
        decreases parts.len() - k,
    {
        proof {
            lemma_text_of(parts@[k as int]);
            assert(words.subrange(3, k + 1).drop_last() =~= words.subrange(3, k as int));
            assert(words.subrange(3, k + 1).last() == parts@[k as int].spec_bytes());
        }
        out.append(parts[k]);
        out.append(" ");
        k = k + 1;
    }
    Ok(out)
}

/// What has been read of a file: the code of each stage so far, the part
/// that the next line belongs to, and the stages whose entry point was met.
pub struct SourceState {
    pub vertex_source: Seq<char>,
    pub fragment_source: Seq<char>,
    pub geometry_source: Seq<char>,
    pub pragma: ShaderPragma,
    pub is_vertex_entry_point: bool,
    pub is_fragment_entry_point: bool,
    pub is_geometry_entry_point: bool,
}

/// The state before the first line: no code, in the shared part.
pub open spec fn initial_state() -> SourceState {
    SourceState {
        vertex_source: Seq::empty(),
        fragment_source: Seq::empty(),
        geometry_source: Seq::empty(),
        pragma: ShaderPragma::Shared,
        is_vertex_entry_point: false,
        is_fragment_entry_point: false,
        is_geometry_entry_point: false,
    }
}

/// What follows `#pragma` in a line: the character after the word is passed
/// over, and the rest is taken without the white space at its ends.
pub open spec fn pragma_name(line: Seq<u8>) -> Seq<u8> {
    if line.len() > 7 {
        trimmed(line.subrange(7 + lead_width(line[7]), line.len() as int))
    } else {
        trimmed(line.subrange(7, line.len() as int))
    }
}

/// The part that a pragma opens.
pub open spec fn pragma_of(name: Seq<u8>) -> Option<ShaderPragma> {
    if name == "shared".spec_bytes() {
        Some(ShaderPragma::Shared)
    } else if name == "vertex".spec_bytes() {
        Some(ShaderPragma::Vertex)
    } else if name == "fragment".spec_bytes() {
        Some(ShaderPragma::Fragment)
    } else if name == "geometry".spec_bytes() {
        Some(ShaderPragma::Geometry)
    } else {
        None
    }
}

/// The state with `text` added to the code of the current part; shared code
/// goes to every stage.
pub open spec fn with_text(state: SourceState, text: Seq<char>) -> SourceState {
    match state.pragma {
        ShaderPragma::Shared => SourceState {
            vertex_source: state.vertex_source + text,
            fragment_source: state.fragment_source + text,
            geometry_source: state.geometry_source + text,
            ..state
        },
        ShaderPragma::Vertex => SourceState {
            vertex_source: state.vertex_source + text,
            ..state
        },
        ShaderPragma::Fragment => SourceState {
            fragment_source: state.fragment_source + text,
            ..state
        },
        ShaderPragma::Geometry => SourceState {
            geometry_source: state.geometry_source + text,
            ..state
        },
    }
}

/// The entry point of the current part was met before.
pub open spec fn entry_met(state: SourceState) -> bool {
    match state.pragma {
        ShaderPragma::Shared => false,
        ShaderPragma::Vertex => state.is_vertex_entry_point,
        ShaderPragma::Fragment => state.is_fragment_entry_point,
        ShaderPragma::Geometry => state.is_geometry_entry_point,
    }
}

/// The state with the entry point of the current part marked as met.
pub open spec fn with_entry(state: SourceState) -> SourceState {
    match state.pragma {
        ShaderPragma::Shared => state,
        ShaderPragma::Vertex => SourceState { is_vertex_entry_point: true, ..state },
        ShaderPragma::Fragment => SourceState { is_fragment_entry_point: true, ..state },
        ShaderPragma::Geometry => SourceState { is_geometry_entry_point: true, ..state },
    }
}

/// The message of a second entry point in the current part, or of one in
/// the shared part.
pub open spec fn entry_refusal(pragma: ShaderPragma) -> Seq<char> {
    match pragma {
        ShaderPragma::Shared => "No entry point allowed for shared GLSL code"@,
        ShaderPragma::Vertex => "Vertex shader entry point already defined"@,
        ShaderPragma::Fragment => "Fragment shader entry point already defined"@,
        ShaderPragma::Geometry => "Geometry shader entry point already defined"@,
    }
}

/// The state after one more line, given without its line ending. A line of
/// white space alone is passed over. A line that begins with `#pragma`
/// opens a part. A line that begins with `@entry` is the entry point of the
/// current part, which may have one only, and the shared part none; it is
/// added to the code with `main` as its name. Any other line is added to
/// the code, followed by a line feed.
pub open spec fn next_state(state: SourceState, line: Seq<char>) -> Result<
    SourceState,
    ShaderErrorView,
> {
    let bytes = encode_utf8(line);
    if tokens(bytes).len() == 0 {
        Ok(state)
    } else if begins_with(bytes, "#pragma".spec_bytes()) {
        match pragma_of(pragma_name(bytes)) {
            Some(pragma) => Ok(SourceState { pragma, ..state }),
            None => Err(ShaderErrorView::UnknownPragma(decode_utf8(pragma_name(bytes)))),
        }
    } else if begins_with(bytes, "@entry".spec_bytes()) {
        if state.pragma == ShaderPragma::Shared || entry_met(state) {
            Err(ShaderErrorView::EntryPointError(entry_refusal(state.pragma)))
        } else {
            match entry_as_main(bytes) {
                Err(e) => Err(e),
                Ok(text) => Ok(with_text(with_entry(state), text)),
            }
        }
    } else {
        Ok(with_text(state, line + "\n"@))
    }
}

/// The state after the lines, or the error of the first line that has one.
pub open spec fn state_after(lines: Seq<Seq<char>>) -> Result<SourceState, ShaderErrorView>
    decreases lines.len(),
{
    if lines.len() == 0 {
        Ok(initial_state())
    } else {
        match state_after(lines.drop_last()) {
            Err(e) => Err(e),
            Ok(state) => next_state(state, lines.last()),
        }
    }
}

/// The sources of a file that ends in `state`: the vertex and the fragment
/// stage must have an entry point; the geometry stage is there if it has one.
pub open spec fn finished(state: SourceState) -> Result<ShaderSourceView, ShaderErrorView> {
    if !state.is_vertex_entry_point {
        Err(ShaderErrorView::MissingVertexEntryPoint)
    } else if !state.is_fragment_entry_point {
        Err(ShaderErrorView::MissingFragmentEntryPoint)
    } else {
        Ok(
            ShaderSourceView {
                vertex_source: state.vertex_source,
                fragment_source: state.fragment_source,
                geometry_source: if state.is_geometry_entry_point {
                    Some(state.geometry_source)
                } else {
                    None
                },
            },
        )
    }
}

/// The sources that the lines of a file denote.
pub open spec fn sources(lines: Seq<Seq<char>>) -> Result<ShaderSourceView, ShaderErrorView> {
    match state_after(lines) {
        Err(e) => Err(e),
        Ok(state) => finished(state),
    }
}

/// The mathematical value of sources or an error.
pub open spec fn source_outcome(r: Result<ShaderSource, ShaderError>) -> Result<
    ShaderSourceView,
    ShaderErrorView,
> {
    match r {
        Ok(source) => Ok(source@),
        Err(e) => Err(e@),
    }
}

/// The characters of each string of a list.
pub open spec fn texts_of(lines: Seq<&str>) -> Seq<Seq<char>> {
    Seq::new(lines.len(), |k: int| lines[k]@)
}

/// An error met among the first `n` lines is the error of all of them.
pub proof fn lemma_state_error_stays(lines: Seq<Seq<char>>, n: int)
    requires
        0 <= n <= lines.len(),
    ensures
        state_after(lines.take(n)) is Err ==> state_after(lines) == state_after(lines.take(n)),
    decreases lines.len() - n,
{
    if n < lines.len() {
        lemma_state_error_stays(lines, n + 1);
        assert(lines.take(n + 1).drop_last() =~= lines.take(n));
    } else {
        assert(lines.take(n) =~= lines);
    }
}

/// The bytes of the word `#pragma`: seven, each a character of its own.
proof fn lemma_pragma_word()
    ensures
        "#pragma".spec_bytes().len() == 7,
        forall|i: int| 0 <= i < 7 ==> "#pragma".spec_bytes()[i] < 0x80,
{
    reveal_strlit("#pragma");
    vstd::string::is_ascii_spec_bytes("#pragma");
}

/// Reads a shader file line by line.
pub struct ShaderSourceBuilder {
    vertex_source: String,
    fragment_source: String,
    geometry_source: String,
    pragma: ShaderPragma,
    is_vertex_entry_point: bool,
    is_fragment_entry_point: bool,
    is_geometry_entry_point: bool,
}

impl View for ShaderSourceBuilder {
    type V = SourceState;

    closed spec fn view(&self) -> SourceState {
        SourceState {
            vertex_source: self.vertex_source@,
            fragment_source: self.fragment_source@,
            geometry_source: self.geometry_source@,
            pragma: self.pragma,
            is_vertex_entry_point: self.is_vertex_entry_point,
            is_fragment_entry_point: self.is_fragment_entry_point,
            is_geometry_entry_point: self.is_geometry_entry_point,
        }
    }
}

/// The width that a leading byte announces.
fn width_of(b: u8) -> (w: usize)
    ensures
        w == lead_width(b),
{
    if b < 0x80 {
        1
    } else if b < 0xe0 {
        2
    } else if b < 0xf0 {
        3
    } else {
        4
    }
}

/// Reads the name of a pragma from a line that begins with `#pragma`.
fn read_pragma_name(line: &str) -> (name: &str)
    requires
        begins_with(line.spec_bytes(), "#pragma".spec_bytes()),
    ensures
        name.spec_bytes() == pragma_name(line.spec_bytes()),
{
    let bytes = line.as_bytes();
    proof {
        lemma_pragma_word();
        encode_utf8_valid_utf8(line@);
        assert(bytes@.subrange(0, 7)[6] == bytes@[6]);
        lemma_next_cut(bytes@, 6);
    }
    if bytes.len() > 7 {
        proof {
            lemma_next_cut(bytes@, 7);
        }
        trim_from(line, 7 + width_of(bytes[7]))
    } else {
        trim_from(line, 7)
    }
}

impl ShaderSourceBuilder {
    /// A builder that has read no line.
    pub fn new() -> (r: Self)
        ensures
            r@ == initial_state(),
    {
        ShaderSourceBuilder {
            vertex_source: String::new(),
            fragment_source: String::new(),
            geometry_source: String::new(),
            pragma: ShaderPragma::Shared,
            is_vertex_entry_point: false,
            is_fragment_entry_point: false,
            is_geometry_entry_point: false,
        }
    }

    /// Adds a text to the code of the current part.
    fn append(&mut self, text: &str)
        ensures
            final(self)@ == with_text(old(self)@, text@),
    {
        match self.pragma {
            ShaderPragma::Shared => {
                self.vertex_source.append(text);
                self.fragment_source.append(text);
                self.geometry_source.append(text);
            },
            ShaderPragma::Vertex => {
                self.vertex_source.append(text);
            },
            ShaderPragma::Fragment => {
                self.fragment_source.append(text);
            },
            ShaderPragma::Geometry => {
                self.geometry_source.append(text);
            },
        }
    }

    /// Reads one more line, given without its line ending. After an error
    /// the builder is as it was.
    pub fn push_line(&mut self, line: &str) -> (r: Result<(), ShaderError>)
        ensures
            match next_state(old(self)@, line@) {
                Ok(state) => r is Ok && final(self)@ == state,
                Err(e) => r is Err && r->Err_0@ == e && final(self)@ == old(self)@,
            },
    {
        if split_whitespace(line).len() == 0 {
            return Ok(());
        }
        if starts_with(line, "#pragma") {
            let pragma_str = read_pragma_name(line);
            proof {
                lemma_text_of(pragma_str);
            }
            self.pragma = if is_word(pragma_str, "shared") {
                ShaderPragma::Shared
            } else if is_word(pragma_str, "vertex") {
                ShaderPragma::Vertex
            } else if is_word(pragma_str, "fragment") {
                ShaderPragma::Fragment
            } else if is_word(pragma_str, "geometry") {
                ShaderPragma::Geometry
            } else {
                return Err(ShaderError::UnknownPragma(pragma_str.to_owned()));
            };
            return Ok(());
        }
        if starts_with(line, "@entry") {
            let met = match self.pragma {
                ShaderPragma::Shared => {
                    return Err(
                        ShaderError::EntryPointError(
                            "No entry point allowed for shared GLSL code".to_owned(),
                        ),
                    );
                },
                ShaderPragma::Vertex => self.is_vertex_entry_point,
                ShaderPragma::Fragment => self.is_fragment_entry_point,
                ShaderPragma::Geometry => self.is_geometry_entry_point,
            };
            if met {
                let message = match self.pragma {
                    ShaderPragma::Vertex => "Vertex shader entry point already defined",
                    ShaderPragma::Fragment => "Fragment shader entry point already defined",
                    _ => "Geometry shader entry point already defined",
                };
                return Err(ShaderError::EntryPointError(message.to_owned()));
            }
            let replaced = match replace_entry_with_main(line) {
                Err(e) => { return Err(e); },
                Ok(text) => text,
            };
            match self.pragma {
                ShaderPragma::Vertex => {
                    self.is_vertex_entry_point = true;
                },
                ShaderPragma::Fragment => {
                    self.is_fragment_entry_point = true;
                },
                _ => {
                    self.is_geometry_entry_point = true;
                },
            }
            self.append(replaced.as_str());
            return Ok(());
        }
        let mut text = line.to_owned();
        text.append("\n");
        self.append(text.as_str());
        Ok(())
    }

    /// Ends the reading.
    pub fn finish(self) -> (r: Result<ShaderSource, ShaderError>)
        ensures
            source_outcome(r) == finished(self@),
    {
        if !self.is_vertex_entry_point {
            return Err(ShaderError::MissingVertexEntryPoint);
        }
        if !self.is_fragment_entry_point {
            return Err(ShaderError::MissingFragmentEntryPoint);
        }
        Ok(
            ShaderSource {
                vertex_source: self.vertex_source,
                fragment_source: self.fragment_source,
                geometry_source: if self.is_geometry_entry_point {
                    Some(self.geometry_source)
                } else {
                    None
                },
            },
        )
    }
}

impl ShaderSource {
    /// Reads the sources from the lines of a file, each given without its
    /// line ending.
    pub fn from_lines(lines: &[&str]) -> (r: Result<Self, ShaderError>)
        ensures
            source_outcome(r) == sources(texts_of(lines@)),
    {
        let ghost all = texts_of(lines@);
        let mut builder = ShaderSourceBuilder::new();
        let mut i: usize = 0;
        assert(all.take(0) =~= Seq::<Seq<char>>::empty());
        while i < lines.len()
            invariant
                all == texts_of(lines@),
                i <= lines.len(),
                state_after(all.take(i as int)) == Ok::<SourceState, ShaderErrorView>(builder@),
            decreases lines.len() - i,
        {
            proof {
                assert(all.take(i + 1).drop_last() =~= all.take(i as int));
                assert(all.take(i + 1).last() == lines@[i as int]@);
                lemma_state_error_stays(all, i + 1);
            }
            match builder.push_line(lines[i]) {
                Err(e) => { return Err(e); },
                Ok(_) => {},
            }
            i = i + 1;
        }
        assert(all.take(i as int) =~= all);
        builder.finish()
    }
}

/// The type of a uniform variable.
#[derive(Debug, Clone, Copy, PartialEq, Eq, Structural)]
pub enum ShaderUniformType {
    Int,
    Uint,
    Float,
    Vec2,
    Vec3,
    Vec4,
    Mat4,
    Sampler2D,
}

/// The type that a code of the graphics interface stands for.
pub open spec fn uniform_type(raw_typ: u32) -> Option<ShaderUniformType> {
    if raw_typ == 0x1406 {
        Some(ShaderUniformType::Float)
    } else if raw_typ == 0x8B50 {
        Some(ShaderUniformType::Vec2)
    } else if raw_typ == 0x8B51 {
        Some(ShaderUniformType::Vec3)
    } else if raw_typ == 0x8B52 {
        Some(ShaderUniformType::Vec4)
    } else if raw_typ == 0x1404 {
        Some(ShaderUniformType::Int)
    } else if raw_typ == 0x1405 {
        Some(ShaderUniformType::Uint)
    } else if raw_typ == 0x8B5C {
        Some(ShaderUniformType::Mat4)
    } else if raw_typ == 0x8B5E {
        Some(ShaderUniformType::Sampler2D)
    } else {
        None
    }
}

impl ShaderUniformType {
    /// The type that a code stands for, if it stands for one.
    pub fn try_from_raw(raw_typ: u32) -> (r: Option<Self>)
        ensures
            r == uniform_type(raw_typ),
    {
        if raw_typ == 0x1406 {
            Some(Self::Float)
        } else if raw_typ == 0x8B50 {
            Some(Self::Vec2)
        } else if raw_typ == 0x8B51 {
            Some(Self::Vec3)
        } else if raw_typ == 0x8B52 {
            Some(Self::Vec4)
        } else if raw_typ == 0x1404 {
            Some(Self::Int)
        } else if raw_typ == 0x1405 {
            Some(Self::Uint)
        } else if raw_typ == 0x8B5C {
            Some(Self::Mat4)
        } else if raw_typ == 0x8B5E {
            Some(Self::Sampler2D)
        } else {
            None
        }
    }

    /// The type that a code stands for.
    pub fn from_raw(raw_typ: u32) -> (r: Self)
        requires
            uniform_type(raw_typ) is Some,
        ensures
            Some(r) == uniform_type(raw_typ),
    {
        match Self::try_from_raw(raw_typ) {
            Some(typ) => typ,
            None => Self::Float,
        }
    }
}

/// A uniform variable of a program.
#[derive(Debug)]
pub struct ShaderUniformInfo {
    pub name: String,
    pub location: Option<NonNegativeI32>,
    pub typ: ShaderUniformType,
}

/// What a program records of a uniform variable under its name.
pub struct UniformView {
    pub location: Option<NonNegativeI32>,
    pub typ: ShaderUniformType,
}

/// A linked program with its uniform variables, found by name.
#[derive(Debug)]
pub struct Shader {
    program: u32,
    uniforms: Vec<ShaderUniformInfo>,
}

/// Two strings with the same bytes have the same characters.
proof fn lemma_same_text(a: &str, b: &str)
    ensures
        (a.spec_bytes() == b.spec_bytes()) == (a@ == b@),
{
    lemma_text_of(a);
    lemma_text_of(b);
}

/// The variable `name` stands at the place `i` of the list, and at no
/// earlier place.
pub open spec fn first_at(uniforms: Seq<ShaderUniformInfo>, name: Seq<char>, i: int) -> bool {
    &&& 0 <= i < uniforms.len()
    &&& uniforms[i].name@ == name
    &&& forall|k: int| 0 <= k < i ==> (#[trigger] uniforms[k]).name@ != name
}

/// The variable `name` stands in the list.
pub open spec fn listed(uniforms: Seq<ShaderUniformInfo>, name: Seq<char>) -> bool {
    exists|i: int| first_at(uniforms, name, i)
}

/// What the list records under `name`: what stands at its first place.
pub open spec fn recorded(uniforms: Seq<ShaderUniformInfo>, name: Seq<char>) -> UniformView {
    let i = choose|i: int| first_at(uniforms, name, i);
    UniformView { location: uniforms[i].location, typ: uniforms[i].typ }
}

/// A name has one first place.
proof fn lemma_first_at(uniforms: Seq<ShaderUniformInfo>, name: Seq<char>, i: int)
    requires
        first_at(uniforms, name, i),
    ensures
        listed(uniforms, name),
        recorded(uniforms, name) == (UniformView {
            location: uniforms[i].location,
            typ: uniforms[i].typ,
        }),
{
    let k = choose|k: int| first_at(uniforms, name, k);
    assert(k == i) by {
        if k < i {
            assert(uniforms[k].name@ != name);
        }
        if i < k {
            assert(uniforms[i].name@ != name);
        }
    }
}

impl Shader {
    /// The handle of the program.
    pub closed spec fn handle(self) -> u32 {
        self.program
    }

    /// The uniform variables of the program by name.
    pub closed spec fn table(self) -> Map<Seq<char>, UniformView> {
        Map::new(
            |name: Seq<char>| listed(self.uniforms@, name),
            |name: Seq<char>| recorded(self.uniforms@, name),
        )
    }

    /// A program without uniform variables.
    pub fn new(program: u32) -> (r: Self)
        ensures
            r.handle() == program,
            r.table() == Map::<Seq<char>, UniformView>::empty(),
    {
        let r = Shader { program, uniforms: Vec::new() };
        assert(r.table() =~= Map::<Seq<char>, UniformView>::empty());
        r
    }

    /// The handle of the program.
    pub fn raw_program(&self) -> (r: u32)
        ensures
            r == self.handle(),
    {
        self.program
    }

    /// The first place of the variable `name` in the list.
    fn position(&self, name: &str) -> (r: Option<usize>)
        ensures
            match r {
                Some(i) => first_at(self.uniforms@, name@, i as int),
                None => forall|k: int|
                    0 <= k < self.uniforms@.len() ==> (#[trigger] self.uniforms@[k]).name@
                        != name@,
            },
    {
        let mut i: usize = 0;
        while i < self.uniforms.len()
            invariant
                i <= self.uniforms@.len(),
                forall|k: int| 0 <= k < i ==> (#[trigger] self.uniforms@[k]).name@ != name@,
            decreases self.uniforms.len() - i,
        {
            let known = self.uniforms[i].name.as_str();
            proof {
                lemma_same_text(known, name);
            }
            if same_bytes(known.as_bytes(), name.as_bytes()) {
                return Some(i);
            }
            i = i + 1;
        }
        None
    }

    /// Records a uniform variable under its name, in place of what was
    /// recorded under that name before.
    pub fn insert(&mut self, info: ShaderUniformInfo)
        ensures
            final(self).handle() == old(self).handle(),
            final(self).table() == old(self).table().insert(
                info.name@,
                UniformView { location: info.location, typ: info.typ },
            ),
    {
        let ghost before = self.uniforms@;
        let ghost name = info.name@;
        let ghost entry = UniformView { location: info.location, typ: info.typ };
        let ghost old_table = self.table();
        let found = self.position(info.name.as_str());
        let ghost place = match found {
            Some(i) => i as int,
            None => before.len() as int,
        };
        match found {
            Some(i) => {
                self.uniforms.set(i, info);
            },
            None => {
                self.uniforms.push(info);
            },
        }
        proof {
            let after = self.uniforms@;
            assert(after[place].name@ == name);
            assert forall|k: int| 0 <= k < after.len() && k != place implies after[k]
                == before[k] by {}
            assert forall|k: int| 0 <= k < place implies (#[trigger] after[k]).name@ != name by {
                assert(before[k].name@ != name);
            }
            assert(first_at(after, name, place));
            lemma_first_at(after, name, place);
            assert forall|n: Seq<char>| n != name implies (listed(after, n) == listed(before, n))
                && (listed(after, n) ==> recorded(after, n) == recorded(before, n)) by {
                if listed(before, n) {
                    let k = choose|k: int| first_at(before, n, k);
                    assert(k != place);
                    assert forall|j: int| 0 <= j < k implies (#[trigger] after[j]).name@ != n by {
                        if j != place {
                            assert(before[j].name@ != n);
                        }
                    }
                    assert(first_at(after, n, k));
                    lemma_first_at(after, n, k);
                    lemma_first_at(before, n, k);
                }
                if listed(after, n) {
                    let k = choose|k: int| first_at(after, n, k);
                    assert(k != place);
                    assert(k < before.len());
                    assert forall|j: int| 0 <= j < k implies (#[trigger] before[j]).name@ != n by {
                        if j != place {
                            assert(after[j].name@ != n);
                        }
                    }
                    assert(first_at(before, n, k));
                    lemma_first_at(after, n, k);
                    lemma_first_at(before, n, k);
                }
            }
            assert(self.table() =~= old_table.insert(name, entry));
        }
    }

    /// The location of the uniform variable `name`, if the program has this
    /// variable and the variable has a location.
    pub fn uniform_location(&self, name: &str) -> (r: Option<NonNegativeI32>)
        ensures
            r == if self.table().contains_key(name@) {
                self.table()[name@].location
            } else {
                None
            },
    {
        match self.position(name) {
            Some(i) => {
                proof {
                    lemma_first_at(self.uniforms@, name@, i as int);
                }
                self.uniforms[i].location
            },
            None => {
                assert(!listed(self.uniforms@, name@)) by {
                    if listed(self.uniforms@, name@) {
                        let k = choose|k: int| first_at(self.uniforms@, name@, k);
                        assert(self.uniforms@[k].name@ == name@);
                    }
                }
                None
            },
        }
    }
}

} // verus!
