//! The Wavefront-style text description of a polygon mesh, and its parser.

use core::num::ParseFloatError;
use vstd::prelude::*;
use vstd::string::StringExecFns;
use vstd::string::StringSliceAdditionalSpecFns;
use vstd::utf8::*;
use crate::number::IntParseError;
use crate::number::decimal;
use crate::number::literal_value;
use crate::number::parse_u32;
use crate::number::to_decimal;
use crate::scalar::Scalar;
use crate::scalar::Vec3;
use crate::scalar::Vec4;
use crate::text::bytes_of;
use crate::text::is_cut;
use crate::text::is_word;
use crate::text::lemma_line_end_bounds;
use crate::text::lemma_next_cut;
use crate::text::line_end;
use crate::text::slice_str;
use crate::text::split_whitespace;
use crate::text::tokens;

verus! {

/// The error of `str::parse` for a floating-point literal. Nothing in this
/// crate looks inside a value of it: a decoder hands it in and the parser
/// hands it out.
#[verifier::external_type_specification]
#[verifier::external_body]
pub struct ExParseFloatError(ParseFloatError);

/// What a decoder makes of one numeric token.
pub type Decoded = Result<Scalar, ParseFloatError>;

/// The three arrays that a face corner points into.
#[derive(Clone, Copy, Debug, PartialEq, Eq, Structural)]
pub enum AttributeKind {
    Position,
    Uv,
    Normal,
}

/// What is wrong with a line, or with a face corner.
#[derive(Debug)]
pub enum WavefrontObjParseErrorDetail {
    UnknownCommand(String),
    InvalidOperandCount { expected: (Option<usize>, Option<usize>), got: usize },
    VertexParseFloatError(ParseFloatError),
    UVParseFloatError(ParseFloatError),
    NormalParseFloatError(ParseFloatError),
    FaceParseIntError(IntParseError),
    InvalidFaceOperand(u32),
    /// A face corner points outside the array of its kind, which holds
    /// `length` records.
    IndexOutOfRange { kind: AttributeKind, index: u32, length: usize },
    /// The faces have more corners than a 32-bit index list can hold.
    TooManyCorners,
}

/// The mathematical value of a `WavefrontObjParseErrorDetail`: a command is
/// held as its bytes.
pub enum DetailView {
    UnknownCommand(Seq<u8>),
    InvalidOperandCount { expected: (Option<usize>, Option<usize>), got: usize },
    VertexParseFloatError(ParseFloatError),
    UVParseFloatError(ParseFloatError),
    NormalParseFloatError(ParseFloatError),
    FaceParseIntError(IntParseError),
    InvalidFaceOperand(u32),
    IndexOutOfRange { kind: AttributeKind, index: u32, length: usize },
    TooManyCorners,
}

impl View for WavefrontObjParseErrorDetail {
    type V = DetailView;

    open spec fn view(&self) -> DetailView {
        match *self {
            WavefrontObjParseErrorDetail::UnknownCommand(name) => DetailView::UnknownCommand(
                encode_utf8(name@),
            ),
            WavefrontObjParseErrorDetail::InvalidOperandCount { expected, got } => (
            DetailView::InvalidOperandCount { expected, got }),
            WavefrontObjParseErrorDetail::VertexParseFloatError(e) => (
            DetailView::VertexParseFloatError(e)),
            WavefrontObjParseErrorDetail::UVParseFloatError(e) => DetailView::UVParseFloatError(e),
            WavefrontObjParseErrorDetail::NormalParseFloatError(e) => (
            DetailView::NormalParseFloatError(e)),
            WavefrontObjParseErrorDetail::FaceParseIntError(e) => DetailView::FaceParseIntError(e),
            WavefrontObjParseErrorDetail::InvalidFaceOperand(v) => DetailView::InvalidFaceOperand(
                v,
            ),
            WavefrontObjParseErrorDetail::IndexOutOfRange { kind, index, length } => (
            DetailView::IndexOutOfRange { kind, index, length }),
            WavefrontObjParseErrorDetail::TooManyCorners => DetailView::TooManyCorners,
        }
    }
}

/// An error of the parser: where it was met, and what it is.
#[derive(Debug)]
pub enum WavefrontObjError {
    ParseError { file: Option<String>, line: usize, detail: WavefrontObjParseErrorDetail },
}

/// The mathematical value of a `WavefrontObjError`.
pub struct ErrorView {
    pub file: Option<Seq<char>>,
    pub line: nat,
    pub detail: DetailView,
}

impl View for WavefrontObjError {
    type V = ErrorView;

    open spec fn view(&self) -> ErrorView {
        match *self {
            WavefrontObjError::ParseError { file, line, detail } => ErrorView {
                file: match file {
                    Some(name) => Some(name@),
                    None => None,
                },
                line: line as nat,
                detail: detail@,
            },
        }
    }
}

/// One corner of a face: 1-based indices into the positions and, where
/// given, into the texture coordinates and the normals.
#[derive(Debug, Clone, Copy, PartialEq, Eq, Hash, Structural)]
pub struct FaceAttribute {
    pub position_index: u32,
    pub texture_coordinate_index: Option<u32>,
    pub normal_index: Option<u32>,
}

/// A polygon: its corners in winding order.
#[derive(Debug, PartialEq, Eq)]
pub struct Face {
    pub attributes: Vec<FaceAttribute>,
}

impl View for Face {
    type V = Seq<FaceAttribute>;

    open spec fn view(&self) -> Seq<FaceAttribute> {
        self.attributes@
    }
}

impl Face {
    /// The corners of the face.
    pub fn attributes(&self) -> (r: &[FaceAttribute])
        ensures
            r@ == self@,
    {
        self.attributes.as_slice()
    }
}

/// A parsed document: the records of each kind in the order of the text.
/// Faces point into the other arrays by 1-based indices.
#[derive(Debug)]
pub struct Obj {
    pub positions: Vec<Vec4>,
    pub uvs: Vec<Vec3>,
    pub normals: Vec<Vec3>,
    pub faces: Vec<Face>,
}

/// The mathematical value of an `Obj`.
pub struct ObjView {
    pub positions: Seq<Vec4>,
    pub uvs: Seq<Vec3>,
    pub normals: Seq<Vec3>,
    pub faces: Seq<Seq<FaceAttribute>>,
}

impl View for Obj {
    type V = ObjView;

    open spec fn view(&self) -> ObjView {
        ObjView {
            positions: self.positions@,
            uvs: self.uvs@,
            normals: self.normals@,
            faces: Seq::new(self.faces@.len(), |i: int| self.faces@[i]@),
        }
    }
}

/// The number one.
pub open spec fn unit() -> Scalar {
    Scalar { bits: 0x3f80_0000 }
}

/// Positive zero.
pub open spec fn nought() -> Scalar {
    Scalar { bits: 0 }
}

/// A decoder relates the token `token` to the result `r`.
pub open spec fn yields<F: Fn(&str) -> Decoded>(f: F, token: Seq<u8>, r: Decoded) -> bool {
    exists|s: &str| s.spec_bytes() == token && #[trigger] f.ensures((s, ), r)
}

/// What a decoder makes of the token `token`.
pub open spec fn decoded<F: Fn(&str) -> Decoded>(f: F, token: Seq<u8>) -> Decoded {
    choose|r: Decoded| yields(f, token, r)
}

/// A decoder as a function of the token's bytes.
pub open spec fn decoder<F: Fn(&str) -> Decoded>(f: F) -> spec_fn(Seq<u8>) -> Decoded {
    |token: Seq<u8>| decoded(f, token)
}

/// A decoder can be called on every token, and what it returns depends on
/// the token's bytes alone.
pub open spec fn is_decoder<F: Fn(&str) -> Decoded>(f: F) -> bool {
    &&& forall|s: &str| #[trigger] f.requires((s, ))
    &&& forall|s1: &str, s2: &str, r1: Decoded, r2: Decoded|
        s1.spec_bytes() == s2.spec_bytes() && #[trigger] f.ensures((s1, ), r1)
            && #[trigger] f.ensures((s2, ), r2) ==> r1 == r2
}

/// The range that an operand count is held to, as an error reports it: a
/// bound of 0 is no bound.
pub open spec fn expected_range(min: usize, max: usize) -> (Option<usize>, Option<usize>) {
    (
        if min == 0 {
            None
        } else {
            Some(min)
        },
        if max == 0 {
            None
        } else {
            Some(max)
        },
    )
}

/// The error of a directive with `val` operands where `min` to `max` are
/// called for, if it is one.
pub open spec fn count_error(min: usize, max: usize, val: usize) -> Option<DetailView> {
    if val < min || (max != 0 && val > max) {
        Some(DetailView::InvalidOperandCount { expected: expected_range(min, max), got: val })
    } else {
        None
    }
}

/// The numbers of the operands, or the error of the first operand that is
/// no number.
pub open spec fn scalars(ops: Seq<Seq<u8>>, decode: spec_fn(Seq<u8>) -> Decoded) -> Result<
    Seq<Scalar>,
    ParseFloatError,
>
    decreases ops.len(),
{
    if ops.len() == 0 {
        Ok(Seq::empty())
    } else {
        match scalars(ops.drop_last(), decode) {
            Err(e) => Err(e),
            Ok(values) => match decode(ops.last()) {
                Err(e) => Err(e),
                Ok(v) => Ok(values.push(v)),
            },
        }
    }
}

/// The `i`-th of the numbers, or `default` where there are fewer.
pub open spec fn component(values: Seq<Scalar>, i: int, default: Scalar) -> Scalar {
    if 0 <= i < values.len() {
        values[i]
    } else {
        default
    }
}

/// The record of a `v` line: three or four numbers, the fourth 1 by default.
pub open spec fn position_record(
    ops: Seq<Seq<u8>>,
    decode: spec_fn(Seq<u8>) -> Decoded,
) -> Result<Vec4, DetailView> {
    match count_error(3, 4, ops.len() as usize) {
        Some(d) => Err(d),
        None => match scalars(ops, decode) {
            Err(e) => Err(DetailView::VertexParseFloatError(e)),
            Ok(values) => Ok(
                Vec4(
                    component(values, 0, nought()),
                    component(values, 1, nought()),
                    component(values, 2, nought()),
                    component(values, 3, unit()),
                ),
            ),
        },
    }
}

/// The record of a `vt` line: one to three numbers, the others 0.
pub open spec fn uv_record(ops: Seq<Seq<u8>>, decode: spec_fn(Seq<u8>) -> Decoded) -> Result<
    Vec3,
    DetailView,
> {
    match count_error(1, 3, ops.len() as usize) {
        Some(d) => Err(d),
        None => match scalars(ops, decode) {
            Err(e) => Err(DetailView::UVParseFloatError(e)),
            Ok(values) => Ok(
                Vec3(
                    component(values, 0, nought()),
                    component(values, 1, nought()),
                    component(values, 2, nought()),
                ),
            ),
        },
    }
}

/// The record of a `vn` line: three numbers.
pub open spec fn normal_record(ops: Seq<Seq<u8>>, decode: spec_fn(Seq<u8>) -> Decoded) -> Result<
    Vec3,
    DetailView,
> {
    match count_error(3, 3, ops.len() as usize) {
        Some(d) => Err(d),
        None => match scalars(ops, decode) {
            Err(e) => Err(DetailView::NormalParseFloatError(e)),
            Ok(values) => Ok(
                Vec3(
                    component(values, 0, nought()),
                    component(values, 1, nought()),
                    component(values, 2, nought()),
                ),
            ),
        },
    }
}

/// The position of the first `/` from `i` on, or the end.
pub open spec fn field_end(s: Seq<u8>, i: int) -> int
    decreases s.len() - i,
{
    if i < 0 || i >= s.len() || s[i] == 0x2f {
        i
    } else {
        field_end(s, i + 1)
    }
}

/// An index that may be left out: an empty field is no index.
pub open spec fn optional_index(field: Seq<u8>) -> Result<Option<u32>, IntParseError> {
    if field.len() == 0 {
        Ok(None)
    } else {
        match literal_value(field) {
            Err(e) => Err(e),
            Ok(v) => Ok(Some(v)),
        }
    }
}

/// The corner that a face operand `position[/uv[/normal]]` denotes. Fields
/// after the third are not read.
pub open spec fn corner(op: Seq<u8>) -> Result<FaceAttribute, IntParseError> {
    let e0 = field_end(op, 0);
    let e1 = field_end(op, e0 + 1);
    let e2 = field_end(op, e1 + 1);
    match literal_value(op.subrange(0, e0)) {
        Err(e) => Err(e),
        Ok(position_index) => if e0 >= op.len() {
            Ok(
                FaceAttribute {
                    position_index,
                    texture_coordinate_index: None,
                    normal_index: None,
                },
            )
        } else {
            match optional_index(op.subrange(e0 + 1, e1)) {
                Err(e) => Err(e),
                Ok(texture_coordinate_index) => if e1 >= op.len() {
                    Ok(
                        FaceAttribute {
                            position_index,
                            texture_coordinate_index,
                            normal_index: None,
                        },
                    )
                } else {
                    match optional_index(op.subrange(e1 + 1, e2)) {
                        Err(e) => Err(e),
                        Ok(normal_index) => Ok(
                            FaceAttribute {
                                position_index,
                                texture_coordinate_index,
                                normal_index,
                            },
                        ),
                    }
                },
            }
        },
    }
}

/// The corners of the operands, or the error of the first operand that
/// denotes none.
pub open spec fn corners(ops: Seq<Seq<u8>>) -> Result<Seq<FaceAttribute>, IntParseError>
    decreases ops.len(),
{
    if ops.len() == 0 {
        Ok(Seq::empty())
    } else {
        match corners(ops.drop_last()) {
            Err(e) => Err(e),
            Ok(found) => match corner(ops.last()) {
                Err(e) => Err(e),
                Ok(c) => Ok(found.push(c)),
            },
        }
    }
}

/// Some corner has the position index 0.
pub open spec fn has_zero_position(found: Seq<FaceAttribute>) -> bool {
    exists|k: int| 0 <= k < found.len() && (#[trigger] found[k]).position_index == 0
}

/// The record of an `f` line: three or more corners, none with the position
/// index 0.
pub open spec fn face_record(ops: Seq<Seq<u8>>) -> Result<Seq<FaceAttribute>, DetailView> {
    match count_error(3, 0, ops.len() as usize) {
        Some(d) => Err(d),
        None => match corners(ops) {
            Err(e) => Err(DetailView::FaceParseIntError(e)),
            Ok(found) => if has_zero_position(found) {
                Err(DetailView::InvalidFaceOperand(0))
            } else {
                Ok(found)
            },
        },
    }
}

/// A token that opens a comment.
pub open spec fn is_comment(token: Seq<u8>) -> bool {
    token.len() > 0 && token[0] == 0x23
}

/// The directives that are read and have no effect.
pub open spec fn is_ignored(word: Seq<u8>) -> bool {
    ||| word == "mtllib".spec_bytes()
    ||| word == "usemtl".spec_bytes()
    ||| word == "s".spec_bytes()
    ||| word == "g".spec_bytes()
    ||| word == "o".spec_bytes()
}

/// The document after one more line, given as its tokens.
pub open spec fn apply_line(
    doc: ObjView,
    line: Seq<Seq<u8>>,
    decode: spec_fn(Seq<u8>) -> Decoded,
) -> Result<ObjView, DetailView> {
    if line.len() == 0 || is_comment(line[0]) {
        Ok(doc)
    } else {
        let word = line[0];
        let ops = line.subrange(1, line.len() as int);
        if word == "v".spec_bytes() {
            match position_record(ops, decode) {
                Err(d) => Err(d),
                Ok(p) => Ok(ObjView { positions: doc.positions.push(p), ..doc }),
            }
        } else if word == "f".spec_bytes() {
            match face_record(ops) {
                Err(d) => Err(d),
                Ok(f) => Ok(ObjView { faces: doc.faces.push(f), ..doc }),
            }
        } else if is_ignored(word) {
            Ok(doc)
        } else if word == "vt".spec_bytes() {
            match uv_record(ops, decode) {
                Err(d) => Err(d),
                Ok(t) => Ok(ObjView { uvs: doc.uvs.push(t), ..doc }),
            }
        } else if word == "vn".spec_bytes() {
            match normal_record(ops, decode) {
                Err(d) => Err(d),
                Ok(n) => Ok(ObjView { normals: doc.normals.push(n), ..doc }),
            }
        } else {
            Err(DetailView::UnknownCommand(word))
        }
    }
}

/// The document after the lines of `text` from the byte `start` on, which
/// begins the line with the 0-based number `line`. The first line in error
/// ends the reading, with its 1-based number.
pub open spec fn parse_lines(
    text: Seq<u8>,
    start: int,
    line: nat,
    doc: ObjView,
    decode: spec_fn(Seq<u8>) -> Decoded,
) -> Result<ObjView, (nat, DetailView)>
    decreases text.len() + 1 - start,
    via parse_lines_decreases
{
    if start < 0 || start >= text.len() {
        Ok(doc)
    } else {
        match apply_line(doc, tokens(text.subrange(start, line_end(text, start))), decode) {
            Err(d) => Err((line + 1, d)),
            Ok(next) => parse_lines(text, line_end(text, start) + 1, line + 1, next, decode),
        }
    }
}

#[via_fn]
proof fn parse_lines_decreases(
    text: Seq<u8>,
    start: int,
    line: nat,
    doc: ObjView,
    decode: spec_fn(Seq<u8>) -> Decoded,
) {
    if 0 <= start < text.len() {
        lemma_line_end_bounds(text, start);
    }
}

/// The document without a record.
pub open spec fn empty_document() -> ObjView {
    ObjView {
        positions: Seq::empty(),
        uvs: Seq::empty(),
        normals: Seq::empty(),
        faces: Seq::empty(),
    }
}

/// What parsing `text` gives: the document of all its lines, or the error of
/// the first line that has one, under the label `file`.
pub open spec fn parse_document(
    text: Seq<u8>,
    file: Option<Seq<char>>,
    decode: spec_fn(Seq<u8>) -> Decoded,
) -> Result<ObjView, ErrorView> {
    match parse_lines(text, 0, 0, empty_document(), decode) {
        Ok(doc) => Ok(doc),
        Err((line, detail)) => Err(ErrorView { file, line, detail }),
    }
}

/// The label of a text as an error carries it.
pub open spec fn label_view(file_name: Option<&str>) -> Option<Seq<char>> {
    match file_name {
        Some(name) => Some(name@),
        None => None,
    }
}

/// The mathematical value of what `Obj::from_string` returns.
pub open spec fn outcome_view(r: Result<Obj, WavefrontObjError>) -> Result<ObjView, ErrorView> {
    match r {
        Ok(obj) => Ok(obj@),
        Err(e) => Err(e@),
    }
}

/// The mathematical value of an error that may be absent.
pub open spec fn detail_view(r: Option<WavefrontObjParseErrorDetail>) -> Option<DetailView> {
    match r {
        Some(d) => Some(d@),
        None => None,
    }
}

/// The mathematical values of a list of faces.
pub open spec fn faces_view(faces: Seq<Face>) -> Seq<Seq<FaceAttribute>> {
    Seq::new(faces.len(), |i: int| faces[i]@)
}

/// The error of a line: the label, the 1-based line number and the detail.
pub open spec fn error_view(file_name: Option<&str>, line: usize, detail: DetailView) -> ErrorView {
    ErrorView { file: label_view(file_name), line: (line + 1) as nat, detail }
}

/// An error met among the first `n` operands is the error of all of them.
pub proof fn lemma_scalars_error_stays(
    ops: Seq<Seq<u8>>,
    decode: spec_fn(Seq<u8>) -> Decoded,
    n: int,
)
    requires
        0 <= n <= ops.len(),
    ensures
        scalars(ops.take(n), decode) is Err ==> scalars(ops, decode) == scalars(
            ops.take(n),
            decode,
        ),
    decreases ops.len() - n,
{
    if n < ops.len() {
        lemma_scalars_error_stays(ops, decode, n + 1);
        assert(ops.take(n + 1).drop_last() =~= ops.take(n));
    } else {
        assert(ops.take(n) =~= ops);
    }
}

/// An error met among the first `n` operands is the error of all of them.
pub proof fn lemma_corners_error_stays(ops: Seq<Seq<u8>>, n: int)
    requires
        0 <= n <= ops.len(),
    ensures
        corners(ops.take(n)) is Err ==> corners(ops) == corners(ops.take(n)),
    decreases ops.len() - n,
{
    if n < ops.len() {
        lemma_corners_error_stays(ops, n + 1);
        assert(ops.take(n + 1).drop_last() =~= ops.take(n));
    } else {
        assert(ops.take(n) =~= ops);
    }
}

/// As many corners come out as operands go in.
pub proof fn lemma_corners_len(ops: Seq<Seq<u8>>)
    ensures
        corners(ops) is Ok ==> corners(ops)->Ok_0.len() == ops.len(),
    decreases ops.len(),
{
    if ops.len() > 0 {
        lemma_corners_len(ops.drop_last());
    }
}

/// Calls the decoder on one token.
fn decode_token<F: Fn(&str) -> Decoded>(decode: &F, token: &str) -> (r: Decoded)
    requires
        is_decoder(*decode),
    ensures
        r == decoder(*decode)(token.spec_bytes()),
{
    let r = decode(token);
    proof {
        assert(yields(*decode, token.spec_bytes(), r));
        let chosen = decoded(*decode, token.spec_bytes());
        assert(yields(*decode, token.spec_bytes(), chosen));
        let other = choose|s: &str|
            s.spec_bytes() == token.spec_bytes() && #[trigger] decode.ensures((s, ), chosen);
        assert(decode.ensures((other, ), chosen));
        assert(decode.ensures((token, ), r));
    }
    r
}

/// The position of the first `/` from `from` on, or the end.
fn find_field_end(bytes: &[u8], from: usize) -> (e: usize)
    requires
        from <= bytes.len(),
    ensures
        e == field_end(bytes@, from as int),
        from <= e <= bytes.len(),
{
    let mut e: usize = from;
    while e < bytes.len() && bytes[e] != 0x2f
        invariant
            from <= e <= bytes.len(),
            field_end(bytes@, from as int) == field_end(bytes@, e as int),
        decreases bytes.len() - e,
    {
        e = e + 1;
    }
    e
}

/// Reads an index that may be left out.
fn parse_optional_index(field: &[u8]) -> (r: Result<Option<u32>, IntParseError>)
    ensures
        r == optional_index(field@),
{
    if field.len() == 0 {
        Ok(None)
    } else {
        match parse_u32(field) {
            Err(e) => Err(e),
            Ok(v) => Ok(Some(v)),
        }
    }
}

/// Reads one face operand.
fn parse_corner(operand: &str) -> (r: Result<FaceAttribute, IntParseError>)
    ensures
        r == corner(operand.spec_bytes()),
{
    let bytes = operand.as_bytes();
    let n = bytes.len();
    let e0 = find_field_end(bytes, 0);
    let position_index = match parse_u32(vstd::slice::slice_subrange(bytes, 0, e0)) {
        Err(e) => { return Err(e); },
        Ok(v) => v,
    };
    if e0 >= n {
        return Ok(
            FaceAttribute { position_index, texture_coordinate_index: None, normal_index: None },
        );
    }
    let e1 = find_field_end(bytes, e0 + 1);
    let texture_coordinate_index = match parse_optional_index(
        vstd::slice::slice_subrange(bytes, e0 + 1, e1),
    ) {
        Err(e) => { return Err(e); },
        Ok(v) => v,
    };
    if e1 >= n {
        return Ok(FaceAttribute { position_index, texture_coordinate_index, normal_index: None });
    }
    let e2 = find_field_end(bytes, e1 + 1);
    let normal_index = match parse_optional_index(vstd::slice::slice_subrange(bytes, e1 + 1, e2)) {
        Err(e) => { return Err(e); },
        Ok(v) => v,
    };
    Ok(FaceAttribute { position_index, texture_coordinate_index, normal_index })
}

impl Obj {
    /// The positions.
    pub fn vertices(&self) -> (r: &[Vec4])
        ensures
            r@ == self@.positions,
    {
        self.positions.as_slice()
    }

    /// The faces.
    pub fn faces(&self) -> (r: &[Face])
        ensures
            r@ == self.faces@,
    {
        self.faces.as_slice()
    }

    /// Holds an operand count to its range; a bound of 0 is no bound.
    fn check_operand_length(min: usize, max: usize, val: usize) -> (r: Option<
        WavefrontObjParseErrorDetail,
    >)
        ensures
            detail_view(r) == count_error(min, max, val),
    {
        if val < min || (max != 0 && val > max) {
            let low = if min == 0 {
                None
            } else {
                Some(min)
            };
            let high = if max == 0 {
                None
            } else {
                Some(max)
            };
            return Some(
                WavefrontObjParseErrorDetail::InvalidOperandCount {
                    expected: (low, high),
                    got: val,
                },
            );
        }
        None
    }

    /// Decodes every operand, up to the first that is no number.
    fn parse_floats_from_line<F: Fn(&str) -> Decoded>(operands: &[&str], decode: &F) -> (r: Result<
        Vec<Scalar>,
        ParseFloatError,
    >)
        requires
            is_decoder(*decode),
        ensures
            match scalars(bytes_of(operands@), decoder(*decode)) {
                Ok(values) => r is Ok && r->Ok_0@ == values,
                Err(e) => r == Err::<Vec<Scalar>, ParseFloatError>(e),
            },
    {
        let ghost ops = bytes_of(operands@);
        let mut floats: Vec<Scalar> = Vec::new();
        let mut i: usize = 0;
        assert(ops.take(0) =~= Seq::<Seq<u8>>::empty());
        while i < operands.len()
            invariant
                is_decoder(*decode),
                ops == bytes_of(operands@),
                i <= operands.len(),
                scalars(ops.take(i as int), decoder(*decode)) == Ok::<
                    Seq<Scalar>,
                    ParseFloatError,
                >(floats@),
            decreases operands.len() - i,
        {
            let decoded = decode_token(decode, operands[i]);
            proof {
                assert(ops.take(i + 1).drop_last() =~= ops.take(i as int));
                assert(ops.take(i + 1).last() == operands@[i as int].spec_bytes());
                lemma_scalars_error_stays(ops, decoder(*decode), i + 1);
            }
            match decoded {
                Err(e) => { return Err(e); },
                Ok(v) => { floats.push(v); },
            }
            i = i + 1;
        }
        assert(ops.take(i as int) =~= ops);
        Ok(floats)
    }

    /// Reads every face operand, up to the first that denotes no corner.
    fn parse_face_from_line(operands: &[&str]) -> (r: Result<Vec<FaceAttribute>, IntParseError>)
        ensures
            match corners(bytes_of(operands@)) {
                Ok(found) => r is Ok && r->Ok_0@ == found,
                Err(e) => r == Err::<Vec<FaceAttribute>, IntParseError>(e),
            },
    {
        let ghost ops = bytes_of(operands@);
        let mut ret: Vec<FaceAttribute> = Vec::new();
        let mut i: usize = 0;
        assert(ops.take(0) =~= Seq::<Seq<u8>>::empty());
        while i < operands.len()
            invariant
                ops == bytes_of(operands@),
                i <= operands.len(),
                corners(ops.take(i as int)) == Ok::<Seq<FaceAttribute>, IntParseError>(ret@),
            decreases operands.len() - i,
        {
            let parsed = parse_corner(operands[i]);
            proof {
                assert(ops.take(i + 1).drop_last() =~= ops.take(i as int));
                assert(ops.take(i + 1).last() == operands@[i as int].spec_bytes());
                lemma_corners_error_stays(ops, i + 1);
            }
            match parsed {
                Err(e) => { return Err(e); },
                Ok(face_data) => { ret.push(face_data); },
            }
            i = i + 1;
        }
        assert(ops.take(i as int) =~= ops);
        Ok(ret)
    }

    /// Puts the label and the 1-based line number to an error's detail.
    fn parse_error(file_name: Option<&str>, line: usize, detail: WavefrontObjParseErrorDetail) -> (r:
        WavefrontObjError)
        requires
            line < usize::MAX,
        ensures
            r@ == error_view(file_name, line, detail@),
    {
        let file = match file_name {
            Some(name) => Some(name.to_owned()),
            None => None,
        };
        WavefrontObjError::ParseError { file, line: line + 1, detail }
    }

    /// Reads the operands of a `v` line and adds the position.
    fn handle_positions_line<F: Fn(&str) -> Decoded>(
        file_name: Option<&str>,
        line: usize,
        operands: &[&str],
        positions: &mut Vec<Vec4>,
        decode: &F,
    ) -> (r: Result<(), WavefrontObjError>)
        requires
            line < usize::MAX,
            is_decoder(*decode),
        ensures
            match position_record(bytes_of(operands@), decoder(*decode)) {
                Ok(p) => r is Ok && final(positions)@ == old(positions)@.push(p),
                Err(d) => r is Err && r->Err_0@ == error_view(file_name, line, d) && final(positions)@ == old(positions)@,
            },
    {
        if let Some(detail) = Self::check_operand_length(3, 4, operands.len()) {
            return Err(Self::parse_error(file_name, line, detail));
        }
        let coordinates = match Self::parse_floats_from_line(operands, decode) {
            Ok(coords) => coords,
            Err(e) => {
                return Err(
                    Self::parse_error(
                        file_name,
                        line,
                        WavefrontObjParseErrorDetail::VertexParseFloatError(e),
                    ),
                );
            },
        };
        proof {
            lemma_scalars_len(bytes_of(operands@), decoder(*decode));
        }
        let x = coordinates[0];
        let y = coordinates[1];
        let z = coordinates[2];
        let w = if coordinates.len() > 3 {
            coordinates[3]
        } else {
            Scalar::one()
        };
        positions.push(Vec4(x, y, z, w));
        Ok(())
    }

    /// Reads the operands of an `f` line and adds the face.
    fn handle_face_line(
        file_name: Option<&str>,
        line: usize,
        operands: &[&str],
        faces: &mut Vec<Face>,
    ) -> (r: Result<(), WavefrontObjError>)
        requires
            line < usize::MAX,
        ensures
            match face_record(bytes_of(operands@)) {
                Ok(f) => r is Ok && faces_view(final(faces)@) == faces_view(old(faces)@).push(f),
                Err(d) => r is Err && r->Err_0@ == error_view(file_name, line, d) && final(faces)@
                    == old(faces)@,
            },
    {
        if let Some(detail) = Self::check_operand_length(3, 0, operands.len()) {
            return Err(Self::parse_error(file_name, line, detail));
        }
        let face_data = match Self::parse_face_from_line(operands) {
            Ok(data) => data,
            Err(e) => {
                return Err(
                    Self::parse_error(
                        file_name,
                        line,
                        WavefrontObjParseErrorDetail::FaceParseIntError(e),
                    ),
                );
            },
        };
        let mut i: usize = 0;
        while i < face_data.len()
            invariant
                line < usize::MAX,
                *faces == *old(faces),
                count_error(3, 0, operands@.len() as usize) is None,
                corners(bytes_of(operands@)) == Ok::<Seq<FaceAttribute>, IntParseError>(
                    face_data@,
                ),
                i <= face_data.len(),
                forall|k: int| 0 <= k < i ==> (#[trigger] face_data@[k]).position_index != 0,
            decreases face_data.len() - i,
        {
            if face_data[i].position_index == 0 {
                return Err(
                    Self::parse_error(
                        file_name,
                        line,
                        WavefrontObjParseErrorDetail::InvalidFaceOperand(0),
                    ),
                );
            }
            i = i + 1;
        }
        let ghost before = faces@;
        let ghost found = face_data@;
        faces.push(Face { attributes: face_data });
        assert(faces_view(faces@) =~= faces_view(before).push(found));
        Ok(())
    }

    /// Reads the operands of a `vt` line and adds the texture coordinate.
    fn handle_uv_line<F: Fn(&str) -> Decoded>(
        file_name: Option<&str>,
        line: usize,
        operands: &[&str],
        uvs: &mut Vec<Vec3>,
        decode: &F,
    ) -> (r: Result<(), WavefrontObjError>)
        requires
            line < usize::MAX,
            is_decoder(*decode),
        ensures
            match uv_record(bytes_of(operands@), decoder(*decode)) {
                Ok(t) => r is Ok && final(uvs)@ == old(uvs)@.push(t),
                Err(d) => r is Err && r->Err_0@ == error_view(file_name, line, d) && final(uvs)@
                    == old(uvs)@,
            },
    {
        if let Some(detail) = Self::check_operand_length(1, 3, operands.len()) {
            return Err(Self::parse_error(file_name, line, detail));
        }
        let uv_floats = match Self::parse_floats_from_line(operands, decode) {
            Ok(uv) => uv,
            Err(e) => {
                return Err(
                    Self::parse_error(
                        file_name,
                        line,
                        WavefrontObjParseErrorDetail::UVParseFloatError(e),
                    ),
                );
            },
        };
        proof {
            lemma_scalars_len(bytes_of(operands@), decoder(*decode));
        }
        let u = uv_floats[0];
        let v = if uv_floats.len() > 1 {
            uv_floats[1]
        } else {
            Scalar::zero()
        };
        let w = if uv_floats.len() > 2 {
            uv_floats[2]
        } else {
            Scalar::zero()
        };
        uvs.push(Vec3(u, v, w));
        Ok(())
    }

    /// Reads the operands of a `vn` line and adds the normal.
    fn handle_normal_line<F: Fn(&str) -> Decoded>(
        file_name: Option<&str>,
        line: usize,
        operands: &[&str],
        normals: &mut Vec<Vec3>,
        decode: &F,
    ) -> (r: Result<(), WavefrontObjError>)
        requires
            line < usize::MAX,
            is_decoder(*decode),
        ensures
            match normal_record(bytes_of(operands@), decoder(*decode)) {
                Ok(n) => r is Ok && final(normals)@ == old(normals)@.push(n),
                Err(d) => r is Err && r->Err_0@ == error_view(file_name, line, d) && final(normals)@ == old(normals)@,
            },
    {
        if let Some(detail) = Self::check_operand_length(3, 3, operands.len()) {
            return Err(Self::parse_error(file_name, line, detail));
        }
        let normal_floats = match Self::parse_floats_from_line(operands, decode) {
            Ok(values) => values,
            Err(e) => {
                return Err(
                    Self::parse_error(
                        file_name,
                        line,
                        WavefrontObjParseErrorDetail::NormalParseFloatError(e),
                    ),
                );
            },
        };
        proof {
            lemma_scalars_len(bytes_of(operands@), decoder(*decode));
        }
        let x = normal_floats[0];
        let y = normal_floats[1];
        let z = normal_floats[2];
        normals.push(Vec3(x, y, z));
        Ok(())
    }

    /// Parses a document. Numbers are decoded by `decode`, which is meant to
    /// be the standard parser of single-precision literals followed by the
    /// conversion to bits; `file_name` labels the error, if there is one.
    pub fn from_string<F: Fn(&str) -> Decoded>(
        data: &str,
        file_name: Option<&str>,
        decode: F,
    ) -> (r: Result<Obj, WavefrontObjError>)
        requires
            is_decoder(decode),
        ensures
            outcome_view(r) == parse_document(
                data.spec_bytes(),
                label_view(file_name),
                decoder(decode),
            ),
    {
        let bytes = data.as_bytes();
        let n = bytes.len();
        let mut positions: Vec<Vec4> = Vec::with_capacity(4096);
        let mut uvs: Vec<Vec3> = Vec::with_capacity(4096);
        let mut normals: Vec<Vec3> = Vec::with_capacity(4096);
        let mut faces: Vec<Face> = Vec::with_capacity(4096);
        let mut start: usize = 0;
        let mut line: usize = 0;
        proof {
            encode_utf8_valid_utf8(data@);
            if n > 0 {
                is_char_boundary_iff_not_is_continuation_byte(bytes@, 0);
            }
            assert(faces_view(faces@) =~= Seq::<Seq<FaceAttribute>>::empty());
        }
        while start < n
            invariant
                is_decoder(decode),
                bytes@ == data.spec_bytes(),
                n == bytes@.len(),
                valid_utf8(bytes@),
                start <= n,
                line <= start,
                is_cut(bytes@, start as int),
                parse_lines(bytes@, 0, 0, empty_document(), decoder(decode)) == parse_lines(
                    bytes@,
                    start as int,
                    line as nat,
                    ObjView {
                        positions: positions@,
                        uvs: uvs@,
                        normals: normals@,
                        faces: faces_view(faces@),
                    },
                    decoder(decode),
                ),
            decreases n - start,
        {
            let mut end: usize = start;
            while end < n && bytes[end] != 0x0a
                invariant
                    n == bytes@.len(),
                    start <= end <= n,
                    line_end(bytes@, start as int) == line_end(bytes@, end as int),
                decreases n - end,
            {
                end = end + 1;
            }
            let text = slice_str(data, start, end);
            let elements = split_whitespace(text);
            let ghost doc = ObjView {
                positions: positions@,
                uvs: uvs@,
                normals: normals@,
                faces: faces_view(faces@),
            };
            let ghost toks = tokens(bytes@.subrange(start as int, end as int));
            assert(bytes_of(elements@) == toks);
            if elements.len() > 0 {
                let word = elements[0];
                let first = word.as_bytes();
                assert(first@ == toks[0]);
                if !(first.len() > 0 && first[0] == 0x23) {
                    let operands = vstd::slice::slice_subrange(
                        elements.as_slice(),
                        1,
                        elements.len(),
                    );
                    assert(bytes_of(operands@) =~= toks.subrange(1, toks.len() as int));
                    if is_word(word, "v") {
                        match Self::handle_positions_line(
                            file_name,
                            line,
                            operands,
                            &mut positions,
                            &decode,
                        ) {
                            Err(e) => { return Err(e); },
                            Ok(_) => {},
                        }
                    } else if is_word(word, "f") {
                        match Self::handle_face_line(file_name, line, operands, &mut faces) {
                            Err(e) => { return Err(e); },
                            Ok(_) => {},
                        }
                    } else if is_word(word, "mtllib") || is_word(word, "usemtl") || is_word(
                        word,
                        "s",
                    ) || is_word(word, "g") || is_word(word, "o") {
                    } else if is_word(word, "vt") {
                        match Self::handle_uv_line(file_name, line, operands, &mut uvs, &decode) {
                            Err(e) => { return Err(e); },
                            Ok(_) => {},
                        }
                    } else if is_word(word, "vn") {
                        match Self::handle_normal_line(
                            file_name,
                            line,
                            operands,
                            &mut normals,
                            &decode,
                        ) {
                            Err(e) => { return Err(e); },
                            Ok(_) => {},
                        }
                    } else {
                        return Err(
                            Self::parse_error(
                                file_name,
                                line,
                                WavefrontObjParseErrorDetail::UnknownCommand(word.to_owned()),
                            ),
                        );
                    }
                }
            }
            proof {
                if end < n {
                    lemma_next_cut(bytes@, end as int);
                }
            }
            start = if end < n {
                end + 1
            } else {
                end
            };
            line = line + 1;
        }
        Ok(Obj { positions, faces, normals, uvs })
    }
}

/// As many numbers come out as operands go in.
pub proof fn lemma_scalars_len(ops: Seq<Seq<u8>>, decode: spec_fn(Seq<u8>) -> Decoded)
    ensures
        scalars(ops, decode) is Ok ==> scalars(ops, decode)->Ok_0.len() == ops.len(),
    decreases ops.len(),
{
    if ops.len() > 0 {
        lemma_scalars_len(ops.drop_last(), decode);
    }
}

/// A text has one reading: what `Obj::from_string` returns for it twice,
/// under the same label and with the same decoder, has the same value.
pub proof fn lemma_parse_deterministic(
    text: Seq<u8>,
    file: Option<Seq<char>>,
    decode: spec_fn(Seq<u8>) -> Decoded,
    first: Result<Obj, WavefrontObjError>,
    second: Result<Obj, WavefrontObjError>,
)
    requires
        outcome_view(first) == parse_document(text, file, decode),
        outcome_view(second) == parse_document(text, file, decode),
    ensures
        outcome_view(first) == outcome_view(second),
{
}

/// A face that was read has three corners or more, and none of them has
/// the position index 0.
pub proof fn lemma_face_record(ops: Seq<Seq<u8>>)
    requires
        face_record(ops) is Ok,
    ensures
        face_record(ops)->Ok_0.len() == ops.len(),
        ops.len() >= 3,
        forall|k: int| 0 <= k < ops.len() ==> (#[trigger] face_record(ops)->Ok_0[k]).position_index
            >= 1,
{
    lemma_corners_len(ops);
}

/// The name of an array in a message.
pub open spec fn kind_name(kind: AttributeKind) -> Seq<char> {
    match kind {
        AttributeKind::Position => "position"@,
        AttributeKind::Uv => "texture coordinate"@,
        AttributeKind::Normal => "normal"@,
    }
}

/// The range that an operand count is held to, in words.
pub open spec fn range_words(expected: (Option<usize>, Option<usize>)) -> Seq<char> {
    match expected {
        (Some(a), Some(b)) => if a == b {
            "Expected "@ + decimal(a as nat)
        } else {
            "Expected a value between "@ + decimal(a as nat) + " and "@ + decimal(b as nat)
        },
        (Some(a), None) => "Expected at least "@ + decimal(a as nat),
        (None, Some(b)) => "Expected at most "@ + decimal(b as nat),
        (None, None) => "Expected any number"@,
    }
}

/// The message of a wrong operand count.
pub open spec fn range_message(expected: (Option<usize>, Option<usize>), got: usize) -> Seq<
    char,
> {
    "Invalid operand count. "@ + range_words(expected) + ", got "@ + decimal(got as nat)
}

/// An error's detail in words.
pub open spec fn detail_message(detail: DetailView) -> Seq<char> {
    match detail {
        DetailView::UnknownCommand(command) => "Unknown command: "@ + decode_utf8(command),
        DetailView::VertexParseFloatError(_) => "Malformed float"@,
        DetailView::UVParseFloatError(_) => "Malformed float"@,
        DetailView::NormalParseFloatError(_) => "Malformed float"@,
        DetailView::FaceParseIntError(_) => "Malformed unsigned int"@,
        DetailView::InvalidFaceOperand(value) => "Invalid index: "@ + decimal(value as nat),
        DetailView::InvalidOperandCount { expected, got } => range_message(expected, got),
        DetailView::IndexOutOfRange { kind, index, length } => "Index out of range: "@
            + kind_name(kind) + " "@ + decimal(index as nat) + " of "@ + decimal(length as nat),
        DetailView::TooManyCorners => "Too many face corners"@,
    }
}

/// An error in words: the label, or `inline` where the text had none, the
/// line after a colon, and on the next line the detail after a red
/// `error:`.
pub open spec fn error_message(error: ErrorView) -> Seq<char> {
    (match error.file {
        Some(name) => name,
        None => "inline"@,
    }) + ":"@ + decimal(error.line) + "\n\x1b[0;31merror:\x1b[0m "@ + detail_message(error.detail)
}

/// Writes the range that an operand count is held to.
fn write_range(expected: &(Option<usize>, Option<usize>)) -> (r: String)
    ensures
        r@ == range_words(*expected),
{
    match expected {
        (Some(a), Some(b)) => {
            if *a == *b {
                let mut text = "Expected ".to_owned();
                text.append(to_decimal(*a as u64).as_str());
                text
            } else {
                let mut text = "Expected a value between ".to_owned();
                text.append(to_decimal(*a as u64).as_str());
                text.append(" and ");
                text.append(to_decimal(*b as u64).as_str());
                text
            }
        },
        (Some(a), None) => {
            let mut text = "Expected at least ".to_owned();
            text.append(to_decimal(*a as u64).as_str());
            text
        },
        (None, Some(b)) => {
            let mut text = "Expected at most ".to_owned();
            text.append(to_decimal(*b as u64).as_str());
            text
        },
        (None, None) => "Expected any number".to_owned(),
    }
}

impl WavefrontObjParseErrorDetail {
    /// The detail in words.
    pub fn message(&self) -> (r: String)
        ensures
            r@ == detail_message(self@),
    {
        match self {
            WavefrontObjParseErrorDetail::UnknownCommand(command) => {
                proof {
                    encode_utf8_decode_utf8(command@);
                }
                let mut text = "Unknown command: ".to_owned();
                text.append(command.as_str());
                text
            },
            WavefrontObjParseErrorDetail::VertexParseFloatError(_) => "Malformed float".to_owned(),
            WavefrontObjParseErrorDetail::UVParseFloatError(_) => "Malformed float".to_owned(),
            WavefrontObjParseErrorDetail::NormalParseFloatError(_) => "Malformed float".to_owned(),
            WavefrontObjParseErrorDetail::FaceParseIntError(_) => (
            "Malformed unsigned int".to_owned()),
            WavefrontObjParseErrorDetail::InvalidFaceOperand(value) => {
                let mut text = "Invalid index: ".to_owned();
                text.append(to_decimal(*value as u64).as_str());
                text
            },
            WavefrontObjParseErrorDetail::InvalidOperandCount { expected, got } => {
                let mut text = "Invalid operand count. ".to_owned();
                text.append(write_range(expected).as_str());
                text.append(", got ");
                text.append(to_decimal(*got as u64).as_str());
                text
            },
            WavefrontObjParseErrorDetail::IndexOutOfRange { kind, index, length } => {
                let mut text = "Index out of range: ".to_owned();
                text.append(
                    match kind {
                        AttributeKind::Position => "position",
                        AttributeKind::Uv => "texture coordinate",
                        AttributeKind::Normal => "normal",
                    },
                );
                text.append(" ");
                text.append(to_decimal(*index as u64).as_str());
                text.append(" of ");
                text.append(to_decimal(*length as u64).as_str());
                text
            },
            WavefrontObjParseErrorDetail::TooManyCorners => "Too many face corners".to_owned(),
        }
    }
}

impl WavefrontObjError {
    /// The error in words.
    pub fn message(&self) -> (r: String)
        ensures
            r@ == error_message(self@),
    {
        match self {
            WavefrontObjError::ParseError { file, line, detail } => {
                let mut text = match file {
                    Some(name) => name.clone(),
                    None => "inline".to_owned(),
                };
                text.append(":");
                text.append(to_decimal(*line as u64).as_str());
                text.append("\n\x1b[0;31merror:\x1b[0m ");
                text.append(detail.message().as_str());
                text
            },
        }
    }
}

/// Every face of a document has three corners or more, and no corner has
/// the position index 0.
pub open spec fn faces_are_sound(doc: ObjView) -> bool {
    forall|i: int|
        0 <= i < doc.faces.len() ==> (#[trigger] doc.faces[i]).len() >= 3 && forall|k: int|
            0 <= k < doc.faces[i].len() ==> (#[trigger] doc.faces[i][k]).position_index >= 1
}

/// Reading further lines into a document with sound faces gives a document
/// with sound faces.
pub proof fn lemma_lines_keep_faces_sound(
    text: Seq<u8>,
    start: int,
    line: nat,
    doc: ObjView,
    decode: spec_fn(Seq<u8>) -> Decoded,
)
    requires
        faces_are_sound(doc),
        parse_lines(text, start, line, doc, decode) is Ok,
    ensures
        faces_are_sound(parse_lines(text, start, line, doc, decode)->Ok_0),
    decreases text.len() + 1 - start,
{
    if 0 <= start < text.len() {
        lemma_line_end_bounds(text, start);
        let end = line_end(text, start);
        let words = tokens(text.subrange(start, end));
        let next = apply_line(doc, words, decode)->Ok_0;
        assert(faces_are_sound(next)) by {
            if words.len() > 0 && !is_comment(words[0]) && words[0] == "f".spec_bytes()
                && words[0] != "v".spec_bytes() {
                let ops = words.subrange(1, words.len() as int);
                lemma_face_record(ops);
                let face = face_record(ops)->Ok_0;
                assert(next.faces == doc.faces.push(face));
                assert forall|i: int| 0 <= i < next.faces.len() implies (
                #[trigger] next.faces[i]).len() >= 3 && forall|k: int|
                    0 <= k < next.faces[i].len() ==> (
                    #[trigger] next.faces[i][k]).position_index >= 1 by {
                    if i < doc.faces.len() {
                        assert(next.faces[i] == doc.faces[i]);
                    } else {
                        assert(next.faces[i] == face);
                    }
                }
            }
        }
        lemma_lines_keep_faces_sound(text, end + 1, line + 1, next, decode);
    }
}

/// The faces of a parsed document are sound: each has three corners or
/// more, and no corner has the position index 0.
pub proof fn lemma_parsed_faces_are_sound(
    text: Seq<u8>,
    file: Option<Seq<char>>,
    decode: spec_fn(Seq<u8>) -> Decoded,
)
    requires
        parse_document(text, file, decode) is Ok,
    ensures
        faces_are_sound(parse_document(text, file, decode)->Ok_0),
{
    lemma_lines_keep_faces_sound(text, 0, 0, empty_document(), decode);
}

} // verus!
