//! From a parsed document to an indexed triangle mesh.

use std::collections::HashMap;
use vstd::prelude::*;
use crate::boundingbox::BoundingBox;
use crate::scalar::Scalar;
use crate::scalar::Vec3;
use crate::scalar::Vec4;
use crate::wavefront::AttributeKind;
use crate::wavefront::DetailView;
use crate::wavefront::FaceAttribute;
use crate::wavefront::Obj;
use crate::wavefront::ObjView;
use crate::wavefront::WavefrontObjParseErrorDetail;

verus! {

/// The number of triangles that a face of `n` corners is cut into.
pub open spec fn fan_len(n: int) -> int {
    if n < 3 {
        0
    } else {
        n - 2
    }
}

/// The `i`-th triangle of the fan of a face: the first corner, and the
/// corners `i + 1` and `i + 2`.
pub open spec fn fan_triangle(attributes: Seq<FaceAttribute>, i: int) -> Seq<FaceAttribute> {
    seq![attributes[0], attributes[i + 1], attributes[i + 2]]
}

/// The corners of the triangles of a face's fan, one after the other.
pub open spec fn fan_corners(attributes: Seq<FaceAttribute>) -> Seq<FaceAttribute> {
    Seq::new(
        (3 * fan_len(attributes.len() as int)) as nat,
        |k: int|
            if k % 3 == 0 {
                attributes[0]
            } else {
                attributes[k / 3 + k % 3]
            },
    )
}

/// Cuts a face into the triangles of the fan around its first corner, in
/// the order of its corners. A face of fewer than three corners has none.
pub fn triangulate(attributes: &[FaceAttribute], _positions: &Vec<Vec4>) -> (ret: Vec<
    [FaceAttribute; 3],
>)
    ensures
        ret@.len() == fan_len(attributes@.len() as int),
        forall|i: int| 0 <= i < ret@.len() ==> (#[trigger] ret@[i])@ == fan_triangle(attributes@, i),
{
    let mut ret: Vec<[FaceAttribute; 3]> = Vec::new();
    let n = attributes.len();
    if n < 3 {
        return ret;
    }
    let mut i: usize = 1;
    while i < n - 1
        invariant
            n == attributes@.len(),
            n >= 3,
            1 <= i <= n - 1,
            ret@.len() == i - 1,
            forall|k: int|
                0 <= k < ret@.len() ==> (#[trigger] ret@[k])@ == fan_triangle(attributes@, k),
        decreases n - i,
    {
        let triangle = [attributes[0], attributes[i], attributes[i + 1]];
        assert(triangle@ =~= fan_triangle(attributes@, i - 1));
        ret.push(triangle);
        i = i + 1;
    }
    ret
}

/// The corners of all triangles of all faces, in the order in which the
/// faces stand.
pub open spec fn corner_stream(faces: Seq<Seq<FaceAttribute>>) -> Seq<FaceAttribute>
    decreases faces.len(),
{
    if faces.len() == 0 {
        Seq::empty()
    } else {
        corner_stream(faces.drop_last()) + fan_corners(faces.last())
    }
}

/// The corners of a stream without repetition, each at the place of its
/// first occurrence.
pub open spec fn unique(stream: Seq<FaceAttribute>) -> Seq<FaceAttribute>
    decreases stream.len(),
{
    if stream.len() == 0 {
        Seq::empty()
    } else if unique(stream.drop_last()).contains(stream.last()) {
        unique(stream.drop_last())
    } else {
        unique(stream.drop_last()).push(stream.last())
    }
}

/// The place of a corner among the vertices.
pub open spec fn slot(vertices: Seq<FaceAttribute>, a: FaceAttribute) -> int {
    choose|i: int| 0 <= i < vertices.len() && vertices[i] == a
}

/// A 1-based index into an array of `length` records.
pub open spec fn in_range(index: u32, length: nat) -> bool {
    1 <= index && index <= length
}

/// The error of a corner that points outside an array: of its position
/// first, then of its normal, then of its texture coordinate.
pub open spec fn resolve_error(doc: ObjView, a: FaceAttribute) -> Option<DetailView> {
    if !in_range(a.position_index, doc.positions.len()) {
        Some(
            DetailView::IndexOutOfRange {
                kind: AttributeKind::Position,
                index: a.position_index,
                length: doc.positions.len() as usize,
            },
        )
    } else if a.normal_index is Some && !in_range(a.normal_index->0, doc.normals.len()) {
        Some(
            DetailView::IndexOutOfRange {
                kind: AttributeKind::Normal,
                index: a.normal_index->0,
                length: doc.normals.len() as usize,
            },
        )
    } else if a.texture_coordinate_index is Some && !in_range(
        a.texture_coordinate_index->0,
        doc.uvs.len(),
    ) {
        Some(
            DetailView::IndexOutOfRange {
                kind: AttributeKind::Uv,
                index: a.texture_coordinate_index->0,
                length: doc.uvs.len() as usize,
            },
        )
    } else {
        None
    }
}

/// The error of the first corner of a stream that has one.
pub open spec fn first_error(doc: ObjView, stream: Seq<FaceAttribute>) -> Option<DetailView>
    decreases stream.len(),
{
    if stream.len() == 0 {
        None
    } else {
        match first_error(doc, stream.drop_last()) {
            Some(e) => Some(e),
            None => resolve_error(doc, stream.last()),
        }
    }
}

/// Three times positive zero: what stands for a normal or a texture
/// coordinate that a corner leaves out.
pub open spec fn fallback() -> Vec3 {
    Vec3(Scalar { bits: 0 }, Scalar { bits: 0 }, Scalar { bits: 0 })
}

pub open spec fn position_of(doc: ObjView, a: FaceAttribute) -> Vec4 {
    doc.positions[a.position_index - 1]
}

pub open spec fn normal_of(doc: ObjView, a: FaceAttribute) -> Vec3 {
    match a.normal_index {
        Some(i) => doc.normals[i - 1],
        None => fallback(),
    }
}

pub open spec fn uv_of(doc: ObjView, a: FaceAttribute) -> Vec3 {
    match a.texture_coordinate_index {
        Some(i) => doc.uvs[i - 1],
        None => fallback(),
    }
}

/// The `c`-th of the three numbers.
pub open spec fn pick(v: Vec3, c: int) -> Scalar {
    if c == 0 {
        v.0
    } else if c == 1 {
        v.1
    } else {
        v.2
    }
}

/// The first three numbers of a position.
pub open spec fn point(p: Vec4) -> Vec3 {
    Vec3(p.0, p.1, p.2)
}

/// x, y and z of each vertex's position.
pub open spec fn flat_positions(doc: ObjView, vertices: Seq<FaceAttribute>) -> Seq<Scalar> {
    Seq::new(3 * vertices.len(), |k: int| pick(point(position_of(doc, vertices[k / 3])), k % 3))
}

/// x, y and z of each vertex's normal.
pub open spec fn flat_normals(doc: ObjView, vertices: Seq<FaceAttribute>) -> Seq<Scalar> {
    Seq::new(3 * vertices.len(), |k: int| pick(normal_of(doc, vertices[k / 3]), k % 3))
}

/// u and v of each vertex's texture coordinate.
pub open spec fn flat_uvs(doc: ObjView, vertices: Seq<FaceAttribute>) -> Seq<Scalar> {
    Seq::new(2 * vertices.len(), |k: int| pick(uv_of(doc, vertices[k / 2]), k % 2))
}

/// For each corner of the stream, the place of its vertex.
pub open spec fn index_list(stream: Seq<FaceAttribute>, vertices: Seq<FaceAttribute>) -> Seq<u32> {
    Seq::new(stream.len(), |k: int| slot(vertices, stream[k]) as u32)
}

/// A mesh as flat arrays: three numbers for each position, normal and
/// colour, two for each texture coordinate, and the list of vertex indices.
pub struct MeshData {
    pub positions: Vec<Scalar>,
    pub normals: Vec<Scalar>,
    pub colors: Vec<Scalar>,
    pub uvs: Vec<Scalar>,
    pub indices: Vec<u32>,
}

/// The mathematical value of a `MeshData`.
pub struct MeshView {
    pub positions: Seq<Scalar>,
    pub normals: Seq<Scalar>,
    pub colors: Seq<Scalar>,
    pub uvs: Seq<Scalar>,
    pub indices: Seq<u32>,
}

impl View for MeshData {
    type V = MeshView;

    open spec fn view(&self) -> MeshView {
        MeshView {
            positions: self.positions@,
            normals: self.normals@,
            colors: self.colors@,
            uvs: self.uvs@,
            indices: self.indices@,
        }
    }
}

/// The indexed mesh of a document. Each distinct corner of the triangulated
/// faces is one vertex, in the order of first occurrence; the index list
/// names, corner by corner, the vertex of each. A document whose faces have
/// more than `u32::MAX` corners, or a corner that points outside an array,
/// has no mesh.
pub open spec fn indexed_mesh(doc: ObjView) -> Result<MeshView, DetailView> {
    let stream = corner_stream(doc.faces);
    if stream.len() > u32::MAX {
        Err(DetailView::TooManyCorners)
    } else {
        match first_error(doc, stream) {
            Some(e) => Err(e),
            None => Ok(
                MeshView {
                    positions: flat_positions(doc, unique(stream)),
                    normals: flat_normals(doc, unique(stream)),
                    colors: Seq::empty(),
                    uvs: flat_uvs(doc, unique(stream)),
                    indices: index_list(stream, unique(stream)),
                },
            ),
        }
    }
}

/// The mathematical value of what `MeshData::from_obj` returns.
pub open spec fn mesh_outcome(r: Result<MeshData, WavefrontObjParseErrorDetail>) -> Result<
    MeshView,
    DetailView,
> {
    match r {
        Ok(mesh) => Ok(mesh@),
        Err(e) => Err(e@),
    }
}

/// The number under which a corner is looked up: its three indices side by
/// side, an index that is left out counting as 0 and one that is given as
/// one more than itself.
pub open spec fn key(a: FaceAttribute) -> int {
    a.position_index + 0x1_0000_0000 * (code(a.texture_coordinate_index) + 0x2_0000_0000 * code(
        a.normal_index,
    ))
}

pub open spec fn code(index: Option<u32>) -> int {
    match index {
        Some(i) => i + 1,
        None => 0,
    }
}

/// Different corners have different keys.
pub proof fn lemma_key_injective(a: FaceAttribute, b: FaceAttribute)
    requires
        key(a) == key(b),
    ensures
        a == b,
{
    let ta = code(a.texture_coordinate_index);
    let tb = code(b.texture_coordinate_index);
    let na = code(a.normal_index);
    let nb = code(b.normal_index);
    assert(0 <= ta <= 0x1_0000_0000 && 0 <= tb <= 0x1_0000_0000);
    assert(0 <= na <= 0x1_0000_0000 && 0 <= nb <= 0x1_0000_0000);
    assert(a.position_index == b.position_index);
    assert(ta == tb);
    assert(na == nb);
}

fn index_code(index: Option<u32>) -> (r: u128)
    ensures
        r == code(index),
{
    match index {
        Some(i) => i as u128 + 1,
        None => 0,
    }
}

fn corner_key(a: &FaceAttribute) -> (r: u128)
    ensures
        r == key(*a),
{
    let t = index_code(a.texture_coordinate_index);
    let n = index_code(a.normal_index);
    a.position_index as u128 + 0x1_0000_0000 * (t + 0x2_0000_0000 * n)
}

/// What holds of the vertices of every stream: none stands twice, they are
/// the corners of the stream, and there are no more of them than corners.
pub proof fn lemma_unique(stream: Seq<FaceAttribute>)
    ensures
        unique(stream).no_duplicates(),
        unique(stream).len() <= stream.len(),
        forall|a: FaceAttribute| unique(stream).contains(a) <==> stream.contains(a),
    decreases stream.len(),
{
    if stream.len() > 0 {
        let rest = stream.drop_last();
        let last = stream.last();
        lemma_unique(rest);
        let u = unique(rest);
        assert forall|a: FaceAttribute| unique(stream).contains(a) <==> stream.contains(
            a,
        ) by {
            if stream.contains(a) {
                let i = choose|i: int| 0 <= i < stream.len() && stream[i] == a;
                if i < rest.len() {
                    assert(rest[i] == a);
                    assert(rest.contains(a));
                    assert(u.contains(a));
                    let j = choose|j: int| 0 <= j < u.len() && u[j] == a;
                    assert(unique(stream)[j] == a);
                } else {
                    assert(a == last);
                    if !u.contains(last) {
                        assert(unique(stream)[u.len() as int] == a);
                    }
                }
            }
            if unique(stream).contains(a) {
                let j = choose|j: int| 0 <= j < unique(stream).len() && unique(stream)[j] == a;
                if j < u.len() {
                    assert(u[j] == a);
                    assert(rest.contains(a));
                    let i = choose|i: int| 0 <= i < rest.len() && rest[i] == a;
                    assert(stream[i] == a);
                } else {
                    assert(stream[stream.len() - 1] == a);
                }
            }
        }
    }
}

/// The place of a vertex is the one place at which it stands.
pub proof fn lemma_slot(vertices: Seq<FaceAttribute>, i: int)
    requires
        vertices.no_duplicates(),
        0 <= i < vertices.len(),
    ensures
        slot(vertices, vertices[i]) == i,
{
    let j = slot(vertices, vertices[i]);
    assert(0 <= j < vertices.len() && vertices[j] == vertices[i]);
}

/// An error met among the first `n` corners is the error of the stream.
pub proof fn lemma_first_error_stays(doc: ObjView, stream: Seq<FaceAttribute>, n: int)
    requires
        0 <= n <= stream.len(),
    ensures
        first_error(doc, stream.take(n)) is Some ==> first_error(doc, stream) == first_error(
            doc,
            stream.take(n),
        ),
    decreases stream.len() - n,
{
    if n < stream.len() {
        lemma_first_error_stays(doc, stream, n + 1);
        assert(stream.take(n + 1).drop_last() =~= stream.take(n));
    } else {
        assert(stream.take(n) =~= stream);
    }
}

/// The corners of the first `f` faces open the stream of all faces.
pub proof fn lemma_stream_prefix(faces: Seq<Seq<FaceAttribute>>, f: int)
    requires
        0 <= f <= faces.len(),
    ensures
        corner_stream(faces.take(f)).len() <= corner_stream(faces).len(),
        corner_stream(faces).take(corner_stream(faces.take(f)).len() as int) == corner_stream(
            faces.take(f),
        ),
    decreases faces.len() - f,
{
    if f < faces.len() {
        lemma_stream_prefix(faces, f + 1);
        assert(faces.take(f + 1).drop_last() =~= faces.take(f));
        let longer = corner_stream(faces.take(f + 1));
        let shorter = corner_stream(faces.take(f));
        assert(longer == shorter + fan_corners(faces[f]));
        assert(corner_stream(faces).take(shorter.len() as int) =~= longer.take(
            shorter.len() as int,
        ));
        assert(longer.take(shorter.len() as int) =~= shorter);
    } else {
        assert(faces.take(f) =~= faces);
        assert(corner_stream(faces).take(corner_stream(faces).len() as int) =~= corner_stream(
            faces,
        ));
    }
}

/// The stream of the first `f + 1` faces is that of the first `f`, followed
/// by the fan of the face `f`.
pub proof fn lemma_stream_step(faces: Seq<Seq<FaceAttribute>>, f: int)
    requires
        0 <= f < faces.len(),
    ensures
        corner_stream(faces.take(f + 1)) == corner_stream(faces.take(f)) + fan_corners(faces[f]),
{
    assert(faces.take(f + 1).drop_last() =~= faces.take(f));
}

/// Where a stream has no error, none of its corners has one.
pub proof fn lemma_no_error(doc: ObjView, stream: Seq<FaceAttribute>)
    requires
        first_error(doc, stream) is None,
    ensures
        forall|i: int| 0 <= i < stream.len() ==> resolve_error(doc, #[trigger] stream[i]) is None,
    decreases stream.len(),
{
    if stream.len() > 0 {
        lemma_no_error(doc, stream.drop_last());
        assert forall|i: int| 0 <= i < stream.len() implies resolve_error(
            doc,
            #[trigger] stream[i],
        ) is None by {
            if i < stream.len() - 1 {
                assert(stream.drop_last()[i] == stream[i]);
            }
        }
    }
}

/// Looks a corner up in the arrays of a document.
fn resolve(obj: &Obj, a: &FaceAttribute) -> (r: Result<
    (Vec4, Vec3, Vec3),
    WavefrontObjParseErrorDetail,
>)
    ensures
        match resolve_error(obj@, *a) {
            Some(e) => r is Err && r->Err_0@ == e,
            None => r is Ok && r->Ok_0 == (
                position_of(obj@, *a),
                normal_of(obj@, *a),
                uv_of(obj@, *a),
            ),
        },
{
    let p = a.position_index as usize;
    if p < 1 || p > obj.positions.len() {
        return Err(
            WavefrontObjParseErrorDetail::IndexOutOfRange {
                kind: AttributeKind::Position,
                index: a.position_index,
                length: obj.positions.len(),
            },
        );
    }
    let position = obj.positions[p - 1];
    let normal = match a.normal_index {
        Some(index) => {
            let n = index as usize;
            if n < 1 || n > obj.normals.len() {
                return Err(
                    WavefrontObjParseErrorDetail::IndexOutOfRange {
                        kind: AttributeKind::Normal,
                        index,
                        length: obj.normals.len(),
                    },
                );
            }
            obj.normals[n - 1]
        },
        None => Vec3(Scalar::zero(), Scalar::zero(), Scalar::zero()),
    };
    let uv = match a.texture_coordinate_index {
        Some(index) => {
            let t = index as usize;
            if t < 1 || t > obj.uvs.len() {
                return Err(
                    WavefrontObjParseErrorDetail::IndexOutOfRange {
                        kind: AttributeKind::Uv,
                        index,
                        length: obj.uvs.len(),
                    },
                );
            }
            obj.uvs[t - 1]
        },
        None => Vec3(Scalar::zero(), Scalar::zero(), Scalar::zero()),
    };
    Ok((position, normal, uv))
}

/// The arrays of a mesh while its corners are indexed, with the table that
/// finds a vertex by its corner's key.
struct Indexer {
    table: HashMap<u128, usize>,
    positions: Vec<Scalar>,
    normals: Vec<Scalar>,
    uvs: Vec<Scalar>,
    indices: Vec<u32>,
    count: usize,
}

impl Indexer {
    /// The state after the corners `seen`, none of which had an error.
    spec fn holds(&self, doc: ObjView, seen: Seq<FaceAttribute>) -> bool {
        let vertices = unique(seen);
        &&& first_error(doc, seen) is None
        &&& self.count == vertices.len()
        &&& forall|i: int|
            0 <= i < vertices.len() ==> self.table@.contains_key(
                key(#[trigger] vertices[i]) as u128,
            ) && self.table@[key(vertices[i]) as u128] == i
        &&& forall|k: u128| #[trigger]
            self.table@.contains_key(k) ==> 0 <= self.table@[k] < vertices.len() && key(
                vertices[self.table@[k] as int],
            ) == k
        &&& self.positions@ == flat_positions(doc, vertices)
        &&& self.normals@ == flat_normals(doc, vertices)
        &&& self.uvs@ == flat_uvs(doc, vertices)
        &&& self.indices@ == index_list(seen, vertices)
    }

    fn new() -> (r: Indexer)
        ensures
            forall|doc: ObjView| r.holds(doc, Seq::empty()),
    {
        let r = Indexer {
            table: HashMap::new(),
            positions: Vec::new(),
            normals: Vec::new(),
            uvs: Vec::new(),
            indices: Vec::new(),
            count: 0,
        };
        assert forall|doc: ObjView| r.holds(doc, Seq::empty()) by {
            let none = Seq::<FaceAttribute>::empty();
            assert(unique(none) =~= none);
            assert(r.positions@ =~= flat_positions(doc, none));
            assert(r.normals@ =~= flat_normals(doc, none));
            assert(r.uvs@ =~= flat_uvs(doc, none));
            assert(r.indices@ =~= index_list(none, none));
        }
        r
    }

    /// Indexes one more corner: a corner met before gets the index it got
    /// then, a new one is looked up and gets the next index.
    fn add(
        &mut self,
        obj: &Obj,
        attribute: FaceAttribute,
        Ghost(seen): Ghost<Seq<FaceAttribute>>,
    ) -> (r: Result<(), WavefrontObjParseErrorDetail>)
        requires
            old(self).holds(obj@, seen),
            seen.len() < u32::MAX,
        ensures
            match r {
                Ok(_) => final(self).holds(obj@, seen.push(attribute)),
                Err(e) => first_error(obj@, seen.push(attribute)) == Some(e@),
            },
    {
        broadcast use vstd::std_specs::hash::group_hash_axioms;

        let ghost doc = obj@;
        let ghost vertices = unique(seen);
        let ghost next = seen.push(attribute);
        proof {
            lemma_unique(seen);
            lemma_unique(next);
            lemma_no_error(doc, seen);
            assert(next.drop_last() =~= seen);
        }
        let k = corner_key(&attribute);
        let found = match self.table.get(&k) {
            Some(index) => Some(*index),
            None => None,
        };
        match found {
            Some(index) => {
                proof {
                    lemma_key_injective(vertices[index as int], attribute);
                    assert(vertices.contains(attribute));
                    lemma_slot(vertices, index as int);
                    assert(seen.contains(attribute));
                    let at = choose|i: int| 0 <= i < seen.len() && seen[i] == attribute;
                    assert(resolve_error(doc, seen[at]) is None);
                    assert(index_list(next, vertices) =~= index_list(seen, vertices).push(
                        index as u32,
                    ));
                }
                self.indices.push(index as u32);
                Ok(())
            },
            None => {
                proof {
                    if vertices.contains(attribute) {
                        let i = choose|i: int| 0 <= i < vertices.len() && vertices[i] == attribute;
                        assert(self.table@.contains_key(key(vertices[i]) as u128));
                    }
                    assert(unique(next) == vertices.push(attribute));
                }
                let (position, normal, uv) = match resolve(obj, &attribute) {
                    Err(e) => { return Err(e); },
                    Ok(found) => found,
                };
                self.positions.push(position.0);
                self.positions.push(position.1);
                self.positions.push(position.2);
                self.normals.push(normal.0);
                self.normals.push(normal.1);
                self.normals.push(normal.2);
                self.uvs.push(uv.0);
                self.uvs.push(uv.1);
                let index = self.count;
                self.table.insert(k, index);
                self.count = self.count + 1;
                self.indices.push(index as u32);
                proof {
                    let grown = vertices.push(attribute);
                    assert(self.positions@ =~= flat_positions(doc, grown));
                    assert(self.normals@ =~= flat_normals(doc, grown));
                    assert(self.uvs@ =~= flat_uvs(doc, grown));
                    assert forall|j: int| 0 <= j < seen.len() implies slot(grown, seen[j]) == slot(
                        vertices,
                        seen[j],
                    ) by {
                        assert(seen.contains(seen[j]));
                        let at = slot(vertices, seen[j]);
                        assert(vertices.contains(seen[j]));
                        assert(grown[at] == seen[j]);
                        lemma_slot(grown, at);
                    }
                    lemma_slot(grown, vertices.len() as int);
                    assert(self.indices@ =~= index_list(next, grown));
                    assert forall|i: int| 0 <= i < grown.len() implies self.table@.contains_key(
                        key(#[trigger] grown[i]) as u128,
                    ) && self.table@[key(grown[i]) as u128] == i by {
                        if i < vertices.len() {
                            assert(grown[i] == vertices[i]);
                            if key(vertices[i]) == key(attribute) {
                                lemma_key_injective(vertices[i], attribute);
                            }
                        }
                    }
                }
                Ok(())
            },
        }
    }
}

impl MeshData {
    /// A mesh without a vertex.
    pub fn new() -> (r: Self)
        ensures
            r@.positions.len() == 0,
            r@.normals.len() == 0,
            r@.colors.len() == 0,
            r@.uvs.len() == 0,
            r@.indices.len() == 0,
    {
        Self {
            positions: Vec::new(),
            indices: Vec::new(),
            uvs: Vec::new(),
            colors: Vec::new(),
            normals: Vec::new(),
        }
    }

    /// The number of corners of the triangulated faces, where a 32-bit
    /// index list can hold them.
    fn corner_count(obj: &Obj) -> (r: Option<usize>)
        ensures
            match r {
                Some(total) => total == corner_stream(obj@.faces).len() && total <= u32::MAX,
                None => corner_stream(obj@.faces).len() > u32::MAX,
            },
    {
        let ghost faces = obj@.faces;
        let mut total: usize = 0;
        let mut f: usize = 0;
        assert(faces.take(0) =~= Seq::<Seq<FaceAttribute>>::empty());
        while f < obj.faces.len()
            invariant
                faces == obj@.faces,
                f <= obj.faces.len(),
                total == corner_stream(faces.take(f as int)).len(),
                total <= u32::MAX,
            decreases obj.faces.len() - f,
        {
            let n = obj.faces[f].attributes.len();
            let triangles = if n < 3 {
                0
            } else {
                n - 2
            };
            proof {
                lemma_stream_step(faces, f as int);
                lemma_stream_prefix(faces, f + 1);
            }
            if triangles > (0xffff_ffff - total) / 3 {
                return None;
            }
            total = total + 3 * triangles;
            f = f + 1;
        }
        assert(faces.take(f as int) =~= faces);
        Some(total)
    }

    /// Builds the indexed mesh of a document.
    pub fn from_obj(obj: &Obj) -> (r: Result<MeshData, WavefrontObjParseErrorDetail>)
        ensures
            mesh_outcome(r) == indexed_mesh(obj@),
    {
        if Self::corner_count(obj).is_none() {
            return Err(WavefrontObjParseErrorDetail::TooManyCorners);
        }
        let ghost doc = obj@;
        let ghost faces = obj@.faces;
        let ghost stream = corner_stream(faces);
        let ghost mut seen = Seq::<FaceAttribute>::empty();
        let mut state = Indexer::new();
        let mut f: usize = 0;
        assert(faces.take(0) =~= Seq::<Seq<FaceAttribute>>::empty());
        while f < obj.faces.len()
            invariant
                doc == obj@,
                faces == obj@.faces,
                stream == corner_stream(faces),
                stream.len() <= u32::MAX,
                f <= obj.faces.len(),
                seen == corner_stream(faces.take(f as int)),
                state.holds(doc, seen),
            decreases obj.faces.len() - f,
        {
            let face = &obj.faces[f];
            let triangles = triangulate(face.attributes(), &obj.positions);
            let ghost base = seen;
            let ghost fan = fan_corners(faces[f as int]);
            proof {
                lemma_stream_step(faces, f as int);
                lemma_stream_prefix(faces, f + 1);
                assert(fan.take(0) =~= Seq::<FaceAttribute>::empty());
                assert(base + fan.take(0) =~= base);
            }
            let mut t: usize = 0;
            while t < triangles.len()
                invariant
                    doc == obj@,
                    stream == corner_stream(doc.faces),
                    stream.len() <= u32::MAX,
                    f < faces.len(),
                    fan == fan_corners(faces[f as int]),
                    fan.len() == 3 * triangles@.len(),
                    faces[f as int] == face@,
                    forall|i: int|
                        0 <= i < triangles@.len() ==> (#[trigger] triangles@[i])@ == fan_triangle(
                            face@,
                            i,
                        ),
                    base.len() + fan.len() <= stream.len(),
                    stream.take((base.len() + fan.len()) as int) == base + fan,
                    t <= triangles.len(),
                    seen == base + fan.take(3 * t),
                    state.holds(doc, seen),
                decreases triangles.len() - t,
            {
                let triangle = &triangles[t];
                let mut c: usize = 0;
                while c < 3
                    invariant
                        doc == obj@,
                        stream == corner_stream(doc.faces),
                        stream.len() <= u32::MAX,
                        f < faces.len(),
                        fan == fan_corners(faces[f as int]),
                        fan.len() == 3 * triangles@.len(),
                        faces[f as int] == face@,
                        t < triangles.len(),
                        triangle@ == fan_triangle(face@, t as int),
                        base.len() + fan.len() <= stream.len(),
                        stream.take((base.len() + fan.len()) as int) == base + fan,
                        c <= 3,
                        seen == base + fan.take(3 * t + c),
                        state.holds(doc, seen),
                    decreases 3 - c,
                {
                    let attribute = triangle[c];
                    let ghost at = 3 * t + c;
                    proof {
                        assert(attribute == fan[at]);
                        assert(seen.push(attribute) =~= base + fan.take(at + 1));
                        assert(base + fan.take(at + 1) =~= (base + fan).take(base.len() + at + 1));
                        assert(stream.take((base.len() + fan.len()) as int).take(base.len() + at + 1)
                            =~= stream.take(base.len() + at + 1));
                        assert(seen.push(attribute) == stream.take(base.len() + at + 1));
                    }
                    match state.add(obj, attribute, Ghost(seen)) {
                        Err(e) => {
                            proof {
                                lemma_first_error_stays(doc, stream, base.len() + at + 1);
                            }
                            return Err(e);
                        },
                        Ok(_) => {},
                    }
                    proof {
                        seen = seen.push(attribute);
                    }
                    c = c + 1;
                }
                t = t + 1;
            }
            proof {
                assert(fan.take(3 * t) =~= fan);
            }
            f = f + 1;
        }
        proof {
            assert(faces.take(f as int) =~= faces);
        }
        Ok(
            MeshData {
                positions: state.positions,
                indices: state.indices,
                colors: Vec::new(),
                normals: state.normals,
                uvs: state.uvs,
            },
        )
    }
}

/// In the mesh of a document, the index list has one entry for each corner
/// of the triangulated faces, and two corners have the same entry exactly
/// when they have the same three indices.
pub proof fn lemma_same_corner_same_index(doc: ObjView, i: int, j: int)
    requires
        indexed_mesh(doc) is Ok,
        0 <= i < corner_stream(doc.faces).len(),
        0 <= j < corner_stream(doc.faces).len(),
    ensures
        indexed_mesh(doc)->Ok_0.indices.len() == corner_stream(doc.faces).len(),
        corner_stream(doc.faces)[i] == corner_stream(doc.faces)[j] <==> indexed_mesh(
            doc,
        )->Ok_0.indices[i] == indexed_mesh(doc)->Ok_0.indices[j],
{
    let stream = corner_stream(doc.faces);
    let vertices = unique(stream);
    lemma_unique(stream);
    assert(stream.contains(stream[i]));
    assert(stream.contains(stream[j]));
    assert(vertices.contains(stream[i]));
    assert(vertices.contains(stream[j]));
}

/// In the mesh of a document, each entry of the index list names a vertex,
/// and that vertex holds what the corner's indices point to.
pub proof fn lemma_index_names_vertex(doc: ObjView, i: int)
    requires
        indexed_mesh(doc) is Ok,
        0 <= i < corner_stream(doc.faces).len(),
    ensures
        3 * indexed_mesh(doc)->Ok_0.indices[i] + 2 < indexed_mesh(doc)->Ok_0.positions.len(),
        indexed_mesh(doc)->Ok_0.positions[3 * indexed_mesh(doc)->Ok_0.indices[i]] == position_of(
            doc,
            corner_stream(doc.faces)[i],
        ).0,
        indexed_mesh(doc)->Ok_0.positions[3 * indexed_mesh(doc)->Ok_0.indices[i] + 1]
            == position_of(doc, corner_stream(doc.faces)[i]).1,
        indexed_mesh(doc)->Ok_0.positions[3 * indexed_mesh(doc)->Ok_0.indices[i] + 2]
            == position_of(doc, corner_stream(doc.faces)[i]).2,
{
    let stream = corner_stream(doc.faces);
    let vertices = unique(stream);
    lemma_unique(stream);
    assert(stream.contains(stream[i]));
    assert(vertices.contains(stream[i]));
    let at = slot(vertices, stream[i]);
    assert(0 <= at < vertices.len() && vertices[at] == stream[i]);
}

/// The mesh of a document has as many vertices as the triangulated faces
/// have distinct corners.
pub proof fn lemma_vertex_count(doc: ObjView)
    requires
        indexed_mesh(doc) is Ok,
    ensures
        indexed_mesh(doc)->Ok_0.positions.len() == 3 * corner_stream(doc.faces).to_set().len(),
        indexed_mesh(doc)->Ok_0.normals.len() == 3 * corner_stream(doc.faces).to_set().len(),
        indexed_mesh(doc)->Ok_0.uvs.len() == 2 * corner_stream(doc.faces).to_set().len(),
{
    let stream = corner_stream(doc.faces);
    lemma_unique(stream);
    unique(stream).unique_seq_to_set();
    assert(unique(stream).to_set() =~= stream.to_set());
}

/// A corner that was met before adds no vertex, and a new one adds one.
pub proof fn lemma_repeated_corner(stream: Seq<FaceAttribute>, a: FaceAttribute)
    ensures
        stream.contains(a) ==> unique(stream.push(a)) == unique(stream),
        !stream.contains(a) ==> unique(stream.push(a)) == unique(stream).push(a),
{
    lemma_unique(stream);
    assert(stream.push(a).drop_last() =~= stream);
}

/// A document has one mesh: what `MeshData::from_obj` returns for it twice
/// has the same value.
pub proof fn lemma_mesh_deterministic(
    doc: ObjView,
    first: Result<MeshData, WavefrontObjParseErrorDetail>,
    second: Result<MeshData, WavefrontObjParseErrorDetail>,
)
    requires
        mesh_outcome(first) == indexed_mesh(doc),
        mesh_outcome(second) == indexed_mesh(doc),
    ensures
        mesh_outcome(first) == mesh_outcome(second),
{
}

/// The `i`-th vertex of a flat list of positions.
pub open spec fn vertex_at(positions: Seq<Scalar>, i: int) -> Vec3 {
    Vec3(positions[3 * i], positions[3 * i + 1], positions[3 * i + 2])
}

/// Coordinate by coordinate, the smaller numbers of two points.
pub open spec fn lower(lowest: Vec3, vertex: Vec3) -> Vec3 {
    Vec3(
        lowest.0.min_spec(vertex.0),
        lowest.1.min_spec(vertex.1),
        lowest.2.min_spec(vertex.2),
    )
}

/// Coordinate by coordinate, the larger numbers of two points.
pub open spec fn higher(highest: Vec3, vertex: Vec3) -> Vec3 {
    Vec3(
        highest.0.max_spec(vertex.0),
        highest.1.max_spec(vertex.1),
        highest.2.max_spec(vertex.2),
    )
}

/// Coordinate by coordinate, the smallest numbers of the first `n` vertices.
pub open spec fn lowest(positions: Seq<Scalar>, n: nat) -> Vec3
    decreases n,
{
    if n <= 1 {
        vertex_at(positions, 0)
    } else {
        lower(lowest(positions, (n - 1) as nat), vertex_at(positions, n - 1))
    }
}

/// Coordinate by coordinate, the largest numbers of the first `n` vertices.
pub open spec fn highest(positions: Seq<Scalar>, n: nat) -> Vec3
    decreases n,
{
    if n <= 1 {
        vertex_at(positions, 0)
    } else {
        higher(highest(positions, (n - 1) as nat), vertex_at(positions, n - 1))
    }
}

impl MeshData {
    fn get_lowest(vertex: &Vec3, lowest: &Option<Vec3>) -> (r: Vec3)
        ensures
            r == match *lowest {
                Some(found) => lower(found, *vertex),
                None => *vertex,
            },
    {
        let lowest = match lowest {
            Some(lowest) => lowest,
            None => { return *vertex; },
        };
        Vec3(lowest.0.min(vertex.0), lowest.1.min(vertex.1), lowest.2.min(vertex.2))
    }

    fn get_highest(vertex: &Vec3, highest: &Option<Vec3>) -> (r: Vec3)
        ensures
            r == match *highest {
                Some(found) => higher(found, *vertex),
                None => *vertex,
            },
    {
        let highest = match highest {
            Some(highest) => highest,
            None => { return *vertex; },
        };
        Vec3(highest.0.max(vertex.0), highest.1.max(vertex.1), highest.2.max(vertex.2))
    }

    /// The box around the vertices: none where there is no vertex. Numbers
    /// left over after the last whole vertex are not read.
    pub fn bounding_box(&self) -> (r: Option<BoundingBox>)
        ensures
            self@.positions.len() < 3 ==> r is None,
            self@.positions.len() >= 3 ==> r is Some && r->0.low() == lowest(
                self@.positions,
                (self@.positions.len() / 3) as nat,
            ) && r->0.high() == highest(self@.positions, (self@.positions.len() / 3) as nat),
    {
        let mut lowest: Option<Vec3> = None;
        let mut highest: Option<Vec3> = None;
        let n = self.positions.len() / 3;
        let mut i: usize = 0;
        while i < n
            invariant
                n == self.positions@.len() / 3,
                self.positions@.len() <= usize::MAX,
                i <= n,
                i == 0 ==> lowest is None && highest is None,
                i > 0 ==> lowest == Some(self::lowest(self.positions@, i as nat)) && highest
                    == Some(self::highest(self.positions@, i as nat)),
            decreases n - i,
        {
            assert(3 * i + 2 < self.positions@.len()) by {
                assert(i + 1 <= self.positions@.len() / 3);
            }
            let vertex = Vec3(
                self.positions[3 * i],
                self.positions[3 * i + 1],
                self.positions[3 * i + 2],
            );
            assert(vertex == vertex_at(self.positions@, i as int));
            lowest = Some(Self::get_lowest(&vertex, &lowest));
            highest = Some(Self::get_highest(&vertex, &highest));
            i = i + 1;
        }
        match (lowest, highest) {
            (Some(low), Some(high)) => Some(BoundingBox::new(low, high)),
            _ => None,
        }
    }
}

/// Every number of the first `n` vertices lies between the lowest and the
/// highest of its coordinate, where it is a number at all.
pub proof fn lemma_bounds(positions: Seq<Scalar>, n: nat, i: int, c: int)
    requires
        0 <= i < n,
        0 <= c < 3,
        !pick(vertex_at(positions, i), c).is_nan(),
    ensures
        pick(lowest(positions, n), c).at_most(pick(vertex_at(positions, i), c)),
        pick(vertex_at(positions, i), c).at_most(pick(highest(positions, n), c)),
    decreases n,
{
    if n > 1 {
        if i < n - 1 {
            lemma_bounds(positions, (n - 1) as nat, i, c);
        }
    }
}

/// Where no coordinate of the first `n` vertices is no number, each of
/// these vertices lies in the box between the lowest and the highest.
pub proof fn lemma_box_holds_vertices(positions: Seq<Scalar>, n: nat, b: BoundingBox, i: int)
    requires
        0 <= i < n,
        b.low() == lowest(positions, n),
        b.high() == highest(positions, n),
        forall|c: int| 0 <= c < 3 ==> !(#[trigger] pick(vertex_at(positions, i), c)).is_nan(),
    ensures
        b.holds(vertex_at(positions, i)),
{
    lemma_bounds(positions, n, i, 0);
    lemma_bounds(positions, n, i, 1);
    lemma_bounds(positions, n, i, 2);
    assert(pick(vertex_at(positions, i), 0) == vertex_at(positions, i).0);
    assert(pick(vertex_at(positions, i), 1) == vertex_at(positions, i).1);
    assert(pick(vertex_at(positions, i), 2) == vertex_at(positions, i).2);
}

/// The number 1000.
pub open spec fn thousand() -> Scalar {
    Scalar { bits: 0x447a_0000 }
}

/// The number one.
pub open spec fn one() -> Scalar {
    Scalar { bits: 0x3f80_0000 }
}

/// Positive zero.
pub open spec fn zero() -> Scalar {
    Scalar { bits: 0 }
}

/// Three line segments from the origin, 1000 long, along x, y and z; the
/// first is red, the second green, the third blue.
pub open spec fn axes_view() -> MeshView {
    MeshView {
        positions: seq![
            zero(), zero(), zero(), thousand(), zero(), zero(),
            zero(), zero(), zero(), zero(), thousand(), zero(),
            zero(), zero(), zero(), zero(), zero(), thousand(),
        ],
        normals: Seq::empty(),
        colors: seq![
            one(), zero(), zero(), one(), zero(), zero(),
            zero(), one(), zero(), zero(), one(), zero(),
            zero(), zero(), one(), zero(), zero(), one(),
        ],
        uvs: Seq::empty(),
        indices: seq![0u32, 1u32, 2u32, 3u32, 4u32, 5u32, 6u32, 7u32, 8u32],
    }
}

/// The number `c` of the `i`-th group of `width` numbers of `data`:
/// `missing` where the data end before the group, 0 where they end in it.
pub open spec fn chunk_value(data: Seq<Scalar>, width: int, i: int, c: int, missing: Scalar) -> Scalar {
    if width * i >= data.len() {
        missing
    } else if width * i + c < data.len() {
        data[width * i + c]
    } else {
        zero()
    }
}

/// The number of vertices of a vertex buffer: a group of fewer than three
/// numbers at the end of the positions counts as one.
pub open spec fn chunk_count(len: int) -> int {
    (len + 2) / 3
}

/// The `k`-th number of the vertex buffer. A vertex takes eleven numbers:
/// position, normal, colour, and the two texture coordinates. A vertex
/// without a colour is white; one without a normal or without a texture
/// coordinate has zeros there.
pub open spec fn buffer_value(mesh: MeshView, k: int) -> Scalar {
    let i = k / 11;
    let c = k % 11;
    if c < 3 {
        chunk_value(mesh.positions, 3, i, c, zero())
    } else if c < 6 {
        chunk_value(mesh.normals, 3, i, c - 3, zero())
    } else if c < 9 {
        chunk_value(mesh.colors, 3, i, c - 6, one())
    } else {
        chunk_value(mesh.uvs, 2, i, c - 9, zero())
    }
}

/// The vertices of a mesh, interleaved for upload.
pub open spec fn interleaved(mesh: MeshView) -> Seq<Scalar> {
    Seq::new(
        (11 * chunk_count(mesh.positions.len() as int)) as nat,
        |k: int| buffer_value(mesh, k),
    )
}

fn chunk_component(data: &Vec<Scalar>, width: usize, i: usize, c: usize, missing: Scalar) -> (r:
    Scalar)
    requires
        1 <= width <= 3,
        c < width,
        3 * i <= usize::MAX,
    ensures
        r == chunk_value(data@, width as int, i as int, c as int, missing),
{
    assert(width * i <= 3 * i) by (nonlinear_arith)
        requires
            width <= 3,
            i >= 0,
    ;
    assert(width * i >= 0) by (nonlinear_arith)
        requires
            width >= 0,
            i >= 0,
    ;
    let start = width * i;
    if start >= data.len() {
        missing
    } else if c < data.len() - start {
        data[start + c]
    } else {
        Scalar::zero()
    }
}

impl MeshData {
    /// The three axes as coloured line segments.
    pub fn axes() -> (r: Self)
        ensures
            r@ == axes_view(),
    {
        let o = Scalar::zero();
        let i = Scalar::one();
        let k = Scalar::from_bits(0x447a_0000);
        let mut mesh_data = MeshData::new();
        mesh_data.positions = vec![o, o, o, k, o, o, o, o, o, o, k, o, o, o, o, o, o, k];
        mesh_data.colors = vec![i, o, o, i, o, o, o, i, o, o, i, o, o, o, i, o, o, i];
        mesh_data.indices = vec![0, 1, 2, 3, 4, 5, 6, 7, 8];
        assert(mesh_data@.positions =~= axes_view().positions);
        assert(mesh_data@.colors =~= axes_view().colors);
        assert(mesh_data@.indices =~= axes_view().indices);
        assert(mesh_data@.normals =~= axes_view().normals);
        assert(mesh_data@.uvs =~= axes_view().uvs);
        mesh_data
    }

    /// The vertices as a renderer takes them, eleven numbers each.
    pub fn vertex_buffer(&self) -> (r: Vec<Scalar>)
        ensures
            r@ == interleaved(self@),
    {
        let n = self.positions.len();
        let count = n / 3 + (if n % 3 == 0 {
            0
        } else {
            1
        });
        assert(count == chunk_count(n as int));
        let mut vbo_data: Vec<Scalar> = Vec::new();
        let mut i: usize = 0;
        while i < count
            invariant
                n == self.positions@.len(),
                count == chunk_count(n as int),
                i <= count,
                vbo_data@.len() == 11 * i,
                forall|k: int| 0 <= k < 11 * i ==> vbo_data@[k] == buffer_value(self@, k),
            decreases count - i,
        {
            let mut c: usize = 0;
            while c < 11
                invariant
                    n == self.positions@.len(),
                    count == chunk_count(n as int),
                    i < count,
                    n <= usize::MAX,
                    c <= 11,
                    vbo_data@.len() == 11 * i + c,
                    forall|k: int| 0 <= k < 11 * i + c ==> vbo_data@[k] == buffer_value(self@, k),
                decreases 11 - c,
            {
                let value = if c < 3 {
                    chunk_component(&self.positions, 3, i, c, Scalar::zero())
                } else if c < 6 {
                    chunk_component(&self.normals, 3, i, c - 3, Scalar::zero())
                } else if c < 9 {
                    chunk_component(&self.colors, 3, i, c - 6, Scalar::one())
                } else {
                    chunk_component(&self.uvs, 2, i, c - 9, Scalar::zero())
                };
                assert(value == buffer_value(self@, 11 * i + c));
                vbo_data.push(value);
                c = c + 1;
            }
            i = i + 1;
        }
        assert(vbo_data@ =~= interleaved(self@));
        vbo_data
    }
}

/// A face of `n >= 3` corners is cut into `n - 2` triangles of three
/// corners each, and each of them starts at the first corner of the face.
pub proof fn lemma_fan(attributes: Seq<FaceAttribute>, i: int)
    requires
        attributes.len() >= 3,
        0 <= i < fan_len(attributes.len() as int),
    ensures
        fan_len(attributes.len() as int) == attributes.len() - 2,
        fan_triangle(attributes, i).len() == 3,
        fan_triangle(attributes, i)[0] == attributes[0],
        fan_triangle(attributes, i)[1] == attributes[i + 1],
        fan_triangle(attributes, i)[2] == attributes[i + 2],
{
}

/// The coordinates of a list of points, one point after the other.
pub open spec fn flat_points(points: Seq<Vec3>) -> Seq<Scalar> {
    Seq::new(3 * points.len(), |k: int| pick(points[k / 3], k % 3))
}

/// The twelve edges of a box as pairs of corners: the four edges of the
/// front, the four of the back, and the four between them.
pub open spec fn box_edges() -> Seq<u32> {
    seq![
        0u32, 1u32, 1u32, 3u32, 3u32, 2u32, 2u32, 0u32,
        4u32, 5u32, 5u32, 7u32, 7u32, 6u32, 6u32, 4u32,
        0u32, 4u32, 1u32, 5u32, 2u32, 6u32, 3u32, 7u32,
    ]
}

/// Red, as many times as `count` says.
pub open spec fn reds(count: int) -> Seq<Scalar> {
    Seq::new(
        (3 * count) as nat,
        |k: int|
            if k % 3 == 0 {
                one()
            } else {
                zero()
            },
    )
}

/// The edges of a box as a mesh of red lines: the eight corners of the box
/// as vertices, the edges as index pairs, and red once for each index.
pub open spec fn box_view(corners: Seq<Vec3>) -> MeshView {
    MeshView {
        positions: flat_points(corners),
        normals: Seq::empty(),
        colors: reds(24),
        uvs: Seq::empty(),
        indices: box_edges(),
    }
}

impl MeshData {
    /// The edges of a bounding box as a mesh of red lines.
    pub fn from_bounding_box(bounding_box: &BoundingBox) -> (r: Self)
        ensures
            r@ == box_view(bounding_box.corners()),
    {
        let vertices = bounding_box.get_vertices();
        let mut mesh_data = MeshData::new();
        let mut i: usize = 0;
        while i < 8
            invariant
                i <= 8,
                mesh_data.positions@ == flat_points(vertices@.take(i as int)),
                mesh_data.normals@.len() == 0,
                mesh_data.uvs@.len() == 0,
            decreases 8 - i,
        {
            let vertex = vertices[i];
            mesh_data.positions.push(vertex.0);
            mesh_data.positions.push(vertex.1);
            mesh_data.positions.push(vertex.2);
            assert(mesh_data.positions@ =~= flat_points(vertices@.take(i + 1)));
            i = i + 1;
        }
        assert(vertices@.take(8) =~= vertices@);
        mesh_data.indices = vec![
            0, 1, 1, 3, 3, 2, 2, 0, 4, 5, 5, 7, 7, 6, 6, 4, 0, 4, 1, 5, 2, 6, 3, 7,
        ];
        let mut colors: Vec<Scalar> = Vec::new();
        let mut k: usize = 0;
        while k < mesh_data.indices.len()
            invariant
                mesh_data.indices@.len() == 24,
                k <= 24,
                colors@ == reds(k as int),
            decreases 24 - k,
        {
            colors.push(Scalar::one());
            colors.push(Scalar::zero());
            colors.push(Scalar::zero());
            assert(colors@ =~= reds(k + 1));
            k = k + 1;
        }
        mesh_data.colors = colors;
        assert(mesh_data@.indices =~= box_edges());
        assert(mesh_data@.normals =~= Seq::<Scalar>::empty());
        assert(mesh_data@.uvs =~= Seq::<Scalar>::empty());
        mesh_data
    }
}

} // verus!
