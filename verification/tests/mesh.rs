use scop::boundingbox::BoundingBox;
use scop::mesh::{triangulate, MeshData};
use scop::scalar::{Scalar, Vec3, Vec4};
use scop::wavefront::{
    AttributeKind, Face, FaceAttribute, Obj, WavefrontObjParseErrorDetail,
};
use std::num::ParseFloatError;

fn decode(token: &str) -> Result<Scalar, ParseFloatError> {
    token.parse::<f32>().map(|x| Scalar::from_bits(x.to_bits()))
}

fn s(x: f32) -> Scalar {
    Scalar::from_bits(x.to_bits())
}

fn floats(values: &[Scalar]) -> Vec<f32> {
    values.iter().map(|v| f32::from_bits(v.to_bits())).collect()
}

fn corner(p: u32) -> FaceAttribute {
    FaceAttribute { position_index: p, texture_coordinate_index: None, normal_index: None }
}

fn full(p: u32, t: Option<u32>, n: Option<u32>) -> FaceAttribute {
    FaceAttribute { position_index: p, texture_coordinate_index: t, normal_index: n }
}

fn parse(text: &str) -> Obj {
    Obj::from_string(text, None, decode).unwrap()
}

fn point(v: Vec3) -> (f32, f32, f32) {
    (
        f32::from_bits(v.0.to_bits()),
        f32::from_bits(v.1.to_bits()),
        f32::from_bits(v.2.to_bits()),
    )
}

#[test]
fn quad_gives_two_triangles() {
    let (a, b, c, d) = (corner(1), corner(2), corner(3), corner(4));
    let triangles = triangulate(&[a, b, c, d], &Vec::new());
    assert_eq!(triangles, vec![[a, b, c], [a, c, d]]);
}

#[test]
fn triangle_stays_as_it_is() {
    let (a, b, c) = (full(1, Some(2), Some(3)), corner(2), corner(3));
    assert_eq!(triangulate(&[a, b, c], &Vec::new()), vec![[a, b, c]]);
}

#[test]
fn fan_has_two_triangles_less_than_corners() {
    for n in 3u32..12 {
        let face: Vec<FaceAttribute> = (1..=n).map(corner).collect();
        let triangles = triangulate(&face, &Vec::new());
        assert_eq!(triangles.len() as u32, n - 2);
        for (i, triangle) in triangles.iter().enumerate() {
            assert_eq!(triangle[0], face[0]);
            assert_eq!(triangle[1], face[i + 1]);
            assert_eq!(triangle[2], face[i + 2]);
        }
    }
}

#[test]
fn short_faces_have_no_triangle() {
    let none: Vec<[FaceAttribute; 3]> = Vec::new();
    assert_eq!(triangulate(&[], &Vec::new()), none);
    assert_eq!(triangulate(&[corner(1)], &Vec::new()), none);
    assert_eq!(triangulate(&[corner(1), corner(2)], &Vec::new()), none);
}

#[test]
fn shared_corners_become_one_vertex() {
    let obj = parse("v 0 0 0\nv 1 0 0\nv 1 1 0\nv 0 1 0\nf 1 2 3\nf 1 3 4\n");
    let mesh = MeshData::from_obj(&obj).unwrap();
    assert_eq!(mesh.indices, vec![0, 1, 2, 0, 2, 3]);
    assert_eq!(
        floats(&mesh.positions),
        vec![0.0, 0.0, 0.0, 1.0, 0.0, 0.0, 1.0, 1.0, 0.0, 0.0, 1.0, 0.0]
    );
    assert_eq!(mesh.normals.len(), 12);
    assert_eq!(mesh.uvs.len(), 8);
    assert!(mesh.colors.is_empty());
}

#[test]
fn quad_face_is_indexed_as_a_fan() {
    let obj = parse("v 0 0 0\nv 1 0 0\nv 1 1 0\nv 0 1 0\nf 1 2 3 4\n");
    let mesh = MeshData::from_obj(&obj).unwrap();
    assert_eq!(mesh.indices, vec![0, 1, 2, 0, 2, 3]);
    assert_eq!(mesh.positions.len(), 12);
}

#[test]
fn same_position_with_other_indices_is_another_vertex() {
    let text = "v 0 0 0\nv 1 0 0\nv 0 1 0\nvt 0.5 0.25\nvt 0.5 0.25\nvn 0 0 2\nf 1/1/1 2/1/1 3/1/1\nf 1/2/1 2/1/1 1//1\nf 1 1/1 1/1/1\n";
    let obj = parse(text);
    let mesh = MeshData::from_obj(&obj).unwrap();
    assert_eq!(mesh.indices, vec![0, 1, 2, 3, 1, 4, 5, 6, 0]);
    assert_eq!(mesh.positions.len(), 7 * 3);
    assert_eq!(mesh.normals.len(), 7 * 3);
    assert_eq!(mesh.uvs.len(), 7 * 2);
    assert_eq!(floats(&mesh.normals[0..3]), vec![0.0, 0.0, 2.0]);
    assert_eq!(floats(&mesh.uvs[0..2]), vec![0.5, 0.25]);
    assert_eq!(floats(&mesh.uvs[6..8]), vec![0.5, 0.25]);
    assert_eq!(floats(&mesh.uvs[8..10]), vec![0.0, 0.0]);
    assert_eq!(floats(&mesh.normals[12..15]), vec![0.0, 0.0, 2.0]);
    assert_eq!(floats(&mesh.normals[15..18]), vec![0.0, 0.0, 0.0]);
    assert_eq!(floats(&mesh.uvs[10..12]), vec![0.0, 0.0]);
    assert_eq!(floats(&mesh.uvs[12..14]), vec![0.5, 0.25]);
}

#[test]
fn building_twice_gives_the_same_mesh() {
    let obj = parse("v 0 0 0\nv 1 0 0\nv 1 1 0\nv 0 1 0\nvn 0 0 1\nf 1//1 2//1 3//1 4//1\n");
    let a = MeshData::from_obj(&obj).unwrap();
    let b = MeshData::from_obj(&obj).unwrap();
    assert_eq!(a.positions, b.positions);
    assert_eq!(a.normals, b.normals);
    assert_eq!(a.uvs, b.uvs);
    assert_eq!(a.colors, b.colors);
    assert_eq!(a.indices, b.indices);
}

#[test]
fn position_out_of_range_is_an_error() {
    let obj = parse("v 0 0 0\nv 1 0 0\nf 1 2 3\n");
    match MeshData::from_obj(&obj) {
        Err(WavefrontObjParseErrorDetail::IndexOutOfRange { kind, index, length }) => {
            assert_eq!(kind, AttributeKind::Position);
            assert_eq!(index, 3);
            assert_eq!(length, 2);
        }
        Err(other) => panic!("{:?}", other),
        Ok(_) => panic!("the mesh was built"),
    }
}

#[test]
fn uv_and_normal_out_of_range_are_errors() {
    let obj = parse("v 0 0 0\nvt 0 0\nvn 0 0 1\nf 1/1/1 1/2/1 1/1/1\n");
    assert!(matches!(
        MeshData::from_obj(&obj),
        Err(WavefrontObjParseErrorDetail::IndexOutOfRange {
            kind: AttributeKind::Uv,
            index: 2,
            length: 1
        })
    ));
    let obj = parse("v 0 0 0\nvt 0 0\nf 1/1 1/1/1 1/1\n");
    assert!(matches!(
        MeshData::from_obj(&obj),
        Err(WavefrontObjParseErrorDetail::IndexOutOfRange {
            kind: AttributeKind::Normal,
            index: 1,
            length: 0
        })
    ));
    let obj = parse("v 0 0 0\nvt 0 0\nvn 0 0 1\nf 1/0/1 1/1/1 1/1/1\n");
    assert!(matches!(
        MeshData::from_obj(&obj),
        Err(WavefrontObjParseErrorDetail::IndexOutOfRange {
            kind: AttributeKind::Uv,
            index: 0,
            length: 1
        })
    ));
    let obj = parse("v 0 0 0\nf 1/7/9 1 1\n");
    assert!(matches!(
        MeshData::from_obj(&obj),
        Err(WavefrontObjParseErrorDetail::IndexOutOfRange {
            kind: AttributeKind::Normal,
            index: 9,
            length: 0
        })
    ));
}

#[test]
fn first_bad_corner_is_reported() {
    let obj = parse("v 0 0 0\nf 1 5 6 7\nf 9 9 9\n");
    assert!(matches!(
        MeshData::from_obj(&obj),
        Err(WavefrontObjParseErrorDetail::IndexOutOfRange {
            kind: AttributeKind::Position,
            index: 5,
            length: 1
        })
    ));
}

#[test]
fn face_built_by_hand_with_position_zero() {
    let obj = Obj {
        positions: vec![Vec4(s(0.0), s(0.0), s(0.0), s(1.0))],
        uvs: Vec::new(),
        normals: Vec::new(),
        faces: vec![Face { attributes: vec![corner(1), corner(0), corner(1)] }],
    };
    assert!(matches!(
        MeshData::from_obj(&obj),
        Err(WavefrontObjParseErrorDetail::IndexOutOfRange {
            kind: AttributeKind::Position,
            index: 0,
            length: 1
        })
    ));
}

#[test]
fn forward_references_are_resolved() {
    let obj = parse("f 1 2 3\nv 0 0 0\nv 1 0 0\nv 0 1 0\n");
    let mesh = MeshData::from_obj(&obj).unwrap();
    assert_eq!(mesh.indices, vec![0, 1, 2]);
}

#[test]
fn bounding_box_of_a_triangle() {
    let obj = parse("v 0 0 0\nv 1 0 0\nv 0 1 0\nf 1 2 3\n");
    let mesh = MeshData::from_obj(&obj).unwrap();
    let bounding_box = mesh.bounding_box().unwrap();
    assert_eq!(point(bounding_box.min_point()), (0.0, 0.0, 0.0));
    assert_eq!(point(bounding_box.max_point()), (1.0, 1.0, 0.0));
}

#[test]
fn document_without_positions_has_no_box() {
    let obj = parse("# nothing\nvn 0 0 1\n");
    let mesh = MeshData::from_obj(&obj).unwrap();
    assert!(mesh.positions.is_empty());
    assert!(mesh.indices.is_empty());
    assert!(mesh.bounding_box().is_none());
    assert!(MeshData::new().bounding_box().is_none());
}

#[test]
fn bounding_box_with_negative_numbers() {
    let mut mesh = MeshData::new();
    mesh.positions = vec![
        s(-1.5), s(2.0), s(0.0),
        s(3.0), s(-4.0), s(-0.0),
        s(0.5), s(7.25), s(-9.0),
        s(-2.0), s(0.0), s(1e-40),
    ];
    let bounding_box = mesh.bounding_box().unwrap();
    assert_eq!(point(bounding_box.min_point()), (-2.0, -4.0, -9.0));
    assert_eq!(point(bounding_box.max_point()), (3.0, 7.25, 1e-40));
}

#[test]
fn bounding_box_agrees_with_float_min_and_max() {
    let values = [
        0.0f32, -0.0, 1.0, -1.0, 0.5, -0.5, 1e-45, -1e-45, 3.4e38, -3.4e38,
        f32::INFINITY, f32::NEG_INFINITY, f32::NAN, 2.5, 1e10, -1e-10,
    ];
    for a in values {
        for b in values {
            let low = f32::from_bits(s(a).min(s(b)).to_bits());
            let high = f32::from_bits(s(a).max(s(b)).to_bits());
            let (expected_low, expected_high) = (a.min(b), a.max(b));
            assert!(low == expected_low || (low.is_nan() && expected_low.is_nan()));
            assert!(high == expected_high || (high.is_nan() && expected_high.is_nan()));
            assert_eq!(s(a).lt(s(b)), a < b);
            assert_eq!(s(a).le(s(b)), a <= b);
            assert_eq!(s(a).nan(), a.is_nan());
        }
    }
}

#[test]
fn numbers_that_are_none_are_passed_over() {
    let mut mesh = MeshData::new();
    mesh.positions = vec![
        s(f32::NAN), s(1.0), s(2.0),
        s(5.0), s(f32::NAN), s(-2.0),
        s(4.0), s(3.0), s(f32::NAN),
    ];
    let bounding_box = mesh.bounding_box().unwrap();
    assert_eq!(point(bounding_box.min_point()), (4.0, 1.0, -2.0));
    assert_eq!(point(bounding_box.max_point()), (5.0, 3.0, 2.0));
}

#[test]
fn bounding_box_corners_and_contains() {
    let b = BoundingBox::new(Vec3(s(-1.0), s(-2.0), s(-3.0)), Vec3(s(1.0), s(2.0), s(3.0)));
    let corners: Vec<(f32, f32, f32)> = b.get_vertices().iter().map(|v| point(*v)).collect();
    assert_eq!(
        corners,
        vec![
            (-1.0, -2.0, -3.0),
            (1.0, -2.0, -3.0),
            (-1.0, 2.0, -3.0),
            (1.0, 2.0, -3.0),
            (-1.0, -2.0, 3.0),
            (1.0, -2.0, 3.0),
            (-1.0, 2.0, 3.0),
            (1.0, 2.0, 3.0),
        ]
    );
    assert!(b.contains(Vec3(s(0.0), s(0.0), s(0.0))));
    assert!(b.contains(Vec3(s(1.0), s(-2.0), s(3.0))));
    assert!(!b.contains(Vec3(s(1.5), s(0.0), s(0.0))));
    assert!(!b.contains(Vec3(s(0.0), s(-2.5), s(0.0))));
    assert!(!b.contains(Vec3(s(0.0), s(0.0), s(f32::NAN))));
}

#[test]
fn axes_are_three_coloured_segments() {
    let axes = MeshData::axes();
    assert_eq!(
        floats(&axes.positions),
        vec![
            0.0, 0.0, 0.0, 1000.0, 0.0, 0.0,
            0.0, 0.0, 0.0, 0.0, 1000.0, 0.0,
            0.0, 0.0, 0.0, 0.0, 0.0, 1000.0,
        ]
    );
    assert_eq!(
        floats(&axes.colors),
        vec![
            1.0, 0.0, 0.0, 1.0, 0.0, 0.0,
            0.0, 1.0, 0.0, 0.0, 1.0, 0.0,
            0.0, 0.0, 1.0, 0.0, 0.0, 1.0,
        ]
    );
    assert_eq!(axes.indices, vec![0, 1, 2, 3, 4, 5, 6, 7, 8]);
    assert!(axes.normals.is_empty());
    assert!(axes.uvs.is_empty());
}

#[test]
fn vertex_buffer_interleaves_with_defaults() {
    let mut mesh = MeshData::new();
    mesh.positions = vec![s(1.0), s(2.0), s(3.0), s(4.0), s(5.0), s(6.0), s(7.0)];
    mesh.normals = vec![s(0.0), s(0.0), s(1.0), s(0.5)];
    mesh.colors = vec![s(0.1), s(0.2), s(0.3)];
    mesh.uvs = vec![s(0.25), s(0.75), s(0.5)];
    assert_eq!(
        floats(&mesh.vertex_buffer()),
        vec![
            1.0, 2.0, 3.0, 0.0, 0.0, 1.0, 0.1, 0.2, 0.3, 0.25, 0.75,
            4.0, 5.0, 6.0, 0.5, 0.0, 0.0, 1.0, 1.0, 1.0, 0.5, 0.0,
            7.0, 0.0, 0.0, 0.0, 0.0, 0.0, 1.0, 1.0, 1.0, 0.0, 0.0,
        ]
    );
    assert!(MeshData::new().vertex_buffer().is_empty());
    assert_eq!(MeshData::axes().vertex_buffer().len(), 66);
}

#[test]
fn scalar_constants() {
    assert_eq!(f32::from_bits(Scalar::zero().to_bits()), 0.0);
    assert_eq!(f32::from_bits(Scalar::one().to_bits()), 1.0);
    assert_eq!(Scalar::from_bits(7).to_bits(), 7);
}

#[test]
fn bounding_box_edges_as_red_lines() {
    let b = BoundingBox::new(Vec3(s(-1.0), s(-2.0), s(-3.0)), Vec3(s(1.0), s(2.0), s(3.0)));
    let mesh = MeshData::from_bounding_box(&b);
    assert_eq!(
        floats(&mesh.positions),
        vec![
            -1.0, -2.0, -3.0, 1.0, -2.0, -3.0, -1.0, 2.0, -3.0, 1.0, 2.0, -3.0,
            -1.0, -2.0, 3.0, 1.0, -2.0, 3.0, -1.0, 2.0, 3.0, 1.0, 2.0, 3.0,
        ]
    );
    assert_eq!(
        mesh.indices,
        vec![0, 1, 1, 3, 3, 2, 2, 0, 4, 5, 5, 7, 7, 6, 6, 4, 0, 4, 1, 5, 2, 6, 3, 7]
    );
    let red: Vec<f32> = [1.0f32, 0.0, 0.0].iter().cycle().take(72).cloned().collect();
    assert_eq!(floats(&mesh.colors), red);
    assert!(mesh.normals.is_empty());
    assert!(mesh.uvs.is_empty());
}
