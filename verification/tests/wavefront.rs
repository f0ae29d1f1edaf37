use scop::number::IntParseError;
use scop::scalar::{Scalar, Vec3, Vec4};
use scop::wavefront::{
    FaceAttribute, Obj, WavefrontObjError, WavefrontObjParseErrorDetail,
};
use std::num::ParseFloatError;

fn decode(token: &str) -> Result<Scalar, ParseFloatError> {
    token.parse::<f32>().map(|x| Scalar::from_bits(x.to_bits()))
}

fn s(x: f32) -> Scalar {
    Scalar::from_bits(x.to_bits())
}

fn corner(p: u32, t: Option<u32>, n: Option<u32>) -> FaceAttribute {
    FaceAttribute { position_index: p, texture_coordinate_index: t, normal_index: n }
}

fn error_of(text: &str) -> (Option<String>, usize, WavefrontObjParseErrorDetail) {
    match Obj::from_string(text, None, decode) {
        Ok(_) => panic!("the text was accepted"),
        Err(WavefrontObjError::ParseError { file, line, detail }) => (file, line, detail),
    }
}

#[test]
fn reads_positions_uvs_normals_and_faces() {
    let text = "# a triangle\nv 0 0 0\nv 1.5 0 0 2\nv 0 -1 0\n\nvt 0.25\nvt 0.5 0.75\nvn 0 0 1\nf 1/1/1 2/2/1 3//1\n";
    let obj = Obj::from_string(text, Some("tri.obj"), decode).unwrap();
    assert_eq!(
        obj.positions,
        vec![
            Vec4(s(0.0), s(0.0), s(0.0), s(1.0)),
            Vec4(s(1.5), s(0.0), s(0.0), s(2.0)),
            Vec4(s(0.0), s(-1.0), s(0.0), s(1.0)),
        ]
    );
    assert_eq!(
        obj.uvs,
        vec![Vec3(s(0.25), s(0.0), s(0.0)), Vec3(s(0.5), s(0.75), s(0.0))]
    );
    assert_eq!(obj.normals, vec![Vec3(s(0.0), s(0.0), s(1.0))]);
    assert_eq!(obj.faces.len(), 1);
    assert_eq!(
        obj.faces[0].attributes().to_vec(),
        vec![
            corner(1, Some(1), Some(1)),
            corner(2, Some(2), Some(1)),
            corner(3, None, Some(1)),
        ]
    );
    assert_eq!(obj.vertices().len(), 3);
    assert_eq!(obj.faces().len(), 1);
}

#[test]
fn parsing_twice_gives_the_same_document() {
    let text = "v 1 2 3\nv 4 5 6\nv 7 8 9\nvt 0 1\nf 1/1 2/1 3/1\n";
    let a = Obj::from_string(text, None, decode).unwrap();
    let b = Obj::from_string(text, None, decode).unwrap();
    assert_eq!(a.positions, b.positions);
    assert_eq!(a.uvs, b.uvs);
    assert_eq!(a.normals, b.normals);
    assert_eq!(a.faces, b.faces);
}

#[test]
fn two_position_operands_are_too_few() {
    let (file, line, detail) = error_of("v 1.0 2.0\n");
    assert_eq!(file, None);
    assert_eq!(line, 1);
    assert!(matches!(
        detail,
        WavefrontObjParseErrorDetail::InvalidOperandCount {
            expected: (Some(3), Some(4)),
            got: 2
        }
    ));
}

#[test]
fn five_position_operands_are_too_many() {
    let (_, line, detail) = error_of("v 1 2 3\nv 1 2 3 4 5\n");
    assert_eq!(line, 2);
    assert!(matches!(
        detail,
        WavefrontObjParseErrorDetail::InvalidOperandCount {
            expected: (Some(3), Some(4)),
            got: 5
        }
    ));
}

#[test]
fn uv_takes_one_to_three_operands() {
    let (_, _, detail) = error_of("vt\n");
    assert!(matches!(
        detail,
        WavefrontObjParseErrorDetail::InvalidOperandCount {
            expected: (Some(1), Some(3)),
            got: 0
        }
    ));
    let (_, _, detail) = error_of("vt 1 2 3 4\n");
    assert!(matches!(
        detail,
        WavefrontObjParseErrorDetail::InvalidOperandCount {
            expected: (Some(1), Some(3)),
            got: 4
        }
    ));
    let obj = Obj::from_string("vt 1 2 3\n", None, decode).unwrap();
    assert_eq!(obj.uvs, vec![Vec3(s(1.0), s(2.0), s(3.0))]);
}

#[test]
fn normal_takes_exactly_three_operands() {
    let (_, _, detail) = error_of("vn 1 2\n");
    assert!(matches!(
        detail,
        WavefrontObjParseErrorDetail::InvalidOperandCount {
            expected: (Some(3), Some(3)),
            got: 2
        }
    ));
    let (_, _, detail) = error_of("vn 1 2 3 4\n");
    assert!(matches!(
        detail,
        WavefrontObjParseErrorDetail::InvalidOperandCount {
            expected: (Some(3), Some(3)),
            got: 4
        }
    ));
}

#[test]
fn face_takes_three_operands_or_more() {
    let (_, line, detail) = error_of("v 0 0 0\nf 1 1\n");
    assert_eq!(line, 2);
    assert!(matches!(
        detail,
        WavefrontObjParseErrorDetail::InvalidOperandCount {
            expected: (Some(3), None),
            got: 2
        }
    ));
    let obj = Obj::from_string("f 1 2 3 4 5 6 7\n", None, decode).unwrap();
    assert_eq!(obj.faces[0].attributes().len(), 7);
}

#[test]
fn position_index_zero_is_refused() {
    let (_, line, detail) = error_of("v 0 0 0\nf 1 2 0\n");
    assert_eq!(line, 2);
    assert!(matches!(
        detail,
        WavefrontObjParseErrorDetail::InvalidFaceOperand(0)
    ));
}

#[test]
fn unknown_command_is_refused() {
    let (_, line, detail) = error_of("zz 1 2 3\n");
    assert_eq!(line, 1);
    match detail {
        WavefrontObjParseErrorDetail::UnknownCommand(name) => assert_eq!(name, "zz"),
        other => panic!("{:?}", other),
    }
}

#[test]
fn error_carries_label_and_line() {
    let text = "v 1 2 3\n\n# note\n  \t \nbogus\n";
    match Obj::from_string(text, Some("model.obj"), decode) {
        Err(WavefrontObjError::ParseError { file, line, detail }) => {
            assert_eq!(file, Some("model.obj".to_string()));
            assert_eq!(line, 5);
            assert!(matches!(
                detail,
                WavefrontObjParseErrorDetail::UnknownCommand(_)
            ));
        }
        Ok(_) => panic!("the text was accepted"),
    }
}

#[test]
fn first_error_wins() {
    let (_, line, detail) = error_of("v 1 2 x\nzz\n");
    assert_eq!(line, 1);
    assert!(matches!(
        detail,
        WavefrontObjParseErrorDetail::VertexParseFloatError(_)
    ));
}

#[test]
fn malformed_numbers_are_reported_by_kind() {
    let (_, _, detail) = error_of("v 1 2 3\nvt 0.5 abc\n");
    assert!(matches!(
        detail,
        WavefrontObjParseErrorDetail::UVParseFloatError(_)
    ));
    let (_, _, detail) = error_of("vn 1 . 3\n");
    assert!(matches!(
        detail,
        WavefrontObjParseErrorDetail::NormalParseFloatError(_)
    ));
    let (_, _, detail) = error_of("v 1 2 1e\n");
    match detail {
        WavefrontObjParseErrorDetail::VertexParseFloatError(e) => {
            assert_eq!(e, "1e".parse::<f32>().unwrap_err())
        }
        other => panic!("{:?}", other),
    }
}

#[test]
fn count_is_checked_before_numbers() {
    let (_, _, detail) = error_of("v x y\n");
    assert!(matches!(
        detail,
        WavefrontObjParseErrorDetail::InvalidOperandCount { got: 2, .. }
    ));
}

#[test]
fn malformed_face_indices() {
    let (_, _, detail) = error_of("f 1 2 x\n");
    assert!(matches!(
        detail,
        WavefrontObjParseErrorDetail::FaceParseIntError(IntParseError::InvalidDigit)
    ));
    let (_, _, detail) = error_of("f 1 2 /3\n");
    assert!(matches!(
        detail,
        WavefrontObjParseErrorDetail::FaceParseIntError(IntParseError::Empty)
    ));
    let (_, _, detail) = error_of("f 1 2 4294967296\n");
    assert!(matches!(
        detail,
        WavefrontObjParseErrorDetail::FaceParseIntError(IntParseError::PosOverflow)
    ));
    let (_, _, detail) = error_of("f 1 2 -3\n");
    assert!(matches!(
        detail,
        WavefrontObjParseErrorDetail::FaceParseIntError(IntParseError::InvalidDigit)
    ));
    let (_, _, detail) = error_of("f 1/a 2 3\n");
    assert!(matches!(
        detail,
        WavefrontObjParseErrorDetail::FaceParseIntError(IntParseError::InvalidDigit)
    ));
    let (_, _, detail) = error_of("f 1 0 x\n");
    assert!(matches!(
        detail,
        WavefrontObjParseErrorDetail::FaceParseIntError(_)
    ));
}

#[test]
fn face_operand_forms() {
    let obj = Obj::from_string("f 1 2/3 4//5 6/7/8 9/ 10// +11/+12/+13 14/15/16/17\n", None, decode)
        .unwrap();
    assert_eq!(
        obj.faces[0].attributes().to_vec(),
        vec![
            corner(1, None, None),
            corner(2, Some(3), None),
            corner(4, None, Some(5)),
            corner(6, Some(7), Some(8)),
            corner(9, None, None),
            corner(10, None, None),
            corner(11, Some(12), Some(13)),
            corner(14, Some(15), Some(16)),
        ]
    );
    let obj = Obj::from_string("f 4294967295 1/0 1//0\n", None, decode).unwrap();
    assert_eq!(
        obj.faces[0].attributes().to_vec(),
        vec![
            corner(4294967295, None, None),
            corner(1, Some(0), None),
            corner(1, None, Some(0)),
        ]
    );
}

#[test]
fn recognised_directives_have_no_effect() {
    let text = "mtllib a.mtl\nusemtl red\ns off\ng group one\no thing\nmtllib\n";
    let obj = Obj::from_string(text, None, decode).unwrap();
    assert!(obj.positions.is_empty());
    assert!(obj.uvs.is_empty());
    assert!(obj.normals.is_empty());
    assert!(obj.faces.is_empty());
}

#[test]
fn blank_lines_and_comments_are_skipped() {
    let text = "\n   \n#v 1 2\n  # zz\n#\nv 1 2 3 # 4\r\n";
    let err = Obj::from_string(text, None, decode);
    match err {
        Err(WavefrontObjError::ParseError { line, detail, .. }) => {
            assert_eq!(line, 6);
            assert!(matches!(
                detail,
                WavefrontObjParseErrorDetail::InvalidOperandCount { got: 5, .. }
            ));
        }
        Ok(_) => panic!("a comment in a line is an operand"),
    }
    let obj = Obj::from_string("\n\n# only notes\n", None, decode).unwrap();
    assert!(obj.positions.is_empty());
}

#[test]
fn white_space_of_any_kind_separates() {
    let text = "\u{a0}v\t1\u{2003}2\u{3000}3\u{85}\r\nv 4 5 6";
    let obj = Obj::from_string(text, None, decode).unwrap();
    assert_eq!(
        obj.positions,
        vec![
            Vec4(s(1.0), s(2.0), s(3.0), s(1.0)),
            Vec4(s(4.0), s(5.0), s(6.0), s(1.0)),
        ]
    );
    let (_, _, detail) = error_of("vé 1 2 3\n");
    match detail {
        WavefrontObjParseErrorDetail::UnknownCommand(name) => assert_eq!(name, "vé"),
        other => panic!("{:?}", other),
    }
}

#[test]
fn tokens_agree_with_the_standard_splitter() {
    let lines = [
        "",
        "   ",
        "a",
        " a  b\tc ",
        "x\u{a0}y\u{1680}z",
        "é\u{2028}ü\u{205f}\u{202f}ß",
        "\u{2000}\u{200a}q\u{2029}",
        "tail\u{3000}",
        "\u{200b}zero-width",
        "\u{c2}\u{e2}",
    ];
    for line in lines {
        let expected: Vec<&str> = line.split_whitespace().collect();
        assert_eq!(scop::text::split_whitespace(line), expected);
    }
}

#[test]
fn integers_agree_with_the_standard_parser() {
    let texts = [
        "", "+", "-", "0", "7", "+7", "-7", "007", "4294967295", "4294967296", "99999999999",
        "12a", "a12", "1 2", "+-1", "++1", "42949672950", "4294967295x", "99999999999x", "１",
    ];
    for text in texts {
        let ours = scop::number::parse_u32(text.as_bytes());
        match text.parse::<u32>() {
            Ok(v) => assert_eq!(ours, Ok(v)),
            Err(e) => {
                let kind = match e.kind() {
                    std::num::IntErrorKind::Empty => IntParseError::Empty,
                    std::num::IntErrorKind::InvalidDigit => IntParseError::InvalidDigit,
                    std::num::IntErrorKind::PosOverflow => IntParseError::PosOverflow,
                    other => panic!("{:?}", other),
                };
                assert_eq!(ours, Err(kind));
            }
        }
    }
}
