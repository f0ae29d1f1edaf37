use scop::number::{to_decimal, IntParseError};
use scop::scalar::Scalar;
use scop::text::{starts_with, trim, trim_from};
use scop::wavefront::{
    AttributeKind, Obj, WavefrontObjError, WavefrontObjParseErrorDetail,
};
use std::num::ParseFloatError;

fn decode(token: &str) -> Result<Scalar, ParseFloatError> {
    token.parse::<f32>().map(|x| Scalar::from_bits(x.to_bits()))
}

fn message_of(text: &str, label: Option<&str>) -> String {
    match Obj::from_string(text, label, decode) {
        Ok(_) => panic!("the text was accepted"),
        Err(e) => e.message(),
    }
}

#[test]
fn numbers_in_decimal() {
    for n in [0u64, 1, 9, 10, 11, 99, 100, 101, 4294967295, 4294967296, u64::MAX] {
        assert_eq!(to_decimal(n), n.to_string());
    }
    for n in 0u64..1200 {
        assert_eq!(to_decimal(n), n.to_string());
    }
}

#[test]
fn error_message_names_label_and_line() {
    assert_eq!(
        message_of("v 1 2 3\nzz top\n", Some("cube.obj")),
        "cube.obj:2\n\x1b[0;31merror:\x1b[0m Unknown command: zz"
    );
    assert_eq!(
        message_of("vé\n", None),
        "inline:1\n\x1b[0;31merror:\x1b[0m Unknown command: vé"
    );
}

#[test]
fn operand_count_messages() {
    let body = |text: &str| {
        let message = message_of(text, None);
        message["inline:1\n\x1b[0;31merror:\x1b[0m ".len()..].to_string()
    };
    assert_eq!(
        body("v 1 2"),
        "Invalid operand count. Expected a value between 3 and 4, got 2"
    );
    assert_eq!(body("vn 1"), "Invalid operand count. Expected 3, got 1");
    assert_eq!(body("f 1 2"), "Invalid operand count. Expected at least 3, got 2");
    assert_eq!(
        body("vt 1 2 3 4 5 6 7 8 9 10 11 12"),
        "Invalid operand count. Expected a value between 1 and 3, got 12"
    );
    let detail = WavefrontObjParseErrorDetail::InvalidOperandCount {
        expected: (None, Some(7)),
        got: 8,
    };
    assert_eq!(detail.message(), "Invalid operand count. Expected at most 7, got 8");
    let detail = WavefrontObjParseErrorDetail::InvalidOperandCount {
        expected: (None, None),
        got: 0,
    };
    assert_eq!(detail.message(), "Invalid operand count. Expected any number, got 0");
}

#[test]
fn other_detail_messages() {
    let float_error = "x".parse::<f32>().unwrap_err();
    assert_eq!(
        WavefrontObjParseErrorDetail::VertexParseFloatError(float_error.clone()).message(),
        "Malformed float"
    );
    assert_eq!(
        WavefrontObjParseErrorDetail::UVParseFloatError(float_error.clone()).message(),
        "Malformed float"
    );
    assert_eq!(
        WavefrontObjParseErrorDetail::NormalParseFloatError(float_error).message(),
        "Malformed float"
    );
    assert_eq!(
        WavefrontObjParseErrorDetail::FaceParseIntError(IntParseError::Empty).message(),
        "Malformed unsigned int"
    );
    assert_eq!(
        WavefrontObjParseErrorDetail::InvalidFaceOperand(0).message(),
        "Invalid index: 0"
    );
    assert_eq!(
        WavefrontObjParseErrorDetail::IndexOutOfRange {
            kind: AttributeKind::Position,
            index: 3,
            length: 2
        }
        .message(),
        "Index out of range: position 3 of 2"
    );
    assert_eq!(
        WavefrontObjParseErrorDetail::IndexOutOfRange {
            kind: AttributeKind::Uv,
            index: 10,
            length: 0
        }
        .message(),
        "Index out of range: texture coordinate 10 of 0"
    );
    assert_eq!(
        WavefrontObjParseErrorDetail::IndexOutOfRange {
            kind: AttributeKind::Normal,
            index: 4294967295,
            length: 123
        }
        .message(),
        "Index out of range: normal 4294967295 of 123"
    );
    assert_eq!(
        WavefrontObjParseErrorDetail::TooManyCorners.message(),
        "Too many face corners"
    );
    let error = WavefrontObjError::ParseError {
        file: Some("a b.obj".to_string()),
        line: 120,
        detail: WavefrontObjParseErrorDetail::InvalidFaceOperand(0),
    };
    assert_eq!(
        error.message(),
        "a b.obj:120\n\x1b[0;31merror:\x1b[0m Invalid index: 0"
    );
}

#[test]
fn trimming_agrees_with_the_standard_trim() {
    let texts = [
        "",
        " ",
        "a",
        "  a  ",
        "\t a b \r\n",
        "\u{a0}x\u{3000}",
        "\u{2003}é  ü\u{2009}\u{85}",
        "é",
        "a\u{2028}",
        "\u{1680}\u{205f}",
        "no-space",
    ];
    for text in texts {
        assert_eq!(trim(text), text.trim());
        assert_eq!(trim_from(text, 0), text.trim());
        assert_eq!(trim_from(text, text.len()), "");
    }
    assert_eq!(trim_from("#pragma  vertex ", 7), "vertex");
    assert_eq!(trim_from("abc", 1), "bc");
}

#[test]
fn prefixes_agree_with_the_standard_test() {
    let texts = ["", "#", "#pragma", "#pragma x", " #pragma", "#pragm", "@entry", "@entryé"];
    let words = ["", "#pragma", "@entry", "#"];
    for text in texts {
        for word in words {
            assert_eq!(starts_with(text, word), text.starts_with(word));
        }
    }
}
