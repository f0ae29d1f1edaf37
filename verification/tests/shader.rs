use scop::commands::{Command, CommandInterpreter};
use scop::shader::{
    replace_entry_with_main, Shader, ShaderError, ShaderSource, ShaderSourceBuilder,
    ShaderUniformInfo, ShaderUniformType,
};
use scop::utils::NonNegativeI32;

fn entry_error(r: Result<ShaderSource, ShaderError>) -> String {
    match r {
        Err(ShaderError::EntryPointError(message)) => message,
        other => panic!("{:?}", other),
    }
}

#[test]
fn listen_asks_for_a_model() {
    match CommandInterpreter::listen() {
        Command::LoadModel(name) => assert_eq!(name, "yep"),
    }
}

#[test]
fn entry_is_renamed_to_main() {
    assert_eq!(
        replace_entry_with_main("@entry void vertex() {").unwrap(),
        "void main(){ "
    );
    assert_eq!(
        replace_entry_with_main("  @entry   vec4  shade(in  x,  y) { return x; }\n").unwrap(),
        "vec4 main(inx, y) { return x; } "
    );
    assert_eq!(replace_entry_with_main("@entry void f").unwrap(), "void main");
    assert_eq!(replace_entry_with_main("@entry void (x)").unwrap(), "void main(x)");
    assert_eq!(
        replace_entry_with_main("@entry void aXa(a)").unwrap(),
        "aXa(a)".replacen("aXa", "main", 1).replace("main", "void main")
    );
    assert_eq!(
        replace_entry_with_main("@entry né çà(é) ü").unwrap(),
        "né main(é)ü "
    );
}

#[test]
fn entry_needs_marker_type_and_name() {
    for line in ["", "@entry", "@entry void", "@entryx void f()", "void @entry f()"] {
        match replace_entry_with_main(line) {
            Err(ShaderError::EntryPointError(message)) => {
                assert_eq!(message, "Invalid entry point")
            }
            other => panic!("{:?}", other),
        }
    }
}

#[test]
fn stages_are_told_apart() {
    let lines = [
        "#version 410 core",
        "",
        "uniform mat4 mvp;",
        "#pragma vertex",
        "in vec3 position;",
        "@entry void vertex() {",
        "}",
        "   ",
        "#pragma fragment",
        "out vec4 color;",
        "@entry void fragment() {",
        "}",
        "#pragma shared",
        "// end",
    ];
    let source = ShaderSource::from_lines(&lines).unwrap();
    assert_eq!(
        source.vertex_source,
        "#version 410 core\nuniform mat4 mvp;\nin vec3 position;\nvoid main(){ }\n// end\n"
    );
    assert_eq!(
        source.fragment_source,
        "#version 410 core\nuniform mat4 mvp;\nout vec4 color;\nvoid main(){ }\n// end\n"
    );
    assert_eq!(source.geometry_source, None);
}

#[test]
fn geometry_stage_is_there_with_its_entry() {
    let lines = [
        "a",
        "#pragma geometry",
        "@entry void g()",
        "#pragma  vertex  ",
        "@entry void v()",
        "#pragma\tfragment",
        "@entry void f()",
    ];
    let source = ShaderSource::from_lines(&lines).unwrap();
    assert_eq!(source.vertex_source, "a\nvoid main()");
    assert_eq!(source.fragment_source, "a\nvoid main()");
    assert_eq!(source.geometry_source, Some("a\nvoid main()".to_string()));
}

#[test]
fn unknown_pragma_is_refused() {
    let name = |line: &str| match ShaderSource::from_lines(&[line]) {
        Err(ShaderError::UnknownPragma(name)) => name,
        other => panic!("{:?}", other),
    };
    assert_eq!(name("#pragma compute"), "compute");
    assert_eq!(name("#pragma"), "");
    assert_eq!(name("#pragmavertex"), "ertex");
    assert_eq!(name("#pragma  vertex shader "), "vertex shader");
    assert_eq!(name("#pragma\u{a0}vertexes"), "vertexes");
    assert_eq!(name("#pragma Vertex"), "Vertex");
}

#[test]
fn entry_points_are_counted() {
    assert_eq!(
        entry_error(ShaderSource::from_lines(&["@entry void f()"])),
        "No entry point allowed for shared GLSL code"
    );
    assert_eq!(
        entry_error(ShaderSource::from_lines(&[
            "#pragma vertex",
            "@entry void f()",
            "@entry void g()"
        ])),
        "Vertex shader entry point already defined"
    );
    assert_eq!(
        entry_error(ShaderSource::from_lines(&[
            "#pragma fragment",
            "@entry void f()",
            "#pragma vertex",
            "#pragma fragment",
            "@entry void g()"
        ])),
        "Fragment shader entry point already defined"
    );
    assert_eq!(
        entry_error(ShaderSource::from_lines(&[
            "#pragma geometry",
            "@entry void f()",
            "@entry"
        ])),
        "Geometry shader entry point already defined"
    );
    assert_eq!(
        entry_error(ShaderSource::from_lines(&["#pragma vertex", "@entry void"])),
        "Invalid entry point"
    );
}

#[test]
fn vertex_and_fragment_entry_are_required() {
    assert!(matches!(
        ShaderSource::from_lines(&[]),
        Err(ShaderError::MissingVertexEntryPoint)
    ));
    assert!(matches!(
        ShaderSource::from_lines(&["#pragma fragment", "@entry void f()"]),
        Err(ShaderError::MissingVertexEntryPoint)
    ));
    assert!(matches!(
        ShaderSource::from_lines(&["#pragma vertex", "@entry void f()"]),
        Err(ShaderError::MissingFragmentEntryPoint)
    ));
}

#[test]
fn indented_markers_are_code() {
    let lines = [
        "#pragma vertex",
        " #pragma nothing",
        "@entry void v()",
        "#pragma fragment",
        "  @entry void f()",
        "@entry void f()",
    ];
    let source = ShaderSource::from_lines(&lines).unwrap();
    assert_eq!(source.vertex_source, " #pragma nothing\nvoid main()");
    assert_eq!(source.fragment_source, "  @entry void f()\nvoid main()");
}

#[test]
fn builder_keeps_its_state_after_an_error() {
    let mut builder = ShaderSourceBuilder::new();
    builder.push_line("#pragma vertex").unwrap();
    builder.push_line("@entry void v()").unwrap();
    assert!(builder.push_line("#pragma bogus").is_err());
    assert!(builder.push_line("@entry void w()").is_err());
    builder.push_line("x").unwrap();
    builder.push_line("#pragma fragment").unwrap();
    builder.push_line("@entry void f()").unwrap();
    let source = builder.finish().unwrap();
    assert_eq!(source.vertex_source, "void main()x\n");
    assert_eq!(source.fragment_source, "void main()");
}

#[test]
fn uniform_types_have_the_codes_of_the_graphics_interface() {
    let expected = [
        (gl::FLOAT, ShaderUniformType::Float),
        (gl::FLOAT_VEC2, ShaderUniformType::Vec2),
        (gl::FLOAT_VEC3, ShaderUniformType::Vec3),
        (gl::FLOAT_VEC4, ShaderUniformType::Vec4),
        (gl::INT, ShaderUniformType::Int),
        (gl::UNSIGNED_INT, ShaderUniformType::Uint),
        (gl::FLOAT_MAT4, ShaderUniformType::Mat4),
        (gl::SAMPLER_2D, ShaderUniformType::Sampler2D),
    ];
    for (code, typ) in expected {
        assert_eq!(ShaderUniformType::from_raw(code), typ);
        assert_eq!(ShaderUniformType::try_from_raw(code), Some(typ));
    }
    assert_eq!(ShaderUniformType::try_from_raw(gl::BOOL), None);
    assert_eq!(ShaderUniformType::try_from_raw(0), None);
}

#[test]
fn non_negative_integers() {
    assert_eq!(NonNegativeI32::new(0).map(|v| v.get()), Some(0));
    assert_eq!(NonNegativeI32::new(i32::MAX).map(|v| v.get()), Some(i32::MAX));
    assert_eq!(NonNegativeI32::new(-1), None);
    assert_eq!(NonNegativeI32::new(i32::MIN), None);
}

#[test]
fn uniforms_are_found_by_name() {
    let mut shader = Shader::new(7);
    assert_eq!(shader.raw_program(), 7);
    assert_eq!(shader.uniform_location("mvp"), None);
    shader.insert(ShaderUniformInfo {
        name: "mvp".to_string(),
        location: NonNegativeI32::new(3),
        typ: ShaderUniformType::Mat4,
    });
    shader.insert(ShaderUniformInfo {
        name: "unused".to_string(),
        location: None,
        typ: ShaderUniformType::Float,
    });
    shader.insert(ShaderUniformInfo {
        name: "diffuseTex".to_string(),
        location: NonNegativeI32::new(0),
        typ: ShaderUniformType::Sampler2D,
    });
    assert_eq!(shader.uniform_location("mvp"), NonNegativeI32::new(3));
    assert_eq!(shader.uniform_location("diffuseTex"), NonNegativeI32::new(0));
    assert_eq!(shader.uniform_location("unused"), None);
    assert_eq!(shader.uniform_location("mv"), None);
    assert_eq!(shader.uniform_location("mvp "), None);
    shader.insert(ShaderUniformInfo {
        name: "mvp".to_string(),
        location: NonNegativeI32::new(9),
        typ: ShaderUniformType::Mat4,
    });
    assert_eq!(shader.uniform_location("mvp"), NonNegativeI32::new(9));
    assert_eq!(shader.uniform_location("diffuseTex"), NonNegativeI32::new(0));
    assert_eq!(shader.raw_program(), 7);
}
