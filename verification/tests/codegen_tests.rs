use sumic::lexer::tokenize;
use sumic::AstNode;
use sumic::CodeGenerator;
use sumic::FloatLit;
use sumic::MarkdownGenerator;
use sumic::MetalGenerator;
use sumic::Parser;
use sumic::Token;
use sumic::WgslGenerator;

fn parse_program(src: &str) -> AstNode {
    let toks: Vec<Token> = tokenize(src).into_iter().map(|t| t.unwrap()).collect();
    let mut p = Parser::new(toks);
    p.parse().unwrap()
}

#[test]
fn wgsl_var_decl_maps_float_to_f32() {
    let ast = parse_program("void f() { float x = 1.0; }");
    let out = WgslGenerator::new().generate(&ast);
    assert_eq!(out, "fn f()  {\n    var x: f32 = 1.0;\n}");
}

#[test]
fn wgsl_int_initializer_passes_through_unconverted() {
    // the generators are type-blind: an integer initializer stays integral
    let ast = parse_program("void f() { float x = 1; }");
    let out = WgslGenerator::new().generate(&ast);
    assert_eq!(out, "fn f()  {\n    var x: f32 = 1;\n}");
}

#[test]
fn wgsl_builtin_time_becomes_uniform_field() {
    let ast = parse_program("void f() { return iTime; }");
    let out = WgslGenerator::new().generate(&ast);
    assert_eq!(out, "fn f()  {\n    return u.time;\n}");
}

#[test]
fn wgsl_builtin_resolution_and_mouse() {
    let ast = parse_program("void f() { return iResolution; }");
    let out = WgslGenerator::new().generate(&ast);
    assert_eq!(out, "fn f()  {\n    return vec3<f32>(u.resolution, 1.0);\n}");
    let ast2 = parse_program("void f() { return iMouse; }");
    let out2 = WgslGenerator::new().generate(&ast2);
    assert_eq!(out2, "fn f()  {\n    return u.mouse;\n}");
}

#[test]
fn wgsl_vector_constructor_is_parametrized() {
    let ast = parse_program("void f() { return vec3(1, 2, 3); }");
    let out = WgslGenerator::new().generate(&ast);
    assert_eq!(out, "fn f()  {\n    return vec3<f32>(1, 2, 3);\n}");
}

#[test]
fn wgsl_matrix_and_scalar_constructors() {
    let ast = parse_program("void f() { return mat3(float(x)); }");
    let out = WgslGenerator::new().generate(&ast);
    assert_eq!(out, "fn f()  {\n    return mat3x3<f32>(f32(x));\n}");
}

#[test]
fn wgsl_function_header_with_mapped_return_type() {
    let ast = parse_program("vec4 f(vec2 p) { return x; }");
    let out = WgslGenerator::new().generate(&ast);
    assert_eq!(out, "fn f(p: vec2<f32>) -> vec4<f32> {\n    return x;\n}");
}

#[test]
fn wgsl_array_declaration_with_initializer() {
    let ast = parse_program("void f() { int a[3] = { 1, 2, 3 }; }");
    let out = WgslGenerator::new().generate(&ast);
    assert_eq!(
        out,
        "fn f()  {\n    var a: array<i32, 3> = array<i32, 3>(1, 2, 3);\n}"
    );
}

#[test]
fn wgsl_struct_fields_use_colon_form() {
    let ast = parse_program("struct M { vec3 color; float k; };");
    let out = WgslGenerator::new().generate(&ast);
    assert_eq!(out, "struct M {\n    color: vec3<f32>,\n    k: f32,\n};");
}

#[test]
fn metal_renders_legacy_style() {
    let ast = parse_program("float f(float a) { float y = a * 2.0; return y; }");
    let out = MetalGenerator::new(false).generate(&ast);
    assert_eq!(
        out,
        "float f(float a) {\n    float y = (a * 2.0);\n    return y;\n}"
    );
}

#[test]
fn metal_std_lib_mode_emits_native_markers() {
    let ast = parse_program("float f(float a) { return a; }\n\nstruct M { float k; };");
    let out = MetalGenerator::new(true).generate(&ast);
    assert_eq!(out, "// [Native Symbol] f\n\nstruct M {\n    float k;\n};");
}

#[test]
fn for_increment_loses_trailing_semicolon() {
    let ast = parse_program("void f() { for (int i = 0; i < 8; i = i + 1) { break; } }");
    let out = MetalGenerator::new(false).generate(&ast);
    assert_eq!(
        out,
        "void f() {\n    for (int i = 0; (i < 8); i = (i + 1)) {\n    break;\n}\n}"
    );
}

#[test]
fn binary_expressions_are_fully_parenthesized() {
    let ast = parse_program("void f() { return 1 + 2 * 3; }");
    let out = MetalGenerator::new(false).generate(&ast);
    assert_eq!(out, "void f() {\n    return (1 + (2 * 3));\n}");
}

#[test]
fn integral_float_renders_with_one_decimal_place() {
    let metal = MetalGenerator::new(false);
    assert_eq!(metal.generate(&AstNode::LiteralFloat(FloatLit { whole: 2, frac: String::new() })), "2.0");
    assert_eq!(metal.generate(&AstNode::LiteralFloat(FloatLit { whole: 0, frac: "25".to_string() })), "0.25");
    assert_eq!(metal.generate(&AstNode::LiteralInt(-5)), "-5");
    assert_eq!(metal.generate(&AstNode::LiteralInt(12)), "12");
}

#[test]
fn markdown_of_program_without_declarations_is_empty() {
    let ast = AstNode::Program(vec![
        AstNode::Variable("x".to_string()),
        AstNode::Call { func_name: "f".to_string(), args: vec![] },
    ]);
    let out = MarkdownGenerator.generate(&ast);
    assert_eq!(out, "");
}

#[test]
fn markdown_documents_functions_and_structs() {
    let ast = parse_program(
        "/// Mixes two values.\nfloat mix2(float a, float b) { return a; }\nstruct M { vec3 color; };",
    );
    let out = MarkdownGenerator.generate(&ast);
    assert_eq!(
        out,
        "# API Documentation\n\n### `mix2`\n> Mixes two values.\n\n- **Signature**: `float mix2(`float` a, `float` b)`\n\n---\n### `struct M`\n- **Fields**:\n  - `vec3` color\n"
    );
}

#[test]
fn metal_output_reparses_to_the_same_tree() {
    let src = "struct M { vec3 color; float k; };\n\nfloat f(float a, float b) { if (a > b) return (a + b) * 2.0; else a = b; float y = clamp(a, 0.0, 1.0); return -y; }\n\nvoid g() { int a[2] = { 1, 2 }; for (int i = 0; i < 2; i = i + 1) { a[i] = a[i] + p.x; } }";
    let ast1 = parse_program(src);
    let text = MetalGenerator::new(false).generate(&ast1);
    let ast2 = parse_program(&text);
    assert_eq!(ast1, ast2);
    // and regenerating yields the same text again
    let text2 = MetalGenerator::new(false).generate(&ast2);
    assert_eq!(text, text2);
}
