use sumic::lexer::tokenize;
use sumic::AstNode;
use sumic::BinaryOperator;
use sumic::FloatLit;
use sumic::Parser;
use sumic::Token;
use sumic::UnaryOperator;

fn toks(src: &str) -> Vec<Token> {
    tokenize(src).into_iter().map(|t| t.unwrap()).collect()
}

fn parse_program(src: &str) -> AstNode {
    let mut p = Parser::new(toks(src));
    p.parse().unwrap()
}

#[test]
fn multiplication_binds_tighter_than_addition() {
    let mut p = Parser::new(toks("1 + 2 * 3"));
    let e = p.parse_expression().unwrap();
    let expected = AstNode::BinaryOp {
        left: Box::new(AstNode::LiteralInt(1)),
        op: BinaryOperator::Add,
        right: Box::new(AstNode::BinaryOp {
            left: Box::new(AstNode::LiteralInt(2)),
            op: BinaryOperator::Mul,
            right: Box::new(AstNode::LiteralInt(3)),
        }),
    };
    assert_eq!(e, expected);
}

#[test]
fn dangling_else_binds_to_inner_if() {
    let ast = parse_program("void f() { if (a) if (b) x; else y; }");
    let decls = match ast {
        AstNode::Program(d) => d,
        _ => panic!("expected program"),
    };
    let body = match &decls[0] {
        AstNode::FunctionDecl { body, .. } => body,
        _ => panic!("expected function"),
    };
    let stmts = match body.as_ref() {
        AstNode::Block(s) => s,
        _ => panic!("expected block"),
    };
    match &stmts[0] {
        AstNode::IfStmt { then_branch, else_branch, .. } => {
            assert!(else_branch.is_none(), "outer if must have no else");
            match then_branch.as_ref() {
                AstNode::IfStmt { else_branch, .. } => {
                    assert!(else_branch.is_some(), "inner if takes the else");
                }
                _ => panic!("expected inner if"),
            }
        }
        _ => panic!("expected if statement"),
    }
}

#[test]
fn doc_lines_join_and_attach_to_next_declaration_only() {
    let ast = parse_program("/// line one\n/// line two\nfn f() { return 1; }\nfn g() { return 2; }");
    let decls = match ast {
        AstNode::Program(d) => d,
        _ => panic!("expected program"),
    };
    match &decls[0] {
        AstNode::FunctionDecl { doc_string, .. } => {
            assert_eq!(doc_string.as_deref(), Some("line one\nline two"));
        }
        _ => panic!("expected function"),
    }
    match &decls[1] {
        AstNode::FunctionDecl { doc_string, .. } => {
            assert!(doc_string.is_none(), "documentation must not leak");
        }
        _ => panic!("expected function"),
    }
}

#[test]
fn first_violation_aborts_with_expected_got_message() {
    let mut p = Parser::new(toks("struct S { int a; }"));
    let err = p.parse().unwrap_err();
    assert_eq!(err, "Expected Semicolon, got EOF");
}

#[test]
fn unexpected_eof_message() {
    let mut p = Parser::new(toks("void f() { return"));
    let err = p.parse().unwrap_err();
    assert_eq!(err, "Unexpected EOF");
}

#[test]
fn oversized_integer_literal_falls_back_to_zero() {
    let mut p = Parser::new(toks("99999999999999999999"));
    let e = p.parse_expression().unwrap();
    assert_eq!(e, AstNode::LiteralInt(0));
}

#[test]
fn malformed_number_token_falls_back_to_zero() {
    // only a hand-built token stream can hold such a lexeme
    let mut p = Parser::new(vec![Token::Number("1.2.3".to_string())]);
    let e = p.parse_expression().unwrap();
    assert_eq!(e, AstNode::LiteralFloat(FloatLit { whole: 0, frac: String::new() }));
}

#[test]
fn float_literal_keeps_decimal_parts_without_trailing_zeros() {
    let mut p = Parser::new(toks("1.50"));
    let e = p.parse_expression().unwrap();
    assert_eq!(e, AstNode::LiteralFloat(FloatLit { whole: 1, frac: "5".to_string() }));
}

#[test]
fn var_colon_declaration_parses_as_var_decl() {
    let ast = parse_program("void f() { var x: f32 = 1.5; }");
    let decls = match ast {
        AstNode::Program(d) => d,
        _ => panic!("expected program"),
    };
    let body = match &decls[0] {
        AstNode::FunctionDecl { body, .. } => body,
        _ => panic!("expected function"),
    };
    let stmts = match body.as_ref() {
        AstNode::Block(s) => s,
        _ => panic!("expected block"),
    };
    match &stmts[0] {
        AstNode::VarDecl { ty_name, name, value } => {
            assert_eq!(ty_name, "f32");
            assert_eq!(name, "x");
            assert!(value.is_some());
        }
        _ => panic!("expected variable declaration"),
    }
}

#[test]
fn for_break_and_unary_parse() {
    let ast = parse_program("void f() { for (int i = 0; i < 8; i = i + 1) { break; } return !x; }");
    let decls = match ast {
        AstNode::Program(d) => d,
        _ => panic!("expected program"),
    };
    let body = match &decls[0] {
        AstNode::FunctionDecl { body, .. } => body,
        _ => panic!("expected function"),
    };
    let stmts = match body.as_ref() {
        AstNode::Block(s) => s,
        _ => panic!("expected block"),
    };
    match &stmts[0] {
        AstNode::ForStmt { init, condition, increment, .. } => {
            assert!(matches!(init.as_ref(), AstNode::VarDecl { .. }));
            assert!(matches!(condition.as_ref(), AstNode::BinaryOp { .. }));
            assert!(matches!(increment.as_ref(), AstNode::Assignment { .. }));
        }
        _ => panic!("expected for statement"),
    }
    match &stmts[1] {
        AstNode::ReturnStmt(e) => {
            assert!(matches!(
                e.as_ref(),
                AstNode::UnaryOp { op: UnaryOperator::Not, .. }
            ));
        }
        _ => panic!("expected return"),
    }
}

#[test]
fn legacy_and_s2l_function_headers_build_one_shape() {
    let a = parse_program("float f(float a, float b) { return a; }");
    let b = parse_program("fn f(a: float, b: float) float { return a; }");
    assert_eq!(a, b);
}

#[test]
fn implicit_void_return_type() {
    let ast = parse_program("fn f() { return 1; }");
    let decls = match ast {
        AstNode::Program(d) => d,
        _ => panic!("expected program"),
    };
    match &decls[0] {
        AstNode::FunctionDecl { return_type, .. } => assert_eq!(return_type, "void"),
        _ => panic!("expected function"),
    }
}
