use sumic::lexer::tokenize;
use sumic::LexError;
use sumic::Token;

#[test]
fn test_struct_lexing() {
    let input = "struct Material { vec3 color; }";
    let tokens: Vec<_> = tokenize(input);

    assert_eq!(tokens[0], Ok(Token::Struct));
    assert_eq!(tokens[1], Ok(Token::Identifier("Material".to_string())));
    assert_eq!(tokens[2], Ok(Token::LBrace));
    assert_eq!(tokens[3], Ok(Token::Identifier("vec3".to_string())));
}

#[test]
fn test_doc_comments() {
    let input = "/// This is a doc\n// This is hidden\nstruct";
    let tokens: Vec<_> = tokenize(input);

    match &tokens[0] {
        Ok(Token::DocComment(s)) => assert_eq!(s, "This is a doc"),
        _ => panic!("Expected DocComment"),
    }
    assert_eq!(tokens[1], Ok(Token::Struct)); // The // comment was skipped
}

#[test]
fn unknown_character_is_error_and_lexing_continues() {
    let tokens = tokenize("a @ b");
    assert_eq!(tokens[0], Ok(Token::Identifier("a".to_string())));
    assert_eq!(tokens[1], Err(LexError { pos: 2 }));
    assert_eq!(tokens[2], Ok(Token::Identifier("b".to_string())));
    assert_eq!(tokens.len(), 3);
}

#[test]
fn multi_character_operators() {
    let tokens = tokenize("a == b <= c >= d < e > f = g");
    let kinds: Vec<Token> = tokens.into_iter().map(|t| t.unwrap()).collect();
    assert_eq!(kinds[1], Token::DoubleEquals);
    assert_eq!(kinds[3], Token::LessEquals);
    assert_eq!(kinds[5], Token::GreaterEquals);
    assert_eq!(kinds[7], Token::Less);
    assert_eq!(kinds[9], Token::Greater);
    assert_eq!(kinds[11], Token::Equals);
}

#[test]
fn numbers_keep_raw_lexemes() {
    let tokens = tokenize("12 3.50 7.");
    let kinds: Vec<Token> = tokens.into_iter().map(|t| t.unwrap()).collect();
    assert_eq!(kinds[0], Token::Number("12".to_string()));
    assert_eq!(kinds[1], Token::Number("3.50".to_string()));
    // no digits after the point: the dot is its own token
    assert_eq!(kinds[2], Token::Number("7".to_string()));
    assert_eq!(kinds[3], Token::Dot);
}

#[test]
fn keywords_and_identifiers() {
    let tokens = tokenize("fn return if else for break structx");
    let kinds: Vec<Token> = tokens.into_iter().map(|t| t.unwrap()).collect();
    assert_eq!(kinds[0], Token::Fn);
    assert_eq!(kinds[1], Token::Return);
    assert_eq!(kinds[2], Token::If);
    assert_eq!(kinds[3], Token::Else);
    assert_eq!(kinds[4], Token::For);
    assert_eq!(kinds[5], Token::Break);
    assert_eq!(kinds[6], Token::Identifier("structx".to_string()));
}

#[test]
fn doc_comment_trimming_and_empty_marker() {
    let tokens = tokenize("///   padded   \n///\nx");
    match &tokens[0] {
        Ok(Token::DocComment(s)) => assert_eq!(s, "padded"),
        _ => panic!("Expected DocComment"),
    }
    match &tokens[1] {
        Ok(Token::DocComment(s)) => assert_eq!(s, ""),
        _ => panic!("Expected DocComment"),
    }
}
