use cssengine::lexer::{Lexer, Token};

fn token_names(tokens: &[Token<'_>]) -> Vec<String> {
    tokens.iter().map(|t| t.describe()).collect()
}

#[test]
fn simple_rule_tokens() {
    let mut lexer = Lexer::new("button { color: red; }");
    let tokens = lexer.tokens();
    let names = token_names(&tokens);
    assert!(names.iter().any(|n| n.starts_with("Selector(button")), "{names:?}");
    assert!(names.iter().any(|n| n.starts_with("Property(color")), "{names:?}");
    assert!(names.iter().any(|n| n.starts_with("Value(red")), "{names:?}");
}

#[test]
fn at_rule_media() {
    let css = "@media (max-width: 600px) { .foo { color: red; } }";
    let mut lexer = Lexer::new(css);
    let tokens = lexer.tokens();
    let names = token_names(&tokens);
    assert!(
        names.iter().any(|n| n.starts_with("AtRule(@media")),
        "Expected AtRule token, got: {names:?}"
    );
    assert!(names.iter().any(|n| n.starts_with("Selector(.foo")), "{names:?}");
    assert!(names.iter().any(|n| n.starts_with("Property(color")), "{names:?}");
    assert!(names.iter().any(|n| n.starts_with("Value(red")), "{names:?}");
}

#[test]
fn at_rule_keyframes() {
    let css = "@keyframes fadeIn { from { opacity: 0; } to { opacity: 1; } }";
    let mut lexer = Lexer::new(css);
    let tokens = lexer.tokens();
    let names = token_names(&tokens);
    assert!(names.iter().any(|n| n.starts_with("AtRule(@keyframes")), "{names:?}");
    assert!(names.iter().any(|n| n.starts_with("Selector(from")), "{names:?}");
    assert!(names.iter().any(|n| n.starts_with("Property(opacity")), "{names:?}");
}

#[test]
fn comment_consumed_cleanly() {
    let css = "/* hello world */ .a { color: red; }";
    let mut lexer = Lexer::new(css);
    let tokens = lexer.tokens();
    let names = token_names(&tokens);
    assert!(names.iter().any(|n| n.starts_with("Selector(.a")), "{names:?}");
    assert!(!names.iter().any(|n| n.contains("hello")), "{names:?}");
}

#[test]
fn block_depth_counter() {
    let css = "@media screen { .x { color: blue; } }";
    let mut lexer = Lexer::new(css);
    let tokens = lexer.tokens();
    let names = token_names(&tokens);
    assert!(names.iter().any(|n| n.starts_with("AtRule(@media")), "{names:?}");
    assert!(names.iter().any(|n| n.starts_with("Selector(.x")), "{names:?}");
    assert!(names.iter().any(|n| n.starts_with("Property(color")), "{names:?}");
    assert!(names.iter().any(|n| n.starts_with("Value(blue")), "{names:?}");
}

#[test]
fn col_tracking() {
    let css = ".btn { color: red; }";
    let mut lexer = Lexer::new(css);
    let tokens = lexer.tokens();
    for token in &tokens {
        match token {
            Token::Selector { col, .. }
            | Token::Property { col, .. }
            | Token::Value { col, .. }
            | Token::BlockOpen { col, .. }
            | Token::BlockClose { col, .. }
            | Token::Colon { col, .. }
            | Token::Semicolon { col, .. }
            | Token::AtRule { col, .. } => {
                let _ = col;
            }
            Token::EOF => {}
        }
    }
}

#[test]
fn css_variables_in_root() {
    let css = ":root { --color: blue; } .btn { color: var(--color); }";
    let mut lexer = Lexer::new(css);
    let tokens = lexer.tokens();
    let names = token_names(&tokens);
    assert!(names.iter().any(|n| n.contains(":root")), "{names:?}");
    assert!(names.iter().any(|n| n.contains("--color")), "{names:?}");
}

#[test]
fn exact_token_stream() {
    let mut lexer = Lexer::new("a { b: c; }");
    let names = token_names(&lexer.tokens());
    assert_eq!(
        names,
        vec!["Selector(a)", "BlockOpen", "Property(b)", "Colon", "Value(c)", "Semicolon", "BlockClose", "EOF"]
    );
}

#[test]
fn token_positions() {
    let mut lexer = Lexer::new("a {\n  b: c;\n}");
    let tokens = lexer.tokens();
    match tokens[0] {
        Token::Selector { line, col, value } => {
            assert_eq!(value, "a");
            assert_eq!((line, col), (1, 2));
        }
        _ => panic!("expected a selector"),
    }
    match tokens[2] {
        Token::Property { line, col, .. } => assert_eq!((line, col), (2, 3)),
        _ => panic!("expected a property"),
    }
}

#[test]
fn font_face_opens_declaration_block() {
    let mut lexer = Lexer::new("@font-face { font-family: x; }");
    let names = token_names(&lexer.tokens());
    assert_eq!(
        names,
        vec!["AtRule(@font-face )", "BlockOpen", "Property(font-family)", "Colon", "Value(x)", "Semicolon", "BlockClose", "EOF"]
    );
}

#[test]
fn empty_input_is_only_eof() {
    let mut lexer = Lexer::new("");
    let names = token_names(&lexer.tokens());
    assert_eq!(names, vec!["EOF"]);
}
