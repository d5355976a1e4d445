use awsdsl::lex::{Scanner, Token, TokenType};

fn scanned(s: &str) -> Vec<Token> {
    let mut scanr = Scanner::new("".to_string(), s.to_string());
    scanr.scan_tokens();
    scanr.tokens
}

#[test]
fn test_number() {
    let s = "aws { ec2 { count = 10 } }";
    let mut scanr = Scanner::new("".to_string(), s.to_string());
    scanr.scan_tokens();
    let number_tok_exists = |tokens: Vec<Token>| -> bool {
        for tok in tokens {
            if tok.token_type == TokenType::Number {
                return true;
            }
        }
        false
    };
    assert!(number_tok_exists(scanr.tokens));
}

#[test]
fn test_decimal_number() {
    let s = "aws { ec2 { count = 10.0 } }";
    let mut scanr = Scanner::new("".to_string(), s.to_string());
    scanr.scan_tokens();
    let num_tokens = scanr
        .tokens
        .iter()
        .filter_map(|tok| match tok.token_type {
            TokenType::Number => tok.lexeme.parse::<f32>().ok(),
            _ => None,
        })
        .collect::<Vec<f32>>();
    assert_eq!(num_tokens.get(0), Some(&10.0));
}

#[test]
fn test_string() {
    let s = "aws { ec2 { name = \"my_node\" } }";
    let mut scanr = Scanner::new("".to_string(), s.to_string());
    scanr.scan_tokens();
    let comment_toks = scanr
        .tokens
        .iter()
        .filter_map(|tok| match tok.token_type {
            TokenType::StringLiteral => Some(tok.literal.as_ref().unwrap()),
            _ => None,
        })
        .collect::<Vec<&String>>();
    let expected = String::from("my_node");
    assert_eq!(comment_toks.get(0), Some(&&expected));
}

#[test]
fn test_ec2_id() {
    let s = "aws { ec2 { ec2_id = 10 } }";
    let mut scanr = Scanner::new("".to_string(), s.to_string());
    scanr.scan_tokens();
    let kword_tokens = scanr
        .tokens
        .iter()
        .filter_map(|tok| match tok.token_type {
            TokenType::Keyword => Some(tok.lexeme.as_str()),
            _ => None,
        })
        .collect::<Vec<&str>>();
    assert_eq!(kword_tokens, vec!["aws", "ec2"]);
    let id_tok = scanr.tokens.iter().find(|t| t.lexeme == "ec2_id").unwrap();
    assert_eq!(id_tok.token_type, TokenType::Identifier);
}

#[test]
fn test_image() {
    let s = "aws { ec2 { image = \"test-image\" } }";
    let mut scanr = Scanner::new("".to_string(), s.to_string());
    scanr.scan_tokens();
    let kword_tokens = scanr
        .tokens
        .iter()
        .filter_map(|tok| match tok.token_type {
            TokenType::Keyword => Some(tok.lexeme.as_str()),
            _ => None,
        })
        .collect::<Vec<&str>>();
    assert_eq!(kword_tokens, vec!["aws", "ec2"]);
    let image_tok = scanr.tokens.iter().find(|t| t.lexeme == "image").unwrap();
    assert_eq!(image_tok.token_type, TokenType::Identifier);
}

#[test]
fn test_app_version() {
    let s = "aws { ec2 { app_version = 10.0 } }";
    let mut scanr = Scanner::new("".to_string(), s.to_string());
    scanr.scan_tokens();
    let kword_tokens = scanr
        .tokens
        .iter()
        .filter_map(|tok| match tok.token_type {
            TokenType::Keyword => Some(tok.lexeme.as_str()),
            _ => None,
        })
        .collect::<Vec<&str>>();
    assert_eq!(kword_tokens.get(2), Some(&"app_version"));
}

#[test]
fn test_comment() {
    let toks = scanned("// a note\nname");
    assert_eq!(toks[0].token_type, TokenType::Comment);
    assert_eq!(toks[0].lexeme, "// a note");
    assert_eq!(toks[1].token_type, TokenType::Keyword);
    assert_eq!(toks[1].line_no, 2);
    assert_eq!(toks[1].column_no, 0);
}

#[test]
fn scan_ends_with_end_of_input() {
    let toks = scanned("");
    assert_eq!(toks.len(), 1);
    assert_eq!(toks[0].token_type, TokenType::EoF);
    assert_eq!(toks[0].line_no, 1);
    assert_eq!(toks[0].column_no, 0);
}

#[test]
fn scan_two_character_operators() {
    let toks = scanned("<= >= != == < > ! = / * - ; : , . ( )");
    let kinds: Vec<TokenType> = toks.iter().map(|t| t.token_type).collect();
    assert_eq!(
        kinds,
        vec![
            TokenType::LessEqual,
            TokenType::GreaterEqual,
            TokenType::BangEqual,
            TokenType::EqualEqual,
            TokenType::Less,
            TokenType::Greater,
            TokenType::Bang,
            TokenType::Equal,
            TokenType::Div,
            TokenType::Star,
            TokenType::Minus,
            TokenType::SemiColon,
            TokenType::Colon,
            TokenType::Comma,
            TokenType::Dot,
            TokenType::LeftParen,
            TokenType::RightParen,
            TokenType::EoF,
        ]
    );
    assert_eq!(toks[0].lexeme, "<=");
    assert_eq!(toks[1].column_no, 3);
}

#[test]
fn scan_positions_are_token_starts() {
    let toks = scanned("aws {\n  ec2 {");
    assert_eq!((toks[0].line_no, toks[0].column_no), (1, 0));
    assert_eq!((toks[1].line_no, toks[1].column_no), (1, 4));
    assert_eq!((toks[2].line_no, toks[2].column_no), (2, 2));
    assert_eq!((toks[3].line_no, toks[3].column_no), (2, 6));
}

#[test]
fn scan_identifier_and_number_literals() {
    let toks = scanned("colour 1.2.3");
    assert_eq!(toks[0].token_type, TokenType::Identifier);
    assert_eq!(toks[0].literal.as_deref(), Some("colour"));
    assert_eq!(toks[1].token_type, TokenType::Number);
    assert_eq!(toks[1].lexeme, "1.2.3");
    assert_eq!(toks[1].literal.as_deref(), Some("1.2.3"));
}

#[test]
fn scan_multiline_string_is_one_token() {
    let toks = scanned("name = \"first\nsecond\" region");
    assert_eq!(toks[2].token_type, TokenType::StringLiteral);
    assert_eq!(toks[2].lexeme, "\"first\nsecond\"");
    assert_eq!(toks[2].literal.as_deref(), Some("first\nsecond"));
    assert_eq!(toks[2].line_no, 2);
    assert_eq!(toks[2].column_no, 0);
    assert_eq!(toks[3].token_type, TokenType::Keyword);
    assert_eq!(toks[3].line_no, 2);
    assert_eq!(toks[3].column_no, 8);
}

#[test]
fn token_new_keeps_its_fields() {
    let t = Token::new(TokenType::Number, "7".to_string(), Some("7".to_string()), 3, 4);
    assert_eq!(t.token_type, TokenType::Number);
    assert_eq!(t.lexeme, "7");
    assert_eq!(t.literal.as_deref(), Some("7"));
    assert_eq!((t.line_no, t.column_no), (3, 4));
    assert_eq!(TokenType::LeftBrace.name(), "LEFT_BRACE");
    assert_eq!(TokenType::LeftBrace.show(), "tok: LEFT_BRACE");
}

#[test]
fn scanner_cursor_steps() {
    let mut s = Scanner::new("f".to_string(), "ab\nc".to_string());
    assert_eq!(s.peek(), Some('a'));
    assert_eq!(s.advance(), Some('a'));
    assert_eq!(s.advance(), Some('b'));
    assert_eq!(s.advance(), Some('\n'));
    assert_eq!((s.line, s.column_no), (1, 3));
    assert_eq!(s.advance(), Some('c'));
    assert_eq!(s.peek(), None);
}

#[test]
fn comment_runs_to_the_newline() {
    let toks = scanned("// a\rb\nname");
    assert_eq!(toks.len(), 3);
    assert_eq!(toks[0].token_type, TokenType::Comment);
    assert_eq!(toks[0].lexeme, "// a\rb");
    assert_eq!(toks[0].line_no, 1);
    assert_eq!(toks[1].token_type, TokenType::Keyword);
    assert_eq!((toks[1].line_no, toks[1].column_no), (2, 0));
}

#[test]
fn scanner_helpers_consume_the_delimiter() {
    let mut s = Scanner::new("f".to_string(), "12.5}x".to_string());
    s.scan_number();
    assert_eq!((s.current, s.column_no, s.line), (5, 5, 1));
    let mut w = Scanner::new("f".to_string(), "ab_1 c".to_string());
    w.scan_lexeme_with_underscore();
    assert_eq!((w.current, w.column_no), (5, 5));
    let mut e = Scanner::new("f".to_string(), "ab".to_string());
    e.scan_lexeme_with_underscore();
    assert_eq!(e.current, 2);
    let mut c = Scanner::new("f".to_string(), "ab\ncd".to_string());
    c.read_until_eol();
    assert_eq!((c.current, c.line, c.column_no), (3, 2, 0));
    let mut q = Scanner::new("f".to_string(), "a\nb\"c".to_string());
    assert!(q.read_until_eo_quote());
    assert_eq!((q.current, q.line, q.column_no), (4, 2, 2));
}
