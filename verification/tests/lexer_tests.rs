use meowscript::lexer::{find_indentifier, is_letter, Lexer};
use meowscript::token::Token;

fn lex(src: &str) -> Vec<Token> {
    let mut lexer = Lexer::new(src.to_string());
    let mut out = Vec::new();
    loop {
        let t = lexer.next_token();
        if t == Token::Eof {
            break;
        }
        out.push(t);
    }
    out
}

#[test]
fn lexes_a_binding() {
    assert_eq!(
        lex("scratch x = 5;"),
        vec![
            Token::Bind,
            Token::Ident("x".to_string()),
            Token::Assign,
            Token::Number("5".to_string()),
            Token::Semicolon,
        ]
    );
}

#[test]
fn lexes_two_character_operators() {
    assert_eq!(
        lex("== != <= >= << >> < > = !"),
        vec![
            Token::Equals,
            Token::NotEquals,
            Token::LessEqual,
            Token::GreaterEqual,
            Token::LeftShift,
            Token::RightShift,
            Token::Less,
            Token::Greater,
            Token::Assign,
            Token::Bang,
        ]
    );
}

#[test]
fn end_marker_repeats() {
    let mut lexer = Lexer::new("x".to_string());
    assert_eq!(lexer.next_token(), Token::Ident("x".to_string()));
    assert_eq!(lexer.next_token(), Token::Eof);
    assert_eq!(lexer.next_token(), Token::Eof);
    assert_eq!(lexer.next_token(), Token::Eof);
}

#[test]
fn empty_text_gives_end_marker() {
    let mut lexer = Lexer::new(String::new());
    assert_eq!(lexer.next_token(), Token::Eof);
}

#[test]
fn lexes_strings_without_escapes() {
    assert_eq!(lex("\"a\\n b\""), vec![Token::String("a\\n b".to_string())]);
    assert_eq!(lex("\"open"), vec![Token::String("open".to_string())]);
}

#[test]
fn lexes_comments_and_illegal_characters() {
    assert_eq!(
        lex("x // note\ny @"),
        vec![
            Token::Ident("x".to_string()),
            Token::Comment,
            Token::Ident("y".to_string()),
            Token::Illegal,
        ]
    );
}

#[test]
fn keywords_shadow_identifiers() {
    assert_eq!(find_indentifier("purrhaps"), Some(Token::If));
    assert_eq!(find_indentifier("purrfect"), Some(Token::Boolean(true)));
    assert_eq!(find_indentifier("clawful"), Some(Token::Boolean(false)));
    assert_eq!(find_indentifier("cat"), None);
    assert_eq!(
        lex("pawction tail hiss furrever furreal meowtually pawckage amew continue"),
        vec![
            Token::Func,
            Token::Return,
            Token::Break,
            Token::Loop,
            Token::Typeof,
            Token::Else,
            Token::Include,
            Token::Anew,
            Token::Continue,
        ]
    );
}

#[test]
fn letters_are_ascii_or_underscore() {
    assert!(is_letter('a'));
    assert!(is_letter('Z'));
    assert!(is_letter('_'));
    assert!(!is_letter('1'));
    assert!(!is_letter(' '));
}

#[test]
fn numerals_keep_their_text() {
    assert_eq!(
        lex("1.50 007 1.2.3"),
        vec![
            Token::Number("1.50".to_string()),
            Token::Number("007".to_string()),
            Token::Number("1.2.3".to_string()),
        ]
    );
}

#[test]
fn read_comment_stops_at_line_end() {
    let mut lexer = Lexer::new("// hi\nx".to_string());
    assert_eq!(lexer.read_comment(), "// hi".to_string());
    lexer.read_char();
    assert_eq!(lexer.next_token(), Token::Ident("x".to_string()));
}
