use unlox::lexer::Lexer;
use unlox::tokens::{Token, TokenKind, TokenStream};

fn token(kind: TokenKind, lexeme: &str, line: u32) -> Token {
    Token { kind, lexeme: lexeme.into(), line }
}

fn kinds(source: &str) -> Vec<TokenKind> {
    let mut lexer = Lexer::new(source);
    let mut kinds = Vec::new();
    loop {
        let t = lexer.next();
        let kind = t.kind;
        kinds.push(kind);
        if kind == TokenKind::Eof {
            return kinds;
        }
    }
}

#[test]
fn lib_scans_parens() {
    let mut lexer = Lexer::new("()");
    assert_eq!(lexer.next(), token(TokenKind::LeftParen, "(", 1));
    assert_eq!(lexer.next(), token(TokenKind::RightParen, ")", 1));
}

#[test]
fn lib_scans_float() {
    let mut lexer = Lexer::new("12.345");
    let t = lexer.next();
    assert_eq!(t, token(TokenKind::Number, "12.345", 1));
    assert_eq!(t.lexeme.parse::<f64>().unwrap(), 12.345);
}

#[test]
fn lib_scans_string() {
    let mut lexer = Lexer::new(r#""string""#);
    let t = lexer.next();
    assert_eq!(t, token(TokenKind::String, r#""string""#, 1));
    assert_eq!(t.string_value(), "string");
}

#[test]
fn eof_repeats() {
    let mut lexer = Lexer::new(" ");
    assert_eq!(lexer.next(), token(TokenKind::Eof, "", 1));
    assert_eq!(lexer.next(), token(TokenKind::Eof, "", 1));
    assert_eq!(lexer.peek(), token(TokenKind::Eof, "", 1));
}

#[test]
fn peek_is_idempotent() {
    let mut lexer = Lexer::new("var x");
    assert_eq!(lexer.peek(), token(TokenKind::Var, "var", 1));
    assert_eq!(lexer.peek(), token(TokenKind::Var, "var", 1));
    assert_eq!(lexer.next(), token(TokenKind::Var, "var", 1));
    assert_eq!(lexer.next(), token(TokenKind::Identifier, "x", 1));
}

#[test]
fn two_character_operators_take_precedence() {
    assert_eq!(
        kinds("! != = == < <= > >="),
        vec![
            TokenKind::Bang,
            TokenKind::BangEqual,
            TokenKind::Equal,
            TokenKind::EqualEqual,
            TokenKind::Less,
            TokenKind::LessEqual,
            TokenKind::Greater,
            TokenKind::GreaterEqual,
            TokenKind::Eof,
        ]
    );
}

#[test]
fn comments_and_division() {
    assert_eq!(
        kinds("1 / 2 // the rest\n3"),
        vec![
            TokenKind::Number,
            TokenKind::Slash,
            TokenKind::Number,
            TokenKind::Number,
            TokenKind::Eof,
        ]
    );
}

#[test]
fn lines_are_those_of_the_first_character() {
    let mut lexer = Lexer::new("a\n\"x\ny\"\nb");
    assert_eq!(lexer.next(), token(TokenKind::Identifier, "a", 1));
    assert_eq!(lexer.next(), token(TokenKind::String, "\"x\ny\"", 2));
    assert_eq!(lexer.next(), token(TokenKind::Identifier, "b", 4));
    assert_eq!(lexer.next(), token(TokenKind::Eof, "", 4));
}

#[test]
fn unterminated_string_keeps_the_partial_content() {
    let mut lexer = Lexer::new("\"abc");
    assert_eq!(lexer.next(), token(TokenKind::StringUnterminated, "\"abc", 1));
    assert_eq!(lexer.next(), token(TokenKind::Eof, "", 1));
}

#[test]
fn trailing_dot_is_no_part_of_a_number() {
    let mut lexer = Lexer::new("12.");
    assert_eq!(lexer.next(), token(TokenKind::Number, "12", 1));
    assert_eq!(lexer.next(), token(TokenKind::Dot, ".", 1));
}

#[test]
fn digits_are_no_part_of_an_identifier() {
    let mut lexer = Lexer::new("ab1");
    assert_eq!(lexer.next(), token(TokenKind::Identifier, "ab", 1));
    assert_eq!(lexer.next(), token(TokenKind::Number, "1", 1));
}

#[test]
fn reserved_words() {
    assert_eq!(
        kinds("and class else false for fun if nil or print return super this true var while whilst"),
        vec![
            TokenKind::And,
            TokenKind::Class,
            TokenKind::Else,
            TokenKind::False,
            TokenKind::For,
            TokenKind::Fun,
            TokenKind::If,
            TokenKind::Nil,
            TokenKind::Or,
            TokenKind::Print,
            TokenKind::Return,
            TokenKind::Super,
            TokenKind::This,
            TokenKind::True,
            TokenKind::Var,
            TokenKind::While,
            TokenKind::Identifier,
            TokenKind::Eof,
        ]
    );
}

#[test]
fn unknown_characters_are_tokens() {
    let mut lexer = Lexer::new("@é");
    assert_eq!(lexer.next(), token(TokenKind::Unknown, "@", 1));
    assert_eq!(lexer.next(), token(TokenKind::Unknown, "é", 1));
    assert_eq!(lexer.next(), token(TokenKind::Eof, "", 1));
}

#[test]
fn lexemes_and_gaps_reproduce_the_source() {
    let source = "var a = 1; // note\nprint a + \"s\";\n";
    let mut lexer = Lexer::new(source);
    let mut rest = source;
    loop {
        let t = lexer.next();
        if t.kind == TokenKind::Eof {
            break;
        }
        let at = rest.find(&t.lexeme).unwrap();
        let gap = &rest[..at];
        assert!(gap.chars().all(|c| c.is_whitespace()) || gap.trim_start().starts_with("//"));
        rest = &rest[at + t.lexeme.len()..];
    }
    assert!(rest.trim().is_empty());
}

#[test]
fn scanner_scans_parens() {
    let mut scanner = Lexer::new("()");
    assert_eq!(scanner.peek(), token(TokenKind::LeftParen, "(", 1));
    assert_eq!(scanner.next(), token(TokenKind::LeftParen, "(", 1));
    assert_eq!(scanner.next(), token(TokenKind::RightParen, ")", 1));
}

#[test]
fn scanner_scans_float() {
    let mut scanner = Lexer::new("12.345");
    let t = scanner.next();
    assert_eq!(t, token(TokenKind::Number, "12.345", 1));
    assert_eq!(t.lexeme.parse::<f64>().unwrap(), 12.345);
    assert_eq!(scanner.next(), token(TokenKind::Eof, "", 1));
}

#[test]
fn scanner_scans_string() {
    let mut scanner = Lexer::new(r#""string""#);
    let t = scanner.next();
    assert_eq!(t, token(TokenKind::String, r#""string""#, 1));
    assert_eq!(t.string_value(), "string");
}

#[test]
fn lex_scans_parens() {
    assert_eq!(
        kinds("()"),
        vec![TokenKind::LeftParen, TokenKind::RightParen, TokenKind::Eof]
    );
    let mut lexer = Lexer::new("()");
    assert_eq!(lexer.next(), token(TokenKind::LeftParen, "(", 1));
    assert_eq!(lexer.next(), token(TokenKind::RightParen, ")", 1));
}

#[test]
fn lex_scans_float() {
    let mut lexer = Lexer::new("12.345");
    let t = lexer.next();
    assert_eq!(t, token(TokenKind::Number, "12.345", 1));
    assert_eq!(t.lexeme.parse::<f64>().unwrap(), 12.345);
}

#[test]
fn lex_scans_string() {
    let mut lexer = Lexer::new(r#""string""#);
    let t = lexer.next();
    assert_eq!(t, token(TokenKind::String, r#""string""#, 1));
    assert_eq!(t.string_value(), "string");
}

#[test]
fn match_next_takes_only_the_kind_asked_for() {
    let mut lexer = Lexer::new("a;");
    assert_eq!(
        unlox::tokens::match_next(&mut lexer, TokenKind::Semicolon),
        Err(token(TokenKind::Identifier, "a", 1))
    );
    assert!(!unlox::tokens::eof(&mut lexer));
    assert_eq!(
        unlox::tokens::match_next(&mut lexer, TokenKind::Identifier),
        Ok(token(TokenKind::Identifier, "a", 1))
    );
    assert_eq!(
        unlox::tokens::match_next(&mut lexer, TokenKind::Semicolon),
        Ok(token(TokenKind::Semicolon, ";", 1))
    );
    assert!(unlox::tokens::eof(&mut lexer));
    assert_eq!(
        unlox::tokens::match_next(&mut lexer, TokenKind::Eof),
        Ok(token(TokenKind::Eof, "", 1))
    );
    assert!(unlox::tokens::eof(&mut lexer));
}
