use mclint::lexer::{LexReason, MonkeyCLexer};
use mclint::tokens::{Token, TokenKind};

fn lex(source: &str) -> Vec<Token> {
    let mut lexer = MonkeyCLexer::new(source.chars().collect());
    lexer.lex().expect("lexing should succeed")
}

fn lex_err(source: &str) -> mclint::lexer::LexError {
    let mut lexer = MonkeyCLexer::new(source.chars().collect());
    lexer.lex().expect_err("lexing should fail")
}

#[test]
fn round_trip_tokens() {
    let tokens = lex("var myVar as String = \"Hm\";\nvar myOtherVar = myVar;");
    let kinds: Vec<TokenKind> = tokens.iter().map(|t| t.kind).collect();
    assert_eq!(
        kinds,
        vec![
            TokenKind::Var,
            TokenKind::Identifier,
            TokenKind::As,
            TokenKind::Identifier,
            TokenKind::Assign,
            TokenKind::StringLiteral,
            TokenKind::Semicolon,
            TokenKind::Var,
            TokenKind::Identifier,
            TokenKind::Assign,
            TokenKind::Identifier,
            TokenKind::Semicolon,
        ]
    );
    let literals: Vec<&str> = tokens.iter().map(|t| t.literal.as_str()).collect();
    assert_eq!(
        literals,
        vec![
            "var",
            "myVar",
            "as",
            "String",
            "=",
            "Hm",
            ";",
            "var",
            "myOtherVar",
            "=",
            "myVar",
            ";"
        ]
    );
}

#[test]
fn rows_reset_after_newline() {
    let tokens = lex("var myVar as String = \"Hm\";\nvar myOtherVar = myVar;");
    let rows: Vec<u64> = tokens.iter().map(|t| t.row).collect();
    assert_eq!(rows, vec![1, 1, 1, 1, 1, 1, 1, 2, 2, 2, 2, 2]);
    let columns: Vec<u64> = tokens.iter().map(|t| t.column).collect();
    assert_eq!(columns, vec![1, 5, 11, 14, 21, 23, 27, 1, 5, 16, 18, 23]);
}

#[test]
fn numeric_literals_lex_by_suffix() {
    let t = lex("3.14");
    assert_eq!(t.len(), 1);
    assert_eq!(t[0].kind, TokenKind::FloatLiteral);
    assert_eq!(t[0].literal, "3.14");

    let t = lex("42l");
    assert_eq!(t.len(), 1);
    assert_eq!(t[0].kind, TokenKind::LongLiteral);
    assert_eq!(t[0].literal, "42l");

    let t = lex("7d");
    assert_eq!(t.len(), 1);
    assert_eq!(t[0].kind, TokenKind::DoubleLiteral);
    assert_eq!(t[0].literal, "7d");

    let t = lex("42");
    assert_eq!(t.len(), 1);
    assert_eq!(t[0].kind, TokenKind::IntLiteral);
    assert_eq!(t[0].literal, "42");
}

#[test]
fn float_with_long_decorator_fails() {
    let e = lex_err("3.14l");
    assert_eq!(e.reason, LexReason::FloatWithL);
    assert_eq!((e.row, e.column), (1, 5));
    assert_eq!(e.reason_text(), "A Float can't have 'l' at the end");
}

#[test]
fn float_with_double_decorator_fails() {
    let e = lex_err("2.5d");
    assert_eq!(e.reason, LexReason::FloatWithD);
    assert_eq!((e.row, e.column), (1, 4));
    assert_eq!(e.reason_text(), "A Float can't have 'd' at the end");
}

#[test]
fn two_decorators_fail() {
    let e = lex_err("1l2d");
    assert_eq!(e.reason, LexReason::MultipleDecorators);
    assert_eq!((e.row, e.column), (1, 4));

    let e = lex_err("42ld");
    assert_eq!(e.reason, LexReason::MultipleDecorators);
    assert_eq!((e.row, e.column), (1, 4));
}

#[test]
fn decorator_position_tracks_rows() {
    let e = lex_err("var x;\n3.14l;");
    assert_eq!(e.reason, LexReason::FloatWithL);
    assert_eq!((e.row, e.column), (2, 5));
}

#[test]
fn unterminated_string_terminates() {
    let tokens = lex("\"abc");
    assert_eq!(tokens.len(), 1);
    assert_eq!(tokens[0].kind, TokenKind::StringLiteral);
    assert_eq!(tokens[0].literal, "abc");

    let tokens = lex("\"");
    assert_eq!(tokens.len(), 1);
    assert_eq!(tokens[0].literal, "");
}

#[test]
fn char_literal_consumes_fixed_width() {
    let tokens = lex("'a'b");
    assert_eq!(tokens.len(), 2);
    assert_eq!(tokens[0].kind, TokenKind::CharLiteral);
    assert_eq!(tokens[0].literal, "a");
    assert_eq!((tokens[0].row, tokens[0].column), (1, 2));
    assert_eq!(tokens[1].kind, TokenKind::Identifier);
    assert_eq!(tokens[1].literal, "b");
}

#[test]
fn quote_at_end_of_input_is_skipped() {
    let tokens = lex("x'");
    assert_eq!(tokens.len(), 1);
    assert_eq!(tokens[0].literal, "x");
}

#[test]
fn keywords_are_case_sensitive() {
    let tokens = lex("NaN nan instanceof var Var");
    let kinds: Vec<TokenKind> = tokens.iter().map(|t| t.kind).collect();
    assert_eq!(
        kinds,
        vec![
            TokenKind::Nan,
            TokenKind::Identifier,
            TokenKind::InstanceOf,
            TokenKind::Var,
            TokenKind::Identifier,
        ]
    );
}

#[test]
fn punctuation_tokens() {
    let tokens = lex("{}()~=-+/,;!^><&|");
    let kinds: Vec<TokenKind> = tokens.iter().map(|t| t.kind).collect();
    assert_eq!(
        kinds,
        vec![
            TokenKind::OpeningBracket,
            TokenKind::ClosingBracket,
            TokenKind::OpeningBrace,
            TokenKind::ClosingBrace,
            TokenKind::Tilde,
            TokenKind::Assign,
            TokenKind::Minus,
            TokenKind::Plus,
            TokenKind::Slash,
            TokenKind::Comma,
            TokenKind::Semicolon,
            TokenKind::Bang,
            TokenKind::Caret,
            TokenKind::GreaterThan,
            TokenKind::LessThan,
            TokenKind::Ampersand,
            TokenKind::VerticalBar,
        ]
    );
}

#[test]
fn unknown_characters_are_skipped() {
    let tokens = lex("var @ x # ;");
    let kinds: Vec<TokenKind> = tokens.iter().map(|t| t.kind).collect();
    assert_eq!(kinds, vec![TokenKind::Var, TokenKind::Identifier, TokenKind::Semicolon]);
}

#[test]
fn relexing_gives_equal_tokens() {
    let source = "var a = 1;\nconst b = \"s\";";
    let first = lex(source);
    let second = lex(source);
    assert_eq!(first, second);
}
