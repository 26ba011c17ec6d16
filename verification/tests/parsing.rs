use mclint::ast::{MonkeyCExpression, MonkeyCStatement};
use mclint::lexer::MonkeyCLexer;
use mclint::parse_error::MCParseError;
use mclint::parser::MonkeyCParser;
use mclint::tokens::TokenKind;

fn parse(source: &str) -> Result<Vec<MonkeyCStatement>, Vec<MCParseError>> {
    let mut lexer = MonkeyCLexer::new(source.chars().collect());
    let tokens = lexer.lex().expect("lexing should succeed");
    let mut parser = MonkeyCParser::new(tokens, "<test>".to_string());
    parser.parse()
}

#[test]
fn var_with_literal_value() {
    let statements = parse("var x = 5;").unwrap();
    assert_eq!(
        statements,
        vec![MonkeyCStatement::VariableDeclaration {
            name: Some("x".to_string()),
            default_val: Some(MonkeyCExpression::Simple("5".to_string())),
            var_type: None,
            is_const: false
        }]
    );
}

#[test]
fn var_with_reference_value() {
    let statements = parse("var x = other;").unwrap();
    assert_eq!(
        statements,
        vec![MonkeyCStatement::VariableDeclaration {
            name: Some("x".to_string()),
            default_val: Some(MonkeyCExpression::Reference("other".to_string())),
            var_type: None,
            is_const: false
        }]
    );
}

#[test]
fn const_declaration_sets_flag() {
    let statements = parse("const flag = true;").unwrap();
    assert_eq!(
        statements,
        vec![MonkeyCStatement::VariableDeclaration {
            name: Some("flag".to_string()),
            default_val: Some(MonkeyCExpression::Reference("true".to_string())),
            var_type: None,
            is_const: true
        }]
    );
}

#[test]
fn typed_declaration_keeps_annotation() {
    let statements = parse("var x as Number = 42;").unwrap();
    assert_eq!(
        statements,
        vec![MonkeyCStatement::VariableDeclaration {
            name: Some("x".to_string()),
            default_val: Some(MonkeyCExpression::Simple("42".to_string())),
            var_type: Some("Number".to_string()),
            is_const: false
        }]
    );
}

#[test]
fn declaration_without_value() {
    let statements = parse("var x;").unwrap();
    assert_eq!(
        statements,
        vec![MonkeyCStatement::VariableDeclaration {
            name: Some("x".to_string()),
            default_val: None,
            var_type: None,
            is_const: false
        }]
    );
}

#[test]
fn two_malformed_statements_two_diagnostics() {
    let errors = parse("var x y; var z w;").unwrap_err();
    assert_eq!(errors.len(), 2);
    assert_eq!(errors[0].at, (1, 7));
    assert_eq!(errors[0].literal_len, 1);
    assert_eq!(errors[0].msg, "Expected as, assign, semicolon, found 'y'");
    assert_eq!(
        errors[0].full_msg,
        "Syntax error at <test>:1:7: Expected as, assign, semicolon, found 'y'"
    );
    assert_eq!(errors[1].at, (1, 16));
    assert_eq!(errors[1].msg, "Expected as, assign, semicolon, found 'w'");
    assert_eq!(
        errors[1].full_msg,
        "Syntax error at <test>:1:16: Expected as, assign, semicolon, found 'w'"
    );
}

#[test]
fn identifier_outside_declaration() {
    let errors = parse("as x").unwrap_err();
    assert_eq!(errors.len(), 1);
    assert_eq!(errors[0].at, (1, 4));
    assert_eq!(errors[0].msg, "Identifier 'x' outside of any declaration");
    assert_eq!(
        errors[0].full_msg,
        "Syntax error at <test>:1:4: Identifier 'x' outside of any declaration"
    );
}

#[test]
fn diagnostics_discard_good_statements() {
    let errors = parse("var a = 1; var b 2;").unwrap_err();
    assert_eq!(errors.len(), 1);
    assert_eq!(errors[0].at, (1, 18));
    assert_eq!(errors[0].msg, "Expected as, assign, semicolon, found '2'");
}

#[test]
fn recovery_continues_past_unhandled_grammar() {
    let errors = parse("class Foo {}").unwrap_err();
    assert_eq!(errors.len(), 3);
    assert_eq!(errors[0].at, (1, 7));
    assert_eq!(errors[1].at, (1, 11));
    assert_eq!(errors[2].at, (1, 12));
}

#[test]
fn statement_keywords_alone_are_no_ops() {
    let statements = parse("return").unwrap();
    assert_eq!(statements, vec![]);
}

#[test]
fn stray_semicolon_enumerates_statement_start() {
    let errors = parse(";").unwrap_err();
    assert_eq!(errors.len(), 1);
    assert_eq!(errors[0].at, (1, 1));
    assert_eq!(
        errors[0].msg,
        "Expected as, and, break, case, catch, class, const, continue, default, do, else, enum, \
         extends, finally, for, function, has, hidden, if, instanceof, import, me, module, new, \
         null, nan, private, protected, public, or, return, self, static, switch, throw, try, \
         using, var, while, found ';'"
    );
}

#[test]
fn rows_carry_into_diagnostics() {
    let errors = parse("var a = 1;\nvar b 2;").unwrap_err();
    assert_eq!(errors.len(), 1);
    assert_eq!(errors[0].at, (2, 7));
    assert_eq!(
        errors[0].full_msg,
        "Syntax error at <test>:2:7: Expected as, assign, semicolon, found '2'"
    );
}

#[test]
fn reparsing_gives_equal_statements() {
    let source = "var a as Number = 1; const b = a;";
    let first = parse(source).unwrap();
    let second = parse(source).unwrap();
    assert_eq!(first, second);
}

#[test]
fn reparsing_gives_equal_diagnostics() {
    let source = "var x y; var z w;";
    let first = parse(source).unwrap_err();
    let second = parse(source).unwrap_err();
    assert_eq!(first.len(), second.len());
    for (a, b) in first.iter().zip(second.iter()) {
        assert_eq!(a.at, b.at);
        assert_eq!(a.literal_len, b.literal_len);
        assert_eq!(a.full_msg, b.full_msg);
        assert_eq!(a.msg, b.msg);
    }
}

#[test]
fn literal_kinds_are_expression_values() {
    let parser = MonkeyCParser::new(Vec::new(), "<test>".to_string());
    assert!(parser.is_kind_a_type(TokenKind::BoolLiteral));
    assert!(parser.is_kind_a_type(TokenKind::StringLiteral));
    assert!(parser.is_kind_a_type(TokenKind::IntLiteral));
    assert!(!parser.is_kind_a_type(TokenKind::Identifier));
    assert!(!parser.is_kind_a_type(TokenKind::Semicolon));
}
