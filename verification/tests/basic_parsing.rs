use mclint::ast::MonkeyCExpression;
use mclint::ast::MonkeyCStatement::VariableDeclaration;
use mclint::lexer::MonkeyCLexer;
use mclint::parser::MonkeyCParser;

#[test]
fn basic_code() {
    let data = "var myVar as String = \"Hm\";\nvar myOtherVar = myVar;";
    let mut lexer = MonkeyCLexer::new(data.chars().collect());
    let tokens = lexer.lex().expect("Failed to tokenize data");
    println!("{:?}", tokens.clone());
    let mut parser = MonkeyCParser::new(tokens, "<test>".to_string());

    // Check for equality of parsed syntax
    assert_eq!(
        parser.parse().unwrap(),
        vec![
            VariableDeclaration {
                name: Some("myVar".to_string()),
                default_val: Some(MonkeyCExpression::Simple("Hm".to_string())),
                var_type: Some("String".to_string()),
                is_const: false
            },
            VariableDeclaration {
                name: Some("myOtherVar".to_string()),
                default_val: Some(MonkeyCExpression::Reference("myVar".to_string())),
                var_type: None,
                is_const: false
            }
        ]
    );
}
