use compiler_core::expr::{Expr, LiteralValue};
use compiler_core::parser::{Expectation, Parser};
use compiler_core::token::{Token, TokenType};
use compiler_core::visitors::AstPrinter;

fn printed(text: &str) -> String {
    let mut parser = Parser::new(text);
    let tree = parser.parse();
    tree.accept(&mut AstPrinter::new())
}

fn is_placeholder(e: &Expr) -> bool {
    matches!(e, Expr::Literal(l) if l.value == LiteralValue::Illegal)
}

#[test]
fn products_bind_tighter_than_sums() {
    assert_eq!(printed("1 + 2 * 3"), "(+ 1 (* 2 3))");
}

#[test]
fn same_level_operators_fold_left() {
    assert_eq!(printed("1 - 2 - 3"), "(- (- 1 2) 3)");
    assert_eq!(printed("8 / 4 / 2"), "(/ (/ 8 4) 2)");
}

#[test]
fn unary_minus_binds_tightest() {
    assert_eq!(printed("-1 * 2"), "(* (- 1) 2)");
    assert_eq!(printed("!!true"), "(! (! true))");
}

#[test]
fn grouping_is_kept() {
    assert_eq!(printed("(1 + 2) * 3"), "(* (group (+ 1 2)) 3)");
}

#[test]
fn comparison_and_equality_levels() {
    assert_eq!(printed("1 < 2 == 3 >= 4"), "(== (< 1 2) (>= 3 4))");
    assert_eq!(printed("\"a\" != null"), "(!= a null)");
}

#[test]
fn empty_input_gives_the_placeholder() {
    let mut parser = Parser::new("");
    let tree = parser.parse();
    assert!(is_placeholder(&tree));
    assert!(parser.errors().is_empty());
    assert_eq!(printed(""), "ILLEGAL");
}

#[test]
fn missing_close_paren_at_a_token() {
    let mut parser = Parser::new("(1 +\n 2\n 3");
    let tree = parser.parse();
    assert!(is_placeholder(&tree));
    let errors = parser.errors();
    assert_eq!(errors.len(), 1);
    assert_eq!(errors[0].expected, Expectation::CloseParen);
    assert_eq!(errors[0].token, Some(Token::new(TokenType::NUMBER, "3".to_string(), 3)));
}

#[test]
fn missing_close_paren_at_the_end() {
    let mut parser = Parser::new("(1 + 2");
    let tree = parser.parse();
    assert!(is_placeholder(&tree));
    let errors = parser.errors();
    assert_eq!(errors.len(), 1);
    assert_eq!(errors[0].expected, Expectation::CloseParen);
    assert_eq!(errors[0].token, None);
}

#[test]
fn missing_operand_is_reported() {
    let mut parser = Parser::new("1 + )");
    let tree = parser.parse();
    assert!(is_placeholder(&tree));
    assert_eq!(parser.errors()[0].expected, Expectation::Expression);
    assert_eq!(
        parser.errors()[0].token,
        Some(Token::new(TokenType::RPAREN, ")".to_string(), 1))
    );
    let mut at_end = Parser::new("2 *");
    assert!(is_placeholder(&at_end.parse()));
    assert_eq!(at_end.errors()[0].token, None);
}

#[test]
fn trailing_tokens_are_left_for_the_next_call() {
    let mut parser = Parser::new("1 2");
    let mut printer = AstPrinter::new();
    assert_eq!(parser.parse().accept(&mut printer), "1");
    assert_eq!(parser.parse().accept(&mut printer), "2");
    assert!(is_placeholder(&parser.parse()));
    assert!(parser.errors().is_empty());
}

#[test]
fn synchronize_stops_at_a_statement_boundary() {
    let mut parser = Parser::new("* a ; fn 4");
    assert!(is_placeholder(&parser.parse()));
    parser.synchronize();
    assert!(is_placeholder(&parser.parse()));
    parser.synchronize();
    assert!(is_placeholder(&parser.parse()));
    parser.synchronize();
    assert!(is_placeholder(&parser.parse()));
    let errors = parser.errors();
    assert_eq!(errors.len(), 3);
    assert_eq!(errors[0].token, Some(Token::new(TokenType::ASTERISK, "*".to_string(), 1)));
    assert_eq!(errors[1].token, Some(Token::new(TokenType::SEMICOLON, ";".to_string(), 1)));
    assert_eq!(errors[2].token, Some(Token::new(TokenType::FUNCTION, "fn".to_string(), 1)));
}
