use compiler_core::expr::{Binary, Expr, Grouping, Literal, LiteralValue, Unary};
use compiler_core::token::{Token, TokenType};
use compiler_core::visitors::AstPrinter;

fn number(value: f64) -> Box<Expr> {
    Box::new(Expr::Literal(Literal::new(LiteralValue::Text(value.to_string()))))
}

#[test]
fn test_ast_printer() {
    let expr = Binary::new(
        Box::new(Expr::Unary(Unary::new(
            Token::new(TokenType::MINUS, "-".to_string(), 1),
            number(123.0),
        ))),
        Token::new(TokenType::ASTERISK, "*".to_string(), 1),
        Box::new(Expr::Grouping(Grouping::new(number(45.67)))),
    );
    let mut printer = AstPrinter::new();
    let result = expr.accept(&mut printer);
    println!("{}", result);
    assert_eq!(result, "(* (- 123) (group 45.67))");
}

#[test]
fn literals_print_their_text() {
    let mut printer = AstPrinter::new();
    let text = Expr::Literal(Literal::new(LiteralValue::Text("abc".to_string())));
    assert_eq!(text.accept(&mut printer), "abc");
    let null = Literal::new(LiteralValue::Null);
    assert_eq!(null.accept(&mut printer), "null");
    let illegal = Expr::Literal(Literal::new(LiteralValue::Illegal));
    assert_eq!(printer.print(&illegal), "ILLEGAL");
}

#[test]
fn every_node_accepts_a_visitor() {
    let mut printer = AstPrinter::new();
    let unary = Unary::new(Token::new(TokenType::EXCLAMATION, "!".to_string(), 1), number(1.0));
    assert_eq!(unary.accept(&mut printer), "(! 1)");
    let group = Grouping::new(number(2.5));
    assert_eq!(group.accept(&mut printer), "(group 2.5)");
    let nested = Expr::Binary(Binary::new(
        Box::new(Expr::Grouping(group)),
        Token::new(TokenType::EQ, "==".to_string(), 1),
        Box::new(Expr::Unary(unary)),
    ));
    assert_eq!(nested.accept(&mut printer), "(== (group 2.5) (! 1))");
}

#[test]
fn printing_twice_gives_the_same_text() {
    let tree = Expr::Binary(Binary::new(
        number(1.0),
        Token::new(TokenType::PLUS, "+".to_string(), 1),
        Box::new(Expr::Grouping(Grouping::new(number(2.0)))),
    ));
    let mut printer = AstPrinter::new();
    let first = tree.accept(&mut printer);
    let second = tree.accept(&mut printer);
    assert_eq!(first, "(+ 1 (group 2))");
    assert_eq!(first, second);
}
