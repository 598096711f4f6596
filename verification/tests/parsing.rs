use jlox::ast::Expression;
use jlox::interpreter::Interpreter;
use jlox::parser::{self, ParseError};
use jlox::scanner::Scanner;
use jlox::value::LiteralValue;
use jlox::visitor::{visit_expression, PrettyPrinter};

fn parse(source: &str) -> Result<Expression, ParseError> {
    let mut scanner = Scanner::new(source);
    scanner.scan_tokens();
    parser::parse(scanner.tokens)
}

fn render(expr: &Expression) -> String {
    visit_expression(&PrettyPrinter, expr)
}

fn value_of(expr: &Expression) -> LiteralValue {
    Interpreter::new()
        .interpret(expr)
        .expect("expected evaluation to succeed")
}

#[test]
fn empty_input_is_a_structured_parse_error() {
    let err = parse("").expect_err("expected a parse error");
    assert_eq!(err.message, "no expression found");
    assert_eq!(err.token.line, 1);
}

#[test]
fn missing_right_paren_is_a_structured_parse_error() {
    let err = parse("(1+2").expect_err("expected a parse error");
    assert_eq!(err.message, "expected ')' after expression");
}

#[test]
fn unexpected_token_is_a_structured_parse_error() {
    let err = parse("*3").expect_err("expected a parse error");
    assert_eq!(err.message, "token not expected");
    assert_eq!(err.token.lexeme, "*");
}

#[test]
fn dangling_operator_reports_end_of_stream() {
    let err = parse("1+").expect_err("expected a parse error");
    assert_eq!(err.message, "no expression found");
}

#[test]
fn chained_operators_group_to_the_left() {
    let expr = parse("8-4-2").expect("expected the source to parse");
    assert_eq!(render(&expr), "((8 - 4) - 2)");
}

#[test]
fn precedence_shapes_the_tree() {
    let expr = parse("1+2*3").expect("expected the source to parse");
    assert_eq!(render(&expr), "(1 + (2 * 3))");
}

#[test]
fn grouping_keeps_its_parentheses() {
    let expr = parse("(1+2)*3").expect("expected the source to parse");
    assert_eq!(render(&expr), "(((1 + 2)) * 3)");
}

#[test]
fn unary_renders_prefix() {
    let expr = parse("-5*!false").expect("expected the source to parse");
    assert_eq!(render(&expr), "((- 5) * (! false))");
}

#[test]
fn round_trip_preserves_the_value() {
    for source in [
        "1+2*3",
        "8-4-2",
        "(1+2)*3",
        "--5",
        "!nil",
        "\"a\"+\"b\"",
        "1/0",
        "1==\"1\"",
        "2.5>=2",
        "(((7)))",
    ] {
        let expr = parse(source).expect("expected the source to parse");
        let rendered = render(&expr);
        let reparsed = parse(&rendered).expect("expected the rendering to re-parse");
        assert_eq!(value_of(&reparsed), value_of(&expr), "round trip of {}", source);
    }
}

#[test]
fn printer_inherent_and_dispatch_agree() {
    let expr = parse("1+2*3").expect("expected the source to parse");
    assert_eq!(PrettyPrinter.print(&expr), render(&expr));
}
