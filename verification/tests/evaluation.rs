use jlox::interpreter::{Interpreter, RuntimeError};
use jlox::parser;
use jlox::scanner::Scanner;
use jlox::value::LiteralValue;

fn evaluate(source: &str) -> Result<LiteralValue, RuntimeError> {
    let mut scanner = Scanner::new(source);
    scanner.scan_tokens();
    let expr = parser::parse(scanner.tokens).expect("expected the source to parse");
    let interpreter = Interpreter::new();
    interpreter.interpret(&expr)
}

fn number(source: &str) -> f64 {
    match evaluate(source) {
        Ok(LiteralValue::Number(bits)) => f64::from_bits(bits),
        other => panic!("expected a number, got {:?}", other),
    }
}

#[test]
fn precedence_multiplication_binds_tighter() {
    assert_eq!(number("1+2*3"), 7.0);
    assert_ne!(number("1+2*3"), 9.0);
}

#[test]
fn left_associativity_of_subtraction() {
    assert_eq!(number("8-4-2"), 2.0);
    assert_ne!(number("8-4-2"), 6.0);
}

#[test]
fn grouping_overrides_precedence() {
    assert_eq!(number("(1+2)*3"), 9.0);
}

#[test]
fn string_concatenation() {
    assert_eq!(
        evaluate("\"a\"+\"b\"").unwrap(),
        LiteralValue::String(String::from("ab"))
    );
}

#[test]
fn number_plus_string_is_a_type_error() {
    let err = evaluate("1+\"a\"").expect_err("expected a runtime type error");
    assert_eq!(err.message, "operands must be two numbers or two strings.");
    assert_eq!(err.token.lexeme, "+");
}

#[test]
fn truthiness_of_nil_zero_and_false() {
    assert_eq!(evaluate("!nil").unwrap(), LiteralValue::Bool(true));
    assert_eq!(evaluate("!0").unwrap(), LiteralValue::Bool(false));
    assert_eq!(evaluate("!false").unwrap(), LiteralValue::Bool(true));
}

#[test]
fn truthiness_of_empty_string() {
    assert_eq!(evaluate("!\"\"").unwrap(), LiteralValue::Bool(false));
}

#[test]
fn cross_type_equality_never_succeeds() {
    assert_eq!(evaluate("1==\"1\"").unwrap(), LiteralValue::Bool(false));
    assert_eq!(evaluate("nil==false").unwrap(), LiteralValue::Bool(false));
    assert_eq!(evaluate("1!=\"1\"").unwrap(), LiteralValue::Bool(true));
}

#[test]
fn division_by_zero_is_infinity() {
    assert_eq!(number("1/0"), f64::INFINITY);
    assert_eq!(number("-1/0"), f64::NEG_INFINITY);
}

#[test]
fn division_of_zero_by_zero_is_not_equal_to_itself() {
    // 0/0 is NaN, and IEEE equality makes NaN equal to nothing.
    assert!(number("0/0").is_nan());
    assert_eq!(evaluate("0/0==0/0").unwrap(), LiteralValue::Bool(false));
}

#[test]
fn negative_zero_equals_zero() {
    // IEEE equality, not bit equality: -0 == 0.
    assert_eq!(evaluate("0==-0").unwrap(), LiteralValue::Bool(true));
}

#[test]
fn arithmetic_operators() {
    assert_eq!(number("8-4"), 4.0);
    assert_eq!(number("2*3"), 6.0);
    assert_eq!(number("7/2"), 3.5);
    assert_eq!(number("1.5+2"), 3.5);
}

#[test]
fn unary_negation() {
    assert_eq!(number("-5"), -5.0);
    assert_eq!(number("--5"), 5.0);
}

#[test]
fn double_negation_of_bool() {
    assert_eq!(evaluate("!!true").unwrap(), LiteralValue::Bool(true));
}

#[test]
fn comparisons_on_numbers() {
    assert_eq!(evaluate("1<2").unwrap(), LiteralValue::Bool(true));
    assert_eq!(evaluate("2<=1").unwrap(), LiteralValue::Bool(false));
    assert_eq!(evaluate("3>2").unwrap(), LiteralValue::Bool(true));
    assert_eq!(evaluate("2>=3").unwrap(), LiteralValue::Bool(false));
    assert_eq!(evaluate("2>=2").unwrap(), LiteralValue::Bool(true));
}

#[test]
fn comparison_of_mixed_types_is_a_type_error() {
    let err = evaluate("1<\"a\"").expect_err("expected a runtime type error");
    assert_eq!(err.message, "invalid operand type: a numerical value is expected");
    assert_eq!(err.token.lexeme, "<");
}

#[test]
fn unary_minus_on_string_is_a_type_error() {
    let err = evaluate("-\"a\"").expect_err("expected a runtime type error");
    assert_eq!(err.message, "invalid operand type: a numerical value is expected");
    assert_eq!(err.token.lexeme, "-");
}

#[test]
fn runtime_error_reports_operator_line() {
    let err = evaluate("1+\n\"a\"+1").expect_err("expected a runtime type error");
    // The left-folded tree applies the first `+` (line 1) to 1 and "a" first.
    assert_eq!(err.token.line, 1);
}

#[test]
fn string_equality() {
    assert_eq!(evaluate("\"a\"==\"a\"").unwrap(), LiteralValue::Bool(true));
    assert_eq!(evaluate("\"a\"==\"b\"").unwrap(), LiteralValue::Bool(false));
}

#[test]
fn grouping_of_literal() {
    assert_eq!(evaluate("(nil)").unwrap(), LiteralValue::Nil);
    assert_eq!(evaluate("\"hi\"").unwrap(), LiteralValue::String(String::from("hi")));
}

#[test]
fn binary_evaluates_left_operand_first() {
    // Both operands fail; the reported token is the operator applied to the
    // innermost failing evaluation, and the left operand's failure wins.
    let err = evaluate("(-\"a\")+(-\"b\")").expect_err("expected a runtime type error");
    assert_eq!(err.token.line, 1);
    assert_eq!(err.token.lexeme, "-");
}
