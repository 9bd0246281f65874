use crablox::expression::Expression;
use crablox::interpreter::{get_number, is_truthful, LoxInterpreter};
use crablox::node::Literal;
use crablox::node::Literal::{Boolean, Nil, Number, StringData};
use crablox::parser::LoxParser;
use crablox::statement::Statement;

fn num(x: f64) -> u64 {
    x.to_bits()
}

fn string_to_program(s: impl AsRef<str>) -> Vec<Statement> {
    let mut parser = LoxParser::new();
    parser.load_string(s.as_ref()).expect("Error while scanning input string.");
    parser.parse().expect("Error while parsing expression.")
}

fn string_to_expr(s: &str) -> Expression {
    let statements = string_to_program(s);
    if let Statement::Expr(e) = statements[0].clone() { *e }
    else { panic!("Attempted to convert a non-statement to an expression."); }
}

fn test_expression_generic(s: &str, expected: Literal) {
    let expr = string_to_expr(s);
    let mut intp = LoxInterpreter::new();
    let result = intp.evaluate_expr(expr).expect("Evaluation error");
    assert_eq!(expected, result, "Expected to recieve left side; recieved right.");
}

#[test]
fn lox_interpreter_test_is_truthful() {
    assert!(is_truthful(&Number(num(0.0))));
    assert!(is_truthful(&StringData(String::new())));
    assert!(is_truthful(&Boolean(true)));

    assert!(!is_truthful(&Boolean(false)));
    assert!(!is_truthful(&Nil));
}

#[test]
fn lox_interpreter_test_get_number() {
    assert_eq!(get_number(&Number(num(43.0))), Ok(num(43.0)));
    if let Err(s) = get_number(&Nil) {
        assert!(s.contains("Attempted to use literal"));
    } else {
        panic!("get_number(&Nil) failed to return an error");
    }
}

#[test]
fn lox_interpreter_test_expression_unary_not() {
    test_expression_generic("!!false;", Boolean(false));
}

#[test]
fn lox_interpreter_test_expression_unary_negative() {
    test_expression_generic("-4.3;", Number(num(-4.3)));
}

#[test]
fn lox_interpreter_test_expression_modulo() {
    test_expression_generic("5 % 3;", Number(num(2.0)));
}

#[test]
fn lox_interpreter_test_expression_divide() {
    test_expression_generic("3/5;", Number(num(0.6)));
}

#[test]
fn lox_interpreter_test_expression_multiply() {
    test_expression_generic("4.1 * 5;", Number(num(20.5)));
}

#[test]
fn lox_interpreter_test_expression_add() {
    test_expression_generic("4.1 + 5;", Number(num(9.1)));
}

#[test]
fn lox_interpreter_test_expression_subtract() {
    test_expression_generic("4.1 - 5;", Number(num(4.1-5.0)));
}

#[test]
fn lox_interpreter_test_expression_less() {
    test_expression_generic("4.1 < 5;", Boolean(true));
}

#[test]
fn lox_interpreter_test_expression_less_equal() {
    test_expression_generic("4.1 <= 5;", Boolean(true));
}

#[test]
fn lox_interpreter_test_expression_greater() {
    test_expression_generic("4.1 > 5;", Boolean(false));
}

#[test]
fn lox_interpreter_test_expression_greater_equal() {
    test_expression_generic("4.1 >= 5;", Boolean(false));
}

#[test]
fn lox_interpreter_test_expression_equal() {
    test_expression_generic("4.1 == 5;", Boolean(false));
}

#[test]
fn lox_interpreter_test_expression_not_equal() {
    test_expression_generic("4.1 != 5;", Boolean(true));
}

#[test]
fn lox_interpreter_test_expression_math_ops() {
    let test_str = "3 + -4 * -5 - 6;";
    test_expression_generic(test_str, Number(num(17.0)));
}

#[test]
fn lox_interpreter_test_expression_comparison() {
    let test_str = "15 / 5 >= 2 != 1.5 + 1.5 < 2;";
    test_expression_generic(test_str, Boolean(true));
}

#[test]
fn lox_interpreter_test_expression_grouping() {
    let test_str = "(3 + -4) * (-5 - 6);";
    test_expression_generic(test_str, Number(num(11.0)));
}
