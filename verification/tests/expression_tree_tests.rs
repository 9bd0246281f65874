use crablox::expression::Expression;
use crablox::node::BinaryOp;
use crablox::parser::LoxParser;

fn num(x: f64) -> u64 {
    x.to_bits()
}

fn test_expression_generic(test_str: &str, expected: Box<Expression>) {
    let mut parser = LoxParser::new();
    parser.load_string(test_str).expect("Failed to load test string.");
    let result = parser.expression().expect("Error while parsing expression.");

    assert_eq!(
        expected,
        result,
        "Expected to recieve left side; recieved right."
    );
}

#[test]
fn test_expression_primary() {
    let test_str = "\"Hello world!\"";
    let expected = Expression::boxed_string("Hello world!");
    test_expression_generic(test_str, expected);
}

#[test]
fn lox_parser_test_expression_unary_not() {
    let test_str = "!!false";
    let expected = Expression::boxed_not(Expression::boxed_not(Expression::boxed_bool(false)));
    test_expression_generic(test_str, expected);
}

#[test]
fn lox_parser_test_expression_unary_negative() {
    let test_str = "-4.3";
    let expected = Expression::boxed_negative(Expression::boxed_number(num(4.3)));
    test_expression_generic(test_str, expected);
}

#[test]
fn lox_parser_test_expression_modulo() {
    let test_str = "3 % 5";
    let expected = Expression::boxed_binary(
        Expression::boxed_number(num(3.0)),
        BinaryOp::Modulo,
        Expression::boxed_number(num(5.0)),
    );
    test_expression_generic(test_str, expected);
}

#[test]
fn lox_parser_test_expression_divide() {
    let test_str = "3 / 5";
    let expected = Expression::boxed_binary(
        Expression::boxed_number(num(3.0)),
        BinaryOp::Divide,
        Expression::boxed_number(num(5.0)),
    );
    test_expression_generic(test_str, expected);
}

#[test]
fn lox_parser_test_expression_multiply() {
    let test_str = "4.1 * 5";
    let expected = Expression::boxed_binary(
        Expression::boxed_number(num(4.1)),
        BinaryOp::Multiply,
        Expression::boxed_number(num(5.0)),
    );
    test_expression_generic(test_str, expected);
}

#[test]
fn lox_parser_test_expression_add() {
    let test_str = "4.1 + 5";
    let expected = Expression::boxed_binary(
        Expression::boxed_number(num(4.1)),
        BinaryOp::Add,
        Expression::boxed_number(num(5.0)),
    );
    test_expression_generic(test_str, expected);
}

#[test]
fn lox_parser_test_expression_subtract() {
    let test_str = "4.1 - 5";
    let expected = Expression::boxed_binary(
        Expression::boxed_number(num(4.1)),
        BinaryOp::Subtract,
        Expression::boxed_number(num(5.0)),
    );
    test_expression_generic(test_str, expected);
}

#[test]
fn lox_parser_test_expression_less() {
    let test_str = "4.1 < 5";
    let expected = Expression::boxed_binary(
        Expression::boxed_number(num(4.1)),
        BinaryOp::Less,
        Expression::boxed_number(num(5.0)),
    );
    test_expression_generic(test_str, expected);
}

#[test]
fn lox_parser_test_expression_less_equal() {
    let test_str = "4.1 <= 5";
    let expected = Expression::boxed_binary(
        Expression::boxed_number(num(4.1)),
        BinaryOp::LessEqual,
        Expression::boxed_number(num(5.0)),
    );
    test_expression_generic(test_str, expected);
}

#[test]
fn lox_parser_test_expression_greater() {
    let test_str = "4.1 > 5";
    let expected = Expression::boxed_binary(
        Expression::boxed_number(num(4.1)),
        BinaryOp::Greater,
        Expression::boxed_number(num(5.0)),
    );
    test_expression_generic(test_str, expected);
}

#[test]
fn lox_parser_test_expression_greater_equal() {
    let test_str = "4.1 >= 5";
    let expected = Expression::boxed_binary(
        Expression::boxed_number(num(4.1)),
        BinaryOp::GreaterEqual,
        Expression::boxed_number(num(5.0)),
    );
    test_expression_generic(test_str, expected);
}

#[test]
fn lox_parser_test_expression_equal() {
    let test_str = "4.1 == 5";
    let expected = Expression::boxed_binary(
        Expression::boxed_number(num(4.1)),
        BinaryOp::Equal,
        Expression::boxed_number(num(5.0)),
    );
    test_expression_generic(test_str, expected);
}

#[test]
fn lox_parser_test_expression_not_equal() {
    let test_str = "4.1 != 5";
    let expected = Expression::boxed_binary(
        Expression::boxed_number(num(4.1)),
        BinaryOp::NotEqual,
        Expression::boxed_number(num(5.0)),
    );
    test_expression_generic(test_str, expected);
}

#[test]
fn lox_parser_test_expression_math_ops() {
    let test_str = "3 + -4 * -5 - 6";
    let expected = Expression::boxed_binary(
        Expression::boxed_binary(
            Expression::boxed_number(num(3.0)),
            BinaryOp::Add,
            Expression::boxed_binary(
                Expression::boxed_negative(Expression::boxed_number(num(4.0))),
                BinaryOp::Multiply,
                Expression::boxed_negative(Expression::boxed_number(num(5.0))),
            ),
        ),
        BinaryOp::Subtract,
        Expression::boxed_number(num(6.0)),
    );
    test_expression_generic(test_str, expected);
}

#[test]
fn lox_parser_test_expression_comparison() {
    let test_str = "15 % 5 >= 2 != 1.5 + 1.5 < 2";
    let expected = Expression::boxed_binary(
        Expression::boxed_binary(
            Expression::boxed_binary(
                Expression::boxed_number(num(15.0)),
                BinaryOp::Modulo,
                Expression::boxed_number(num(5.0)),
            ),
            BinaryOp::GreaterEqual,
            Expression::boxed_number(num(2.0)),
        ),
        BinaryOp::NotEqual,
        Expression::boxed_binary(
            Expression::boxed_binary(
                Expression::boxed_number(num(1.5)),
                BinaryOp::Add,
                Expression::boxed_number(num(1.5)),
            ),
            BinaryOp::Less,
            Expression::boxed_number(num(2.0)),
        ),
    );
    test_expression_generic(test_str, expected);
}

#[test]
fn lox_parser_test_expression_grouping() {
    let test_str = "(3 + -4) * (-5 - 6)";
    let expected = Expression::boxed_binary(
        Expression::boxed_grouping(Expression::boxed_binary(
            Expression::boxed_number(num(3.0)),
            BinaryOp::Add,
            Expression::boxed_negative(Expression::boxed_number(num(4.0))),
        )),
        BinaryOp::Multiply,
        Expression::boxed_grouping(Expression::boxed_binary(
            Expression::boxed_negative(Expression::boxed_number(num(5.0))),
            BinaryOp::Subtract,
            Expression::boxed_number(num(6.0)),
        )),
    );
    test_expression_generic(test_str, expected);
}
