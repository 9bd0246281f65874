use crablox::expression::Expression;
use crablox::node::{BinaryOp, LogicOp, UnaryOp};
use crablox::parser::LoxParser;
use crablox::statement::Statement;

fn num(x: f64) -> u64 {
    x.to_bits()
}

fn test_expression_generic(test_str: impl AsRef<str>, expected: Box<Expression>) {
    let mut parser = LoxParser::new();
    parser.load_string(test_str.as_ref()).expect("Error while scanning input string");
    let output = parser.expression();

    if let Ok(result) = output {
        assert_eq!(
            expected,
            result,
            "Expected to recieve left side; recieved right."
        );
    } else {
        panic!("Error while parsing expression: {:?}", parser.parse());
    }
}

fn test_statement_generic(test_str: impl AsRef<str>, expected: Statement) {
    let mut parser = LoxParser::new();
    parser.load_string(test_str.as_ref()).expect("Error while scanning input string");
    let output = parser.statement();

    if let Ok(result) = output {
        assert_eq!(
            expected,
            result,
            "Expected to recieve left side; recieved right."
        );
    } else {
        panic!("Error while parsing statement: {:?}", parser.parse());
    }
}

fn test_program_generic(test_str: impl AsRef<str>, expected: Vec<Statement>) {
    let mut parser = LoxParser::new();
    parser.load_string(test_str.as_ref()).expect("Error while scanning input string");
    let output = parser.parse();

    if let Ok(result) = output {
        assert_eq!(
            expected,
            result,
            "Expected to recieve left side; recieved right."
        );
    } else {
        panic!("Error while parsing statement: {:?}", output);
    }
}

#[test]
fn test_expression_identifier() {
    let test_str = "my_var";
    let expected = Expression::boxed_identifier("my_var");
    test_expression_generic(test_str, expected);
}

#[test]
fn test_expression_string() {
    let test_str = "\"Hello world!\"";
    let expected = Expression::boxed_string("Hello world!");
    test_expression_generic(test_str, expected);
}

#[test]
#[should_panic]
fn test_expression_unterminated_string() {
    let test_str = "\"Hello world!";
    let expected = Expression::boxed_identifier("my_var");
    test_expression_generic(test_str, expected);
}

#[test]
fn parser_test_expression_unary_not() {
    let test_str = "!!false";
    let expected = Expression::boxed_unary(UnaryOp::Not, Expression::boxed_unary(UnaryOp::Not, Expression::boxed_boolean(false)));
    test_expression_generic(test_str, expected);
}

#[test]
fn parser_test_expression_unary_negative() {
    let test_str = "-4.3";
    let expected = Expression::boxed_unary(UnaryOp::Negative, Expression::boxed_number(num(4.3)));
    test_expression_generic(test_str, expected);
}

#[test]
fn parser_test_expression_modulo() {
    let test_str = "3 % 5";
    let expected = Expression::boxed_binary(
        Expression::boxed_number(num(3.0)),
        BinaryOp::Modulo,
        Expression::boxed_number(num(5.0)),
    );
    test_expression_generic(test_str, expected);
}

#[test]
fn parser_test_expression_divide() {
    let test_str = "3 / 5";
    let expected = Expression::boxed_binary(
        Expression::boxed_number(num(3.0)),
        BinaryOp::Divide,
        Expression::boxed_number(num(5.0)),
    );
    test_expression_generic(test_str, expected);
}

#[test]
fn parser_test_expression_multiply() {
    let test_str = "4.1 * 5";
    let expected = Expression::boxed_binary(
        Expression::boxed_number(num(4.1)),
        BinaryOp::Multiply,
        Expression::boxed_number(num(5.0)),
    );
    test_expression_generic(test_str, expected);
}

#[test]
fn parser_test_expression_add() {
    let test_str = "4.1 + 5";
    let expected = Expression::boxed_binary(
        Expression::boxed_number(num(4.1)),
        BinaryOp::Add,
        Expression::boxed_number(num(5.0)),
    );
    test_expression_generic(test_str, expected);
}

#[test]
fn parser_test_expression_subtract() {
    let test_str = "4.1 - 5";
    let expected = Expression::boxed_binary(
        Expression::boxed_number(num(4.1)),
        BinaryOp::Subtract,
        Expression::boxed_number(num(5.0)),
    );
    test_expression_generic(test_str, expected);
}

#[test]
fn parser_test_expression_less() {
    let test_str = "4.1 < 5";
    let expected = Expression::boxed_binary(
        Expression::boxed_number(num(4.1)),
        BinaryOp::Less,
        Expression::boxed_number(num(5.0)),
    );
    test_expression_generic(test_str, expected);
}

#[test]
fn parser_test_expression_less_equal() {
    let test_str = "4.1 <= 5";
    let expected = Expression::boxed_binary(
        Expression::boxed_number(num(4.1)),
        BinaryOp::LessEqual,
        Expression::boxed_number(num(5.0)),
    );
    test_expression_generic(test_str, expected);
}

#[test]
fn parser_test_expression_greater() {
    let test_str = "4.1 > 5";
    let expected = Expression::boxed_binary(
        Expression::boxed_number(num(4.1)),
        BinaryOp::Greater,
        Expression::boxed_number(num(5.0)),
    );
    test_expression_generic(test_str, expected);
}

#[test]
fn parser_test_expression_greater_equal() {
    let test_str = "4.1 >= 5";
    let expected = Expression::boxed_binary(
        Expression::boxed_number(num(4.1)),
        BinaryOp::GreaterEqual,
        Expression::boxed_number(num(5.0)),
    );
    test_expression_generic(test_str, expected);
}

#[test]
fn parser_test_expression_equal() {
    let test_str = "4.1 == 5";
    let expected = Expression::boxed_binary(
        Expression::boxed_number(num(4.1)),
        BinaryOp::Equal,
        Expression::boxed_number(num(5.0)),
    );
    test_expression_generic(test_str, expected);
}

#[test]
fn parser_test_expression_not_equal() {
    let test_str = "4.1 != 5";
    let expected = Expression::boxed_binary(
        Expression::boxed_number(num(4.1)),
        BinaryOp::NotEqual,
        Expression::boxed_number(num(5.0)),
    );
    test_expression_generic(test_str, expected);
}

#[test]
fn parser_test_expression_and() {
    let test_str = "false and true";
    let expected = Expression::boxed_logical(
        Expression::boxed_boolean(false),
        LogicOp::And,
        Expression::boxed_boolean(true),
    );
    test_expression_generic(test_str, expected);
}

#[test]
fn parser_test_expression_or() {
    let test_str = "false or true";
    let expected = Expression::boxed_logical(
        Expression::boxed_boolean(false),
        LogicOp::Or,
        Expression::boxed_boolean(true),
    );
    test_expression_generic(test_str, expected);
}

#[test]
fn parser_test_expression_math_ops() {
    let test_str = "3 + -4 * -5 - 6";
    let expected = Expression::boxed_binary(
        Expression::boxed_binary(
            Expression::boxed_number(num(3.0)),
            BinaryOp::Add,
            Expression::boxed_binary(
                Expression::boxed_unary(UnaryOp::Negative, Expression::boxed_number(num(4.0))),
                BinaryOp::Multiply,
                Expression::boxed_unary(UnaryOp::Negative, Expression::boxed_number(num(5.0))),
            ),
        ),
        BinaryOp::Subtract,
        Expression::boxed_number(num(6.0)),
    );
    test_expression_generic(test_str, expected);
}

#[test]
fn test_expression_logic_ops() {
    let test_str = "1 and 2 or 3 and 4 or 5 and 6";
    let expected = Expression::boxed_logical(
        Expression::boxed_logical(
            Expression::boxed_logical(
                Expression::boxed_number(num(1.0)),
                LogicOp::And,
                Expression::boxed_number(num(2.0)),
            ),
            LogicOp::Or,
            Expression::boxed_logical(
                Expression::boxed_number(num(3.0)),
                LogicOp::And,
                Expression::boxed_number(num(4.0)),
            ),
        ),
        LogicOp::Or,
        Expression::boxed_logical(
            Expression::boxed_number(num(5.0)),
            LogicOp::And,
            Expression::boxed_number(num(6.0)),
        ),
    );
    test_expression_generic(test_str, expected);
}

#[test]
fn parser_test_expression_comparison() {
    let test_str = "15 % 5 >= 2 != 1.5 + 1.5 < 2";
    let expected = Expression::boxed_binary(
        Expression::boxed_binary(
            Expression::boxed_binary(
                Expression::boxed_number(num(15.0)),
                BinaryOp::Modulo,
                Expression::boxed_number(num(5.0)),
            ),
            BinaryOp::GreaterEqual,
            Expression::boxed_number(num(2.0)),
        ),
        BinaryOp::NotEqual,
        Expression::boxed_binary(
            Expression::boxed_binary(
                Expression::boxed_number(num(1.5)),
                BinaryOp::Add,
                Expression::boxed_number(num(1.5)),
            ),
            BinaryOp::Less,
            Expression::boxed_number(num(2.0)),
        ),
    );
    test_expression_generic(test_str, expected);
}

#[test]
fn parser_test_expression_grouping() {
    let test_str = "(3 + -4) * (-5 - 6)";
    let expected = Expression::boxed_binary(
        Expression::boxed_grouping(Expression::boxed_binary(
            Expression::boxed_number(num(3.0)),
            BinaryOp::Add,
            Expression::boxed_unary(UnaryOp::Negative, Expression::boxed_number(num(4.0))),
        )),
        BinaryOp::Multiply,
        Expression::boxed_grouping(Expression::boxed_binary(
            Expression::boxed_unary(UnaryOp::Negative, Expression::boxed_number(num(5.0))),
            BinaryOp::Subtract,
            Expression::boxed_number(num(6.0)),
        )),
    );
    test_expression_generic(test_str, expected);
}

#[test]
fn test_statement_assignment() {
    let test_str = "i = 0;";
    let expected = Statement::Expr(
        Expression::boxed_assignment(
            "i",
            Expression::boxed_number(num(0.0)),
        )
    );
    test_statement_generic(test_str, expected);
}

#[test]
fn test_statement_assignment_nested() {
    let test_str = "i = j = 1;";
    let expected = Statement::Expr(
        Expression::boxed_assignment(
            "i",
            Expression::boxed_assignment(
                "j",
                Expression::boxed_number(num(1.0)),
            )
        )
    );
    test_statement_generic(test_str, expected);
}

#[test]
fn test_statement_expression() {
    let test_str = "3 + -4 * -5 - 6;";
    let expected = Statement::Expr(Expression::boxed_binary(
        Expression::boxed_binary(
            Expression::boxed_number(num(3.0)),
            BinaryOp::Add,
            Expression::boxed_binary(
                Expression::boxed_unary(UnaryOp::Negative, Expression::boxed_number(num(4.0))),
                BinaryOp::Multiply,
                Expression::boxed_unary(UnaryOp::Negative, Expression::boxed_number(num(5.0))),
            ),
        ),
        BinaryOp::Subtract,
        Expression::boxed_number(num(6.0)),
    ));
    test_statement_generic(test_str, expected);
}

#[test]
fn test_statement_print() {
    let test_str = "print 3 + -4 * -5 - 6;";
    let expected = Statement::Print(Expression::boxed_binary(
        Expression::boxed_binary(
            Expression::boxed_number(num(3.0)),
            BinaryOp::Add,
            Expression::boxed_binary(
                Expression::boxed_unary(UnaryOp::Negative, Expression::boxed_number(num(4.0))),
                BinaryOp::Multiply,
                Expression::boxed_unary(UnaryOp::Negative, Expression::boxed_number(num(5.0))),
            ),
        ),
        BinaryOp::Subtract,
        Expression::boxed_number(num(6.0)),
    ));
    test_statement_generic(test_str, expected);
}

#[test]
fn test_statement_decl() {
    let test_str = "var i = 0;";
    let expected = Statement::Decl(
        String::from("i"),
        Expression::boxed_number(num(0.0)),
    );
    test_statement_generic(test_str, expected);
}

#[test]
#[should_panic]
fn test_statement_decl_expects_equals() {
    let test_str = "var i 0;";
    let expected = Statement::Decl(
        String::from("i"),
        Expression::boxed_number(num(0.0)),
    );
    test_statement_generic(test_str, expected);
}

#[test]
#[should_panic]
fn test_statement_decl_rejects_statement() {
    let test_str = "var i = print 0;";
    let expected = Statement::Decl(
        String::from("i"),
        Expression::boxed_number(num(0.0)),
    );
    test_statement_generic(test_str, expected);
}

#[test]
fn test_statement_while() {
    let test_str = "while (true) print \"This is the program that never ends~\";";
    let expected = Statement::While(
        Expression::boxed_boolean(true),
        Box::new(Statement::Print(
            Expression::boxed_string("This is the program that never ends~"),
        )),
    );
    test_statement_generic(test_str, expected);
}

#[test]
fn test_statement_for() {
    let test_str = "for (var i = 0; i < 10; i = i * 2) print i;";
    let expected = Statement::Block(vec![
        Box::new(Statement::Decl(
            String::from("i"),
            Expression::boxed_number(num(0.0)),
        )),
        Box::new(Statement::While(
            Expression::boxed_binary(
                Expression::boxed_identifier("i"),
                BinaryOp::Less,
                Expression::boxed_number(num(10.0)),
            ),
            Box::new(Statement::Block(vec![
                Box::new(Statement::Print(
                    Expression::boxed_identifier("i"),
                )),
                Box::new(Statement::Expr(Expression::boxed_assignment(
                    "i",
                    Expression::boxed_binary(
                        Expression::boxed_identifier("i"),
                        BinaryOp::Multiply,
                        Expression::boxed_number(num(2.0)),
                    ),
                ))),
            ])),
        )),
    ]);
    test_statement_generic(test_str, expected);
}

#[test]
fn test_program_hello_world() {
    let source = [
        "var my_var = \"Hello, world!\";\n",
        "print my_var;\n",
    ].concat();
    let expected = vec![
        Statement::Decl(
            String::from("my_var"),
            Expression::boxed_string("Hello, world!"),
        ),
        Statement::Print(
            Expression::boxed_identifier("my_var"),
        ),
    ];
    test_program_generic(source, expected);
}

#[test]
fn test_program_assignments() {
    let source = [
        "var i;\n",
        "var j = 2;\n",
        "var k = 3 + 4;\n",
        "i = 3;\n",
        "j = 3 - 1;\n",
        "k = j + k + 3;\n",
        "i = j = k;\n",
    ].concat();
    let expected = vec![
        Statement::Decl(
            String::from("i"),
            Expression::boxed_nil(),
        ),
        Statement::Decl(
            String::from("j"),
            Expression::boxed_number(num(2.0)),
        ),
        Statement::Decl(
            String::from("k"),
            Expression::boxed_binary(
                Expression::boxed_number(num(3.0)),
                BinaryOp::Add,
                Expression::boxed_number(num(4.0)),
            )
        ),
        Statement::Expr(
            Expression::boxed_assignment(
                "i",
                Expression::boxed_number(num(3.0)),
            )
        ),
        Statement::Expr(
            Expression::boxed_assignment(
                "j",
                Expression::boxed_binary(
                    Expression::boxed_number(num(3.0)),
                    BinaryOp::Subtract,
                    Expression::boxed_number(num(1.0)),
                )
            )
        ),
        Statement::Expr(
            Expression::boxed_assignment(
                "k",
                Expression::boxed_binary(
                    Expression::boxed_binary(
                        Expression::boxed_identifier("j"),
                        BinaryOp::Add,
                        Expression::boxed_identifier("k"),
                    ),
                    BinaryOp::Add,
                    Expression::boxed_number(num(3.0)),
                )
            )
        ),
        Statement::Expr(
            Expression::boxed_assignment(
                "i",
                Expression::boxed_assignment(
                    "j",
                    Expression::boxed_identifier("k"),
                )
            )
        ),
    ];
    test_program_generic(source, expected);
}

#[test]
fn test_program_blocks() {
    let source = [
        "{}\n",
        "var global = 23;\n",
        "{\n",
        "   var local = 3;\n",
        "   { print local; }\n",
        "}\n",
    ].concat();
    let expected = vec![
        Statement::Block(vec![]),
        Statement::Decl(
            String::from("global"),
            Expression::boxed_number(num(23.0)),
        ),
        Statement::Block(vec![
            Box::new(Statement::Decl(
                String::from("local"),
                Expression::boxed_number(num(3.0)),
            )),
            Box::new(Statement::Block(vec![
                Box::new(Statement::Print(
                    Expression::boxed_identifier("local"),
                ))
            ])),
        ]),
    ];
    test_program_generic(source, expected);
}

#[test]
fn test_program_if_else() {
    let source = [
        "if (2 <= 3) print \"Math is working\";\n",
        "var three = 3;\n",
        "if (three == 3) {\n",
        "   print 333;\n",
        "} else {\n",
        "   print 4444;\n",
        "}",
    ].concat();
    let expected = vec![
        Statement::If(
            Expression::boxed_binary(
                Expression::boxed_number(num(2.0)),
                BinaryOp::LessEqual,
                Expression::boxed_number(num(3.0)),
            ),
            Box::new(Statement::Print(
                Expression::boxed_string("Math is working"),
            )),
            None,
        ),
        Statement::Decl(
            String::from("three"),
            Expression::boxed_number(num(3.0)),
        ),
        Statement::If(
            Expression::boxed_binary(
                Expression::boxed_identifier("three"),
                BinaryOp::Equal,
                Expression::boxed_number(num(3.0)),
            ),
            Box::new(Statement::Block(vec![
                Box::new(Statement::Print(
                    Expression::boxed_number(num(333.0)),
                )),
            ])),
            Some(Box::new(Statement::Block(vec![
                Box::new(Statement::Print(
                    Expression::boxed_number(num(4444.0)),
                )),
            ]))),
        ),
    ];
    test_program_generic(source, expected);
}

#[test]
fn test_program_functions() {
    let source = [
        "function();\n",
        "argumentative(yes, very);\n",
        "nested(one)(two);\n"
    ].concat();
    let expected = vec![
        Statement::Expr(Expression::boxed_call(
            Expression::boxed_identifier("function"),
            vec![],
            1,
        )),
        Statement::Expr(Expression::boxed_call(
            Expression::boxed_identifier("argumentative"),
            vec![
                Expression::boxed_identifier("yes"),
                Expression::boxed_identifier("very"),
            ],
            2,
        )),
        Statement::Expr(Expression::boxed_call(
            Expression::boxed_call(
                Expression::boxed_identifier("nested"),
                vec![
                    Expression::boxed_identifier("one"),
                ],
                3,
            ),
            vec![
                Expression::boxed_identifier("two"),
            ],
            3,
        )),
    ];
    test_program_generic(source, expected);
}
