use crablox::expression::Expression;
use crablox::node::{BinaryOp, LogicOp};
use crablox::parser::LoxParser;
use crablox::statement::Statement;

fn parse(source: &str) -> Vec<Statement> {
    let mut parser = LoxParser::new();
    parser.load_string(source).expect("scan");
    parser.parse().expect("parse")
}

fn num(x: f64) -> Box<Expression> {
    Expression::boxed_number(x.to_bits())
}

#[test]
fn functions_and_returns() {
    assert_eq!(
        vec![Statement::Fun(
            String::from("add"),
            vec![String::from("a"), String::from("b")],
            vec![
                Box::new(Statement::Return(
                    Expression::boxed_binary(
                        Expression::boxed_identifier("a"),
                        BinaryOp::Add,
                        Expression::boxed_identifier("b"),
                    ),
                    2,
                )),
                Box::new(Statement::Return(Expression::boxed_nil(), 3)),
            ],
        )],
        parse("fun add(a, b) {\n return a + b;\n return;\n}"),
    );
}

#[test]
fn classes_and_methods() {
    assert_eq!(
        vec![
            Statement::Class(String::from("A"), String::new(), vec![]),
            Statement::Class(
                String::from("B"),
                String::from("A"),
                vec![
                    Box::new(Statement::Fun(String::from("init"), vec![], vec![])),
                    Box::new(Statement::Fun(
                        String::from("m"),
                        vec![String::from("x")],
                        vec![Box::new(Statement::Expr(Expression::boxed_call(
                            Expression::boxed_super("m"),
                            vec![Expression::boxed_this()],
                            1,
                        )))],
                    )),
                ],
            ),
        ],
        parse("class A {} class B < A { init() {} m(x) { super.m(this); } }"),
    );
}

#[test]
fn getters_setters_and_calls() {
    assert_eq!(
        vec![Statement::Expr(Expression::boxed_setter(
            Expression::boxed_getter(
                Expression::boxed_call(Expression::boxed_identifier("a"), vec![], 1),
                "b",
            ),
            "c",
            Expression::boxed_assignment("d", num(1.0)),
        ))],
        parse("a().b.c = d = 1;"),
    );
}

#[test]
fn for_loops_without_clauses() {
    assert_eq!(
        vec![Statement::Block(vec![Box::new(Statement::While(
            Expression::boxed_boolean(true),
            Box::new(Statement::Block(vec![Box::new(Statement::Print(num(1.0)))])),
        ))])],
        parse("for (;;) print 1;"),
    );
    assert_eq!(
        vec![Statement::Block(vec![
            Box::new(Statement::Expr(Expression::boxed_assignment("i", num(0.0)))),
            Box::new(Statement::While(
                Expression::boxed_identifier("i"),
                Box::new(Statement::Block(vec![Box::new(Statement::Block(vec![]))])),
            )),
        ])],
        parse("for (i = 0; i;) {}"),
    );
}

#[test]
fn a_dot_without_digits_ends_a_number() {
    assert_eq!(
        vec![Statement::Expr(Expression::boxed_getter(num(1.0), "x"))],
        parse("1.x;"),
    );
}

#[test]
fn logic_binds_looser_than_equality() {
    assert_eq!(
        vec![Statement::Expr(Expression::boxed_logical(
            Expression::boxed_binary(num(1.0), BinaryOp::Equal, num(2.0)),
            LogicOp::Or,
            Expression::boxed_logical(
                Expression::boxed_boolean(true),
                LogicOp::And,
                Expression::boxed_binary(num(3.0), BinaryOp::Less, num(4.0)),
            ),
        ))],
        parse("1 == 2 or true and 3 < 4;"),
    );
}

#[test]
fn recovery_goes_on_behind_a_semicolon() {
    let mut parser = LoxParser::new();
    parser.load_string("var = 1; print ; var ok = 2;\nprint (;").expect("scan");
    assert_eq!(
        Err(vec![
            String::from("[Line 1] Error: Expected variable name after 'var'."),
            String::from("[Line 1] Error: Expected an expression; recieved Semicolon."),
            String::from("[Line 2] Error: Expected an expression; recieved Semicolon."),
        ]),
        parser.parse(),
    );
}

#[test]
fn identifiers_take_letters_digits_and_underscores() {
    assert_eq!(
        vec![Statement::Expr(Expression::boxed_identifier("_a1_B"))],
        parse("_a1_B;"),
    );
    let mut parser = LoxParser::new();
    assert_eq!(
        Err(vec![String::from("[Line 1] Error: Unexpected character '['.")]),
        parser.load_string("a[1;"),
    );
}
