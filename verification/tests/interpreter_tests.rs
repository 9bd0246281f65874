use crablox::expression::Expression;
use crablox::interpreter::{get_number, is_truthful, LoxInterpreter};
use crablox::node::Literal;
use crablox::node::Literal::{Boolean, Nil, Number, StringData};
use crablox::parser::LoxParser;
use crablox::statement::Statement;

fn num(x: f64) -> u64 {
    x.to_bits()
}

fn string_to_program(s: impl AsRef<str>) -> Vec<Statement> {
    let mut parser = LoxParser::new();
    parser.load_string(s.as_ref()).expect("Error while scanning input string.");
    parser.parse().expect("Error while parsing expression.")
}

fn string_to_expr(s: &str) -> Expression {
    let statements = string_to_program(s);
    if let Statement::Expr(e) = statements[0].clone() { *e }
    else { panic!("Attempted to convert a non-statement to an expression."); }
}

fn test_expression_generic(s: &str, expected: Literal) {
    let expr = string_to_expr(s);
    let mut intp = LoxInterpreter::new();
    let result = intp.evaluate_expr(expr).expect("Evaluation error");
    assert_eq!(expected, result, "Expected to recieve left side; recieved right.");
}

#[test]
fn interpreter_test_is_truthful() {
    assert!(is_truthful(&Number(num(0.0))));
    assert!(is_truthful(&StringData(String::new())));
    assert!(is_truthful(&Boolean(true)));

    assert!(!is_truthful(&Boolean(false)));
    assert!(!is_truthful(&Nil));
}

#[test]
fn interpreter_test_get_number() {
    assert_eq!(get_number(&Number(num(43.0))), Ok(num(43.0)));
    if let Err(s) = get_number(&Nil) {
        assert!(s.contains("Attempted to use literal"));
    } else {
        panic!("get_number(&Nil) failed to return an error");
    }
}

#[test]
fn interpreter_test_expression_unary_not() {
    test_expression_generic("!!false;", Boolean(false));
}

#[test]
fn interpreter_test_expression_unary_negative() {
    test_expression_generic("-4.3;", Number(num(-4.3)));
}

#[test]
fn interpreter_test_expression_modulo() {
    test_expression_generic("5 % 3;", Number(num(2.0)));
}

#[test]
fn interpreter_test_expression_divide() {
    test_expression_generic("3/5;", Number(num(0.6)));
}

#[test]
fn interpreter_test_expression_multiply() {
    test_expression_generic("4.1 * 5;", Number(num(20.5)));
}

#[test]
fn interpreter_test_expression_add() {
    test_expression_generic("4.1 + 5;", Number(num(9.1)));
}

#[test]
fn interpreter_test_expression_subtract() {
    test_expression_generic("4.1 - 5;", Number(num(4.1-5.0)));
}

#[test]
fn interpreter_test_expression_less() {
    test_expression_generic("4.1 < 5;", Boolean(true));
}

#[test]
fn interpreter_test_expression_less_equal() {
    test_expression_generic("4.1 <= 5;", Boolean(true));
}

#[test]
fn interpreter_test_expression_greater() {
    test_expression_generic("4.1 > 5;", Boolean(false));
}

#[test]
fn interpreter_test_expression_greater_equal() {
    test_expression_generic("4.1 >= 5;", Boolean(false));
}

#[test]
fn interpreter_test_expression_equal() {
    test_expression_generic("4.1 == 5;", Boolean(false));
}

#[test]
fn interpreter_test_expression_not_equal() {
    test_expression_generic("4.1 != 5;", Boolean(true));
}

#[test]
fn interpreter_test_expression_and() {
    let test_str = "3.0 and 0.0;";
    let expected = Number(num(0.0));
    test_expression_generic(test_str, expected);
    let test_str = "nil and 0.0;";
    let expected = Nil;
    test_expression_generic(test_str, expected);
}

#[test]
fn interpreter_test_expression_or() {
    let test_str = "3.0 or 0.0;";
    let expected = Number(num(3.0));
    test_expression_generic(test_str, expected);
    let test_str = "nil or 0.0;";
    let expected = Number(num(0.0));
    test_expression_generic(test_str, expected);
}

#[test]
fn interpreter_test_expression_math_ops() {
    let test_str = "3 + -4 * -5 - 6;";
    test_expression_generic(test_str, Number(num(17.0)));
}

#[test]
fn interpreter_test_expression_comparison() {
    let test_str = "15 / 5 >= 2 != 1.5 + 1.5 < 2;";
    test_expression_generic(test_str, Boolean(true));
}

#[test]
fn interpreter_test_expression_grouping() {
    let test_str = "(3 + -4) * (-5 - 6);";
    test_expression_generic(test_str, Number(num(11.0)));
}

#[test]
fn test_variable_declaration() {
    let mut intp = LoxInterpreter::new();
    let program = string_to_program([
        "var i;",
        "var j = 2;",
    ].concat());
    intp.interpret(program).expect("Error while interpreting program");

    let expected = Nil;
    let result = intp.lookup("i").expect("Failed to retrieve an uninitialized variable");
    assert_eq!(expected, result, "Uninitialized variable should be Nil; instead recieved {:?}", result);

    let expected = Number(num(2.0));
    let result = intp.lookup("j").expect("Failed to retrieve an initialized variable");
    assert_eq!(expected, result, "Variable should equal 2; instead recieved {:?}", result);
}

#[test]
fn test_variable_redeclaration() {
    let mut intp = LoxInterpreter::new();
    let program = string_to_program([
        "var i = 1;",
        "var i = i + 1;",
    ].concat());
    intp.interpret(program).expect("Error while interpreting program");

    let expected = Number(num(2.0));
    let result = intp.lookup("i").expect("Failed to retrieve an initialized variable");
    assert_eq!(expected, result, "Variable should equal 2; instead recieved {:?}", result);
}

#[test]
fn test_variable_assignment() {
    let mut intp = LoxInterpreter::new();
    let program = string_to_program([
        "var i = 0;",
        "var j;",
        "var k;",
        "i = i + 1;",
        "k = j = 1 + i;",
        "k = k + 1;",
    ].concat());
    intp.interpret(program).expect("Error while interpreting program");

    let expected = Number(num(1.0));
    let result = intp.lookup("i").expect("Failed to retrieve an initialized variable");
    assert_eq!(expected, result, "Variable should equal 1; instead recieved {:?}", result);

    let expected = Number(num(2.0));
    let result = intp.lookup("j").expect("Failed to retrieve an initialized variable");
    assert_eq!(expected, result, "Variable should equal 2; instead recieved {:?}", result);

    let expected = Number(num(3.0));
    let result = intp.lookup("k").expect("Failed to retrieve an initialized variable");
    assert_eq!(expected, result, "Variable should equal 3; instead recieved {:?}", result);
}

#[test]
fn test_variable_scope() {
    let mut intp = LoxInterpreter::new();
    let program = string_to_program([
        "var a = \"global a\";\n",
        "var b = \"global b\";\n",
        "var c = \"global c\";\n",
        "{\n",
        "  var a = \"outer a\";\n",
        "  var b = \"outer b\";\n",
        "  {\n",
        "    var a = \"inner a\";\n",
        "    print a;\n",
        "    print b;\n",
        "    print c;\n",
        "  }\n",
        "  print a;\n",
        "  print b;\n",
        "  print c;\n",
        "}\n",
        "print a;\n",
        "print b;\n",
        "print c;",
    ].concat());
    let output = intp.interpret(program).expect("Error while interpreting program");

    let expected = [
        "inner a\n",
        "outer b\n",
        "global c\n",
        "outer a\n",
        "outer b\n",
        "global c\n",
        "global a\n",
        "global b\n",
        "global c",
    ].concat();

    assert_eq!(expected, output, "Expected left output; recieved right");
}

#[test]
fn test_if_else() {
    let mut intp = LoxInterpreter::new();
    let program = string_to_program([
        "if (2 <= 3) print \"Math is working\";\n",
        "var three = 3;\n",
        "if (three == 3) {\n",
        "   print 333;\n",
        "} else {\n",
        "   print 4444;\n",
        "}",
    ].concat());
    let output = intp.interpret(program).expect("Error while interpreting program");

    let expected = [
        "Math is working\n",
        "333",
    ].concat();

    assert_eq!(expected, output, "Expected left output; recieved right");
}

#[test]
fn test_logical_short_circuiting() {
    let mut intp = LoxInterpreter::new();
    let program = string_to_program([
        "var i; var j; var k;\n",
        "(i = 1) or (j = 2);\n",
        "print i; print j;\n",
        "j or (k = 2);\n",
        "print k;\n",
        "j and (j = 3);\n",
        "print j;\n",
        "i and (j = 4);\n",
        "print j;\n",
    ].concat());
    let output = intp.interpret(program).expect("Error while interpreting program");

    let expected = [
        "1\n",
        "Nil\n",
        "2\n",
        "Nil\n",
        "4",
    ].concat();

    assert_eq!(expected, output, "Expected left output; recieved right");
}

#[test]
fn test_while() {
    let mut intp = LoxInterpreter::new();
    let program = string_to_program(
        "var i = 0;\nwhile (i < 5) print i = i + 1;"
    );
    let output = intp.interpret(program).expect("Error while interpreting program");

    let expected = "1\n2\n3\n4\n5";

    assert_eq!(expected, output, "Expected left output; recieved right");
}

#[test]
fn test_for() {
    let mut intp = LoxInterpreter::new();
    let program = string_to_program(
        "for (var i = 1; i <= 64; i = i * 2) print i;"
    );
    let output = intp.interpret(program).expect("Error while interpreting program");

    let expected = "1\n2\n4\n8\n16\n32\n64";

    assert_eq!(expected, output, "Expected left output; recieved right");
}

#[test]
fn test_clock() {
    let mut intp = LoxInterpreter::new();
    let program = string_to_program(
        // This isn't a perfect test, but at least confirms that
        // clock() is returning a non-constant, increasing value.
        // The for loops are just to stall for extra time.
        "var a = clock();\nfor (var i = 1; i <= 100; i = i + 1) {for (var j = 1; j <= 100; j = j + 1) {}}\nvar b = clock();\nprint(a == b);\nprint(a<b);"
    );
    let output = intp.interpret(program).expect("Error while interpreting program");

    let expected = "false\ntrue";

    assert_eq!(expected, output, "clock() does not appear to be outputting strictly increasing values");
}

#[test]
fn test_manyvars_func() {
    let mut intp = LoxInterpreter::new();
    let program = string_to_program([
        "fun sum(a, b, c, d) {\n",
        "  return a + b + c + d;\n",
        "}\n",
        "\n",
        "print sum(1, 2, 3, 4);\n",
        "print sum(4, 5, 6, 7);\n",
    ].concat());
    let output = intp.interpret(program).expect("Error while interpreting program");

    let expected = "10\n22";

    assert_eq!(expected, output, "4-input sum function provided unexpected output");
}

#[test]
fn test_curried_func() {
    let mut intp = LoxInterpreter::new();
    let program = string_to_program([
        "fun sum(a, b, c) {\n",
        "  fun sum_inner() {\n",
        "    return a + b + c;\n",
        "  }\n",
        "  return sum_inner;\n",
        "}\n",
        "\n",
        "print sum(1, 2, 3)();\n",
    ].concat());
    let output = intp.interpret(program).expect("Error while interpreting program");

    let expected = "6";

    assert_eq!(expected, output, "Curried function provided unexpected output");
}

#[test]
fn test_recursive_func() {
    let mut intp = LoxInterpreter::new();
    let program = string_to_program([
        "fun fib(n) {\n",
        "  if (n <= 1) return n;\n",
        "  return fib(n - 2) + fib(n - 1);\n",
        "}\n",
        "\n",
        "for (var i = 0; i < 10; i = i + 1) {\n",
        "  print fib(i);\n",
        "}\n",
    ].concat());
    let output = intp.interpret(program).expect("Error while interpreting program");

    let expected = "0\n1\n1\n2\n3\n5\n8\n13\n21\n34";

    assert_eq!(expected, output, "Recursive fibonacci function provided unexpected output");
}

#[test]
fn test_closure_func() {
    let mut intp = LoxInterpreter::new();
    let program = string_to_program([
        "fun makeCounter() {\n",
        "    var i = 0;\n",
        "    fun count() {\n",
        "        i = i + 1;\n",
        "        print i;\n",
        "    }\n",
        "    \n",
        "    return count;\n",
        "}\n",
        "\n",
        "var counter = makeCounter();\n",
        "for (var i = 0; i < 5; i = i + 1) {\n",
        "    counter();\n",
        "}",
    ].concat());
    let output = intp.interpret(program).expect("Error while interpreting program");

    let expected = "1\n2\n3\n4\n5";

    assert_eq!(expected, output, "Closure-based counter provided unexpected output");
}

#[test]
fn test_static_scoping() {
    let mut intp = LoxInterpreter::new();
    let program = string_to_program([
        "var a = \"global\";\n",
        "{\n",
        "  fun showA() {\n",
        "    print a;\n",
        "  }\n",
        "\n",
        "  showA();\n",
        "  var a = \"block\";\n",
        "  showA();\n",
        "}\n",
    ].concat());
    let output = intp.interpret(program).expect("Error while interpreting program");

    let expected = "global\nglobal";

    assert_eq!(expected, output, "Closure-based counter provided unexpected output");
}

#[test]
fn test_empty_class() {
    let mut intp = LoxInterpreter::new();
    let program = string_to_program([
        "class Bagel {}",
        "var bagel = Bagel();",
        "print bagel;",
    ].concat());
    let output = intp.interpret(program).expect("Error while interpreting program");

    let expected = "<Bagel instance>";

    assert_eq!(expected, output, "Empty class provided unexpected output");
}

#[test]
fn test_basic_fields() {
    let mut intp = LoxInterpreter::new();
    let program = string_to_program([
        "class Bacon {}\n",
        "var bacon = Bacon();\n",
        "bacon.tasty = \"Yep!\";\n",
        "print bacon.tasty;",
    ].concat());
    let output = intp.interpret(program).expect("Error while interpreting program");

    let expected = "Yep!";

    assert_eq!(expected, output, "Basic field get provided unexpected output");
}

#[test]
fn test_basic_method() {
    let mut intp = LoxInterpreter::new();
    let program = string_to_program([
        "class Bacon {\n",
        "    eat() {\n",
        "        print \"Crunch crunch crunch!\";\n",
        "    }\n",
        "}\n",
        "Bacon().eat(); // Prints \"Crunch crunch crunch!\"."
    ].concat());
    let output = intp.interpret(program).expect("Error while interpreting program");

    let expected = "Crunch crunch crunch!";

    assert_eq!(expected, output, "Basic method provided unexpected output");
}

#[test]
fn test_this_access_method() {
    let mut intp = LoxInterpreter::new();
    let program = string_to_program([
        "class Cake {\n",
        "    taste() {\n",
        "        var adjective = \"delicious\";\n",
        "        print \"The \" + this.flavor + \" cake is \" + adjective + \"!\";\n",
        "    }\n",
        "}\n",
        "\n",
        "var cake = Cake();\n",
        "cake.flavor = \"German chocolate\";\n",
        "cake.taste();",
    ].concat());
    let output = intp.interpret(program).expect("Error while interpreting program");

    let expected = "The German chocolate cake is delicious!";

    assert_eq!(expected, output, "Method relying on 'this' provided unexpected output");
}

#[test]
fn test_initializer() {
    let mut intp = LoxInterpreter::new();
    let program = string_to_program([
        "class Foo {\n",
        "    init(one, two) {\n",
        "        this.foo = one;\n",
        "        this.bar = two;\n",
        "        print one + two;\n",
        "    }\n",
        "}\n",
        "\n",
        "var foo = Foo(\"foo\", \"bar\");\n",
        "print foo.foo;\n",
        "print foo.bar;\n",
    ].concat());
    let output = intp.interpret(program).expect("Error while interpreting program");

    let expected = "foobar\nfoo\nbar";

    assert_eq!(expected, output, "Running class initializer resulted in unexpected output");
}

#[test]
fn test_initializer_recall() {
    let mut intp = LoxInterpreter::new();
    let program = string_to_program([
        "class Foo {\n",
        "    init() {\n",
        "        print this;\n",
        "        return;\n",
        "        print \"early return didn't work\";\n",
        "    }\n",
        "}\n",
        "\n",
        "var foo = Foo();\n",
        "print foo.init();\n",
    ].concat());
    let output = intp.interpret(program).expect("Error while interpreting program");

    let expected = "<Foo instance>\n<Foo instance>\n<Foo instance>";

    assert_eq!(expected, output, "Running initializer a second time provided unexpected output");
}

#[test]
fn test_simple_inheritance() {
    let mut intp = LoxInterpreter::new();
    let program = string_to_program([
        "class Doughnut {\n",
        "    cook() {\n",
        "        print \"Fry until golden brown.\";\n",
        "    }\n",
        "}\n",
        "\n",
        "class BostonCream < Doughnut {\n",
        "    cook() {\n",
        "        super.cook();\n",
        "        print \"Pipe full of custard and coat with chocolate.\";\n",
        "    }\n",
        "}\n",
        "\n",
        "BostonCream().cook();",
    ].concat());
    let output = intp.interpret(program).expect("Error while interpreting program");

    let expected = "Fry until golden brown.\nPipe full of custard and coat with chocolate.";

    assert_eq!(expected, output, "Running simple inherited method provided unexpected output");
}

#[test]
fn test_chained_inheritance() {
    let mut intp = LoxInterpreter::new();
    let program = string_to_program([
        "class A {\n",
        "  method() {\n",
        "    print \"A method\";\n",
        "  }\n",
        "}\n",
        "\n",
        "class B < A {\n",
        "  method() {\n",
        "    print \"B method\";\n",
        "  }\n",
        "\n",
        "  test() {\n",
        "    super.method();\n",
        "  }\n",
        "}\n",
        "\n",
        "class C < B {}\n",
        "\n",
        "C().test();",
    ].concat());
    let output = intp.interpret(program).expect("Error while interpreting program");

    let expected = "A method";

    assert_eq!(expected, output, "Running method from inheritance chain provided unexpected output");
}
