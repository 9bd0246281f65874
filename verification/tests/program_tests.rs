use crablox::clock::reading_of;
use crablox::interpreter::LoxInterpreter;
use crablox::node::Literal;
use crablox::parser::LoxParser;
use crablox::program::{format_vec_output, LoxProgram};
use crablox::prompt::LoxPrompt;

fn run(source: &str) -> String {
    LoxProgram::new(String::from(source)).run()
}

#[test]
fn counter_closure() {
    let source = "fun makeCounter() { var i=0; fun c(){ i = i+1; print i; } return c; }\n\
                  var c = makeCounter(); c(); c(); c();";
    assert_eq!("1\n2\n3", run(source));
}

#[test]
fn static_scoping() {
    let source = "var a=\"global\"; { fun showA(){ print a; } showA(); var a=\"block\"; showA(); }";
    assert_eq!("global\nglobal", run(source));
}

#[test]
fn fibonacci() {
    let source = "fun fib(n){ if (n<=1) return n; return fib(n-2)+fib(n-1); }\n\
                  for (var i=0;i<10;i=i+1) print fib(i);";
    assert_eq!("0\n1\n1\n2\n3\n5\n8\n13\n21\n34", run(source));
}

#[test]
fn class_with_fields_and_this() {
    let source = "class Cake { taste(){ print \"The \"+this.flavor+\" cake is delicious!\"; } }\n\
                  var c=Cake(); c.flavor=\"German chocolate\"; c.taste();";
    assert_eq!("The German chocolate cake is delicious!", run(source));
}

#[test]
fn super_dispatch_through_chain() {
    let source = "class A { m(){ print \"A\"; } }\n\
                  class B<A { m(){ print \"B\"; } test(){ super.m(); } }\n\
                  class C<B {}\n\
                  C().test();";
    assert_eq!("A", run(source));
}

#[test]
fn logical_short_circuit_values() {
    let source = "var i; (i=1) or (i=2); print i; print nil or \"fallback\";";
    assert_eq!("1\nfallback", run(source));
}

#[test]
fn short_circuit_skips_the_right_operand() {
    assert_eq!("false\ntrue\nNil", run("var t; print false and (t = 1); print true or (t = 2); print t;"));
    assert_eq!("Nil\n0", run("print nil and 1; print 0 or 2;"));
}

#[test]
fn only_false_and_nil_are_falsy() {
    let source = "if (0) print \"zero\"; if (\"\") print \"empty\"; if (nil) print \"nil\"; \
                  if (false) print \"false\"; if (true) print \"true\"; \
                  fun f() {} if (f) print \"function\"; class K {} if (K) print \"class\"; \
                  if (K()) print \"instance\"; print !nil; print !0;";
    assert_eq!("zero\nempty\ntrue\nfunction\nclass\ninstance\ntrue\nfalse", run(source));
}

#[test]
fn assignment_in_a_block_reaches_the_outer_variable() {
    assert_eq!("2", run("var x = 1; { x = 2; } print x;"));
    assert_eq!("1", run("var x = 1; { var x = 3; } print x;"));
}

#[test]
fn a_call_of_a_class_yields_an_instance_of_it() {
    assert_eq!("<Foo instance>\ntrue", run("class Foo { init(a) { this.a = a; return; } } var i = Foo(1); print i; print i.init(2) == i;"));
    assert_eq!("<class Foo>\n<fn bar>\n<fn clock>", run("class Foo { bar() {} } print Foo; print Foo().bar; print clock;"));
}

#[test]
fn an_initializer_answers_with_its_instance() {
    let mut intp = LoxInterpreter::new();
    let mut parser = LoxParser::new();
    parser.load_string("class P { init() { this.x = 1; } } var p = P(); var q = p.init();").expect("scan");
    intp.interpret(parser.parse().expect("parse")).expect("run");
    let p = intp.lookup("p").expect("p");
    let q = intp.lookup("q").expect("q");
    assert_eq!(p, q);
    match p {
        Literal::InstLit(_) => {},
        other => panic!("expected an instance, got {:?}", other),
    }
}

#[test]
fn a_method_sees_the_instance_it_was_fetched_from() {
    let source = "class T { who() { return this.name; } }\n\
                  var a = T(); a.name = \"a\"; var b = T(); b.name = \"b\";\n\
                  var ma = a.who; var mb = b.who; print mb(); print ma(); print a.who();";
    assert_eq!("b\na\na", run(source));
}

#[test]
fn inherited_methods_and_overrides() {
    let source = "class Doughnut { cook() { print \"Fry\"; } name() { return \"doughnut\"; } }\n\
                  class Cream < Doughnut { cook() { super.cook(); print \"Pipe \" + this.name(); } }\n\
                  Cream().cook(); print Cream().name();";
    assert_eq!("Fry\nPipe doughnut\ndoughnut", run(source));
}

#[test]
fn a_later_method_of_one_name_hides_an_earlier_one() {
    assert_eq!("second", run("class D { m() { print \"first\"; } m() { print \"second\"; } } D().m();"));
}

#[test]
fn closures_share_what_they_captured() {
    let source = "fun pair() { var n = 0; fun inc() { n = n + 1; return n; } return inc; }\n\
                  var one = pair(); var other = one; var fresh = pair();\n\
                  print one(); print other(); print fresh(); print one();";
    assert_eq!("1\n2\n1\n3", run(source));
}

#[test]
fn a_function_captures_a_copy_of_its_environment() {
    assert_eq!("1", run("var a = 1; fun f() { print a; } a = 2; f();"));
}

#[test]
fn for_without_clauses_and_return_without_value() {
    assert_eq!("3\nNil", run("fun f() { var i = 0; for (;;) { i = i + 1; if (i == 3) return i; } } print f(); fun g() { return; } print g();"));
    assert_eq!("0\n1", run("var i = 0; for (; i < 2;) { print i; i = i + 1; }"));
}

#[test]
fn recursion_of_some_depth() {
    assert_eq!("5050", run("fun sum(n) { if (n == 0) return 0; return n + sum(n - 1); } print sum(100);"));
}

#[test]
fn loops_of_many_turns() {
    assert_eq!("20000", run("var i = 0; while (i < 20000) i = i + 1; print i;"));
}

#[test]
fn strings_concatenate() {
    assert_eq!("foobar", run("print \"foo\" + \"bar\";"));
}

#[test]
fn runtime_errors_carry_their_message() {
    assert_eq!("Runtime error: Operand must be a number.", run("print -\"a\";"));
    assert_eq!("Runtime error: Operands must be two numbers or two strings.", run("print 1 + \"a\";"));
    assert_eq!("Runtime error: Attempted to use literal a in place of a Number.", run("print \"a\" * 2;"));
    assert_eq!("Runtime error: Attempted to use literal Nil in place of a Number.", run("print 2 < nil;"));
    assert_eq!("Runtime error: Undefined variable x.", run("print x;"));
    assert_eq!("Runtime error: Undefined variable x.", run("x = 1;"));
    assert_eq!("Runtime error: Expected 2 arguments but got 1.", run("fun f(a, b) {} f(1);"));
    assert_eq!("Runtime error: Expected 0 arguments but got 1.", run("class A {} A(1);"));
    assert_eq!("Runtime error: Can only call functions and classes.", run("\"f\"();"));
    assert_eq!("Runtime error: Only instances have properties.", run("print 1 .x;"));
    assert_eq!("Runtime error: Only instances have fields.", run("var s = \"s\"; s.x = 1;"));
    assert_eq!("Runtime error: Undefined property x.", run("class A {} print A().x;"));
    assert_eq!("Runtime error: Superclass must be a class.", run("var a = 1; class B < a {}"));
    assert_eq!("Runtime error: Undefined variable A.", run("class A < A {}"));
    assert_eq!("Runtime error: Undefined variable this.", run("print this;"));
    assert_eq!("Runtime error: Undefined property m.", run("class A {} class B < A { t() { super.m(); } } B().t();"));
}

#[test]
fn a_runtime_error_ends_the_run() {
    let mut intp = LoxInterpreter::new();
    let mut parser = LoxParser::new();
    parser.load_string("print 1; print x; print 2;").expect("scan");
    let outcome = intp.interpret(parser.parse().expect("parse"));
    assert_eq!(Err(String::from("Undefined variable x.")), outcome);
}

#[test]
fn scopes_are_closed_after_an_error() {
    let mut prompt = LoxPrompt::new();
    assert_eq!("Runtime error: Undefined variable y.", prompt.command("var x = 1; { var x = 2; { print y; } }"));
    assert_eq!("1", prompt.command("print x;"));
    assert_eq!("Runtime error: Undefined variable z.", prompt.command("fun f() { var x = 5; print z; } f();"));
    assert_eq!("1", prompt.command("print x;"));
}

#[test]
fn evaluation_that_nests_too_deep_is_an_error() {
    let mut intp = LoxInterpreter::with_depth_limit(40);
    let mut parser = LoxParser::new();
    parser.load_string("fun down(n) { return down(n + 1); } down(0);").expect("scan");
    let outcome = intp.interpret(parser.parse().expect("parse"));
    assert_eq!(Err(String::from("Evaluation is nested too deeply.")), outcome);
    let mut parser = LoxParser::new();
    parser.load_string("print 1 + 2;").expect("scan");
    assert_eq!(Ok(String::from("3")), intp.interpret(parser.parse().expect("parse")));
}

#[test]
fn endless_recursion_is_an_error() {
    assert_eq!(
        "Runtime error: Evaluation is nested too deeply.",
        run("fun down(n) { return down(n + 1); } down(0);"),
    );
    assert_eq!(
        "Runtime error: Evaluation is nested too deeply.",
        LoxProgram::new(String::from("fun f() { return f(); } f();")).run_within(60),
    );
    assert_eq!("55", LoxProgram::new(String::from("fun s(n) { if (n == 0) return 0; return n + s(n - 1); } print s(10);")).run_within(60));
}

#[test]
fn parse_errors_are_all_reported() {
    assert_eq!(
        "Parsing error(s):\n[Line 1] Error: Expected ';' at end of statement.\n[Line 2] Error: Invalid assignment target.",
        run("print 1\n1 = 2;"),
    );
    assert_eq!(
        "Parsing error(s):\n[Line 1] Error: Missing close parenthesis.",
        run("print (1 + 2;"),
    );
    assert_eq!(
        "Parsing error(s):\n[Line 1] Error: Expected ')' after if condition.",
        run("if (true print 1;"),
    );
    assert_eq!(
        "Parsing error(s):\n[Line 1] Error: Expected variable name after 'var'.",
        run("var 1 = 2;"),
    );
    assert_eq!(
        "Parsing error(s):\n[Line 1] Error: Expected an expression; recieved RightParen.",
        run("print );"),
    );
    assert_eq!(
        "Parsing error(s):\n[Line 1] Error: Expected an expression; reached end of file.",
        run("print"),
    );
    assert_eq!(
        "Parsing error(s):\n[Line 1] Error: Unexpectedly reached end of file while parsing arguments.",
        run("f(1 2);"),
    );
}

#[test]
fn scanning_errors_are_reported() {
    assert_eq!(
        "Scanning error(s):\n[Line 1] Error: Unexpected character '#'.\n[Line 2] Error: Unterminated string starting at line [2].",
        run("#\n\"open"),
    );
}

#[test]
fn too_many_arguments_are_a_parse_error() {
    let mut many = String::from("f(");
    for i in 0..255 {
        if i > 0 {
            many.push(',');
        }
        many.push('1');
    }
    many.push_str(");");
    assert_eq!("Parsing error(s):\n[Line 1] Error: Can't have more than 254 arguments.", run(&many));
    let mut fewer = String::from("fun f() {} f(");
    for i in 0..254 {
        if i > 0 {
            fewer.push(',');
        }
        fewer.push('1');
    }
    fewer.push_str(");");
    assert_eq!("Runtime error: Expected 0 arguments but got 254.", run(&fewer));
}

#[test]
fn parsing_twice_gives_the_same() {
    for source in ["var a = 1; print a + 2; fun f(x) { return x; }", "print (1; var = 3; class {"] {
        let mut first = LoxParser::new();
        first.load_string(source).expect("scan");
        let mut second = LoxParser::new();
        second.load_string(source).expect("scan");
        let one = first.parse();
        assert_eq!(one, second.parse());
        assert_eq!(one, first.parse());
    }
}

#[test]
fn a_parser_without_input_says_so() {
    let mut parser = LoxParser::new();
    assert_eq!(
        Err(vec![String::from("Error: parser has not recieved input.")]),
        parser.parse(),
    );
}

#[test]
fn the_prompt_keeps_what_was_defined() {
    let mut prompt = LoxPrompt::new();
    assert_eq!("", prompt.command("var a = 1; fun twice(x) { return x * 2; }"));
    assert_eq!("2", prompt.command("print twice(a);"));
    assert_eq!("Parsing error(s):\n[Line 1] Error: Expected ';' at end of statement.", prompt.command("print a"));
    assert_eq!("Scanning error(s):\n[Line 1] Error: Unexpected character '@'.", prompt.command("@"));
    assert_eq!("Runtime error: Undefined variable b.", prompt.command("print b;"));
    assert_eq!("1", prompt.command("print a;"));
}

#[test]
fn messages_are_joined_one_to_a_line() {
    assert_eq!("", format_vec_output(&vec![]));
    assert_eq!("one", format_vec_output(&vec![String::from("one")]));
    assert_eq!("one\ntwo", format_vec_output(&vec![String::from("one"), String::from("two")]));
}

#[test]
fn the_clock_gives_seconds() {
    let mut intp = LoxInterpreter::new();
    let mut parser = LoxParser::new();
    parser.load_string("var t = clock();").expect("scan");
    intp.interpret(parser.parse().expect("parse")).expect("run");
    let now = std::time::SystemTime::now()
        .duration_since(std::time::UNIX_EPOCH)
        .expect("after the epoch")
        .as_secs_f64();
    match intp.lookup("t").expect("t") {
        Literal::Number(bits) => {
            let seconds = f64::from_bits(bits);
            assert!(seconds > 1.0e9 && seconds <= now + 1.0 && seconds >= now - 60.0);
        },
        other => panic!("expected a number, got {:?}", other),
    }
}

#[test]
fn define_external_binds_a_name() {
    let mut intp = LoxInterpreter::new();
    intp.define_external("answer", Literal::Number(42.0f64.to_bits()));
    let mut parser = LoxParser::new();
    parser.load_string("print answer;").expect("scan");
    assert_eq!(Ok(String::from("42")), intp.interpret(parser.parse().expect("parse")));
}

#[test]
fn nested_functions_see_this() {
    let source = "class A { init(x) { this.x = x; } m() { fun inner() { return this.x; } return inner(); } }\n\
                  print A(7).m();";
    assert_eq!("7", run(source));
}

#[test]
fn inherited_initializers_run() {
    let source = "class Base { init() { this.tag = \"base\"; } }\n\
                  class Derived < Base { show() { print this.tag; } }\n\
                  Derived().show();";
    assert_eq!("base", run(source));
}

#[test]
fn initializers_call_up() {
    let source = "class Base { init(a) { this.a = a; } }\n\
                  class Derived < Base { init(a, b) { super.init(a); this.b = b; } }\n\
                  var d = Derived(1, 2); print d.a + d.b;";
    assert_eq!("3", run(source));
}

#[test]
fn a_return_leaves_loops_and_blocks() {
    let source = "fun find(limit) { var i = 0; while (true) { { if (i * i > limit) return i; } i = i + 1; } }\n\
                  print find(50); print find(0);";
    assert_eq!("8\n1", run(source));
}

#[test]
fn fields_may_hold_functions() {
    let source = "class Box {} fun hello() { return \"hi\"; } var b = Box(); b.f = hello; print b.f();";
    assert_eq!("hi", run(source));
}

#[test]
fn values_are_compared_by_kind() {
    let source = "print 1 == 1; print \"a\" == \"a\"; print nil == nil; print nil == false; \
                  print 1 == \"1\"; print true != false; \
                  fun f() {} fun g() {} print f == f; print f == g; \
                  class K {} var a = K(); var b = K(); print a == a; print a == b; print K == K;";
    assert_eq!("true\ntrue\ntrue\nfalse\nfalse\ntrue\ntrue\nfalse\ntrue\nfalse\ntrue", run(source));
}

#[test]
fn arguments_are_evaluated_from_left_to_right() {
    let source = "fun note(x) { print x; return x; }\n\
                  fun three(a, b, c) { return c + b + a; }\n\
                  print three(note(\"a\"), note(\"b\"), note(\"c\"));";
    assert_eq!("a\nb\nc\ncba", run(source));
}

#[test]
fn the_arity_is_checked_before_the_arguments() {
    assert_eq!("Runtime error: Expected 1 arguments but got 2.", run("fun f(a) {} f(1, missing);"));
}

#[test]
fn numbers_print_as_the_shortest_numeral() {
    assert_eq!("0.1\n0.3\n0.30000000000000004\n1.5\n-2\n1000000\n0.5", run("print 0.1; print 0.3; print 0.1 + 0.2; print 3 / 2; print -2; print 1000000; print 1 / 2;"));
}

#[test]
fn clock_readings_fit_or_stop_at_the_largest() {
    assert_eq!(0, reading_of(None));
    assert_eq!(0, reading_of(Some(0)));
    assert_eq!(1_700_000_000_123, reading_of(Some(1_700_000_000_123)));
    assert_eq!(u64::MAX, reading_of(Some(u64::MAX as u128)));
    assert_eq!(u64::MAX, reading_of(Some(u64::MAX as u128 + 1)));
    assert_eq!(u64::MAX, reading_of(Some(u128::MAX)));
}
