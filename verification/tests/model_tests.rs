use crablox::callable::Callable;
use crablox::environment::LoxEnvironment;
use crablox::instance::{Instance, ObjectHeap};
use crablox::node::Literal;
use crablox::statement::Statement;
use crablox::expression::Expression;

fn function(name: &str, params: &[&str]) -> Callable {
    Callable::Function(
        String::from(name),
        params.iter().map(|p| String::from(*p)).collect(),
        vec![],
        None,
        name == "init",
        None,
    )
}

#[test]
fn natives_are_the_clock() {
    let natives = Callable::native_fn_list();
    assert_eq!(1, natives.len());
    assert_eq!("clock", natives[0].0);
    assert_eq!(Callable::Clock, natives[0].1);
    assert!(Callable::Clock.is_native());
    assert_eq!(0, Callable::Clock.arity());
    assert_eq!("clock", Callable::Clock.get_name());
}

#[test]
fn arity_names_and_flags() {
    let f = function("f", &["a", "b"]);
    assert_eq!(2, f.arity());
    assert_eq!("f", f.get_name());
    assert!(!f.is_native());
    assert!(!f.is_initializer());
    assert!(function("init", &[]).is_initializer());
    let plain = Callable::Class(String::from("P"), None, vec![Box::new(f.clone())]);
    assert_eq!(0, plain.arity());
    assert!(!plain.is_initializer());
    let with_init = Callable::Class(
        String::from("Q"),
        None,
        vec![Box::new(function("init", &["x", "y", "z"]))],
    );
    assert_eq!(3, with_init.arity());
    assert_eq!("Q", with_init.get_name());
}

#[test]
fn methods_are_found_along_the_chain() {
    let base = Callable::Class(
        String::from("Base"),
        None,
        vec![Box::new(function("m", &[])), Box::new(function("only", &["a"]))],
    );
    let derived = Callable::Class(
        String::from("Derived"),
        Some(Box::new(base.clone())),
        vec![Box::new(function("m", &["x"]))],
    );
    assert_eq!(Ok(function("m", &["x"])), derived.find_method("m"));
    assert_eq!(Ok(function("only", &["a"])), derived.find_method("only"));
    assert_eq!(Err(String::from("Undefined property none.")), derived.find_method("none"));
    assert_eq!(
        Err(String::from("Cannot find method on non-class f.")),
        function("f", &[]).find_method("m"),
    );
    assert_eq!(Some((function("m", &["x"]), Some(base.clone()))), derived.resolve("m"));
    assert_eq!(Some((function("only", &["a"]), None)), derived.resolve("only"));
    assert_eq!(None, derived.resolve("none"));
}

#[test]
fn instances_share_their_fields() {
    let class = Callable::Class(String::from("K"), None, vec![Box::new(function("m", &[]))]);
    let mut heap = ObjectHeap::new();
    let first = Instance::new(class.clone(), &mut heap);
    let second = Instance::new(class.clone(), &mut heap);
    let copy = first.clone();
    assert_eq!(2, heap.len());
    copy.set(&mut heap, "x", Literal::Boolean(true));
    assert_eq!(Ok(Literal::Boolean(true)), first.get(&heap, "x"));
    assert_eq!(Err(String::from("Undefined property x.")), second.get(&heap, "x"));
    assert_eq!(Ok(Literal::CallLit(function("m", &[]))), second.get(&heap, "m"));
    assert!(first.same_object(&copy));
    assert!(!first.same_object(&second));
    assert_eq!(&class, first.get_class());
}

#[test]
fn definitions_name_the_nameless() {
    let mut env = LoxEnvironment::new();
    env.define("later", Literal::CallLit(function("", &["a"])));
    assert_eq!(Ok(Literal::CallLit(function("later", &["a"]))), env.get("later"));
    env.define("alias", Literal::CallLit(function("first", &[])));
    assert_eq!(Ok(Literal::CallLit(function("first", &[]))), env.get("alias"));
}

#[test]
fn closures_are_copies_that_are_mounted() {
    let mut env = LoxEnvironment::new();
    env.define("x", Literal::Boolean(false));
    let handle = env.spawn_closure();
    env.assign("x", Literal::Boolean(true)).expect("assign");
    env.mount_closure(&Some(handle));
    assert_eq!(Ok(Literal::Boolean(false)), env.get("x"));
    env.define("y", Literal::Nil);
    env.mount_closure(&None);
    assert_eq!(Ok(Literal::Nil), env.get("y"));
    env.unmount_closure().expect("unmount");
    env.unmount_closure().expect("unmount");
    assert_eq!(Ok(Literal::Boolean(true)), env.get("x"));
    assert_eq!(Err(String::from("Undefined variable y.")), env.get("y"));
    assert_eq!(
        Err(String::from("Attempted to unmount outermost scope as a closure.")),
        env.unmount_closure(),
    );
    env.define_within(handle, "z", Literal::Nil);
    assert_eq!(Err(String::from("Undefined variable z.")), env.get("z"));
    env.mount_closure(&Some(handle));
    assert_eq!(Ok(Literal::Nil), env.get("z"));
}

#[test]
fn assignment_reaches_the_innermost_binding() {
    let mut env = LoxEnvironment::new();
    env.define("x", Literal::Boolean(false));
    env.lower_scope();
    env.define("x", Literal::Nil);
    env.lower_scope();
    assert_eq!(Ok(Literal::Boolean(true)), env.assign("x", Literal::Boolean(true)));
    env.raise_scope().expect("raise");
    assert_eq!(Ok(Literal::Boolean(true)), env.get("x"));
    env.raise_scope().expect("raise");
    assert_eq!(Ok(Literal::Boolean(false)), env.get("x"));
}

#[test]
fn copies_are_equal_to_what_they_copy() {
    let tree = Statement::Fun(
        String::from("f"),
        vec![String::from("a")],
        vec![Box::new(Statement::Return(
            Expression::boxed_call(
                Expression::boxed_getter(Expression::boxed_this(), "m"),
                vec![Expression::boxed_super("n"), Expression::boxed_nil()],
                3,
            ),
            3,
        ))],
    );
    assert_eq!(tree, tree.duplicate());
    assert_eq!(tree, tree.clone());
    let setter = Expression::boxed_setter(
        Expression::boxed_identifier("o"),
        "p",
        Expression::boxed_literal(Literal::StringData(String::from("v"))),
    );
    assert_eq!(setter, Box::new(setter.duplicate()));
}
