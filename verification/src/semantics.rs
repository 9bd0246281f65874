//! What a program means: evaluation as a function from a state and a
//! syntax tree to a state and a result.
//!
//! Evaluation is bounded twice, so that it is a function: by `depth`, the
//! number of levels that evaluation may nest, and by the number of turns
//! that one loop may take. The one thing that a run learns from outside is
//! the time; `clock` holds the readings that the clock gives, in order, and
//! a state counts how many of them were taken.

use vstd::prelude::*;
use crate::callable::{CallableView, ReceiverView};
use crate::environment::EnvironmentView;
use crate::expression::ExpressionView;
use crate::instance::{heap_with_field, InstanceView};
use crate::node::{BinaryOp, LiteralView, LogicOp, UnaryOp};
use crate::number::{
    number_difference, number_equal, number_from_decimal, number_less, number_negated,
    number_product, number_quotient, number_remainder, number_sum,
};
use crate::numeral::number_text;
use crate::statement::StatementView;
use crate::text::decimal;

verus! {

/// The state of an interpreter.
pub struct InterpreterView {
    pub env: EnvironmentView,
    /// The field maps of all instances, by handle.
    pub heap: Seq<Map<Seq<char>, LiteralView>>,
    /// What was printed.
    pub output: Seq<char>,
    /// How many clock readings were taken.
    pub clock_reads: nat,
}

/// The state that an evaluation leaves, and its result.
pub struct Evaluated<T> {
    pub state: InterpreterView,
    pub result: Result<T, Seq<char>>,
}

pub open spec fn ok<T>(state: InterpreterView, value: T) -> Evaluated<T> {
    Evaluated { state, result: Ok(value) }
}

pub open spec fn err<T>(state: InterpreterView, message: Seq<char>) -> Evaluated<T> {
    Evaluated { state, result: Err(message) }
}

pub open spec fn too_deep() -> Seq<char> {
    "Evaluation is nested too deeply."@
}

pub open spec fn too_long() -> Seq<char> {
    "A loop ran for too long."@
}

/// The number of turns that one loop may take.
pub open spec fn loop_turns() -> nat {
    0xffff_ffff_ffff_ffff
}

/// The bit pattern of the double 1000.
pub open spec fn thousand() -> u64 {
    0x408f_4000_0000_0000
}

/// Only `false` and `nil` are not truthful.
pub open spec fn truthful(value: LiteralView) -> bool {
    match value {
        LiteralView::Boolean(b) => b,
        LiteralView::Nil => false,
        _ => true,
    }
}

/// How a callable is printed.
pub open spec fn callable_text(c: CallableView) -> Seq<char> {
    match c {
        CallableView::Class(name, _, _) => "<class "@ + name + ">"@,
        _ => "<fn "@ + c.name() + ">"@,
    }
}

/// How a value is printed.
pub open spec fn display(value: LiteralView) -> Seq<char> {
    match value {
        LiteralView::Number(n) => number_text(n),
        LiteralView::StringData(s) => s,
        LiteralView::Boolean(b) => if b {
            "true"@
        } else {
            "false"@
        },
        LiteralView::Nil => "Nil"@,
        LiteralView::CallLit(c) => callable_text(c),
        LiteralView::InstLit(i) => "<"@ + i.class.name() + " instance>"@,
    }
}

/// Whether two receivers are the same: both none, or the same object.
pub open spec fn same_receiver(a: Option<Box<ReceiverView>>, b: Option<Box<ReceiverView>>) -> bool {
    match (a, b) {
        (None, None) => true,
        (Some(x), Some(y)) => x.this.fields == y.this.fields,
        _ => false,
    }
}

/// Whether two callables are the same one. A function is known by its
/// name, its captured environment and its receiver; a class by its name
/// and the captured environments of its methods.
pub open spec fn same_callable(a: CallableView, b: CallableView) -> bool {
    match (a, b) {
        (CallableView::Clock, CallableView::Clock) => true,
        (
            CallableView::Function(n1, _, _, c1, _, r1),
            CallableView::Function(n2, _, _, c2, _, r2),
        ) => n1 == n2 && c1 == c2 && same_receiver(r1, r2),
        (CallableView::Class(n1, _, m1), CallableView::Class(n2, _, m2)) => n1 == n2 && m1.len()
            == m2.len() && forall|i: int|
            0 <= i < m1.len() ==> method_handle(#[trigger] m1[i]) == method_handle(m2[i]),
        _ => false,
    }
}

/// The captured environment of a method.
pub open spec fn method_handle(m: CallableView) -> Option<nat> {
    match m {
        CallableView::Function(_, _, _, closure, _, _) => closure,
        _ => None,
    }
}

/// `==` of the language: numbers by value, strings by contents, booleans
/// directly, `nil` only with `nil`, callables and instances by identity.
pub open spec fn same_value(a: LiteralView, b: LiteralView) -> bool {
    match (a, b) {
        (LiteralView::Number(x), LiteralView::Number(y)) => number_equal(x, y),
        (LiteralView::StringData(x), LiteralView::StringData(y)) => x == y,
        (LiteralView::Boolean(x), LiteralView::Boolean(y)) => x == y,
        (LiteralView::Nil, LiteralView::Nil) => true,
        (LiteralView::CallLit(x), LiteralView::CallLit(y)) => same_callable(x, y),
        (LiteralView::InstLit(x), LiteralView::InstLit(y)) => x.fields == y.fields,
        _ => false,
    }
}

/// The number that an operand of arithmetic or of a comparison is.
pub open spec fn number_of(value: LiteralView) -> Result<u64, Seq<char>> {
    match value {
        LiteralView::Number(n) => Ok(n),
        _ => Err("Attempted to use literal "@ + display(value) + " in place of a Number."@),
    }
}

pub open spec fn unary_value(op: UnaryOp, value: LiteralView) -> Result<LiteralView, Seq<char>> {
    match op {
        UnaryOp::Negative => match value {
            LiteralView::Number(n) => Ok(LiteralView::Number(number_negated(n))),
            _ => Err("Operand must be a number."@),
        },
        UnaryOp::Not => Ok(LiteralView::Boolean(!truthful(value))),
    }
}

/// What an operator of arithmetic or of a comparison makes of two numbers.
pub open spec fn numeric_value(op: BinaryOp, a: u64, b: u64) -> LiteralView {
    match op {
        BinaryOp::Subtract => LiteralView::Number(number_difference(a, b)),
        BinaryOp::Multiply => LiteralView::Number(number_product(a, b)),
        BinaryOp::Divide => LiteralView::Number(number_quotient(a, b)),
        BinaryOp::Modulo => LiteralView::Number(number_remainder(a, b)),
        BinaryOp::Less => LiteralView::Boolean(number_less(a, b)),
        BinaryOp::LessEqual => LiteralView::Boolean(number_less(a, b) || number_equal(a, b)),
        BinaryOp::Greater => LiteralView::Boolean(number_less(b, a)),
        BinaryOp::GreaterEqual => LiteralView::Boolean(number_less(b, a) || number_equal(a, b)),
        _ => LiteralView::Number(number_sum(a, b)),
    }
}

pub open spec fn binary_value(op: BinaryOp, left: LiteralView, right: LiteralView) -> Result<
    LiteralView,
    Seq<char>,
> {
    match op {
        BinaryOp::Add => match (left, right) {
            (LiteralView::Number(a), LiteralView::Number(b)) => Ok(
                LiteralView::Number(number_sum(a, b)),
            ),
            (LiteralView::StringData(a), LiteralView::StringData(b)) => Ok(
                LiteralView::StringData(a + b),
            ),
            _ => Err("Operands must be two numbers or two strings."@),
        },
        BinaryOp::Equal => Ok(LiteralView::Boolean(same_value(left, right))),
        BinaryOp::NotEqual => Ok(LiteralView::Boolean(!same_value(left, right))),
        _ => match number_of(left) {
            Err(m) => Err(m),
            Ok(a) => match number_of(right) {
                Err(m) => Err(m),
                Ok(b) => Ok(numeric_value(op, a, b)),
            },
        },
    }
}

/// A method with its receiver: the instance it was fetched from and the
/// superclass of the class that defines it.
pub open spec fn bound(
    method: CallableView,
    this: InstanceView,
    superclass: Option<CallableView>,
) -> CallableView {
    match method {
        CallableView::Function(name, params, body, closure, flag, _) => CallableView::Function(
            name,
            params,
            body,
            closure,
            flag,
            Some(Box::new(ReceiverView { this, superclass })),
        ),
        _ => method,
    }
}

pub open spec fn undefined_property(name: Seq<char>) -> Seq<char> {
    "Undefined property "@ + name + "."@
}

/// The property `name` of an instance: the field where there is one, else
/// the method that the class chain gives, bound to the instance.
pub open spec fn property(
    heap: Seq<Map<Seq<char>, LiteralView>>,
    instance: InstanceView,
    name: Seq<char>,
) -> Result<LiteralView, Seq<char>> {
    if instance.fields < heap.len() && heap[instance.fields as int].contains_key(name) {
        Ok(heap[instance.fields as int][name])
    } else {
        match instance.class.resolve(name) {
            Some(found) => Ok(
                LiteralView::CallLit(bound(found.method, instance, found.superclass)),
            ),
            None => Err(undefined_property(name)),
        }
    }
}

pub open spec fn arity_message(expected: nat, got: nat) -> Seq<char> {
    "Expected "@ + decimal(expected) + " arguments but got "@ + decimal(got) + "."@
}

/// What `clock` answers on a reading of so many milliseconds since the
/// epoch: the seconds, as a number.
pub open spec fn clock_value(millis: u64) -> Result<LiteralView, Seq<char>> {
    match number_from_decimal(decimal(millis as nat)) {
        Some(bits) => Ok(LiteralView::Number(number_quotient(bits, thousand()))),
        None => Err("The clock gave no number."@),
    }
}

/// The reading that the clock gives next.
pub open spec fn reading(clock: Seq<u64>, taken: nat) -> u64 {
    if taken < clock.len() {
        clock[taken as int]
    } else {
        0
    }
}

impl InterpreterView {
    pub open spec fn with_env(self, env: EnvironmentView) -> InterpreterView {
        InterpreterView { env, ..self }
    }

    /// `name` is defined in the current scope.
    pub open spec fn define(self, name: Seq<char>, value: LiteralView) -> InterpreterView {
        self.with_env(self.env.define(name, value))
    }

    pub open spec fn printed(self, text: Seq<char>) -> InterpreterView {
        InterpreterView { output: self.output + text + seq!['\n'], ..self }
    }
}

/// The parameters from `from` on are bound to their arguments, as far as
/// there are both.
pub open spec fn bind_parameters(
    env: EnvironmentView,
    params: Seq<Seq<char>>,
    args: Seq<LiteralView>,
    from: nat,
) -> EnvironmentView
    decreases params.len() - from,
{
    if from < params.len() && from < args.len() {
        bind_parameters(env.define(params[from as int], args[from as int]), params, args, from + 1)
    } else {
        env
    }
}

/// `this`, and `super` where there is a superclass, are bound for a method.
pub open spec fn bind_receiver(env: EnvironmentView, receiver: Option<Box<ReceiverView>>) -> EnvironmentView {
    match receiver {
        Some(r) => {
            let with_this = env.define("this"@, LiteralView::InstLit(r.this));
            match r.superclass {
                Some(parent) => with_this.define("super"@, LiteralView::CallLit(parent)),
                None => with_this,
            }
        },
        None => env,
    }
}

/// What an initializer answers with: the instance it was called on,
/// whatever its body returned. One that was called on none answers with
/// what `this` is bound to.
pub open spec fn initializer_value(env: EnvironmentView, receiver: Option<Box<ReceiverView>>) -> Result<
    LiteralView,
    Seq<char>,
> {
    match receiver {
        Some(r) => Ok(LiteralView::InstLit(r.this)),
        None => env.get("this"@),
    }
}

/// The scope that a block or a call has opened is closed again, whatever
/// the result. An error of the block goes before an error of the closing.
pub open spec fn closed<T>(run: Evaluated<T>) -> Evaluated<T> {
    match run.state.env.raise_scope() {
        Ok(env) => Evaluated { state: run.state.with_env(env), result: run.result },
        Err(m) => Evaluated {
            state: run.state,
            result: match run.result {
                Err(e) => Err(e),
                Ok(_) => Err(m),
            },
        },
    }
}

/// The captured environment that a call has mounted is unmounted again,
/// whatever the result.
pub open spec fn unmounted<T>(run: Evaluated<T>) -> Evaluated<T> {
    match run.state.env.unmount_closure() {
        Ok(env) => Evaluated { state: run.state.with_env(env), result: run.result },
        Err(m) => Evaluated {
            state: run.state,
            result: match run.result {
                Err(e) => Err(e),
                Ok(_) => Err(m),
            },
        },
    }
}

/// The value of an expression.
pub open spec fn eval_expr(s: InterpreterView, e: ExpressionView, depth: nat, clock: Seq<u64>) -> Evaluated<
    LiteralView,
>
    decreases depth, 0nat,
{
    if depth == 0 {
        err(s, too_deep())
    } else {
        let d = (depth - 1) as nat;
        match e {
            ExpressionView::LitExp(value) => ok(s, value),
            ExpressionView::Unary(op, operand) => eval_unary(s, op, *operand, d, clock),
            ExpressionView::Binary { left, op, right } => eval_binary(s, *left, op, *right, d, clock),
            ExpressionView::Logical { left, op, right } => eval_logical(
                s,
                *left,
                op,
                *right,
                d,
                clock,
            ),
            ExpressionView::Identifier(name) => Evaluated { state: s, result: s.env.get(name) },
            ExpressionView::Grouping(inner) => eval_expr(s, *inner, d, clock),
            ExpressionView::Assignment(name, value) => eval_assignment(s, name, *value, d, clock),
            ExpressionView::Call(callee, args, _) => eval_call(s, *callee, args, d, clock),
            ExpressionView::Getter(object, name) => eval_getter(s, *object, name, d, clock),
            ExpressionView::Setter(object, name, value) => eval_setter(
                s,
                *object,
                name,
                *value,
                d,
                clock,
            ),
            ExpressionView::This => Evaluated { state: s, result: s.env.get("this"@) },
            ExpressionView::Super(method) => Evaluated { state: s, result: super_method(s, method) },
        }
    }
}

pub open spec fn eval_unary(
    s: InterpreterView,
    op: UnaryOp,
    operand: ExpressionView,
    depth: nat,
    clock: Seq<u64>,
) -> Evaluated<LiteralView>
    decreases depth, 1nat,
{
    let value = eval_expr(s, operand, depth, clock);
    match value.result {
        Ok(v) => Evaluated { state: value.state, result: unary_value(op, v) },
        Err(m) => err(value.state, m),
    }
}

/// Both operands are evaluated, the left one first.
pub open spec fn eval_binary(
    s: InterpreterView,
    left: ExpressionView,
    op: BinaryOp,
    right: ExpressionView,
    depth: nat,
    clock: Seq<u64>,
) -> Evaluated<LiteralView>
    decreases depth, 1nat,
{
    let first = eval_expr(s, left, depth, clock);
    match first.result {
        Err(m) => err(first.state, m),
        Ok(a) => {
            let second = eval_expr(first.state, right, depth, clock);
            match second.result {
                Err(m) => err(second.state, m),
                Ok(b) => Evaluated { state: second.state, result: binary_value(op, a, b) },
            }
        },
    }
}

/// Whether the left operand decides a logical expression.
pub open spec fn decides(op: LogicOp, left: LiteralView) -> bool {
    match op {
        LogicOp::And => !truthful(left),
        LogicOp::Or => truthful(left),
    }
}

/// The right operand is evaluated only where the left one does not decide;
/// the value is that of the deciding operand.
pub open spec fn eval_logical(
    s: InterpreterView,
    left: ExpressionView,
    op: LogicOp,
    right: ExpressionView,
    depth: nat,
    clock: Seq<u64>,
) -> Evaluated<LiteralView>
    decreases depth, 1nat,
{
    let first = eval_expr(s, left, depth, clock);
    match first.result {
        Err(m) => err(first.state, m),
        Ok(a) => if decides(op, a) {
            ok(first.state, a)
        } else {
            eval_expr(first.state, right, depth, clock)
        },
    }
}

pub open spec fn eval_assignment(
    s: InterpreterView,
    name: Seq<char>,
    value: ExpressionView,
    depth: nat,
    clock: Seq<u64>,
) -> Evaluated<LiteralView>
    decreases depth, 1nat,
{
    let right = eval_expr(s, value, depth, clock);
    match right.result {
        Err(m) => err(right.state, m),
        Ok(v) => match right.state.env.assign(name, v) {
            Ok(env) => ok(right.state.with_env(env), v),
            Err(m) => err(right.state, m),
        },
    }
}

pub open spec fn eval_getter(
    s: InterpreterView,
    object: ExpressionView,
    name: Seq<char>,
    depth: nat,
    clock: Seq<u64>,
) -> Evaluated<LiteralView>
    decreases depth, 1nat,
{
    let target = eval_expr(s, object, depth, clock);
    match target.result {
        Err(m) => err(target.state, m),
        Ok(LiteralView::InstLit(instance)) => Evaluated {
            state: target.state,
            result: property(target.state.heap, instance, name),
        },
        Ok(_) => err(target.state, "Only instances have properties."@),
    }
}

/// The object is evaluated first, then the value.
pub open spec fn eval_setter(
    s: InterpreterView,
    object: ExpressionView,
    name: Seq<char>,
    value: ExpressionView,
    depth: nat,
    clock: Seq<u64>,
) -> Evaluated<LiteralView>
    decreases depth, 1nat,
{
    let target = eval_expr(s, object, depth, clock);
    match target.result {
        Err(m) => err(target.state, m),
        Ok(LiteralView::InstLit(instance)) => {
            let right = eval_expr(target.state, value, depth, clock);
            match right.result {
                Err(m) => err(right.state, m),
                Ok(v) => ok(
                    InterpreterView {
                        heap: heap_with_field(right.state.heap, instance, name, v),
                        ..right.state
                    },
                    v,
                ),
            }
        },
        Ok(_) => err(target.state, "Only instances have fields."@),
    }
}

/// `super.method`: the method is looked up from the superclass that the
/// running method was bound with, and is bound to the same instance.
pub open spec fn super_method(s: InterpreterView, method: Seq<char>) -> Result<LiteralView, Seq<char>> {
    match s.env.get("super"@) {
        Err(m) => Err(m),
        Ok(LiteralView::CallLit(parent)) => match parent.resolve(method) {
            None => match parent.find_method(method) {
                Err(m) => Err(m),
                Ok(_) => Err(undefined_property(method)),
            },
            Some(found) => match s.env.get("this"@) {
                Ok(LiteralView::InstLit(this)) => Ok(
                    LiteralView::CallLit(bound(found.method, this, found.superclass)),
                ),
                Ok(_) => Ok(LiteralView::CallLit(found.method)),
                Err(m) => Err(m),
            },
        },
        Ok(_) => Err("Call to superclass somehow returned non-method."@),
    }
}

/// The values of the arguments from `from` on, behind those in `seen`,
/// from left to right.
pub open spec fn eval_args(
    s: InterpreterView,
    args: Seq<ExpressionView>,
    from: nat,
    seen: Seq<LiteralView>,
    depth: nat,
    clock: Seq<u64>,
) -> Evaluated<Seq<LiteralView>>
    decreases depth, args.len() - from + 1,
{
    if from >= args.len() {
        ok(s, seen)
    } else {
        let value = eval_expr(s, args[from as int], depth, clock);
        match value.result {
            Err(m) => err(value.state, m),
            Ok(v) => eval_args(value.state, args, from + 1, seen.push(v), depth, clock),
        }
    }
}

/// A call: the callee is evaluated, the number of arguments is held
/// against its arity, the arguments are evaluated, and the callee is
/// called.
pub open spec fn eval_call(
    s: InterpreterView,
    callee: ExpressionView,
    args: Seq<ExpressionView>,
    depth: nat,
    clock: Seq<u64>,
) -> Evaluated<LiteralView>
    decreases depth, args.len() + 2,
{
    let target = eval_expr(s, callee, depth, clock);
    match target.result {
        Err(m) => err(target.state, m),
        Ok(LiteralView::CallLit(c)) => if args.len() != c.arity() {
            err(target.state, arity_message(c.arity(), args.len()))
        } else {
            let values = eval_args(target.state, args, 0, Seq::empty(), depth, clock);
            match values.result {
                Err(m) => err(values.state, m),
                Ok(list) => call_value(values.state, c, list, depth, clock),
            }
        },
        Ok(_) => err(target.state, "Can only call functions and classes."@),
    }
}

/// What a callable answers to its arguments.
pub open spec fn call_value(
    s: InterpreterView,
    callee: CallableView,
    args: Seq<LiteralView>,
    depth: nat,
    clock: Seq<u64>,
) -> Evaluated<LiteralView>
    decreases depth, 0nat,
{
    if depth == 0 {
        err(s, too_deep())
    } else {
        let d = (depth - 1) as nat;
        match callee {
            CallableView::Function(_, params, body, closure, is_init, receiver) => call_function(
                s,
                params,
                body,
                closure,
                is_init,
                receiver,
                args,
                d,
                clock,
            ),
            CallableView::Class(_, _, _) => instantiate(s, callee, args, d, clock),
            CallableView::Clock => Evaluated {
                state: InterpreterView { clock_reads: s.clock_reads + 1, ..s },
                result: clock_value(reading(clock, s.clock_reads)),
            },
        }
    }
}

/// A function is called in the environment it has captured: that is
/// mounted, a scope is opened in it for the receiver and the parameters,
/// and the body runs as a block. What the body returns is the value, `nil`
/// where it returns nothing; an initializer answers with its instance.
/// The scope is closed and the environment unmounted however the body
/// ends.
pub open spec fn call_function(
    s: InterpreterView,
    params: Seq<Seq<char>>,
    body: Seq<StatementView>,
    closure: Option<nat>,
    is_init: bool,
    receiver: Option<Box<ReceiverView>>,
    args: Seq<LiteralView>,
    depth: nat,
    clock: Seq<u64>,
) -> Evaluated<LiteralView>
    decreases depth, body.len() + 3,
{
    let entered = s.env.mount_closure(closure).lower_scope();
    let ready = bind_parameters(bind_receiver(entered, receiver), params, args, 0);
    let run = run_block(s.with_env(ready), body, depth, clock);
    let value = match run.result {
        Ok(None) => Ok(LiteralView::Nil),
        Ok(Some(v)) => Ok(v),
        Err(m) => Err(m),
    };
    let answer = if is_init {
        match value {
            Ok(_) => initializer_value(run.state.env, receiver),
            Err(m) => Err(m),
        }
    } else {
        value
    };
    unmounted(closed(Evaluated { state: run.state, result: answer }))
}

/// A class is called: a new instance is made, its `init`, where the class
/// chain has one, is called on the arguments, and the instance is the
/// value.
pub open spec fn instantiate(
    s: InterpreterView,
    class: CallableView,
    args: Seq<LiteralView>,
    depth: nat,
    clock: Seq<u64>,
) -> Evaluated<LiteralView>
    decreases depth, 1nat,
{
    let instance = InstanceView { class: Box::new(class), fields: s.heap.len() };
    let made = InterpreterView { heap: s.heap.push(Map::empty()), ..s };
    match class.resolve("init"@) {
        None => ok(made, LiteralView::InstLit(instance)),
        Some(found) => {
            let run = call_value(
                made,
                bound(found.method, instance, found.superclass),
                args,
                depth,
                clock,
            );
            match run.result {
                Ok(_) => ok(run.state, LiteralView::InstLit(instance)),
                Err(m) => err(run.state, m),
            }
        },
    }
}

/// The statements from `from` on, in order, up to the first that returns
/// or fails.
pub open spec fn exec_items(
    s: InterpreterView,
    items: Seq<StatementView>,
    from: nat,
    depth: nat,
    clock: Seq<u64>,
) -> Evaluated<Option<LiteralView>>
    decreases depth, items.len() - from + 1,
{
    if from >= items.len() {
        ok(s, None)
    } else {
        let run = exec_stmt(s, items[from as int], depth, clock);
        match run.result {
            Ok(None) => exec_items(run.state, items, from + 1, depth, clock),
            _ => run,
        }
    }
}

/// A block: a scope is opened, the statements run, the scope is closed.
pub open spec fn run_block(s: InterpreterView, items: Seq<StatementView>, depth: nat, clock: Seq<u64>) -> Evaluated<
    Option<LiteralView>,
>
    decreases depth, items.len() + 2,
{
    closed(exec_items(s.with_env(s.env.lower_scope()), items, 0, depth, clock))
}

/// A loop of at most `turns` turns.
pub open spec fn exec_while(
    s: InterpreterView,
    test: ExpressionView,
    body: StatementView,
    depth: nat,
    turns: nat,
    clock: Seq<u64>,
) -> Evaluated<Option<LiteralView>>
    decreases depth, turns + 1,
{
    if turns == 0 {
        err(s, too_long())
    } else {
        let check = eval_expr(s, test, depth, clock);
        match check.result {
            Err(m) => err(check.state, m),
            Ok(v) => if !truthful(v) {
                ok(check.state, None)
            } else {
                let run = exec_stmt(check.state, body, depth, clock);
                match run.result {
                    Ok(None) => exec_while(run.state, test, body, depth, (turns - 1) as nat, clock),
                    _ => run,
                }
            },
        }
    }
}

/// The methods of a class body from `from` on, each with a captured
/// environment of its own. A later method goes before an earlier one, so
/// that lookup finds the later of two with one name.
pub open spec fn class_methods(
    env: EnvironmentView,
    body: Seq<StatementView>,
    from: nat,
    seen: Seq<CallableView>,
) -> (EnvironmentView, Result<Seq<CallableView>, Seq<char>>)
    decreases body.len() - from,
{
    if from >= body.len() {
        (env, Ok(seen))
    } else {
        match body[from as int] {
            StatementView::Fun(name, params, code) => class_methods(
                env.spawn_closure(),
                body,
                from + 1,
                seq![
                    CallableView::Function(
                        name,
                        params,
                        code,
                        Some(env.next_handle()),
                        name == "init"@,
                        None,
                    ),
                ] + seen,
            ),
            _ => (env, Err("A class body holds only methods."@)),
        }
    }
}

/// The superclass that a class declaration names, if it names one.
pub open spec fn superclass_of(env: EnvironmentView, name: Seq<char>) -> Result<
    Option<Box<CallableView>>,
    Seq<char>,
> {
    if name.len() == 0 {
        Ok(None)
    } else {
        match env.get(name) {
            Err(m) => Err(m),
            Ok(LiteralView::CallLit(CallableView::Class(n, parent, methods))) => Ok(
                Some(Box::new(CallableView::Class(n, parent, methods))),
            ),
            Ok(_) => Err("Superclass must be a class."@),
        }
    }
}

/// A function declaration: the function captures a copy of the current
/// environment, in which it is bound to its own name, and is bound to its
/// name in the current scope.
pub open spec fn declare_function(
    s: InterpreterView,
    name: Seq<char>,
    params: Seq<Seq<char>>,
    body: Seq<StatementView>,
) -> InterpreterView {
    let handle = s.env.next_handle();
    let inner = CallableView::Function(name, params, body, None, false, None);
    let outer = CallableView::Function(name, params, body, Some(handle), false, None);
    s.with_env(
        s.env.spawn_closure().define_within(handle, name, LiteralView::CallLit(inner)).define(
            name,
            LiteralView::CallLit(outer),
        ),
    )
}

/// A class declaration: its superclass is looked up, its methods capture
/// the current environment, and the class is bound to its name.
pub open spec fn declare_class(
    s: InterpreterView,
    name: Seq<char>,
    parent: Seq<char>,
    body: Seq<StatementView>,
) -> Evaluated<Option<LiteralView>> {
    match superclass_of(s.env, parent) {
        Err(m) => err(s, m),
        Ok(up) => {
            let (env, methods) = class_methods(s.env, body, 0, Seq::empty());
            match methods {
                Err(m) => err(s.with_env(env), m),
                Ok(table) => ok(
                    s.with_env(
                        env.define(name, LiteralView::CallLit(CallableView::Class(name, up, table))),
                    ),
                    None,
                ),
            }
        },
    }
}

/// The effect of a statement; the value is `Some` where a `return` was
/// reached.
pub open spec fn exec_stmt(s: InterpreterView, stmt: StatementView, depth: nat, clock: Seq<u64>) -> Evaluated<
    Option<LiteralView>,
>
    decreases depth, 0nat,
{
    if depth == 0 {
        err(s, too_deep())
    } else {
        let d = (depth - 1) as nat;
        match stmt {
            StatementView::Decl(name, init) => {
                let value = eval_expr(s, init, d, clock);
                match value.result {
                    Err(m) => err(value.state, m),
                    Ok(v) => ok(value.state.define(name, v), None),
                }
            },
            StatementView::Expr(e) => {
                let value = eval_expr(s, e, d, clock);
                match value.result {
                    Err(m) => err(value.state, m),
                    Ok(_) => ok(value.state, None),
                }
            },
            StatementView::Print(e) => {
                let value = eval_expr(s, e, d, clock);
                match value.result {
                    Err(m) => err(value.state, m),
                    Ok(v) => ok(value.state.printed(display(v)), None),
                }
            },
            StatementView::Block(items) => run_block(s, items, d, clock),
            StatementView::Return(e, _) => {
                let value = eval_expr(s, e, d, clock);
                match value.result {
                    Err(m) => err(value.state, m),
                    Ok(v) => ok(value.state, Some(v)),
                }
            },
            StatementView::If(test, then_branch, else_branch) => {
                let check = eval_expr(s, test, d, clock);
                match check.result {
                    Err(m) => err(check.state, m),
                    Ok(v) => if truthful(v) {
                        exec_stmt(check.state, *then_branch, d, clock)
                    } else {
                        match else_branch {
                            Some(other) => exec_stmt(check.state, *other, d, clock),
                            None => ok(check.state, None),
                        }
                    },
                }
            },
            StatementView::While(test, body) => exec_while(s, test, *body, d, loop_turns(), clock),
            StatementView::Fun(name, params, body) => ok(declare_function(s, name, params, body), None),
            StatementView::Class(name, parent, body) => declare_class(s, name, parent, body),
        }
    }
}

/// The statements of a program from `from` on. A `return` at this level
/// ends nothing; the first failure ends the run.
pub open spec fn run_program(
    s: InterpreterView,
    program: Seq<StatementView>,
    from: nat,
    depth: nat,
    clock: Seq<u64>,
) -> Evaluated<()>
    decreases program.len() - from,
{
    if from >= program.len() {
        ok(s, ())
    } else {
        let run = exec_stmt(s, program[from as int], depth, clock);
        match run.result {
            Err(m) => err(run.state, m),
            Ok(_) => run_program(run.state, program, from + 1, depth, clock),
        }
    }
}

/// What was printed, without the line feed at its end.
pub open spec fn trimmed(output: Seq<char>) -> Seq<char> {
    if output.len() > 0 {
        output.drop_last()
    } else {
        output
    }
}

/// A run of a program: the output starts empty, the statements run, and
/// the output, without its last line feed, is the result.
pub open spec fn interpret(s: InterpreterView, program: Seq<StatementView>, depth: nat, clock: Seq<u64>) -> Evaluated<
    Seq<char>,
> {
    let run = run_program(InterpreterView { output: Seq::empty(), ..s }, program, 0, depth, clock);
    match run.result {
        Err(m) => err(run.state, m),
        Ok(_) => ok(
            InterpreterView { output: trimmed(run.state.output), ..run.state },
            trimmed(run.state.output),
        ),
    }
}

} // verus!
