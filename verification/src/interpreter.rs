//! The tree-walking evaluator.

use vstd::prelude::*;
use vstd::string::StringExecFns;
use crate::callable::{Callable, CallableView, Receiver, ReceiverView};
use crate::clock::{agrees, group_clock, read_millis};
use crate::environment::{EnvironmentView, LoxEnvironment};
use crate::expression::{expression_views, Expression};
use crate::instance::{Instance, ObjectHeap};
use crate::node::{BinaryOp, Literal, LiteralView, LogicOp, UnaryOp};
use crate::number::{
    difference, equal, from_decimal, less, less_equal, negated, product, quotient, remainder, sum,
};
use crate::numeral::format_number;
use crate::semantics::{
    bind_parameters, binary_value, bound, call_function, call_value, callable_text, class_methods,
    clock_value, closed, declare_class, declare_function, display, eval_args, eval_assignment,
    eval_binary, eval_call, eval_expr, eval_getter, eval_logical, eval_setter, eval_unary,
    exec_items, exec_stmt, exec_while, instantiate, interpret, loop_turns, method_handle,
    number_of, numeric_value, property, reading, run_block, run_program, same_callable,
    same_receiver, same_value, super_method, superclass_of, truthful, unary_value,
    undefined_property, unmounted, Evaluated, InterpreterView,
};
use crate::statement::{
    duplicate_block, duplicate_names, name_views, program_view, statement_views, Statement,
};
use crate::text::{decimal_string, push_decimal, same_text};

verus! {

/// The number of levels that evaluation may nest where nothing else is
/// asked for. Evaluation recurses once or twice for every level, so this is
/// what a small stack can hold.
pub const DEPTH_LIMIT: u64 = 1_000;

/// The bit pattern of the double 1000.
pub const THOUSAND: u64 = 0x408f_4000_0000_0000;

/// The views of a sequence of values, in order.
pub open spec fn literal_views(items: Seq<Literal>) -> Seq<LiteralView> {
    Seq::new(items.len(), |i: int| items[i]@)
}

pub open spec fn value_of(r: Result<Literal, String>) -> Result<LiteralView, Seq<char>> {
    match r {
        Ok(v) => Ok(v@),
        Err(m) => Err(m@),
    }
}

pub open spec fn flow_of(r: Result<Option<Literal>, String>) -> Result<Option<LiteralView>, Seq<char>> {
    match r {
        Ok(Some(v)) => Ok(Some(v@)),
        Ok(None) => Ok(None),
        Err(m) => Err(m@),
    }
}

pub open spec fn values_of(r: Result<Vec<Literal>, String>) -> Result<Seq<LiteralView>, Seq<char>> {
    match r {
        Ok(items) => Ok(literal_views(items@)),
        Err(m) => Err(m@),
    }
}

pub open spec fn text_of(r: Result<String, String>) -> Result<Seq<char>, Seq<char>> {
    match r {
        Ok(s) => Ok(s@),
        Err(m) => Err(m@),
    }
}

pub open spec fn unit_of(r: Result<(), String>) -> Result<(), Seq<char>> {
    match r {
        Ok(_) => Ok(()),
        Err(m) => Err(m@),
    }
}

pub open spec fn callable_option(c: Option<Callable>) -> Option<CallableView> {
    match c {
        Some(c) => Some(c@),
        None => None,
    }
}

/// Only `false` and `nil` are not truthful.
pub fn is_truthful(value: &Literal) -> (r: bool)
    ensures
        r == truthful(value@),
{
    match value {
        Literal::Boolean(b) => *b,
        Literal::Nil => false,
        _ => true,
    }
}

/// How a callable is printed.
pub fn format_callable(c: &Callable) -> (text: String)
    ensures
        text@ == callable_text(c@),
{
    match c {
        Callable::Class(name, _, _) => {
            let mut text = String::from_str("<class ");
            text.append(name.as_str());
            text.append(">");
            text
        },
        _ => {
            let mut text = String::from_str("<fn ");
            text.append(c.get_name());
            text.append(">");
            text
        },
    }
}

/// How a value is printed.
pub fn format_value(value: &Literal) -> (text: String)
    ensures
        text@ == display(value@),
{
    match value {
        Literal::Number(n) => format_number(*n),
        Literal::StringData(s) => s.clone(),
        Literal::Boolean(b) => if *b {
            String::from_str("true")
        } else {
            String::from_str("false")
        },
        Literal::Nil => String::from_str("Nil"),
        Literal::CallLit(c) => format_callable(c),
        Literal::InstLit(i) => {
            let mut text = String::from_str("<");
            text.append(i.get_class().get_name());
            text.append(" instance>");
            text
        },
    }
}

fn same_receivers(a: &Option<Box<Receiver>>, b: &Option<Box<Receiver>>) -> (r: bool)
    ensures
        r == same_receiver(
            match *a {
                Some(x) => Some(Box::new(x@)),
                None => None,
            },
            match *b {
                Some(x) => Some(Box::new(x@)),
                None => None,
            },
        ),
{
    match (a, b) {
        (None, None) => true,
        (Some(x), Some(y)) => x.this.same_object(&y.this),
        _ => false,
    }
}

fn handle_of(m: &Callable) -> (h: Option<usize>)
    ensures
        method_handle(m@) == match h {
            Some(h) => Some(h as nat),
            None => None,
        },
{
    match m {
        Callable::Function(_, _, _, closure, _, _) => *closure,
        _ => None,
    }
}

/// Whether two callables are the same one.
pub fn same_callables(a: &Callable, b: &Callable) -> (r: bool)
    ensures
        r == same_callable(a@, b@),
{
    match (a, b) {
        (Callable::Clock, Callable::Clock) => true,
        (
            Callable::Function(n1, _, _, c1, _, r1),
            Callable::Function(n2, _, _, c2, _, r2),
        ) => {
            let same_closure = match (c1, c2) {
                (Some(x), Some(y)) => *x == *y,
                (None, None) => true,
                _ => false,
            };
            *n1 == *n2 && same_closure && same_receivers(r1, r2)
        },
        (Callable::Class(n1, _, m1), Callable::Class(n2, _, m2)) => {
            if !(*n1 == *n2) || m1.len() != m2.len() {
                return false;
            }
            let mut i: usize = 0;
            while i < m1.len()
                invariant
                    i <= m1.len(),
                    m1.len() == m2.len(),
                    a@ is Class,
                    b@ is Class,
                    a@->Class_2.len() == m1.len(),
                    b@->Class_2.len() == m2.len(),
                    forall|j: int| 0 <= j < m1.len() ==> a@->Class_2[j] == m1[j]@,
                    forall|j: int| 0 <= j < m2.len() ==> b@->Class_2[j] == m2[j]@,
                    forall|j: int|
                        0 <= j < i ==> method_handle(#[trigger] a@->Class_2[j]) == method_handle(
                            b@->Class_2[j],
                        ),
                decreases m1.len() - i,
            {
                let same = match (handle_of(&m1[i]), handle_of(&m2[i])) {
                    (Some(x), Some(y)) => x == y,
                    (None, None) => true,
                    _ => false,
                };
                if !same {
                    assert(method_handle(a@->Class_2[i as int]) != method_handle(
                        b@->Class_2[i as int],
                    ));
                    return false;
                }
                i += 1;
            }
            true
        },
        _ => false,
    }
}

/// `==` of the language.
pub fn values_equal(a: &Literal, b: &Literal) -> (r: bool)
    ensures
        r == same_value(a@, b@),
{
    match (a, b) {
        (Literal::Number(x), Literal::Number(y)) => equal(*x, *y),
        (Literal::StringData(x), Literal::StringData(y)) => *x == *y,
        (Literal::Boolean(x), Literal::Boolean(y)) => *x == *y,
        (Literal::Nil, Literal::Nil) => true,
        (Literal::CallLit(x), Literal::CallLit(y)) => same_callables(x, y),
        (Literal::InstLit(x), Literal::InstLit(y)) => x.same_object(y),
        _ => false,
    }
}

/// The number that an operand of arithmetic or of a comparison is.
pub fn get_number(value: &Literal) -> (r: Result<u64, String>)
    ensures
        match r {
            Ok(n) => number_of(value@) == Ok::<u64, Seq<char>>(n),
            Err(m) => number_of(value@) == Err::<u64, Seq<char>>(m@),
        },
{
    match value {
        Literal::Number(n) => Ok(*n),
        _ => {
            let mut message = String::from_str("Attempted to use literal ");
            message.append(format_value(value).as_str());
            message.append(" in place of a Number.");
            Err(message)
        },
    }
}

fn apply_unary(op: UnaryOp, value: Literal) -> (r: Result<Literal, String>)
    ensures
        value_of(r) == unary_value(op, value@),
{
    match op {
        UnaryOp::Negative => match value {
            Literal::Number(n) => Ok(Literal::Number(negated(n))),
            _ => Err(String::from_str("Operand must be a number.")),
        },
        UnaryOp::Not => Ok(Literal::Boolean(!is_truthful(&value))),
    }
}

fn apply_numeric(op: BinaryOp, a: u64, b: u64) -> (r: Literal)
    ensures
        r@ == numeric_value(op, a, b),
{
    match op {
        BinaryOp::Subtract => Literal::Number(difference(a, b)),
        BinaryOp::Multiply => Literal::Number(product(a, b)),
        BinaryOp::Divide => Literal::Number(quotient(a, b)),
        BinaryOp::Modulo => Literal::Number(remainder(a, b)),
        BinaryOp::Less => Literal::Boolean(less(a, b)),
        BinaryOp::LessEqual => Literal::Boolean(less_equal(a, b)),
        BinaryOp::Greater => Literal::Boolean(less(b, a)),
        BinaryOp::GreaterEqual => Literal::Boolean(less_equal(b, a)),
        _ => Literal::Number(sum(a, b)),
    }
}

fn apply_binary(op: BinaryOp, left: Literal, right: Literal) -> (r: Result<Literal, String>)
    ensures
        value_of(r) == binary_value(op, left@, right@),
{
    match op {
        BinaryOp::Add => match (left, right) {
            (Literal::Number(a), Literal::Number(b)) => Ok(Literal::Number(sum(a, b))),
            (Literal::StringData(a), Literal::StringData(b)) => Ok(
                Literal::StringData(a.concat(b.as_str())),
            ),
            _ => Err(String::from_str("Operands must be two numbers or two strings.")),
        },
        BinaryOp::Equal => Ok(Literal::Boolean(values_equal(&left, &right))),
        BinaryOp::NotEqual => Ok(Literal::Boolean(!values_equal(&left, &right))),
        _ => {
            let a = match get_number(&left) {
                Ok(n) => n,
                Err(m) => {
                    return Err(m);
                },
            };
            let b = match get_number(&right) {
                Ok(n) => n,
                Err(m) => {
                    return Err(m);
                },
            };
            Ok(apply_numeric(op, a, b))
        },
    }
}

/// A method with its receiver.
fn bind(method: Callable, this: Instance, superclass: Option<Callable>) -> (r: Callable)
    ensures
        r@ == bound(method@, this@, callable_option(superclass)),
{
    match method {
        Callable::Function(name, params, body, closure, flag, _) => {
            let receiver = Receiver { this, superclass };
            let r = Callable::Function(name, params, body, closure, flag, Some(Box::new(receiver)));
            assert(receiver@ == (ReceiverView { this: this@, superclass: callable_option(superclass) }));
            r
        },
        other => other,
    }
}

fn undefined(name: &str) -> (message: String)
    ensures
        message@ == undefined_property(name@),
{
    let mut message = String::from_str("Undefined property ");
    message.append(name);
    message.append(".");
    message
}

/// The property `name` of an instance.
fn property_value(heap: &ObjectHeap, instance: &Instance, name: &str) -> (r: Result<Literal, String>)
    ensures
        value_of(r) == property(heap@, instance@, name@),
{
    match instance.field(heap, name) {
        Some(v) => Ok(v),
        None => match instance.get_class().resolve(name) {
            Some((method, parent)) => Ok(Literal::CallLit(bind(method, instance.duplicate(), parent))),
            None => Err(undefined(name)),
        },
    }
}

/// What `clock` answers on a reading.
fn clock_literal(millis: u64) -> (r: Result<Literal, String>)
    ensures
        value_of(r) == clock_value(millis),
{
    match from_decimal(decimal_string(millis).as_str()) {
        Some(bits) => Ok(Literal::Number(quotient(bits, THOUSAND))),
        None => Err(String::from_str("The clock gave no number.")),
    }
}

pub struct LoxInterpreter {
    env: LoxEnvironment,
    heap: ObjectHeap,
    output: String,
    depth_limit: u64,
    readings: Ghost<Seq<u64>>,
}

impl LoxInterpreter {
    pub closed spec fn view(&self) -> InterpreterView {
        InterpreterView {
            env: self.env@,
            heap: self.heap@,
            output: self.output@,
            clock_reads: self.readings@.len(),
        }
    }

    /// The clock readings taken so far, in order.
    pub closed spec fn clock(&self) -> Seq<u64> {
        self.readings@
    }

    /// The number of levels that evaluation may nest.
    pub closed spec fn depth(&self) -> nat {
        self.depth_limit as nat
    }

    pub closed spec fn wf(&self) -> bool {
        self.env@.wf()
    }

    /// A later state of the same interpreter: it has taken the readings of
    /// the earlier one, and maybe more.
    pub open spec fn follows(&self, before: &LoxInterpreter) -> bool {
        &&& self.wf()
        &&& self.depth() == before.depth()
        &&& agrees(self.clock(), before.clock())
    }

    /// The state that every interpreter starts in: one scope, which binds
    /// `clock`.
    pub open spec fn initial() -> InterpreterView {
        InterpreterView {
            env: (EnvironmentView {
                chains: seq![seq![Map::empty()]],
                mounted: Seq::empty(),
            }).define("clock"@, LiteralView::CallLit(CallableView::Clock)),
            heap: Seq::empty(),
            output: Seq::empty(),
            clock_reads: 0,
        }
    }

    pub fn new() -> (interpreter: LoxInterpreter)
        ensures
            interpreter.wf(),
            interpreter@ == Self::initial(),
            interpreter.clock() == Seq::<u64>::empty(),
            interpreter.depth() == DEPTH_LIMIT,
    {
        Self::with_depth_limit(DEPTH_LIMIT)
    }

    /// An interpreter whose evaluation may nest `limit` levels.
    pub fn with_depth_limit(limit: u64) -> (interpreter: LoxInterpreter)
        ensures
            interpreter.wf(),
            interpreter@ == Self::initial(),
            interpreter.clock() == Seq::<u64>::empty(),
            interpreter.depth() == limit,
    {
        let mut env = LoxEnvironment::new();
        let natives = Callable::native_fn_list();
        let mut i: usize = 0;
        while i < natives.len()
            invariant
                i <= natives.len(),
                natives@.len() == 1,
                natives@[0].0@ == "clock"@,
                natives@[0].1@ == CallableView::Clock,
                env@.wf(),
                env@ == if i == 0 {
                    EnvironmentView { chains: seq![seq![Map::empty()]], mounted: Seq::empty() }
                } else {
                    Self::initial().env
                },
            decreases natives.len() - i,
        {
            broadcast use group_clock;

            let value = Literal::CallLit(natives[i].1.duplicate());
            env.define(natives[i].0.as_str(), value);
            i += 1;
        }
        LoxInterpreter {
            env,
            heap: ObjectHeap::new(),
            output: String::new(),
            depth_limit: limit,
            readings: Ghost(Seq::empty()),
        }
    }

    /// Binds a name in the current scope.
    pub fn define_external(&mut self, name: &str, value: Literal)
        requires
            old(self).wf(),
        ensures
            final(self).follows(old(self)),
            final(self).clock() == old(self).clock(),
            final(self)@ == old(self)@.define(name@, value@),
    {
        broadcast use group_clock;

        self.env.define(name, value);
    }

    /// The value of a variable in the current environment.
    pub fn lookup(&self, name: &str) -> (r: Result<Literal, String>)
        requires
            self.wf(),
        ensures
            value_of(r) == self@.env.get(name@),
    {
        self.env.get(name)
    }

    /// Runs a program. The output starts empty; the result is what the
    /// program printed, without the line feed at its end, or the message of
    /// the first failure.
    pub fn interpret(&mut self, program: Vec<Statement>) -> (r: Result<String, String>)
        requires
            old(self).wf(),
        ensures
            final(self).follows(old(self)),
            forall|clock: Seq<u64>| #[trigger]
                agrees(clock, final(self).clock()) ==> interpret(
                    old(self)@,
                    program_view(program@),
                    old(self).depth(),
                    clock,
                ) == (Evaluated { state: final(self)@, result: text_of(r) }),
    {
        broadcast use group_clock;

        self.output = String::new();
        let ghost start = self@;
        let mut i: usize = 0;
        while i < program.len()
            invariant
                i <= program.len(),
                self.wf(),
                self.depth() == old(self).depth(),
                agrees(self.clock(), old(self).clock()),
                start == (InterpreterView { output: Seq::empty(), ..old(self)@ }),
                forall|clock: Seq<u64>| #[trigger]
                    agrees(clock, self.clock()) ==> run_program(
                        self@,
                        program_view(program@),
                        i as nat,
                        self.depth(),
                        clock,
                    ) == run_program(start, program_view(program@), 0, self.depth(), clock),
            decreases program.len() - i,
        {
            broadcast use group_clock;

            match self.exec(&program[i], self.depth_limit) {
                Ok(_) => {},
                Err(m) => {
                    return Err(m);
                },
            }
            i += 1;
        }
        if self.output.as_str().unicode_len() > 0 {
            let kept = self.output.as_str().unicode_len() - 1;
            let shorter = String::from_str(self.output.as_str().substring_char(0, kept));
            self.output = shorter;
        }
        Ok(self.output.clone())
    }

    /// The effect of a statement; `Some` where a `return` was reached.
    pub fn evaluate_stmt(&mut self, s: Statement) -> (r: Result<Option<Literal>, String>)
        requires
            old(self).wf(),
        ensures
            final(self).follows(old(self)),
            forall|clock: Seq<u64>| #[trigger]
                agrees(clock, final(self).clock()) ==> exec_stmt(
                    old(self)@,
                    s@,
                    old(self).depth(),
                    clock,
                ) == (Evaluated { state: final(self)@, result: flow_of(r) }),
    {
        self.exec(&s, self.depth_limit)
    }

    /// The value of an expression.
    pub fn evaluate_expr(&mut self, e: Expression) -> (r: Result<Literal, String>)
        requires
            old(self).wf(),
        ensures
            final(self).follows(old(self)),
            forall|clock: Seq<u64>| #[trigger]
                agrees(clock, final(self).clock()) ==> eval_expr(
                    old(self)@,
                    e@,
                    old(self).depth(),
                    clock,
                ) == (Evaluated { state: final(self)@, result: value_of(r) }),
    {
        self.eval(&e, self.depth_limit)
    }

    fn eval(&mut self, e: &Expression, depth: u64) -> (r: Result<Literal, String>)
        requires
            old(self).wf(),
        ensures
            final(self).follows(old(self)),
            forall|clock: Seq<u64>| #[trigger]
                agrees(clock, final(self).clock()) ==> eval_expr(old(self)@, e@, depth as nat, clock)
                    == (Evaluated { state: final(self)@, result: value_of(r) }),
        decreases depth, 0nat,
    {
        broadcast use group_clock;

        if depth == 0 {
            return Err(String::from_str("Evaluation is nested too deeply."));
        }
        let d = depth - 1;
        match e {
            Expression::LitExp(value) => Ok(value.duplicate()),
            Expression::Unary(op, operand) => self.eval_unary(*op, operand, d),
            Expression::Binary { left, op, right } => self.eval_binary(left, *op, right, d),
            Expression::Logical { left, op, right } => self.eval_logical(left, *op, right, d),
            Expression::Identifier(name) => self.env.get(name.as_str()),
            Expression::Grouping(inner) => self.eval(inner, d),
            Expression::Assignment(name, value) => self.eval_assignment(name.as_str(), value, d),
            Expression::Call(callee, args, _) => {
                assert(e@->Call_1 =~= expression_views(args@));
                self.eval_call(callee, args, d)
            },
            Expression::Getter(object, name) => self.eval_getter(object, name.as_str(), d),
            Expression::Setter(object, name, value) => self.eval_setter(
                object,
                name.as_str(),
                value,
                d,
            ),
            Expression::This => self.env.get("this"),
            Expression::Super(method) => self.super_method(method.as_str()),
        }
    }

    fn eval_unary(&mut self, op: UnaryOp, operand: &Expression, depth: u64) -> (r: Result<
        Literal,
        String,
    >)
        requires
            old(self).wf(),
        ensures
            final(self).follows(old(self)),
            forall|clock: Seq<u64>| #[trigger]
                agrees(clock, final(self).clock()) ==> eval_unary(
                    old(self)@,
                    op,
                    operand@,
                    depth as nat,
                    clock,
                ) == (Evaluated { state: final(self)@, result: value_of(r) }),
        decreases depth, 1nat,
    {
        broadcast use group_clock;

        match self.eval(operand, depth) {
            Ok(v) => apply_unary(op, v),
            Err(m) => Err(m),
        }
    }

    fn eval_binary(&mut self, left: &Expression, op: BinaryOp, right: &Expression, depth: u64) -> (r:
        Result<Literal, String>)
        requires
            old(self).wf(),
        ensures
            final(self).follows(old(self)),
            forall|clock: Seq<u64>| #[trigger]
                agrees(clock, final(self).clock()) ==> eval_binary(
                    old(self)@,
                    left@,
                    op,
                    right@,
                    depth as nat,
                    clock,
                ) == (Evaluated { state: final(self)@, result: value_of(r) }),
        decreases depth, 1nat,
    {
        broadcast use group_clock;

        let a = match self.eval(left, depth) {
            Ok(v) => v,
            Err(m) => {
                return Err(m);
            },
        };
        let b = match self.eval(right, depth) {
            Ok(v) => v,
            Err(m) => {
                return Err(m);
            },
        };
        apply_binary(op, a, b)
    }

    fn eval_logical(&mut self, left: &Expression, op: LogicOp, right: &Expression, depth: u64) -> (r:
        Result<Literal, String>)
        requires
            old(self).wf(),
        ensures
            final(self).follows(old(self)),
            forall|clock: Seq<u64>| #[trigger]
                agrees(clock, final(self).clock()) ==> eval_logical(
                    old(self)@,
                    left@,
                    op,
                    right@,
                    depth as nat,
                    clock,
                ) == (Evaluated { state: final(self)@, result: value_of(r) }),
        decreases depth, 1nat,
    {
        broadcast use group_clock;

        let a = match self.eval(left, depth) {
            Ok(v) => v,
            Err(m) => {
                return Err(m);
            },
        };
        let decided = match op {
            LogicOp::And => !is_truthful(&a),
            LogicOp::Or => is_truthful(&a),
        };
        if decided {
            Ok(a)
        } else {
            self.eval(right, depth)
        }
    }

    fn eval_assignment(&mut self, name: &str, value: &Expression, depth: u64) -> (r: Result<
        Literal,
        String,
    >)
        requires
            old(self).wf(),
        ensures
            final(self).follows(old(self)),
            forall|clock: Seq<u64>| #[trigger]
                agrees(clock, final(self).clock()) ==> eval_assignment(
                    old(self)@,
                    name@,
                    value@,
                    depth as nat,
                    clock,
                ) == (Evaluated { state: final(self)@, result: value_of(r) }),
        decreases depth, 1nat,
    {
        broadcast use group_clock;

        match self.eval(value, depth) {
            Ok(v) => self.env.assign(name, v),
            Err(m) => Err(m),
        }
    }

    fn eval_getter(&mut self, object: &Expression, name: &str, depth: u64) -> (r: Result<
        Literal,
        String,
    >)
        requires
            old(self).wf(),
        ensures
            final(self).follows(old(self)),
            forall|clock: Seq<u64>| #[trigger]
                agrees(clock, final(self).clock()) ==> eval_getter(
                    old(self)@,
                    object@,
                    name@,
                    depth as nat,
                    clock,
                ) == (Evaluated { state: final(self)@, result: value_of(r) }),
        decreases depth, 1nat,
    {
        broadcast use group_clock;

        match self.eval(object, depth) {
            Ok(Literal::InstLit(instance)) => property_value(&self.heap, &instance, name),
            Ok(_) => Err(String::from_str("Only instances have properties.")),
            Err(m) => Err(m),
        }
    }

    fn eval_setter(&mut self, object: &Expression, name: &str, value: &Expression, depth: u64) -> (r:
        Result<Literal, String>)
        requires
            old(self).wf(),
        ensures
            final(self).follows(old(self)),
            forall|clock: Seq<u64>| #[trigger]
                agrees(clock, final(self).clock()) ==> eval_setter(
                    old(self)@,
                    object@,
                    name@,
                    value@,
                    depth as nat,
                    clock,
                ) == (Evaluated { state: final(self)@, result: value_of(r) }),
        decreases depth, 1nat,
    {
        broadcast use group_clock;

        match self.eval(object, depth) {
            Ok(Literal::InstLit(instance)) => {
                match self.eval(value, depth) {
                    Ok(v) => {
                        instance.set(&mut self.heap, name, v.duplicate());
                        Ok(v)
                    },
                    Err(m) => Err(m),
                }
            },
            Ok(_) => Err(String::from_str("Only instances have fields.")),
            Err(m) => Err(m),
        }
    }

    /// `super.method`
    fn super_method(&self, method: &str) -> (r: Result<Literal, String>)
        requires
            self.wf(),
        ensures
            value_of(r) == super_method(self@, method@),
    {
        match self.env.get("super") {
            Err(m) => Err(m),
            Ok(Literal::CallLit(parent)) => match parent.resolve(method) {
                None => match parent.find_method(method) {
                    Err(m) => Err(m),
                    Ok(_) => Err(undefined(method)),
                },
                Some((found, up)) => match self.env.get("this") {
                    Ok(Literal::InstLit(this)) => Ok(Literal::CallLit(bind(found, this, up))),
                    Ok(_) => Ok(Literal::CallLit(found)),
                    Err(m) => Err(m),
                },
            },
            Ok(_) => Err(String::from_str("Call to superclass somehow returned non-method.")),
        }
    }

    fn eval_args(&mut self, args: &Vec<Box<Expression>>, depth: u64) -> (r: Result<
        Vec<Literal>,
        String,
    >)
        requires
            old(self).wf(),
        ensures
            final(self).follows(old(self)),
            forall|clock: Seq<u64>| #[trigger]
                agrees(clock, final(self).clock()) ==> eval_args(
                    old(self)@,
                    expression_views(args@),
                    0,
                    Seq::empty(),
                    depth as nat,
                    clock,
                ) == (Evaluated { state: final(self)@, result: values_of(r) }),
        decreases depth, args.len() + 1,
    {
        broadcast use group_clock;

        let mut values: Vec<Literal> = Vec::new();
        assert(literal_views(values@) =~= Seq::<LiteralView>::empty());
        let mut i: usize = 0;
        while i < args.len()
            invariant
                i <= args.len(),
                self.follows(old(self)),
                forall|clock: Seq<u64>| #[trigger]
                    agrees(clock, self.clock()) ==> eval_args(
                        self@,
                        expression_views(args@),
                        i as nat,
                        literal_views(values@),
                        depth as nat,
                        clock,
                    ) == eval_args(
                        old(self)@,
                        expression_views(args@),
                        0,
                        Seq::empty(),
                        depth as nat,
                        clock,
                    ),
            decreases args.len() - i,
        {
            broadcast use group_clock;

            match self.eval(&args[i], depth) {
                Ok(v) => {
                    let ghost seen = literal_views(values@);
                    values.push(v);
                    assert(literal_views(values@) =~= seen.push(v@));
                },
                Err(m) => {
                    return Err(m);
                },
            }
            i += 1;
        }
        Ok(values)
    }

    fn eval_call(&mut self, callee: &Expression, args: &Vec<Box<Expression>>, depth: u64) -> (r:
        Result<Literal, String>)
        requires
            old(self).wf(),
        ensures
            final(self).follows(old(self)),
            forall|clock: Seq<u64>| #[trigger]
                agrees(clock, final(self).clock()) ==> eval_call(
                    old(self)@,
                    callee@,
                    expression_views(args@),
                    depth as nat,
                    clock,
                ) == (Evaluated { state: final(self)@, result: value_of(r) }),
        decreases depth, args.len() + 2,
    {
        broadcast use group_clock;

        match self.eval(callee, depth) {
            Ok(Literal::CallLit(c)) => {
                let arity = c.arity();
                if args.len() != arity {
                    let mut message = String::from_str("Expected ");
                    push_decimal(&mut message, arity as u64);
                    message.append(" arguments but got ");
                    push_decimal(&mut message, args.len() as u64);
                    message.append(".");
                    return Err(message);
                }
                match self.eval_args(args, depth) {
                    Ok(values) => self.call(&c, values, depth),
                    Err(m) => Err(m),
                }
            },
            Ok(_) => Err(String::from_str("Can only call functions and classes.")),
            Err(m) => Err(m),
        }
    }

    /// What a callable answers to its arguments.
    fn call(&mut self, callee: &Callable, args: Vec<Literal>, depth: u64) -> (r: Result<
        Literal,
        String,
    >)
        requires
            old(self).wf(),
        ensures
            final(self).follows(old(self)),
            forall|clock: Seq<u64>| #[trigger]
                agrees(clock, final(self).clock()) ==> call_value(
                    old(self)@,
                    callee@,
                    literal_views(args@),
                    depth as nat,
                    clock,
                ) == (Evaluated { state: final(self)@, result: value_of(r) }),
        decreases depth, 0nat,
    {
        broadcast use group_clock;

        if depth == 0 {
            return Err(String::from_str("Evaluation is nested too deeply."));
        }
        let d = depth - 1;
        match callee {
            Callable::Function(_, params, body, closure, is_init, receiver) => {
                assert(callee@->Function_2 =~= statement_views(body@));
                self.call_function(params, body, closure, *is_init, receiver, args, d)
            },
            Callable::Class(_, _, _) => self.instantiate(callee, args, d),
            Callable::Clock => {
                let millis = read_millis();
                proof {
                    self.readings@ = self.readings@.push(millis);
                }
                clock_literal(millis)
            },
        }
    }

    fn call_function(
        &mut self,
        params: &Vec<String>,
        body: &Vec<Box<Statement>>,
        closure: &Option<usize>,
        is_init: bool,
        receiver: &Option<Box<Receiver>>,
        args: Vec<Literal>,
        depth: u64,
    ) -> (r: Result<Literal, String>)
        requires
            old(self).wf(),
        ensures
            final(self).follows(old(self)),
            forall|clock: Seq<u64>| #[trigger]
                agrees(clock, final(self).clock()) ==> call_function(
                    old(self)@,
                    name_views(params@),
                    statement_views(body@),
                    match *closure {
                        Some(h) => Some(h as nat),
                        None => None,
                    },
                    is_init,
                    match *receiver {
                        Some(x) => Some(Box::new(x@)),
                        None => None,
                    },
                    literal_views(args@),
                    depth as nat,
                    clock,
                ) == (Evaluated { state: final(self)@, result: value_of(r) }),
        decreases depth, body.len() + 3,
    {
        broadcast use group_clock;

        self.env.mount_closure(closure);
        self.env.lower_scope();
        match receiver {
            Some(r) => {
                self.env.define("this", Literal::InstLit(r.this.duplicate()));
                match &r.superclass {
                    Some(parent) => {
                        self.env.define("super", Literal::CallLit(parent.duplicate()));
                    },
                    None => {},
                }
            },
            None => {},
        }
        let ghost entered = self.env@;
        let mut i: usize = 0;
        while i < params.len() && i < args.len()
            invariant
                self.wf(),
                self.depth() == old(self).depth(),
                self.clock() == old(self).clock(),
                self@ == old(self)@.with_env(self.env@),
                bind_parameters(self.env@, name_views(params@), literal_views(args@), i as nat)
                    == bind_parameters(entered, name_views(params@), literal_views(args@), 0),
            decreases params.len() - i,
        {
            broadcast use group_clock;

            self.env.define(params[i].as_str(), args[i].duplicate());
            i += 1;
        }
        let run = self.run_block(body, depth);
        let value = match run {
            Ok(None) => Ok(Literal::Nil),
            Ok(Some(v)) => Ok(v),
            Err(m) => Err(m),
        };
        let answer = if is_init {
            match value {
                Ok(_) => match receiver {
                    Some(r) => Ok(Literal::InstLit(r.this.duplicate())),
                    None => self.env.get("this"),
                },
                Err(m) => Err(m),
            }
        } else {
            value
        };
        let lowered = self.close_value(answer);
        self.unmount_value(lowered)
    }

    fn instantiate(&mut self, class: &Callable, args: Vec<Literal>, depth: u64) -> (r: Result<
        Literal,
        String,
    >)
        requires
            old(self).wf(),
        ensures
            final(self).follows(old(self)),
            forall|clock: Seq<u64>| #[trigger]
                agrees(clock, final(self).clock()) ==> instantiate(
                    old(self)@,
                    class@,
                    literal_views(args@),
                    depth as nat,
                    clock,
                ) == (Evaluated { state: final(self)@, result: value_of(r) }),
        decreases depth, 1nat,
    {
        broadcast use group_clock;

        let instance = Instance::new(class.duplicate(), &mut self.heap);
        match class.resolve("init") {
            None => Ok(Literal::InstLit(instance)),
            Some((init, parent)) => {
                let method = bind(init, instance.duplicate(), parent);
                match self.call(&method, args, depth) {
                    Ok(_) => Ok(Literal::InstLit(instance)),
                    Err(m) => Err(m),
                }
            },
        }
    }

    /// Closes the scope that a block or a call has opened.
    fn close_value(&mut self, result: Result<Literal, String>) -> (r: Result<Literal, String>)
        requires
            old(self).wf(),
        ensures
            final(self).follows(old(self)),
            final(self).clock() == old(self).clock(),
            closed(Evaluated { state: old(self)@, result: value_of(result) }) == (Evaluated {
                state: final(self)@,
                result: value_of(r),
            }),
    {
        broadcast use group_clock;

        match self.env.raise_scope() {
            Ok(_) => result,
            Err(m) => match result {
                Err(e) => Err(e),
                Ok(_) => Err(m),
            },
        }
    }

    fn close_flow(&mut self, result: Result<Option<Literal>, String>) -> (r: Result<
        Option<Literal>,
        String,
    >)
        requires
            old(self).wf(),
        ensures
            final(self).follows(old(self)),
            final(self).clock() == old(self).clock(),
            closed(Evaluated { state: old(self)@, result: flow_of(result) }) == (Evaluated {
                state: final(self)@,
                result: flow_of(r),
            }),
    {
        broadcast use group_clock;

        match self.env.raise_scope() {
            Ok(_) => result,
            Err(m) => match result {
                Err(e) => Err(e),
                Ok(_) => Err(m),
            },
        }
    }

    /// Unmounts the captured environment that a call has mounted.
    fn unmount_value(&mut self, result: Result<Literal, String>) -> (r: Result<Literal, String>)
        requires
            old(self).wf(),
        ensures
            final(self).follows(old(self)),
            final(self).clock() == old(self).clock(),
            unmounted(Evaluated { state: old(self)@, result: value_of(result) }) == (Evaluated {
                state: final(self)@,
                result: value_of(r),
            }),
    {
        broadcast use group_clock;

        match self.env.unmount_closure() {
            Ok(_) => result,
            Err(m) => match result {
                Err(e) => Err(e),
                Ok(_) => Err(m),
            },
        }
    }

    fn exec_items(&mut self, items: &Vec<Box<Statement>>, depth: u64) -> (r: Result<
        Option<Literal>,
        String,
    >)
        requires
            old(self).wf(),
        ensures
            final(self).follows(old(self)),
            forall|clock: Seq<u64>| #[trigger]
                agrees(clock, final(self).clock()) ==> exec_items(
                    old(self)@,
                    statement_views(items@),
                    0,
                    depth as nat,
                    clock,
                ) == (Evaluated { state: final(self)@, result: flow_of(r) }),
        decreases depth, items.len() + 1,
    {
        broadcast use group_clock;

        let mut i: usize = 0;
        while i < items.len()
            invariant
                i <= items.len(),
                self.follows(old(self)),
                forall|clock: Seq<u64>| #[trigger]
                    agrees(clock, self.clock()) ==> exec_items(
                        self@,
                        statement_views(items@),
                        i as nat,
                        depth as nat,
                        clock,
                    ) == exec_items(old(self)@, statement_views(items@), 0, depth as nat, clock),
            decreases items.len() - i,
        {
            broadcast use group_clock;

            match self.exec(&items[i], depth) {
                Ok(None) => {},
                Ok(Some(v)) => {
                    return Ok(Some(v));
                },
                Err(m) => {
                    return Err(m);
                },
            }
            i += 1;
        }
        Ok(None)
    }

    /// A block: a scope is opened, the statements run, the scope is closed.
    fn run_block(&mut self, items: &Vec<Box<Statement>>, depth: u64) -> (r: Result<
        Option<Literal>,
        String,
    >)
        requires
            old(self).wf(),
        ensures
            final(self).follows(old(self)),
            forall|clock: Seq<u64>| #[trigger]
                agrees(clock, final(self).clock()) ==> run_block(
                    old(self)@,
                    statement_views(items@),
                    depth as nat,
                    clock,
                ) == (Evaluated { state: final(self)@, result: flow_of(r) }),
        decreases depth, items.len() + 2,
    {
        broadcast use group_clock;

        self.env.lower_scope();
        let run = self.exec_items(items, depth);
        self.close_flow(run)
    }

    fn exec_while(&mut self, test: &Expression, body: &Statement, depth: u64) -> (r: Result<
        Option<Literal>,
        String,
    >)
        requires
            old(self).wf(),
        ensures
            final(self).follows(old(self)),
            forall|clock: Seq<u64>| #[trigger]
                agrees(clock, final(self).clock()) ==> exec_while(
                    old(self)@,
                    test@,
                    body@,
                    depth as nat,
                    loop_turns(),
                    clock,
                ) == (Evaluated { state: final(self)@, result: flow_of(r) }),
        decreases depth, 0xffff_ffff_ffff_ffffu64 + 1,
    {
        broadcast use group_clock;

        let mut turns: u64 = 0xffff_ffff_ffff_ffff;
        while turns > 0
            invariant
                self.follows(old(self)),
                forall|clock: Seq<u64>| #[trigger]
                    agrees(clock, self.clock()) ==> exec_while(
                        self@,
                        test@,
                        body@,
                        depth as nat,
                        turns as nat,
                        clock,
                    ) == exec_while(old(self)@, test@, body@, depth as nat, loop_turns(), clock),
            decreases turns,
        {
            broadcast use group_clock;

            match self.eval(test, depth) {
                Ok(v) => {
                    if !is_truthful(&v) {
                        return Ok(None);
                    }
                },
                Err(m) => {
                    return Err(m);
                },
            }
            match self.exec(body, depth) {
                Ok(None) => {},
                Ok(Some(v)) => {
                    return Ok(Some(v));
                },
                Err(m) => {
                    return Err(m);
                },
            }
            turns -= 1;
        }
        Err(String::from_str("A loop ran for too long."))
    }

    fn declare_function(&mut self, name: &String, params: &Vec<String>, body: &Vec<Box<Statement>>)
        requires
            old(self).wf(),
        ensures
            final(self).follows(old(self)),
            final(self).clock() == old(self).clock(),
            final(self)@ == declare_function(
                old(self)@,
                name@,
                name_views(params@),
                statement_views(body@),
            ),
    {
        broadcast use group_clock;

        let handle = self.env.spawn_closure();
        let inner = Callable::Function(
            name.clone(),
            duplicate_names(params),
            duplicate_block(body),
            None,
            false,
            None,
        );
        assert(inner@->Function_2 =~= statement_views(body@));
        self.env.define_within(handle, name.as_str(), Literal::CallLit(inner));
        let outer = Callable::Function(
            name.clone(),
            duplicate_names(params),
            duplicate_block(body),
            Some(handle),
            false,
            None,
        );
        assert(outer@->Function_2 =~= statement_views(body@));
        self.env.define(name.as_str(), Literal::CallLit(outer));
    }

    /// The methods of a class body, each with a captured environment of its
    /// own.
    fn class_methods(&mut self, body: &Vec<Box<Statement>>) -> (r: Result<Vec<Box<Callable>>, String>)
        requires
            old(self).wf(),
        ensures
            final(self).follows(old(self)),
            final(self).clock() == old(self).clock(),
            final(self)@ == old(self)@.with_env(final(self)@.env),
            class_methods(old(self)@.env, statement_views(body@), 0, Seq::empty()) == (
                final(self)@.env,
                match r {
                    Ok(table) => Ok::<Seq<CallableView>, Seq<char>>(
                        crate::callable::method_views(table@),
                    ),
                    Err(m) => Err::<Seq<CallableView>, Seq<char>>(m@),
                },
            ),
    {
        broadcast use group_clock;

        let mut table: Vec<Box<Callable>> = Vec::new();
        assert(crate::callable::method_views(table@) =~= Seq::<CallableView>::empty());
        let mut i: usize = 0;
        while i < body.len()
            invariant
                i <= body.len(),
                self.wf(),
                self.depth() == old(self).depth(),
                self.clock() == old(self).clock(),
                self@ == old(self)@.with_env(self@.env),
                class_methods(
                    self@.env,
                    statement_views(body@),
                    i as nat,
                    crate::callable::method_views(table@),
                ) == class_methods(old(self)@.env, statement_views(body@), 0, Seq::empty()),
            decreases body.len() - i,
        {
            broadcast use group_clock;

            match &*body[i] {
                Statement::Fun(name, params, code) => {
                    assert(body[i as int]@->Fun_2 =~= statement_views(code@));
                    let handle = self.env.spawn_closure();
                    let method = Callable::Function(
                        name.clone(),
                        duplicate_names(params),
                        duplicate_block(code),
                        Some(handle),
                        same_text(name.as_str(), "init"),
                        None,
                    );
                    assert(method@->Function_2 =~= statement_views(code@));
                    let ghost seen = crate::callable::method_views(table@);
                    table.insert(0, Box::new(method));
                    assert(crate::callable::method_views(table@) =~= seq![method@] + seen);
                },
                _ => {
                    return Err(String::from_str("A class body holds only methods."));
                },
            }
            i += 1;
        }
        Ok(table)
    }

    /// The superclass that a class declaration names, if it names one.
    fn superclass(&self, name: &String) -> (r: Result<Option<Box<Callable>>, String>)
        requires
            self.wf(),
        ensures
            superclass_of(self@.env, name@) == match r {
                Ok(Some(c)) => Ok::<Option<Box<CallableView>>, Seq<char>>(Some(Box::new(c@))),
                Ok(None) => Ok::<Option<Box<CallableView>>, Seq<char>>(None),
                Err(m) => Err::<Option<Box<CallableView>>, Seq<char>>(m@),
            },
    {
        if *name == String::new() {
            return Ok(None);
        }
        assert(name@.len() == 0 ==> name@ =~= Seq::<char>::empty());
        match self.env.get(name.as_str()) {
            Err(m) => Err(m),
            Ok(Literal::CallLit(class)) => match class {
                Callable::Class(_, _, _) => Ok(Some(Box::new(class))),
                _ => Err(String::from_str("Superclass must be a class.")),
            },
            Ok(_) => Err(String::from_str("Superclass must be a class.")),
        }
    }

    fn declare_class(&mut self, name: &String, parent: &String, body: &Vec<Box<Statement>>) -> (r:
        Result<Option<Literal>, String>)
        requires
            old(self).wf(),
        ensures
            final(self).follows(old(self)),
            final(self).clock() == old(self).clock(),
            declare_class(old(self)@, name@, parent@, statement_views(body@)) == (Evaluated {
                state: final(self)@,
                result: flow_of(r),
            }),
    {
        broadcast use group_clock;

        let up = match self.superclass(parent) {
            Ok(c) => c,
            Err(m) => {
                return Err(m);
            },
        };
        let table = match self.class_methods(body) {
            Ok(t) => t,
            Err(m) => {
                return Err(m);
            },
        };
        let class = Callable::Class(name.clone(), up, table);
        assert(class@->Class_2 =~= crate::callable::method_views(table@));
        self.env.define(name.as_str(), Literal::CallLit(class));
        Ok(None)
    }

    fn exec(&mut self, stmt: &Statement, depth: u64) -> (r: Result<Option<Literal>, String>)
        requires
            old(self).wf(),
        ensures
            final(self).follows(old(self)),
            forall|clock: Seq<u64>| #[trigger]
                agrees(clock, final(self).clock()) ==> exec_stmt(
                    old(self)@,
                    stmt@,
                    depth as nat,
                    clock,
                ) == (Evaluated { state: final(self)@, result: flow_of(r) }),
        decreases depth, 0nat,
    {
        broadcast use group_clock;

        if depth == 0 {
            return Err(String::from_str("Evaluation is nested too deeply."));
        }
        let d = depth - 1;
        match stmt {
            Statement::Decl(name, init) => {
                match self.eval(init, d) {
                    Ok(v) => {
                        self.env.define(name.as_str(), v);
                        Ok(None)
                    },
                    Err(m) => Err(m),
                }
            },
            Statement::Expr(e) => {
                match self.eval(e, d) {
                    Ok(_) => Ok(None),
                    Err(m) => Err(m),
                }
            },
            Statement::Print(e) => {
                match self.eval(e, d) {
                    Ok(v) => {
                        self.output.append(format_value(&v).as_str());
                        self.output.append("\n");
                        proof {
                            reveal_strlit("\n");
                            assert("\n"@ =~= seq!['\n']);
                        }
                        Ok(None)
                    },
                    Err(m) => Err(m),
                }
            },
            Statement::Block(items) => {
                assert(stmt@->Block_0 =~= statement_views(items@));
                self.run_block(items, d)
            },
            Statement::Return(e, _) => {
                match self.eval(e, d) {
                    Ok(v) => Ok(Some(v)),
                    Err(m) => Err(m),
                }
            },
            Statement::If(test, then_branch, else_branch) => {
                match self.eval(test, d) {
                    Ok(v) => {
                        if is_truthful(&v) {
                            self.exec(then_branch, d)
                        } else {
                            match else_branch {
                                Some(other) => self.exec(other, d),
                                None => Ok(None),
                            }
                        }
                    },
                    Err(m) => Err(m),
                }
            },
            Statement::While(test, body) => self.exec_while(test, body, d),
            Statement::Fun(name, params, body) => {
                assert(stmt@->Fun_2 =~= statement_views(body@));
                self.declare_function(name, params, body);
                Ok(None)
            },
            Statement::Class(name, parent, body) => {
                assert(stmt@->Class_2 =~= statement_views(body@));
                self.declare_class(name, parent, body)
            },
        }
    }
}

} // verus!
