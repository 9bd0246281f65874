//! Scopes and mounts are balanced: whatever is evaluated, and however it
//! ends, every scope that was opened is closed again and every captured
//! environment that was mounted is unmounted again.

use vstd::prelude::*;
use crate::callable::{CallableView, ReceiverView};
use crate::environment::EnvironmentView;
use crate::expression::ExpressionView;
use crate::node::{BinaryOp, LiteralView, LogicOp, UnaryOp};
use crate::semantics::{
    bind_parameters, bind_receiver, call_function, call_value, class_methods, closed,
    declare_class, declare_function, eval_args, eval_assignment, eval_binary, eval_call, eval_expr,
    eval_getter, eval_logical, eval_setter, eval_unary, exec_items, exec_stmt, exec_while,
    instantiate, interpret, run_block, run_program, unmounted, Evaluated, InterpreterView,
};
use crate::statement::StatementView;

verus! {

/// `after` has the mounts of `before`, and every chain of `before` with as
/// many scopes as it had.
pub open spec fn same_shape(before: EnvironmentView, after: EnvironmentView) -> bool {
    &&& after.mounted == before.mounted
    &&& after.chains.len() >= before.chains.len()
    &&& forall|i: int|
        0 <= i < before.chains.len() ==> (#[trigger] after.chains[i]).len()
            == before.chains[i].len()
}

/// An evaluation has left the environment well-formed and in the shape it
/// found it in.
pub open spec fn balanced<T>(s: InterpreterView, run: Evaluated<T>) -> bool {
    run.state.env.wf() && same_shape(s.env, run.state.env)
}

proof fn lemma_assign(env: EnvironmentView, name: Seq<char>, value: LiteralView)
    requires
        env.wf(),
    ensures
        match env.assign(name, value) {
            Ok(after) => after.wf() && same_shape(env, after),
            Err(_) => true,
        },
{
    crate::laws::lemma_innermost_in_chain(env.chain(), name);
}

proof fn lemma_parameters(
    env: EnvironmentView,
    params: Seq<Seq<char>>,
    args: Seq<LiteralView>,
    from: nat,
)
    requires
        env.wf(),
    ensures
        bind_parameters(env, params, args, from).wf(),
        same_shape(env, bind_parameters(env, params, args, from)),
    decreases params.len() - from,
{
    if from < params.len() && from < args.len() {
        lemma_parameters(
            env.define(params[from as int], args[from as int]),
            params,
            args,
            from + 1,
        );
    }
}

/// A captured environment that was mounted is unmounted by `unmounted`,
/// where what ran in it was balanced.
proof fn lemma_unmounted<T>(s: InterpreterView, closure: Option<nat>, run: Evaluated<T>)
    requires
        s.env.wf(),
        run.state.env.wf(),
        same_shape(s.env.mount_closure(closure), run.state.env),
    ensures
        balanced(s, unmounted(run)),
        unmounted(run).result == run.result,
{
    assert(s.env.mount_closure(closure).mounted.drop_last() =~= s.env.mounted);
}

proof fn lemma_class_methods(
    env: EnvironmentView,
    body: Seq<StatementView>,
    from: nat,
    seen: Seq<CallableView>,
)
    requires
        env.wf(),
    ensures
        class_methods(env, body, from, seen).0.wf(),
        same_shape(env, class_methods(env, body, from, seen).0),
    decreases body.len() - from,
{
    if from < body.len() {
        match body[from as int] {
            StatementView::Fun(name, params, code) => {
                let method = CallableView::Function(
                    name,
                    params,
                    code,
                    Some(env.next_handle()),
                    name == "init"@,
                    None,
                );
                lemma_class_methods(env.spawn_closure(), body, from + 1, seq![method] + seen);
            },
            _ => {},
        }
    }
}

proof fn lemma_declare_class(
    s: InterpreterView,
    name: Seq<char>,
    parent: Seq<char>,
    body: Seq<StatementView>,
)
    requires
        s.env.wf(),
    ensures
        balanced(s, declare_class(s, name, parent, body)),
{
    lemma_class_methods(s.env, body, 0, Seq::empty());
}

proof fn lemma_declare_function(
    s: InterpreterView,
    name: Seq<char>,
    params: Seq<Seq<char>>,
    body: Seq<StatementView>,
)
    requires
        s.env.wf(),
    ensures
        declare_function(s, name, params, body).env.wf(),
        same_shape(s.env, declare_function(s, name, params, body).env),
{
}

proof fn lemma_eval_expr(s: InterpreterView, e: ExpressionView, depth: nat, clock: Seq<u64>)
    requires
        s.env.wf(),
    ensures
        balanced(s, eval_expr(s, e, depth, clock)),
    decreases depth, 0nat,
{
    if depth > 0 {
        let d = (depth - 1) as nat;
        match e {
            ExpressionView::Unary(op, operand) => lemma_eval_unary(s, op, *operand, d, clock),
            ExpressionView::Binary { left, op, right } => lemma_eval_binary(
                s,
                *left,
                op,
                *right,
                d,
                clock,
            ),
            ExpressionView::Logical { left, op, right } => lemma_eval_logical(
                s,
                *left,
                op,
                *right,
                d,
                clock,
            ),
            ExpressionView::Grouping(inner) => lemma_eval_expr(s, *inner, d, clock),
            ExpressionView::Assignment(name, value) => lemma_eval_assignment(
                s,
                name,
                *value,
                d,
                clock,
            ),
            ExpressionView::Call(callee, args, _) => lemma_eval_call(s, *callee, args, d, clock),
            ExpressionView::Getter(object, name) => lemma_eval_getter(s, *object, name, d, clock),
            ExpressionView::Setter(object, name, value) => lemma_eval_setter(
                s,
                *object,
                name,
                *value,
                d,
                clock,
            ),
            _ => {},
        }
    }
}

proof fn lemma_eval_unary(
    s: InterpreterView,
    op: UnaryOp,
    operand: ExpressionView,
    depth: nat,
    clock: Seq<u64>,
)
    requires
        s.env.wf(),
    ensures
        balanced(s, eval_unary(s, op, operand, depth, clock)),
    decreases depth, 1nat,
{
    lemma_eval_expr(s, operand, depth, clock);
}

proof fn lemma_eval_binary(
    s: InterpreterView,
    left: ExpressionView,
    op: BinaryOp,
    right: ExpressionView,
    depth: nat,
    clock: Seq<u64>,
)
    requires
        s.env.wf(),
    ensures
        balanced(s, eval_binary(s, left, op, right, depth, clock)),
    decreases depth, 1nat,
{
    lemma_eval_expr(s, left, depth, clock);
    let first = eval_expr(s, left, depth, clock);
    if first.result is Ok {
        lemma_eval_expr(first.state, right, depth, clock);
    }
}

proof fn lemma_eval_logical(
    s: InterpreterView,
    left: ExpressionView,
    op: LogicOp,
    right: ExpressionView,
    depth: nat,
    clock: Seq<u64>,
)
    requires
        s.env.wf(),
    ensures
        balanced(s, eval_logical(s, left, op, right, depth, clock)),
    decreases depth, 1nat,
{
    lemma_eval_expr(s, left, depth, clock);
    let first = eval_expr(s, left, depth, clock);
    if first.result is Ok {
        lemma_eval_expr(first.state, right, depth, clock);
    }
}

proof fn lemma_eval_assignment(
    s: InterpreterView,
    name: Seq<char>,
    value: ExpressionView,
    depth: nat,
    clock: Seq<u64>,
)
    requires
        s.env.wf(),
    ensures
        balanced(s, eval_assignment(s, name, value, depth, clock)),
    decreases depth, 1nat,
{
    lemma_eval_expr(s, value, depth, clock);
    let right = eval_expr(s, value, depth, clock);
    match right.result {
        Ok(v) => lemma_assign(right.state.env, name, v),
        Err(_) => {},
    }
}

proof fn lemma_eval_getter(
    s: InterpreterView,
    object: ExpressionView,
    name: Seq<char>,
    depth: nat,
    clock: Seq<u64>,
)
    requires
        s.env.wf(),
    ensures
        balanced(s, eval_getter(s, object, name, depth, clock)),
    decreases depth, 1nat,
{
    lemma_eval_expr(s, object, depth, clock);
}

proof fn lemma_eval_setter(
    s: InterpreterView,
    object: ExpressionView,
    name: Seq<char>,
    value: ExpressionView,
    depth: nat,
    clock: Seq<u64>,
)
    requires
        s.env.wf(),
    ensures
        balanced(s, eval_setter(s, object, name, value, depth, clock)),
    decreases depth, 1nat,
{
    lemma_eval_expr(s, object, depth, clock);
    let target = eval_expr(s, object, depth, clock);
    if target.result is Ok {
        lemma_eval_expr(target.state, value, depth, clock);
    }
}

proof fn lemma_eval_args(
    s: InterpreterView,
    args: Seq<ExpressionView>,
    from: nat,
    seen: Seq<LiteralView>,
    depth: nat,
    clock: Seq<u64>,
)
    requires
        s.env.wf(),
    ensures
        balanced(s, eval_args(s, args, from, seen, depth, clock)),
    decreases depth, args.len() - from + 1,
{
    if from < args.len() {
        lemma_eval_expr(s, args[from as int], depth, clock);
        let value = eval_expr(s, args[from as int], depth, clock);
        match value.result {
            Ok(v) => lemma_eval_args(value.state, args, from + 1, seen.push(v), depth, clock),
            Err(_) => {},
        }
    }
}

proof fn lemma_eval_call(
    s: InterpreterView,
    callee: ExpressionView,
    args: Seq<ExpressionView>,
    depth: nat,
    clock: Seq<u64>,
)
    requires
        s.env.wf(),
    ensures
        balanced(s, eval_call(s, callee, args, depth, clock)),
    decreases depth, args.len() + 2,
{
    lemma_eval_expr(s, callee, depth, clock);
    let target = eval_expr(s, callee, depth, clock);
    match target.result {
        Ok(LiteralView::CallLit(c)) => {
            if args.len() == c.arity() {
                lemma_eval_args(target.state, args, 0, Seq::empty(), depth, clock);
                let values = eval_args(target.state, args, 0, Seq::empty(), depth, clock);
                match values.result {
                    Ok(list) => lemma_call_value(values.state, c, list, depth, clock),
                    Err(_) => {},
                }
            }
        },
        _ => {},
    }
}

proof fn lemma_call_value(
    s: InterpreterView,
    callee: CallableView,
    args: Seq<LiteralView>,
    depth: nat,
    clock: Seq<u64>,
)
    requires
        s.env.wf(),
    ensures
        balanced(s, call_value(s, callee, args, depth, clock)),
    decreases depth, 0nat,
{
    if depth > 0 {
        let d = (depth - 1) as nat;
        match callee {
            CallableView::Function(_, params, body, closure, is_init, receiver) => {
                lemma_call_function(s, params, body, closure, is_init, receiver, args, d, clock);
            },
            CallableView::Class(_, _, _) => {
                lemma_instantiate(s, callee, args, d, clock);
            },
            CallableView::Clock => {},
        }
    }
}

proof fn lemma_call_function(
    s: InterpreterView,
    params: Seq<Seq<char>>,
    body: Seq<StatementView>,
    closure: Option<nat>,
    is_init: bool,
    receiver: Option<Box<ReceiverView>>,
    args: Seq<LiteralView>,
    depth: nat,
    clock: Seq<u64>,
)
    requires
        s.env.wf(),
    ensures
        balanced(s, call_function(s, params, body, closure, is_init, receiver, args, depth, clock)),
    decreases depth, body.len() + 3,
{
    let entered = s.env.mount_closure(closure).lower_scope();
    let with_receiver = bind_receiver(entered, receiver);
    lemma_parameters(with_receiver, params, args, 0);
    let ready = bind_parameters(with_receiver, params, args, 0);
    lemma_run_block(s.with_env(ready), body, depth, clock);
    let run = run_block(s.with_env(ready), body, depth, clock);
    let value = match run.result {
        Ok(None) => Ok(LiteralView::Nil),
        Ok(Some(v)) => Ok(v),
        Err(m) => Err(m),
    };
    let answer = if is_init {
        match value {
            Ok(_) => crate::semantics::initializer_value(run.state.env, receiver),
            Err(m) => Err(m),
        }
    } else {
        value
    };
    let inner = Evaluated { state: run.state, result: answer };
    lemma_unmounted(s, closure, closed(inner));
}

proof fn lemma_instantiate(
    s: InterpreterView,
    class: CallableView,
    args: Seq<LiteralView>,
    depth: nat,
    clock: Seq<u64>,
)
    requires
        s.env.wf(),
    ensures
        balanced(s, instantiate(s, class, args, depth, clock)),
    decreases depth, 1nat,
{
    let made = InterpreterView { heap: s.heap.push(Map::empty()), ..s };
    match class.resolve("init"@) {
        Some(found) => {
            lemma_call_value(
                made,
                crate::semantics::bound(
                    found.method,
                    crate::instance::InstanceView { class: Box::new(class), fields: s.heap.len() },
                    found.superclass,
                ),
                args,
                depth,
                clock,
            );
        },
        None => {},
    }
}

proof fn lemma_exec_items(
    s: InterpreterView,
    items: Seq<StatementView>,
    from: nat,
    depth: nat,
    clock: Seq<u64>,
)
    requires
        s.env.wf(),
    ensures
        balanced(s, exec_items(s, items, from, depth, clock)),
    decreases depth, items.len() - from + 1,
{
    if from < items.len() {
        lemma_exec_stmt(s, items[from as int], depth, clock);
        let run = exec_stmt(s, items[from as int], depth, clock);
        match run.result {
            Ok(None) => lemma_exec_items(run.state, items, from + 1, depth, clock),
            _ => {},
        }
    }
}

proof fn lemma_run_block(s: InterpreterView, items: Seq<StatementView>, depth: nat, clock: Seq<u64>)
    requires
        s.env.wf(),
    ensures
        balanced(s, run_block(s, items, depth, clock)),
    decreases depth, items.len() + 2,
{
    lemma_exec_items(s.with_env(s.env.lower_scope()), items, 0, depth, clock);
}

proof fn lemma_exec_while(
    s: InterpreterView,
    test: ExpressionView,
    body: StatementView,
    depth: nat,
    turns: nat,
    clock: Seq<u64>,
)
    requires
        s.env.wf(),
    ensures
        balanced(s, exec_while(s, test, body, depth, turns, clock)),
    decreases depth, turns + 1,
{
    if turns > 0 {
        lemma_eval_expr(s, test, depth, clock);
        let check = eval_expr(s, test, depth, clock);
        match check.result {
            Ok(v) => {
                if crate::semantics::truthful(v) {
                    lemma_exec_stmt(check.state, body, depth, clock);
                    let run = exec_stmt(check.state, body, depth, clock);
                    match run.result {
                        Ok(None) => lemma_exec_while(
                            run.state,
                            test,
                            body,
                            depth,
                            (turns - 1) as nat,
                            clock,
                        ),
                        _ => {},
                    }
                }
            },
            Err(_) => {},
        }
    }
}

proof fn lemma_exec_stmt(s: InterpreterView, stmt: StatementView, depth: nat, clock: Seq<u64>)
    requires
        s.env.wf(),
    ensures
        balanced(s, exec_stmt(s, stmt, depth, clock)),
    decreases depth, 0nat,
{
    if depth > 0 {
        let d = (depth - 1) as nat;
        match stmt {
            StatementView::Decl(_, init) => lemma_eval_expr(s, init, d, clock),
            StatementView::Expr(e) => lemma_eval_expr(s, e, d, clock),
            StatementView::Print(e) => lemma_eval_expr(s, e, d, clock),
            StatementView::Block(items) => lemma_run_block(s, items, d, clock),
            StatementView::Return(e, _) => lemma_eval_expr(s, e, d, clock),
            StatementView::If(test, then_branch, else_branch) => {
                lemma_eval_expr(s, test, d, clock);
                let check = eval_expr(s, test, d, clock);
                match check.result {
                    Ok(v) => {
                        if crate::semantics::truthful(v) {
                            lemma_exec_stmt(check.state, *then_branch, d, clock);
                        } else {
                            match else_branch {
                                Some(other) => lemma_exec_stmt(check.state, *other, d, clock),
                                None => {},
                            }
                        }
                    },
                    Err(_) => {},
                }
            },
            StatementView::While(test, body) => lemma_exec_while(
                s,
                test,
                *body,
                d,
                crate::semantics::loop_turns(),
                clock,
            ),
            StatementView::Fun(name, params, body) => lemma_declare_function(s, name, params, body),
            StatementView::Class(name, parent, body) => lemma_declare_class(s, name, parent, body),
        }
    }
}

proof fn lemma_run_program(
    s: InterpreterView,
    program: Seq<StatementView>,
    from: nat,
    depth: nat,
    clock: Seq<u64>,
)
    requires
        s.env.wf(),
    ensures
        balanced(s, run_program(s, program, from, depth, clock)),
    decreases program.len() - from,
{
    if from < program.len() {
        lemma_exec_stmt(s, program[from as int], depth, clock);
        let run = exec_stmt(s, program[from as int], depth, clock);
        if run.result is Ok {
            lemma_run_program(run.state, program, from + 1, depth, clock);
        }
    }
}

/// Whatever expression is evaluated in a well-formed environment, and
/// however that ends, the environment is well-formed afterwards, the same
/// captured environments are mounted, and every chain has as many scopes
/// as before.
pub proof fn law_expressions_balance(
    s: InterpreterView,
    e: ExpressionView,
    depth: nat,
    clock: Seq<u64>,
)
    requires
        s.env.wf(),
    ensures
        balanced(s, eval_expr(s, e, depth, clock)),
{
    lemma_eval_expr(s, e, depth, clock);
}

/// The same of statements: blocks close the scope they open and calls
/// unmount what they mount, on a normal end, on a `return` and on a
/// failure alike.
pub proof fn law_statements_balance(
    s: InterpreterView,
    stmt: StatementView,
    depth: nat,
    clock: Seq<u64>,
)
    requires
        s.env.wf(),
    ensures
        balanced(s, exec_stmt(s, stmt, depth, clock)),
{
    lemma_exec_stmt(s, stmt, depth, clock);
}

/// The same of calls, and in particular of a call that fails.
pub proof fn law_calls_balance(
    s: InterpreterView,
    callee: CallableView,
    args: Seq<LiteralView>,
    depth: nat,
    clock: Seq<u64>,
)
    requires
        s.env.wf(),
    ensures
        balanced(s, call_value(s, callee, args, depth, clock)),
{
    lemma_call_value(s, callee, args, depth, clock);
}

/// The same of whole programs.
pub proof fn law_programs_balance(
    s: InterpreterView,
    program: Seq<StatementView>,
    depth: nat,
    clock: Seq<u64>,
)
    requires
        s.env.wf(),
    ensures
        balanced(s, interpret(s, program, depth, clock)),
{
    lemma_run_program(InterpreterView { output: Seq::empty(), ..s }, program, 0, depth, clock);
}

/// A block never fails at closing its scope: the scope is there to be
/// closed, and the result of the block is that of its statements.
pub proof fn law_blocks_close(
    s: InterpreterView,
    items: Seq<StatementView>,
    depth: nat,
    clock: Seq<u64>,
)
    requires
        s.env.wf(),
    ensures
        ({
            let inner = exec_items(s.with_env(s.env.lower_scope()), items, 0, depth, clock);
            &&& inner.state.env.raise_scope() is Ok
            &&& run_block(s, items, depth, clock).result == inner.result
        }),
{
    lemma_exec_items(s.with_env(s.env.lower_scope()), items, 0, depth, clock);
}

} // verus!
