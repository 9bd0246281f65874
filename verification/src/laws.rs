//! What holds of every program, proved from the definitions.

use vstd::prelude::*;
use crate::callable::{lookup_method, CallableView, FoundMethod, ReceiverView};
use crate::environment::{innermost, named, ChainView, EnvironmentView};
use crate::expression::ExpressionView;
use crate::grammar::parse;
use crate::instance::InstanceView;
use crate::node::{LiteralView, LogicOp};
use crate::semantics::{
    bind_parameters, bind_receiver, bound, call_value, decides, declare_function, eval_expr,
    eval_logical, exec_items, exec_stmt, ok, property, run_block, truthful, InterpreterView,
};
use crate::statement::StatementView;
use crate::token::TokenView;

verus! {

/// Parsing is a function of the tokens: the same token sequence gives the
/// same statements, or the same messages, however often it is parsed.
pub proof fn law_parsing_repeats(first: Seq<TokenView>, second: Seq<TokenView>)
    requires
        first == second,
    ensures
        parse(first) == parse(second),
        parse(first) is Err ==> parse(first)->Err_0.len() > 0,
{
}

/// Only `false` and `nil` are not truthful.
pub proof fn law_truthiness(value: LiteralView)
    ensures
        !truthful(value) <==> (value == LiteralView::Nil || value == LiteralView::Boolean(false)),
{
}

/// Where the left operand of `and` or `or` decides, the right operand is
/// not evaluated: the value and the state are those of the left operand,
/// whatever the right operand is.
pub proof fn law_short_circuit(
    s: InterpreterView,
    left: ExpressionView,
    op: LogicOp,
    right: ExpressionView,
    depth: nat,
    clock: Seq<u64>,
)
    requires
        depth >= 1,
    ensures
        ({
            let first = eval_expr(s, left, (depth - 1) as nat, clock);
            let whole = eval_expr(
                s,
                ExpressionView::Logical { left: Box::new(left), op, right: Box::new(right) },
                depth,
                clock,
            );
            first.result is Ok && decides(op, first.result->Ok_0) ==> whole == first
        }),
{
    assert(eval_expr(
        s,
        ExpressionView::Logical { left: Box::new(left), op, right: Box::new(right) },
        depth,
        clock,
    ) == eval_logical(s, left, op, right, (depth - 1) as nat, clock));
}

/// `false and X` is `false` and `true or X` is `true`, and neither changes
/// the state.
pub proof fn law_short_circuit_literals(
    s: InterpreterView,
    right: ExpressionView,
    depth: nat,
    clock: Seq<u64>,
)
    requires
        depth >= 2,
    ensures
        eval_expr(
            s,
            ExpressionView::Logical {
                left: Box::new(ExpressionView::LitExp(LiteralView::Boolean(false))),
                op: LogicOp::And,
                right: Box::new(right),
            },
            depth,
            clock,
        ) == ok(s, LiteralView::Boolean(false)),
        eval_expr(
            s,
            ExpressionView::Logical {
                left: Box::new(ExpressionView::LitExp(LiteralView::Boolean(true))),
                op: LogicOp::Or,
                right: Box::new(right),
            },
            depth,
            clock,
        ) == ok(s, LiteralView::Boolean(true)),
{
    reveal_with_fuel(eval_expr, 3);
}

/// Two chains of one length whose scopes bind `name` alike have their
/// innermost binding of it in the same scope.
proof fn lemma_innermost_alike(first: ChainView, second: ChainView, name: Seq<char>)
    requires
        first.len() == second.len(),
        forall|i: int|
            0 <= i < first.len() ==> first[i].contains_key(name) == second[i].contains_key(name),
    ensures
        innermost(first, name) == innermost(second, name),
    decreases first.len(),
{
    if first.len() > 0 {
        lemma_innermost_alike(first.drop_last(), second.drop_last(), name);
    }
}

/// The innermost binding lies within the chain, in a scope that binds the
/// name.
pub proof fn lemma_innermost_in_chain(chain: ChainView, name: Seq<char>)
    ensures
        match innermost(chain, name) {
            Some(i) => 0 <= i < chain.len() && chain[i].contains_key(name),
            None => true,
        },
{
    lemma_innermost_within(chain, name);
}

proof fn lemma_innermost_within(chain: ChainView, name: Seq<char>)
    ensures
        match innermost(chain, name) {
            Some(i) => 0 <= i < chain.len() && chain[i].contains_key(name),
            None => true,
        },
    decreases chain.len(),
{
    if chain.len() > 0 {
        lemma_innermost_within(chain.drop_last(), name);
    }
}

/// Defining one name leaves every other name as it was.
pub proof fn lemma_define_other(env: EnvironmentView, name: Seq<char>, value: LiteralView, other: Seq<
    char,
>)
    requires
        env.wf(),
        name != other,
    ensures
        env.define(name, value).wf(),
        env.define(name, value).get(other) == env.get(other),
        env.define(name, value).mounted == env.mounted,
{
    lemma_innermost_alike(env.chain(), env.define(name, value).chain(), other);
    lemma_innermost_within(env.chain(), other);
}

/// A name that was defined is bound to the value it was defined with.
pub proof fn lemma_define_same(env: EnvironmentView, name: Seq<char>, value: LiteralView)
    requires
        env.wf(),
    ensures
        env.define(name, value).wf(),
        env.define(name, value).get(name) == Ok::<LiteralView, Seq<char>>(named(value, name)),
{
}

/// A scope that was just opened hides nothing.
pub proof fn lemma_lower_keeps(env: EnvironmentView, name: Seq<char>)
    requires
        env.wf(),
    ensures
        env.lower_scope().wf(),
        env.lower_scope().get(name) == env.get(name),
        env.lower_scope().mounted == env.mounted,
{
    assert(env.lower_scope().chain().drop_last() =~= env.chain());
    lemma_innermost_within(env.chain(), name);
}

/// Binding parameters leaves every name that is none of them as it was.
pub proof fn lemma_parameters_keep(
    env: EnvironmentView,
    params: Seq<Seq<char>>,
    args: Seq<LiteralView>,
    from: nat,
    other: Seq<char>,
)
    requires
        env.wf(),
        forall|i: int| from <= i < params.len() ==> params[i] != other,
    ensures
        bind_parameters(env, params, args, from).wf(),
        bind_parameters(env, params, args, from).get(other) == env.get(other),
        bind_parameters(env, params, args, from).mounted == env.mounted,
    decreases params.len() - from,
{
    if from < params.len() && from < args.len() {
        lemma_define_other(env, params[from as int], args[from as int], other);
        lemma_parameters_keep(
            env.define(params[from as int], args[from as int]),
            params,
            args,
            from + 1,
            other,
        );
    }
}

/// Lexical scoping: a called function finds a free variable in the
/// environment that it has captured, whatever environment it is called in.
/// The variable is looked up in the chain that the function's handle names,
/// and what is mounted at the call has no part in that.
pub proof fn law_lexical_scoping(
    env: EnvironmentView,
    handle: nat,
    params: Seq<Seq<char>>,
    args: Seq<LiteralView>,
    free: Seq<char>,
)
    requires
        env.wf(),
        handle < env.chains.len(),
        forall|i: int| 0 <= i < params.len() ==> params[i] != free,
    ensures
        ({
            let ready = bind_parameters(
                bind_receiver(env.mount_closure(Some(handle)).lower_scope(), None),
                params,
                args,
                0,
            );
            let captured = EnvironmentView { chains: env.chains, mounted: seq![handle] };
            ready.get(free) == captured.get(free)
        }),
{
    let mounted = env.mount_closure(Some(handle));
    lemma_lower_keeps(mounted, free);
    lemma_parameters_keep(mounted.lower_scope(), params, args, 0, free);
}

/// A function declaration captures the environment it stands in: the chain
/// that its handle names is a copy of the current one, in which the
/// function is bound to its own name; and the name is bound to the function
/// with that handle.
pub proof fn law_declaration_captures(
    s: InterpreterView,
    name: Seq<char>,
    params: Seq<Seq<char>>,
    body: Seq<StatementView>,
)
    requires
        s.env.wf(),
        name.len() > 0,
    ensures
        ({
            let after = declare_function(s, name, params, body);
            let handle = s.env.next_handle();
            let chain = s.env.chain();
            &&& after.env.wf()
            &&& after.env.mounted == s.env.mounted
            &&& after.env.chains[handle as int] == chain.update(
                chain.len() - 1,
                chain.last().insert(
                    name,
                    LiteralView::CallLit(
                        CallableView::Function(name, params, body, None, false, None),
                    ),
                ),
            )
            &&& after.env.get(name) == Ok::<LiteralView, Seq<char>>(
                LiteralView::CallLit(
                    CallableView::Function(name, params, body, Some(handle), false, None),
                ),
            )
        }),
{
    let handle = s.env.next_handle();
    let inner = LiteralView::CallLit(CallableView::Function(name, params, body, None, false, None));
    let outer = LiteralView::CallLit(
        CallableView::Function(name, params, body, Some(handle), false, None),
    );
    lemma_define_same(s.env.spawn_closure().define_within(handle, name, inner), name, outer);
}

/// A captured environment is a copy of its own: what is defined or
/// assigned in the environment it was copied from, and the scopes that
/// are opened and closed there, leave it as it was captured.
pub proof fn law_capture_is_stable(env: EnvironmentView, name: Seq<char>, value: LiteralView)
    requires
        env.wf(),
    ensures
        ({
            let handle = env.next_handle() as int;
            let captured = env.spawn_closure();
            &&& captured.chains[handle] == env.chain()
            &&& captured.chain() == env.chain()
            &&& captured.define(name, value).chains[handle] == env.chain()
            &&& captured.lower_scope().chains[handle] == env.chain()
            &&& match captured.assign(name, value) {
                Ok(after) => after.chains[handle] == env.chain(),
                Err(_) => true,
            }
            &&& match captured.raise_scope() {
                Ok(after) => after.chains[handle] == env.chain(),
                Err(_) => true,
            }
        }),
{
    lemma_innermost_within(env.chain(), name);
}

/// Assignment locality: an assignment in a block changes the variable of
/// the enclosing scope, and a declaration in a block leaves it as it was.
pub proof fn law_assignment_locality(
    env: EnvironmentView,
    x: Seq<char>,
    a: LiteralView,
    b: LiteralView,
    c: LiteralView,
)
    requires
        env.wf(),
    ensures
        ({
            let assigned = env.define(x, a).lower_scope().assign(x, b);
            &&& assigned is Ok
            &&& assigned->Ok_0.raise_scope() is Ok
            &&& assigned->Ok_0.raise_scope()->Ok_0.get(x) == Ok::<LiteralView, Seq<char>>(b)
        }),
        ({
            let shadowed = env.define(x, a).lower_scope().define(x, c).raise_scope();
            &&& shadowed == Ok::<EnvironmentView, Seq<char>>(env.define(x, a))
            &&& env.define(x, a).get(x) == Ok::<LiteralView, Seq<char>>(named(a, x))
        }),
{
    let outer = env.define(x, a);
    let inner = outer.lower_scope();
    lemma_define_same(env, x, a);
    lemma_lower_keeps(outer, x);
    lemma_innermost_within(inner.chain(), x);
    assert(inner.chain().drop_last() =~= outer.chain());
    let raised = inner.assign(x, b)->Ok_0.raise_scope()->Ok_0;
    lemma_innermost_alike(outer.chain(), raised.chain(), x);

    let shadow = inner.define(x, c);
    assert(shadow.chain().drop_last() =~= outer.chain());
    assert(shadow.raise_scope()->Ok_0.chains =~= outer.chains);
}

/// Assignment locality, of programs: behind `var x = a; { x = b; }` the
/// variable is `b`, and behind `var x = a; { var x = c; }` it is `a`.
pub proof fn law_assignment_locality_of_programs(
    s: InterpreterView,
    x: Seq<char>,
    a: LiteralView,
    b: LiteralView,
    c: LiteralView,
    depth: nat,
    clock: Seq<u64>,
)
    requires
        s.env.wf(),
        depth >= 4,
    ensures
        ({
            let assign = StatementView::Expr(
                ExpressionView::Assignment(x, Box::new(ExpressionView::LitExp(b))),
            );
            let program = seq![
                StatementView::Decl(x, ExpressionView::LitExp(a)),
                StatementView::Block(seq![assign]),
            ];
            let run = exec_items(s, program, 0, depth, clock);
            &&& run.result == Ok::<Option<LiteralView>, Seq<char>>(None)
            &&& run.state.env.get(x) == Ok::<LiteralView, Seq<char>>(b)
        }),
        ({
            let program = seq![
                StatementView::Decl(x, ExpressionView::LitExp(a)),
                StatementView::Block(seq![StatementView::Decl(x, ExpressionView::LitExp(c))]),
            ];
            let run = exec_items(s, program, 0, depth, clock);
            &&& run.result == Ok::<Option<LiteralView>, Seq<char>>(None)
            &&& run.state.env.get(x) == Ok::<LiteralView, Seq<char>>(named(a, x))
        }),
{
    law_assignment_locality(s.env, x, a, b, c);
    let d = (depth - 1) as nat;
    let dd = (depth - 2) as nat;
    let declared = s.define(x, a);
    let decl = StatementView::Decl(x, ExpressionView::LitExp(a));
    assert(exec_stmt(s, decl, depth, clock) == ok::<Option<LiteralView>>(declared, None)) by {
        assert(eval_expr(s, ExpressionView::LitExp(a), d, clock) == ok(s, a));
    }
    let opened = declared.with_env(declared.env.lower_scope());

    let assign = StatementView::Expr(
        ExpressionView::Assignment(x, Box::new(ExpressionView::LitExp(b))),
    );
    let first = seq![decl, StatementView::Block(seq![assign])];
    let assigned = opened.with_env(opened.env.assign(x, b)->Ok_0);
    assert(exec_stmt(opened, assign, d, clock) == ok::<Option<LiteralView>>(assigned, None)) by {
        assert(eval_expr(
            opened,
            ExpressionView::Assignment(x, Box::new(ExpressionView::LitExp(b))),
            dd,
            clock,
        ) == crate::semantics::eval_assignment(
            opened,
            x,
            ExpressionView::LitExp(b),
            (depth - 3) as nat,
            clock,
        ));
    }
    let after_first = assigned.with_env(assigned.env.raise_scope()->Ok_0);
    assert(exec_stmt(declared, StatementView::Block(seq![assign]), depth, clock) == ok::<
        Option<LiteralView>,
    >(after_first, None)) by {
        assert(run_block(declared, seq![assign], d, clock) == ok::<Option<LiteralView>>(
            after_first,
            None,
        ));
    }
    assert(exec_items(s, first, 0, depth, clock) == ok::<Option<LiteralView>>(after_first, None))
        by {
        assert(exec_items(after_first, first, 2, depth, clock) == ok::<Option<LiteralView>>(
            after_first,
            None,
        ));
        assert(exec_items(declared, first, 1, depth, clock) == ok::<Option<LiteralView>>(
            after_first,
            None,
        ));
    }

    let inner = StatementView::Decl(x, ExpressionView::LitExp(c));
    let second = seq![decl, StatementView::Block(seq![inner])];
    let shadowed = opened.define(x, c);
    assert(exec_stmt(opened, inner, d, clock) == ok::<Option<LiteralView>>(shadowed, None)) by {
        assert(eval_expr(opened, ExpressionView::LitExp(c), dd, clock) == ok(opened, c));
    }
    assert(exec_stmt(declared, StatementView::Block(seq![inner]), depth, clock) == ok::<
        Option<LiteralView>,
    >(declared, None)) by {
        assert(run_block(declared, seq![inner], d, clock) == ok::<Option<LiteralView>>(
            declared,
            None,
        ));
    }
    assert(exec_items(s, second, 0, depth, clock) == ok::<Option<LiteralView>>(declared, None)) by {
        assert(exec_items(declared, second, 2, depth, clock) == ok::<Option<LiteralView>>(
            declared,
            None,
        ));
        assert(exec_items(declared, second, 1, depth, clock) == ok::<Option<LiteralView>>(
            declared,
            None,
        ));
    }
}

/// A call of a class that succeeds yields a new instance of that very
/// class.
pub proof fn law_instance_of_class(
    s: InterpreterView,
    class: CallableView,
    args: Seq<LiteralView>,
    depth: nat,
    clock: Seq<u64>,
)
    requires
        class is Class,
    ensures
        ({
            let made = call_value(s, class, args, depth, clock);
            made.result is Ok ==> made.result == Ok::<LiteralView, Seq<char>>(
                LiteralView::InstLit(InstanceView { class: Box::new(class), fields: s.heap.len() }),
            )
        }),
{
}

/// An initializer that was called on an instance and succeeds answers with
/// that instance, whatever its body returns.
pub proof fn law_initializer_answers_instance(
    s: InterpreterView,
    name: Seq<char>,
    params: Seq<Seq<char>>,
    body: Seq<StatementView>,
    closure: Option<nat>,
    receiver: ReceiverView,
    args: Seq<LiteralView>,
    depth: nat,
    clock: Seq<u64>,
)
    ensures
        ({
            let init = CallableView::Function(
                name,
                params,
                body,
                closure,
                true,
                Some(Box::new(receiver)),
            );
            let run = call_value(s, init, args, depth, clock);
            run.result is Ok ==> run.result == Ok::<LiteralView, Seq<char>>(
                LiteralView::InstLit(receiver.this),
            )
        }),
{
}

/// Method binding: the body of a method that was fetched from an instance
/// starts in a scope in which `this` is that instance.
pub proof fn law_method_sees_instance(
    env: EnvironmentView,
    closure: Option<nat>,
    receiver: ReceiverView,
    params: Seq<Seq<char>>,
    args: Seq<LiteralView>,
)
    requires
        env.wf(),
        forall|i: int| 0 <= i < params.len() ==> params[i] != "this"@,
    ensures
        bind_parameters(
            bind_receiver(env.mount_closure(closure).lower_scope(), Some(Box::new(receiver))),
            params,
            args,
            0,
        ).get("this"@) == Ok::<LiteralView, Seq<char>>(LiteralView::InstLit(receiver.this)),
{
    let entered = env.mount_closure(closure).lower_scope();
    lemma_lower_keeps(env.mount_closure(closure), "this"@);
    lemma_define_same(entered, "this"@, LiteralView::InstLit(receiver.this));
    let with_this = entered.define("this"@, LiteralView::InstLit(receiver.this));
    reveal_strlit("this");
    reveal_strlit("super");
    match receiver.superclass {
        Some(parent) => {
            lemma_define_other(with_this, "super"@, LiteralView::CallLit(parent), "this"@);
        },
        None => {},
    }
    lemma_parameters_keep(bind_receiver(entered, Some(Box::new(receiver))), params, args, 0, "this"@);
}

/// A property that is no field is the method that the class chain gives,
/// bound to the instance it was fetched from and to the superclass of the
/// class that defines the method.
pub proof fn law_method_is_bound(
    heap: Seq<Map<Seq<char>, LiteralView>>,
    instance: InstanceView,
    name: Seq<char>,
    found: FoundMethod,
)
    requires
        !(instance.fields < heap.len() && heap[instance.fields as int].contains_key(name)),
        instance.class.resolve(name) == Some(found),
    ensures
        property(heap, instance, name) == Ok::<LiteralView, Seq<char>>(
            LiteralView::CallLit(bound(found.method, instance, found.superclass)),
        ),
{
}

/// Method lookup walks the superclass chain: a class that does not declare
/// a method has what its superclass has, with the superclass that goes
/// with it there; a class that declares it has its own, with its own
/// superclass.
pub proof fn law_method_lookup(
    name: Seq<char>,
    parent: Option<Box<CallableView>>,
    methods: Seq<CallableView>,
    method: Seq<char>,
)
    ensures
        ({
            let class = CallableView::Class(name, parent, methods);
            match lookup_method(methods, method, 0) {
                Some(m) => class.resolve(method) == Some(
                    FoundMethod {
                        method: m,
                        superclass: match parent {
                            Some(p) => Some(*p),
                            None => None,
                        },
                    },
                ),
                None => match parent {
                    Some(p) => class.resolve(method) == p.resolve(method),
                    None => class.resolve(method) is None,
                },
            }
        }),
{
}

/// Super dispatch: `super.m` is the method that lookup from the bound
/// superclass gives, bound to the instance that `this` is; the class of
/// that instance, and what it declares, has no part in it.
pub proof fn law_super_dispatch(
    s: InterpreterView,
    method: Seq<char>,
    parent: CallableView,
    this: InstanceView,
    found: FoundMethod,
    depth: nat,
    clock: Seq<u64>,
)
    requires
        depth >= 1,
        s.env.get("super"@) == Ok::<LiteralView, Seq<char>>(LiteralView::CallLit(parent)),
        s.env.get("this"@) == Ok::<LiteralView, Seq<char>>(LiteralView::InstLit(this)),
        parent.resolve(method) == Some(found),
    ensures
        eval_expr(s, ExpressionView::Super(method), depth, clock) == ok(
            s,
            LiteralView::CallLit(bound(found.method, this, found.superclass)),
        ),
{
}

} // verus!
