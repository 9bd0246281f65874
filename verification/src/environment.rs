//! The environment: a stack of scopes, the copies of it that functions have
//! captured, and the captured copy that is mounted at the moment.

use vstd::prelude::*;
use vstd::string::StringExecFns;
use crate::callable::{Callable, CallableView};
use crate::node::{Literal, LiteralView};
use crate::scope::Scope;

verus! {

/// A stack of scopes, the innermost last.
pub type ChainView = Seq<Map<Seq<char>, LiteralView>>;

/// The mathematical value of a [`LoxEnvironment`]: all its chains of scopes
/// (`chains[0]` is its own, every other one a captured copy, found by its
/// handle), and the handles of the mounted chains, the innermost last.
pub struct EnvironmentView {
    pub chains: Seq<ChainView>,
    pub mounted: Seq<nat>,
}

/// The index of the innermost scope of a chain that binds `name`.
pub open spec fn innermost(chain: ChainView, name: Seq<char>) -> Option<int>
    decreases chain.len(),
{
    if chain.len() == 0 {
        None
    } else if chain.last().contains_key(name) {
        Some(chain.len() - 1)
    } else {
        innermost(chain.drop_last(), name)
    }
}

/// A function or class that has no name yet takes the name it is defined
/// under; any other value stays as it is.
pub open spec fn named(value: LiteralView, name: Seq<char>) -> LiteralView {
    match value {
        LiteralView::CallLit(CallableView::Function(n, params, body, closure, flag, receiver)) => if n.len()
            == 0 {
            LiteralView::CallLit(CallableView::Function(name, params, body, closure, flag, receiver))
        } else {
            value
        },
        LiteralView::CallLit(CallableView::Class(n, parent, methods)) => if n.len() == 0 {
            LiteralView::CallLit(CallableView::Class(name, parent, methods))
        } else {
            value
        },
        _ => value,
    }
}

pub open spec fn undefined_variable(name: Seq<char>) -> Seq<char> {
    "Undefined variable "@ + name + "."@
}

impl EnvironmentView {
    /// Every chain has a scope, and every mounted handle names a chain.
    pub open spec fn wf(self) -> bool {
        &&& self.chains.len() >= 1
        &&& forall|i: int| 0 <= i < self.chains.len() ==> (#[trigger] self.chains[i]).len() >= 1
        &&& forall|i: int| 0 <= i < self.mounted.len() ==> (#[trigger] self.mounted[i]) < self.chains.len()
    }

    /// The handle of the chain that operations work on: the one mounted
    /// last, or the environment's own.
    pub open spec fn current(self) -> nat {
        if self.mounted.len() > 0 {
            self.mounted.last()
        } else {
            0
        }
    }

    /// The chain that operations work on.
    pub open spec fn chain(self) -> ChainView {
        self.chains[self.current() as int]
    }

    pub open spec fn with_chain(self, chain: ChainView) -> EnvironmentView {
        EnvironmentView { chains: self.chains.update(self.current() as int, chain), ..self }
    }

    /// `name` is bound in the innermost scope, in place of what it was
    /// bound to there.
    pub open spec fn define(self, name: Seq<char>, value: LiteralView) -> EnvironmentView {
        let chain = self.chain();
        self.with_chain(
            chain.update(chain.len() - 1, chain.last().insert(name, named(value, name))),
        )
    }

    /// The value of `name` in the innermost scope that binds it.
    pub open spec fn get(self, name: Seq<char>) -> Result<LiteralView, Seq<char>> {
        match innermost(self.chain(), name) {
            Some(i) => Ok(self.chain()[i][name]),
            None => Err(undefined_variable(name)),
        }
    }

    /// `name` is bound anew in the innermost scope that binds it.
    pub open spec fn assign(self, name: Seq<char>, value: LiteralView) -> Result<
        EnvironmentView,
        Seq<char>,
    > {
        match innermost(self.chain(), name) {
            Some(i) => Ok(self.with_chain(self.chain().update(i, self.chain()[i].insert(name, value)))),
            None => Err(undefined_variable(name)),
        }
    }

    pub open spec fn lower_scope(self) -> EnvironmentView {
        self.with_chain(self.chain().push(Map::empty()))
    }

    pub open spec fn raise_scope(self) -> Result<EnvironmentView, Seq<char>> {
        if self.chain().len() > 1 {
            Ok(self.with_chain(self.chain().drop_last()))
        } else {
            Err("Attempted to raise past global scope."@)
        }
    }

    /// The handle that `spawn_closure` gives out next.
    pub open spec fn next_handle(self) -> nat {
        self.chains.len()
    }

    /// A copy of the current chain is kept under a new handle.
    pub open spec fn spawn_closure(self) -> EnvironmentView {
        EnvironmentView { chains: self.chains.push(self.chain()), ..self }
    }

    /// The chain that a handle names; the current one where it names none.
    pub open spec fn target(self, handle: Option<nat>) -> nat {
        match handle {
            Some(h) => if h < self.chains.len() {
                h
            } else {
                self.current()
            },
            None => self.current(),
        }
    }

    pub open spec fn mount_closure(self, handle: Option<nat>) -> EnvironmentView {
        EnvironmentView { mounted: self.mounted.push(self.target(handle)), ..self }
    }

    pub open spec fn unmount_closure(self) -> Result<EnvironmentView, Seq<char>> {
        if self.mounted.len() > 0 {
            Ok(EnvironmentView { mounted: self.mounted.drop_last(), ..self })
        } else {
            Err("Attempted to unmount outermost scope as a closure."@)
        }
    }

    /// `name` is bound in the innermost scope of the chain that `handle`
    /// names, and nothing else changes.
    pub open spec fn define_within(self, handle: nat, name: Seq<char>, value: LiteralView) -> EnvironmentView {
        let inside = self.mount_closure(Some(handle)).define(name, value);
        EnvironmentView { mounted: self.mounted, ..inside }
    }
}

pub struct LoxEnvironment {
    chains: Vec<Vec<Scope>>,
    mounted: Vec<usize>,
}

/// The views of the scopes of a chain, in order.
pub open spec fn chain_view(chain: Seq<Scope>) -> ChainView {
    Seq::new(chain.len(), |i: int| chain[i]@)
}

proof fn lemma_innermost_prefix(chain: ChainView, name: Seq<char>, upto: int)
    requires
        0 <= upto <= chain.len(),
        forall|i: int| upto <= i < chain.len() ==> !chain[i].contains_key(name),
    ensures
        innermost(chain, name) == innermost(chain.subrange(0, upto), name),
    decreases chain.len() - upto,
{
    if upto < chain.len() {
        lemma_innermost_prefix(chain.drop_last(), name, upto);
        assert(chain.drop_last().subrange(0, upto) =~= chain.subrange(0, upto));
    } else {
        assert(chain.subrange(0, upto) =~= chain);
    }
}

proof fn lemma_innermost_found(chain: ChainView, name: Seq<char>, at: int)
    requires
        0 <= at < chain.len(),
        chain[at].contains_key(name),
        forall|i: int| at < i < chain.len() ==> !chain[i].contains_key(name),
    ensures
        innermost(chain, name) == Some(at),
{
    lemma_innermost_prefix(chain, name, at + 1);
}

proof fn lemma_innermost_none(chain: ChainView, name: Seq<char>)
    requires
        forall|i: int| 0 <= i < chain.len() ==> !chain[i].contains_key(name),
    ensures
        innermost(chain, name) is None,
{
    lemma_innermost_prefix(chain, name, 0);
}

/// Gives a nameless function or class the name it is defined under.
fn stamp(value: Literal, name: &str) -> (r: Literal)
    ensures
        r@ == named(value@, name@),
{
    match value {
        Literal::CallLit(Callable::Function(n, params, body, closure, flag, receiver)) => {
            let fresh = if n == String::new() {
                String::from_str(name)
            } else {
                n
            };
            let r = Literal::CallLit(Callable::Function(fresh, params, body, closure, flag, receiver));
            assert(n@.len() == 0 <==> n@ =~= Seq::<char>::empty());
            r
        },
        Literal::CallLit(Callable::Class(n, parent, methods)) => {
            let fresh = if n == String::new() {
                String::from_str(name)
            } else {
                n
            };
            let r = Literal::CallLit(Callable::Class(fresh, parent, methods));
            assert(n@.len() == 0 <==> n@ =~= Seq::<char>::empty());
            r
        },
        other => other,
    }
}

impl LoxEnvironment {
    pub closed spec fn view(&self) -> EnvironmentView {
        EnvironmentView {
            chains: Seq::new(self.chains.len() as nat, |i: int| chain_view(self.chains[i]@)),
            mounted: Seq::new(self.mounted.len() as nat, |i: int| self.mounted[i] as nat),
        }
    }

    /// One chain with one empty scope, and nothing mounted.
    pub fn new() -> (env: LoxEnvironment)
        ensures
            env@.wf(),
            env@ == (EnvironmentView { chains: seq![seq![Map::empty()]], mounted: Seq::empty() }),
    {
        let mut own: Vec<Scope> = Vec::new();
        own.push(Scope::new());
        let mut chains: Vec<Vec<Scope>> = Vec::new();
        chains.push(own);
        let env = LoxEnvironment { chains, mounted: Vec::new() };
        assert(env@.mounted =~= Seq::<nat>::empty());
        assert(env@.chains =~~= seq![seq![Map::<Seq<char>, LiteralView>::empty()]]);
        env
    }

    fn current(&self) -> (at: usize)
        requires
            self@.wf(),
        ensures
            at == self@.current(),
            at < self.chains.len(),
    {
        if self.mounted.len() > 0 {
            let at = self.mounted[self.mounted.len() - 1];
            assert(self@.mounted[self.mounted.len() - 1] == at);
            at
        } else {
            0
        }
    }

    /// The index of the innermost scope of the current chain that binds
    /// `name`.
    fn find(&self, name: &str) -> (found: Option<usize>)
        requires
            self@.wf(),
        ensures
            match found {
                Some(i) => innermost(self@.chain(), name@) == Some(i as int) && i
                    < self@.chain().len() && self@.chain()[i as int].contains_key(name@),
                None => innermost(self@.chain(), name@) is None,
            },
    {
        let at = self.current();
        let chain = &self.chains[at];
        let mut i: usize = chain.len();
        while i > 0
            invariant
                i <= chain.len(),
                self@.chain() == chain_view(chain@),
                forall|j: int| i <= j < chain.len() ==> !chain_view(chain@)[j].contains_key(name@),
            decreases i,
        {
            i -= 1;
            if chain[i].contains(name) {
                proof {
                    lemma_innermost_found(chain_view(chain@), name@, i as int);
                }
                return Some(i);
            }
        }
        proof {
            lemma_innermost_none(chain_view(chain@), name@);
        }
        None
    }

    pub fn define(&mut self, name: &str, value: Literal)
        requires
            old(self)@.wf(),
        ensures
            final(self)@.wf(),
            final(self)@ == old(self)@.define(name@, value@),
    {
        let at = self.current();
        assert(self@.chains[at as int].len() == self.chains[at as int].len());
        let top = self.chains[at].len() - 1;
        let stamped = stamp(value, name);
        self.chains[at][top].set(name, stamped);
        proof {
            let expected = old(self)@.define(name@, value@);
            assert(self@.chains =~~= expected.chains);
        }
    }

    pub fn assign(&mut self, name: &str, value: Literal) -> (r: Result<Literal, String>)
        requires
            old(self)@.wf(),
        ensures
            final(self)@.wf(),
            match r {
                Ok(v) => v@ == value@ && old(self)@.assign(name@, value@) == Ok::<
                    EnvironmentView,
                    Seq<char>,
                >(final(self)@),
                Err(message) => old(self)@.assign(name@, value@) == Err::<
                    EnvironmentView,
                    Seq<char>,
                >(message@) && final(self)@ == old(self)@,
            },
    {
        match self.find(name) {
            Some(i) => {
                let at = self.current();
                let copy = value.duplicate();
                self.chains[at][i].set(name, value);
                proof {
                    let expected = old(self)@.assign(name@, value@)->Ok_0;
                    assert(self@.chains =~~= expected.chains);
                }
                Ok(copy)
            },
            None => Err(undefined(name)),
        }
    }

    pub fn get(&self, name: &str) -> (r: Result<Literal, String>)
        requires
            self@.wf(),
        ensures
            match r {
                Ok(v) => self@.get(name@) == Ok::<LiteralView, Seq<char>>(v@),
                Err(message) => self@.get(name@) == Err::<LiteralView, Seq<char>>(message@),
            },
    {
        match self.find(name) {
            Some(i) => {
                let at = self.current();
                match self.chains[at][i].get(name) {
                    Some(v) => Ok(v),
                    None => Err(undefined(name)),
                }
            },
            None => Err(undefined(name)),
        }
    }

    pub fn lower_scope(&mut self)
        requires
            old(self)@.wf(),
        ensures
            final(self)@.wf(),
            final(self)@ == old(self)@.lower_scope(),
    {
        let at = self.current();
        self.chains[at].push(Scope::new());
        proof {
            let expected = old(self)@.lower_scope();
            assert(self@.chains =~~= expected.chains);
        }
    }

    pub fn raise_scope(&mut self) -> (r: Result<(), String>)
        requires
            old(self)@.wf(),
        ensures
            final(self)@.wf(),
            match r {
                Ok(_) => old(self)@.raise_scope() == Ok::<EnvironmentView, Seq<char>>(final(self)@),
                Err(message) => old(self)@.raise_scope() == Err::<EnvironmentView, Seq<char>>(
                    message@,
                ) && final(self)@ == old(self)@,
            },
    {
        let at = self.current();
        if self.chains[at].len() > 1 {
            self.chains[at].pop();
            proof {
                let expected = old(self)@.raise_scope()->Ok_0;
                assert(self@.chains =~~= expected.chains);
            }
            Ok(())
        } else {
            Err(String::from_str("Attempted to raise past global scope."))
        }
    }

    /// Keeps a copy of the current chain and hands out its handle.
    pub fn spawn_closure(&mut self) -> (handle: usize)
        requires
            old(self)@.wf(),
        ensures
            final(self)@.wf(),
            final(self)@ == old(self)@.spawn_closure(),
            handle == old(self)@.next_handle(),
    {
        let at = self.current();
        let handle = self.chains.len();
        let mut copy: Vec<Scope> = Vec::new();
        let mut i: usize = 0;
        while i < self.chains[at].len()
            invariant
                at < self.chains.len(),
                i <= self.chains[at as int].len(),
                copy.len() == i,
                forall|j: int| 0 <= j < i ==> copy[j]@ == self.chains[at as int][j]@,
            decreases self.chains[at as int].len() - i,
        {
            copy.push(self.chains[at][i].duplicate());
            i += 1;
        }
        self.chains.push(copy);
        proof {
            let expected = old(self)@.spawn_closure();
            assert(self@.chains =~~= expected.chains);
        }
        handle
    }

    /// Turns all operations to the chain that `target` names, until the
    /// matching `unmount_closure`. `None`, or a handle that names no chain,
    /// mounts the current chain once more.
    pub fn mount_closure(&mut self, target: &Option<usize>)
        requires
            old(self)@.wf(),
        ensures
            final(self)@.wf(),
            final(self)@ == old(self)@.mount_closure(
                match *target {
                    Some(h) => Some(h as nat),
                    None => None,
                },
            ),
    {
        let at = match target {
            Some(h) => if *h < self.chains.len() {
                *h
            } else {
                self.current()
            },
            None => self.current(),
        };
        self.mounted.push(at);
        proof {
            let expected = old(self)@.mount_closure(
                match *target {
                    Some(h) => Some(h as nat),
                    None => None,
                },
            );
            assert(self@.mounted =~= expected.mounted);
        }
    }

    /// Binds `name` in the innermost scope of a captured chain.
    pub fn define_within(&mut self, handle: usize, name: &str, value: Literal)
        requires
            old(self)@.wf(),
        ensures
            final(self)@.wf(),
            final(self)@ == old(self)@.define_within(handle as nat, name@, value@),
    {
        self.mount_closure(&Some(handle));
        self.define(name, value);
        let _ = self.unmount_closure();
        proof {
            let expected = old(self)@.define_within(handle as nat, name@, value@);
            assert(self@.mounted =~= expected.mounted);
        }
    }

    pub fn unmount_closure(&mut self) -> (r: Result<(), String>)
        requires
            old(self)@.wf(),
        ensures
            final(self)@.wf(),
            match r {
                Ok(_) => old(self)@.unmount_closure() == Ok::<EnvironmentView, Seq<char>>(
                    final(self)@,
                ),
                Err(message) => old(self)@.unmount_closure() == Err::<EnvironmentView, Seq<char>>(
                    message@,
                ) && final(self)@ == old(self)@,
            },
    {
        if self.mounted.len() > 0 {
            self.mounted.pop();
            proof {
                let expected = old(self)@.unmount_closure()->Ok_0;
                assert(self@.mounted =~= expected.mounted);
            }
            Ok(())
        } else {
            Err(String::from_str("Attempted to unmount outermost scope as a closure."))
        }
    }
}

fn undefined(name: &str) -> (message: String)
    ensures
        message@ == undefined_variable(name@),
{
    let mut message = String::from_str("Undefined variable ");
    message.append(name);
    message.append(".");
    message
}

} // verus!
