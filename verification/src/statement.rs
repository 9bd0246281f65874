//! Statements of the syntax tree.

use vstd::prelude::*;
use crate::expression::{Expression, ExpressionView};

verus! {

#[derive(Debug, PartialEq)]
pub enum Statement {
    Decl(String, Box<Expression>),
    Expr(Box<Expression>),
    Print(Box<Expression>),
    Block(Vec<Box<Statement>>),
    /// The returned expression and the source line of the `return`.
    Return(Box<Expression>, usize),
    If(Box<Expression>, Box<Statement>, Option<Box<Statement>>),
    While(Box<Expression>, Box<Statement>),
    /// Name, parameter names, body.
    Fun(String, Vec<String>, Vec<Box<Statement>>),
    /// Name, superclass name (empty where there is none), method definitions.
    Class(String, String, Vec<Box<Statement>>),
}

/// The mathematical tree that a [`Statement`] stands for.
pub enum StatementView {
    Decl(Seq<char>, ExpressionView),
    Expr(ExpressionView),
    Print(ExpressionView),
    Block(Seq<StatementView>),
    Return(ExpressionView, nat),
    If(ExpressionView, Box<StatementView>, Option<Box<StatementView>>),
    While(ExpressionView, Box<StatementView>),
    Fun(Seq<char>, Seq<Seq<char>>, Seq<StatementView>),
    Class(Seq<char>, Seq<char>, Seq<StatementView>),
}

/// The views of a sequence of boxed statements, in order.
pub open spec fn statement_views(items: Seq<Box<Statement>>) -> Seq<StatementView> {
    Seq::new(items.len(), |i: int| items[i]@)
}

/// The views of a sequence of statements, in order.
pub open spec fn program_view(items: Seq<Statement>) -> Seq<StatementView> {
    Seq::new(items.len(), |i: int| items[i]@)
}

/// The views of a sequence of strings, in order.
pub open spec fn name_views(items: Seq<String>) -> Seq<Seq<char>> {
    Seq::new(items.len(), |i: int| items[i]@)
}

/// A copy of a list of statements.
pub fn duplicate_program(items: &Vec<Statement>) -> (copy: Vec<Statement>)
    ensures
        program_view(copy@) == program_view(items@),
{
    let mut copy: Vec<Statement> = Vec::new();
    let mut i: usize = 0;
    while i < items.len()
        invariant
            i <= items.len(),
            copy.len() == i,
            forall|j: int| 0 <= j < i ==> copy[j]@ == items[j]@,
        decreases items.len() - i,
    {
        copy.push(items[i].duplicate());
        i += 1;
    }
    copy
}

/// A copy of a list of names.
pub fn duplicate_names(names: &Vec<String>) -> (copy: Vec<String>)
    ensures
        name_views(copy@) == name_views(names@),
{
    let mut copy: Vec<String> = Vec::new();
    let mut i: usize = 0;
    while i < names.len()
        invariant
            i <= names.len(),
            copy.len() == i,
            forall|j: int| 0 <= j < i ==> copy[j]@ == names[j]@,
        decreases names.len() - i,
    {
        copy.push(names[i].clone());
        i += 1;
    }
    copy
}

/// A copy of a list of statements.
pub fn duplicate_block(items: &Vec<Box<Statement>>) -> (copy: Vec<Box<Statement>>)
    ensures
        statement_views(copy@) == statement_views(items@),
    decreases items,
{
    let mut copy: Vec<Box<Statement>> = Vec::new();
    let mut i: usize = 0;
    while i < items.len()
        invariant
            i <= items.len(),
            copy.len() == i,
            forall|j: int| 0 <= j < i ==> copy[j]@ == items[j]@,
        decreases items.len() - i,
    {
        copy.push(Box::new(items[i].duplicate()));
        i += 1;
    }
    copy
}

impl Clone for Statement {
    fn clone(&self) -> (copy: Statement)
        ensures
            copy@ == self@,
    {
        self.duplicate()
    }
}

impl Statement {
    pub open spec fn view(&self) -> StatementView
        decreases self,
    {
        match self {
            Statement::Decl(name, e) => StatementView::Decl(name@, e@),
            Statement::Expr(e) => StatementView::Expr(e@),
            Statement::Print(e) => StatementView::Print(e@),
            Statement::Block(items) => StatementView::Block(
                Seq::new(
                    items.len() as nat,
                    |i: int|
                        if 0 <= i < items.len() {
                            items[i]@
                        } else {
                            StatementView::Block(Seq::empty())
                        },
                ),
            ),
            Statement::Return(e, line) => StatementView::Return(e@, *line as nat),
            Statement::If(c, t, e) => StatementView::If(
                c@,
                Box::new(t@),
                match e {
                    Some(s) => Some(Box::new(s@)),
                    None => None,
                },
            ),
            Statement::While(c, body) => StatementView::While(c@, Box::new(body@)),
            Statement::Fun(name, params, body) => StatementView::Fun(
                name@,
                name_views(params@),
                Seq::new(
                    body.len() as nat,
                    |i: int|
                        if 0 <= i < body.len() {
                            body[i]@
                        } else {
                            StatementView::Block(Seq::empty())
                        },
                ),
            ),
            Statement::Class(name, parent, methods) => StatementView::Class(
                name@,
                parent@,
                Seq::new(
                    methods.len() as nat,
                    |i: int|
                        if 0 <= i < methods.len() {
                            methods[i]@
                        } else {
                            StatementView::Block(Seq::empty())
                        },
                ),
            ),
        }
    }

    /// The block of these statements.
    pub fn block(items: Vec<Box<Statement>>) -> (s: Statement)
        ensures
            s@ == StatementView::Block(statement_views(items@)),
    {
        let s = Statement::Block(items);
        assert(s@->Block_0 =~= statement_views(items@));
        s
    }

    /// The declaration of a function.
    pub fn function(name: String, params: Vec<String>, body: Vec<Box<Statement>>) -> (s: Statement)
        ensures
            s@ == StatementView::Fun(name@, name_views(params@), statement_views(body@)),
    {
        let s = Statement::Fun(name, params, body);
        assert(s@->Fun_2 =~= statement_views(body@));
        s
    }

    /// The declaration of a class.
    pub fn class(name: String, parent: String, methods: Vec<Box<Statement>>) -> (s: Statement)
        ensures
            s@ == StatementView::Class(name@, parent@, statement_views(methods@)),
    {
        let s = Statement::Class(name, parent, methods);
        assert(s@->Class_2 =~= statement_views(methods@));
        s
    }

    /// A copy that stands for the same tree.
    pub fn duplicate(&self) -> (copy: Statement)
        ensures
            copy@ == self@,
        decreases self,
    {
        match self {
            Statement::Decl(name, e) => Statement::Decl(name.clone(), Box::new(e.duplicate())),
            Statement::Expr(e) => Statement::Expr(Box::new(e.duplicate())),
            Statement::Print(e) => Statement::Print(Box::new(e.duplicate())),
            Statement::Block(items) => {
                let copy = Statement::Block(duplicate_block(items));
                assert(copy@->Block_0 =~= statement_views(items@));
                assert(self@->Block_0 =~= statement_views(items@));
                copy
            },
            Statement::Return(e, line) => Statement::Return(Box::new(e.duplicate()), *line),
            Statement::If(c, t, e) => {
                let other = match e {
                    Some(s) => Some(Box::new(s.duplicate())),
                    None => None,
                };
                Statement::If(Box::new(c.duplicate()), Box::new(t.duplicate()), other)
            },
            Statement::While(c, body) => Statement::While(
                Box::new(c.duplicate()),
                Box::new(body.duplicate()),
            ),
            Statement::Fun(name, params, body) => {
                let copy = Statement::Fun(name.clone(), duplicate_names(params), duplicate_block(body));
                assert(copy@->Fun_2 =~= statement_views(body@));
                assert(self@->Fun_2 =~= statement_views(body@));
                copy
            },
            Statement::Class(name, parent, methods) => {
                let copy = Statement::Class(name.clone(), parent.clone(), duplicate_block(methods));
                assert(copy@->Class_2 =~= statement_views(methods@));
                assert(self@->Class_2 =~= statement_views(methods@));
                copy
            },
        }
    }
}

} // verus!
