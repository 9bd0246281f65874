//! Runtime values and the operator tags of the syntax tree.

use vstd::prelude::*;
use crate::callable::{Callable, CallableView};
use crate::instance::{Instance, InstanceView};

verus! {

/// A value of the language. A number is held as the bit pattern of an
/// IEEE-754 binary64.
#[derive(Debug, PartialEq)]
pub enum Literal {
    Number(u64),
    StringData(String),
    Boolean(bool),
    Nil,
    CallLit(Callable),
    InstLit(Instance),
}

/// The mathematical value that a [`Literal`] stands for.
pub enum LiteralView {
    Number(u64),
    StringData(Seq<char>),
    Boolean(bool),
    Nil,
    CallLit(CallableView),
    InstLit(InstanceView),
}

impl Clone for Literal {
    fn clone(&self) -> (copy: Literal)
        ensures
            copy@ == self@,
    {
        self.duplicate()
    }
}

impl Literal {
    pub open spec fn view(&self) -> LiteralView
        decreases self,
    {
        match self {
            Literal::Number(n) => LiteralView::Number(*n),
            Literal::StringData(s) => LiteralView::StringData(s@),
            Literal::Boolean(b) => LiteralView::Boolean(*b),
            Literal::Nil => LiteralView::Nil,
            Literal::CallLit(c) => LiteralView::CallLit(c@),
            Literal::InstLit(i) => LiteralView::InstLit(i@),
        }
    }

    /// A copy that stands for the same value.
    pub fn duplicate(&self) -> (copy: Literal)
        ensures
            copy@ == self@,
        decreases self,
    {
        match self {
            Literal::Number(n) => Literal::Number(*n),
            Literal::StringData(s) => Literal::StringData(s.clone()),
            Literal::Boolean(b) => Literal::Boolean(*b),
            Literal::Nil => Literal::Nil,
            Literal::CallLit(c) => Literal::CallLit(c.duplicate()),
            Literal::InstLit(i) => Literal::InstLit(i.duplicate()),
        }
    }
}

#[derive(Debug, PartialEq, Eq, Clone, Copy, Structural)]
pub enum UnaryOp {
    Negative,
    Not,
}

#[derive(Debug, PartialEq, Eq, Clone, Copy, Structural)]
pub enum BinaryOp {
    Equal,
    NotEqual,
    Less,
    LessEqual,
    Greater,
    GreaterEqual,
    Add,
    Subtract,
    Multiply,
    Divide,
    Modulo,
}

#[derive(Debug, PartialEq, Eq, Clone, Copy, Structural)]
pub enum LogicOp {
    And,
    Or,
}

} // verus!
