//! Expressions of the syntax tree.

use vstd::prelude::*;
use vstd::string::StringExecFns;
use crate::node::{BinaryOp, Literal, LiteralView, LogicOp, UnaryOp};

verus! {

#[derive(Debug, PartialEq)]
#[allow(inconsistent_fields)]
pub enum Expression {
    LitExp(Literal),
    Unary(UnaryOp, Box<Expression>),
    Binary { left: Box<Expression>, op: BinaryOp, right: Box<Expression> },
    Logical { left: Box<Expression>, op: LogicOp, right: Box<Expression> },
    Identifier(String),
    Grouping(Box<Expression>),
    Assignment(String, Box<Expression>),
    /// Callee, arguments, and the source line of the call.
    Call(Box<Expression>, Vec<Box<Expression>>, usize),
    Getter(Box<Expression>, String),
    /// Object, property name, value.
    Setter(Box<Expression>, String, Box<Expression>),
    This,
    Super(String),
}

/// The mathematical tree that an [`Expression`] stands for.
#[allow(inconsistent_fields)]
pub enum ExpressionView {
    LitExp(LiteralView),
    Unary(UnaryOp, Box<ExpressionView>),
    Binary { left: Box<ExpressionView>, op: BinaryOp, right: Box<ExpressionView> },
    Logical { left: Box<ExpressionView>, op: LogicOp, right: Box<ExpressionView> },
    Identifier(Seq<char>),
    Grouping(Box<ExpressionView>),
    Assignment(Seq<char>, Box<ExpressionView>),
    Call(Box<ExpressionView>, Seq<ExpressionView>, nat),
    Getter(Box<ExpressionView>, Seq<char>),
    Setter(Box<ExpressionView>, Seq<char>, Box<ExpressionView>),
    This,
    Super(Seq<char>),
}

/// The views of a sequence of boxed expressions, in order.
pub open spec fn expression_views(items: Seq<Box<Expression>>) -> Seq<ExpressionView> {
    Seq::new(items.len(), |i: int| items[i]@)
}

impl Clone for Expression {
    fn clone(&self) -> (copy: Expression)
        ensures
            copy@ == self@,
    {
        self.duplicate()
    }
}

impl Expression {
    pub open spec fn view(&self) -> ExpressionView
        decreases self,
    {
        match self {
            Expression::LitExp(l) => ExpressionView::LitExp(l@),
            Expression::Unary(op, e) => ExpressionView::Unary(*op, Box::new(e@)),
            Expression::Binary { left, op, right } => ExpressionView::Binary {
                left: Box::new(left@),
                op: *op,
                right: Box::new(right@),
            },
            Expression::Logical { left, op, right } => ExpressionView::Logical {
                left: Box::new(left@),
                op: *op,
                right: Box::new(right@),
            },
            Expression::Identifier(s) => ExpressionView::Identifier(s@),
            Expression::Grouping(e) => ExpressionView::Grouping(Box::new(e@)),
            Expression::Assignment(s, e) => ExpressionView::Assignment(s@, Box::new(e@)),
            Expression::Call(f, args, line) => ExpressionView::Call(
                Box::new(f@),
                Seq::new(
                    args.len() as nat,
                    |i: int|
                        if 0 <= i < args.len() {
                            args[i]@
                        } else {
                            ExpressionView::This
                        },
                ),
                *line as nat,
            ),
            Expression::Getter(e, s) => ExpressionView::Getter(Box::new(e@), s@),
            Expression::Setter(e, s, v) => ExpressionView::Setter(Box::new(e@), s@, Box::new(v@)),
            Expression::This => ExpressionView::This,
            Expression::Super(s) => ExpressionView::Super(s@),
        }
    }

    /// A copy that stands for the same tree.
    pub fn duplicate(&self) -> (copy: Expression)
        ensures
            copy@ == self@,
        decreases self,
    {
        match self {
            Expression::LitExp(l) => Expression::LitExp(l.duplicate()),
            Expression::Unary(op, e) => Expression::Unary(*op, Box::new(e.duplicate())),
            Expression::Binary { left, op, right } => Expression::Binary {
                left: Box::new(left.duplicate()),
                op: *op,
                right: Box::new(right.duplicate()),
            },
            Expression::Logical { left, op, right } => Expression::Logical {
                left: Box::new(left.duplicate()),
                op: *op,
                right: Box::new(right.duplicate()),
            },
            Expression::Identifier(s) => Expression::Identifier(s.clone()),
            Expression::Grouping(e) => Expression::Grouping(Box::new(e.duplicate())),
            Expression::Assignment(s, e) => Expression::Assignment(s.clone(), Box::new(e.duplicate())),
            Expression::Call(f, args, line) => {
                let mut copies: Vec<Box<Expression>> = Vec::new();
                let mut i: usize = 0;
                while i < args.len()
                    invariant
                        i <= args.len(),
                        self is Call,
                        self->Call_1 == *args,
                        copies.len() == i,
                        forall|j: int| 0 <= j < i ==> copies[j]@ == args[j]@,
                    decreases args.len() - i,
                {
                    copies.push(Box::new(args[i].duplicate()));
                    i += 1;
                }
                let copy = Expression::Call(Box::new(f.duplicate()), copies, *line);
                assert(copy@->Call_1 =~= self@->Call_1);
                copy
            },
            Expression::Getter(e, s) => Expression::Getter(Box::new(e.duplicate()), s.clone()),
            Expression::Setter(e, s, v) => Expression::Setter(
                Box::new(e.duplicate()),
                s.clone(),
                Box::new(v.duplicate()),
            ),
            Expression::This => Expression::This,
            Expression::Super(s) => Expression::Super(s.clone()),
        }
    }

    pub fn boxed_literal(l: Literal) -> (e: Box<Expression>)
        ensures
            e@ == ExpressionView::LitExp(l@),
    {
        Box::new(Expression::LitExp(l))
    }

    /// A number literal, given by the bit pattern of the double.
    pub fn boxed_number(n: u64) -> (e: Box<Expression>)
        ensures
            e@ == ExpressionView::LitExp(LiteralView::Number(n)),
    {
        assert(Literal::Number(n)@ == LiteralView::Number(n));
        Box::new(Expression::LitExp(Literal::Number(n)))
    }

    pub fn boxed_string(s: &str) -> (e: Box<Expression>)
        ensures
            e@ == ExpressionView::LitExp(LiteralView::StringData(s@)),
    {
        let text = Literal::StringData(String::from_str(s));
        assert(text@ == LiteralView::StringData(s@));
        Box::new(Expression::LitExp(text))
    }

    pub fn boxed_boolean(b: bool) -> (e: Box<Expression>)
        ensures
            e@ == ExpressionView::LitExp(LiteralView::Boolean(b)),
    {
        assert(Literal::Boolean(b)@ == LiteralView::Boolean(b));
        Box::new(Expression::LitExp(Literal::Boolean(b)))
    }

    /// A boolean literal.
    pub fn boxed_bool(b: bool) -> (e: Box<Expression>)
        ensures
            e@ == ExpressionView::LitExp(LiteralView::Boolean(b)),
    {
        Self::boxed_boolean(b)
    }

    /// The negation of a number.
    pub fn boxed_negative(e: Box<Expression>) -> (r: Box<Expression>)
        ensures
            r@ == ExpressionView::Unary(UnaryOp::Negative, Box::new(e@)),
    {
        Self::boxed_unary(UnaryOp::Negative, e)
    }

    /// The logical complement of a value.
    pub fn boxed_not(e: Box<Expression>) -> (r: Box<Expression>)
        ensures
            r@ == ExpressionView::Unary(UnaryOp::Not, Box::new(e@)),
    {
        Self::boxed_unary(UnaryOp::Not, e)
    }

    pub fn boxed_nil() -> (e: Box<Expression>)
        ensures
            e@ == ExpressionView::LitExp(LiteralView::Nil),
    {
        assert(Literal::Nil@ == LiteralView::Nil);
        Box::new(Expression::LitExp(Literal::Nil))
    }

    pub fn boxed_unary(op: UnaryOp, e: Box<Expression>) -> (r: Box<Expression>)
        ensures
            r@ == ExpressionView::Unary(op, Box::new(e@)),
    {
        Box::new(Expression::Unary(op, e))
    }

    pub fn boxed_binary(left: Box<Expression>, op: BinaryOp, right: Box<Expression>) -> (r: Box<
        Expression,
    >)
        ensures
            r@ == (ExpressionView::Binary { left: Box::new(left@), op, right: Box::new(right@) }),
    {
        Box::new(Expression::Binary { left, op, right })
    }

    pub fn boxed_logical(left: Box<Expression>, op: LogicOp, right: Box<Expression>) -> (r: Box<
        Expression,
    >)
        ensures
            r@ == (ExpressionView::Logical { left: Box::new(left@), op, right: Box::new(right@) }),
    {
        Box::new(Expression::Logical { left, op, right })
    }

    pub fn boxed_identifier(s: &str) -> (e: Box<Expression>)
        ensures
            e@ == ExpressionView::Identifier(s@),
    {
        Box::new(Expression::Identifier(String::from_str(s)))
    }

    pub fn boxed_grouping(e: Box<Expression>) -> (r: Box<Expression>)
        ensures
            r@ == ExpressionView::Grouping(Box::new(e@)),
    {
        Box::new(Expression::Grouping(e))
    }

    pub fn boxed_assignment(s: &str, e: Box<Expression>) -> (r: Box<Expression>)
        ensures
            r@ == ExpressionView::Assignment(s@, Box::new(e@)),
    {
        Box::new(Expression::Assignment(String::from_str(s), e))
    }

    pub fn boxed_call(f: Box<Expression>, args: Vec<Box<Expression>>, line: usize) -> (r: Box<
        Expression,
    >)
        ensures
            r@ == ExpressionView::Call(Box::new(f@), expression_views(args@), line as nat),
    {
        let r = Box::new(Expression::Call(f, args, line));
        assert(r@->Call_1 =~= expression_views(args@));
        r
    }

    pub fn boxed_getter(obj: Box<Expression>, name: &str) -> (r: Box<Expression>)
        ensures
            r@ == ExpressionView::Getter(Box::new(obj@), name@),
    {
        Box::new(Expression::Getter(obj, String::from_str(name)))
    }

    pub fn boxed_setter(obj: Box<Expression>, name: &str, value: Box<Expression>) -> (r: Box<
        Expression,
    >)
        ensures
            r@ == ExpressionView::Setter(Box::new(obj@), name@, Box::new(value@)),
    {
        Box::new(Expression::Setter(obj, String::from_str(name), value))
    }

    pub fn boxed_this() -> (r: Box<Expression>)
        ensures
            r@ == ExpressionView::This,
    {
        Box::new(Expression::This)
    }

    pub fn boxed_super(name: &str) -> (r: Box<Expression>)
        ensures
            r@ == ExpressionView::Super(name@),
    {
        Box::new(Expression::Super(String::from_str(name)))
    }
}

} // verus!
