//! The parser only moves forward: every function of the grammar leaves the
//! cursor at or behind the place it started from and within the tokens, and
//! whatever it reads takes at least one token.

use vstd::prelude::*;
use crate::expression::ExpressionView;
use crate::grammar::{
    advance, advanced, arguments, arguments_rest, assignment, binary, binary_rest, block,
    block_statement, call, call_rest, class, class_body, condition, expression,
    expression_statement, for_condition, for_increment, for_initializer, for_loop, function,
    if_statement, kept, methods, parameters, parameters_rest, primary, print_statement,
    return_statement, statement, stmt_decl, stmt_nestable, synchronize, unary, while_statement,
    Cursor, Parsed,
};
use crate::statement::StatementView;
use crate::token::TokenView;

verus! {

/// The outcome lies at or behind `from`, and within the tokens.
pub open spec fn forward<T>(tokens: Seq<TokenView>, from: Cursor, p: Parsed<T>) -> bool {
    from.at <= p.cursor.at <= tokens.len()
}

/// The outcome lies at or behind `from`, and behind it where something was
/// read.
pub open spec fn consuming<T>(tokens: Seq<TokenView>, from: Cursor, p: Parsed<T>) -> bool {
    &&& forward(tokens, from, p)
    &&& p.value is Some ==> from.at < p.cursor.at
}

proof fn lemma_synchronize(tokens: Seq<TokenView>, c: Cursor)
    requires
        c.at <= tokens.len(),
    ensures
        c.at <= synchronize(tokens, c).at <= tokens.len(),
        c.at < tokens.len() ==> c.at < synchronize(tokens, c).at,
    decreases tokens.len() - c.at,
{
    if c.at < tokens.len() {
        lemma_synchronize(tokens, crate::grammar::step(c));
    }
}

proof fn lemma_parameters_rest(tokens: Seq<TokenView>, c: Cursor, seen: Seq<Seq<char>>)
    requires
        c.at <= tokens.len(),
    ensures
        consuming(tokens, c, parameters_rest(tokens, c, seen)),
    decreases tokens.len() - c.at,
{
    let after = crate::grammar::step(crate::grammar::step(c));
    if after.at <= tokens.len() {
        lemma_parameters_rest(tokens, after, seen.push(Seq::empty()));
        match crate::grammar::identifier_at(tokens, c) {
            Some(name) => lemma_parameters_rest(tokens, after, seen.push(name)),
            None => {},
        }
    }
}

proof fn lemma_expression(tokens: Seq<TokenView>, c: Cursor)
    requires
        c.at <= tokens.len(),
    ensures
        consuming(tokens, c, expression(tokens, c)),
    decreases tokens.len() - c.at, 30nat,
{
    lemma_assignment(tokens, c);
}

proof fn lemma_assignment(tokens: Seq<TokenView>, c: Cursor)
    requires
        c.at <= tokens.len(),
    ensures
        consuming(tokens, c, assignment(tokens, c)),
    decreases tokens.len() - c.at, 29nat,
{
    lemma_binary(tokens, c, 0);
    let left = binary(tokens, c, 0);
    if left.value is Some && left.cursor.at < tokens.len() {
        lemma_expression(tokens, crate::grammar::step(left.cursor));
    }
}

proof fn lemma_binary(tokens: Seq<TokenView>, c: Cursor, level: nat)
    requires
        c.at <= tokens.len(),
    ensures
        consuming(tokens, c, binary(tokens, c, level)),
    decreases tokens.len() - c.at,
        (if level >= 5 {
            18
        } else {
            28 - 2 * level
        }),
{
    if level >= 5 {
        lemma_unary(tokens, c);
        let first = unary(tokens, c);
        match first.value {
            Some(left) => lemma_binary_rest(tokens, first.cursor, left, 5),
            None => {},
        }
    } else {
        lemma_binary(tokens, c, level + 1);
        let first = binary(tokens, c, level + 1);
        match first.value {
            Some(left) => lemma_binary_rest(tokens, first.cursor, left, level),
            None => {},
        }
    }
}

proof fn lemma_binary_rest(tokens: Seq<TokenView>, c: Cursor, left: ExpressionView, level: nat)
    requires
        c.at <= tokens.len(),
    ensures
        forward(tokens, c, binary_rest(tokens, c, left, level)),
    decreases tokens.len() - c.at,
        (if level >= 5 {
            17
        } else {
            27 - 2 * level
        }),
{
    if level <= 5 {
        match crate::grammar::peek(tokens, c) {
            Some(kind) => match crate::grammar::operator_at(level, kind) {
                Some(op) => {
                    let after = crate::grammar::step(c);
                    if level == 5 {
                        lemma_unary(tokens, after);
                    } else {
                        lemma_binary(tokens, after, level + 1);
                    }
                    let right = if level == 5 {
                        unary(tokens, after)
                    } else {
                        binary(tokens, after, level + 1)
                    };
                    match right.value {
                        Some(r) => lemma_binary_rest(
                            tokens,
                            right.cursor,
                            crate::grammar::join(left, op, r),
                            level,
                        ),
                        None => {},
                    }
                },
                None => {},
            },
            None => {},
        }
    }
}

proof fn lemma_unary(tokens: Seq<TokenView>, c: Cursor)
    requires
        c.at <= tokens.len(),
    ensures
        consuming(tokens, c, unary(tokens, c)),
    decreases tokens.len() - c.at, 16nat,
{
    if c.at < tokens.len() {
        lemma_unary(tokens, crate::grammar::step(c));
    }
    lemma_call(tokens, c);
}

proof fn lemma_call(tokens: Seq<TokenView>, c: Cursor)
    requires
        c.at <= tokens.len(),
    ensures
        consuming(tokens, c, call(tokens, c)),
    decreases tokens.len() - c.at, 15nat,
{
    lemma_primary(tokens, c);
    let head = primary(tokens, c);
    match head.value {
        Some(e) => lemma_call_rest(
            tokens,
            head.cursor,
            e,
            crate::grammar::line_at(tokens, c.at + 1),
        ),
        None => {},
    }
}

proof fn lemma_call_rest(tokens: Seq<TokenView>, c: Cursor, callee: ExpressionView, line: nat)
    requires
        c.at <= tokens.len(),
    ensures
        forward(tokens, c, call_rest(tokens, c, callee, line)),
    decreases tokens.len() - c.at, 13nat,
{
    if c.at < tokens.len() {
        let after = crate::grammar::step(c);
        lemma_arguments(tokens, after);
        let list = arguments(tokens, after);
        match list.value {
            Some(items) => lemma_call_rest(
                tokens,
                list.cursor,
                ExpressionView::Call(Box::new(callee), items, line),
                line,
            ),
            None => {},
        }
        match crate::grammar::identifier_at(tokens, after) {
            Some(name) => lemma_call_rest(
                tokens,
                crate::grammar::step(after),
                ExpressionView::Getter(Box::new(callee), name),
                line,
            ),
            None => {},
        }
    }
}

proof fn lemma_arguments(tokens: Seq<TokenView>, c: Cursor)
    requires
        c.at <= tokens.len(),
    ensures
        consuming(tokens, c, arguments(tokens, c)),
    decreases tokens.len() - c.at, 41nat,
{
    lemma_arguments_rest(tokens, c, Seq::empty());
}

proof fn lemma_arguments_rest(tokens: Seq<TokenView>, c: Cursor, seen: Seq<ExpressionView>)
    requires
        c.at <= tokens.len(),
    ensures
        consuming(tokens, c, arguments_rest(tokens, c, seen)),
    decreases tokens.len() - c.at, 40nat,
{
    lemma_expression(tokens, c);
    let item = expression(tokens, c);
    match item.value {
        Some(e) => {
            if item.cursor.at < tokens.len() {
                lemma_arguments_rest(tokens, crate::grammar::step(item.cursor), seen.push(e));
            }
        },
        None => {},
    }
}

proof fn lemma_primary(tokens: Seq<TokenView>, c: Cursor)
    requires
        c.at <= tokens.len(),
    ensures
        consuming(tokens, c, primary(tokens, c)),
    decreases tokens.len() - c.at, 14nat,
{
    if c.at < tokens.len() {
        lemma_expression(tokens, crate::grammar::step(c));
    }
}

proof fn lemma_statement(tokens: Seq<TokenView>, c: Cursor)
    requires
        c.at <= tokens.len(),
    ensures
        consuming(tokens, c, statement(tokens, c)),
    decreases tokens.len() - c.at, 80nat,
{
    if c.at < tokens.len() {
        lemma_stmt_decl(tokens, crate::grammar::step(c));
        lemma_function(tokens, crate::grammar::step(c));
        lemma_class(tokens, crate::grammar::step(c));
        lemma_stmt_nestable(tokens, c);
    }
}

proof fn lemma_stmt_decl(tokens: Seq<TokenView>, c: Cursor)
    requires
        c.at <= tokens.len(),
    ensures
        forward(tokens, c, stmt_decl(tokens, c)),
    decreases tokens.len() - c.at, 60nat,
{
    let first = advance(tokens, c);
    if first.value is Some && first.cursor.at < tokens.len() {
        lemma_expression(tokens, crate::grammar::step(first.cursor));
    }
}

proof fn lemma_function(tokens: Seq<TokenView>, c: Cursor)
    requires
        c.at <= tokens.len(),
    ensures
        consuming(tokens, c, function(tokens, c)),
    decreases tokens.len() - c.at, 60nat,
{
    let after = crate::grammar::step(crate::grammar::step(c));
    if after.at <= tokens.len() {
        lemma_parameters_rest(tokens, after, Seq::empty());
        let names = parameters(tokens, after);
        if names.value is Some && names.cursor.at < tokens.len() {
            lemma_block(tokens, crate::grammar::step(names.cursor), Seq::empty(), true);
        }
    }
}

proof fn lemma_class(tokens: Seq<TokenView>, c: Cursor)
    requires
        c.at <= tokens.len(),
    ensures
        forward(tokens, c, class(tokens, c)),
    decreases tokens.len() - c.at, 60nat,
{
    if c.at < tokens.len() {
        let c1 = crate::grammar::step(c);
        lemma_class_body(tokens, c1, Seq::empty(), Seq::empty());
        match crate::grammar::identifier_at(tokens, c) {
            Some(name) => {
                lemma_class_body(tokens, c1, name, Seq::empty());
                if c1.at + 2 <= tokens.len() {
                    let c3 = crate::grammar::step(crate::grammar::step(c1));
                    match crate::grammar::identifier_at(tokens, crate::grammar::step(c1)) {
                        Some(parent) => lemma_class_body(tokens, c3, name, parent),
                        None => {},
                    }
                }
            },
            None => {},
        }
    }
}

proof fn lemma_class_body(tokens: Seq<TokenView>, c: Cursor, name: Seq<char>, parent: Seq<char>)
    requires
        c.at <= tokens.len(),
    ensures
        forward(tokens, c, class_body(tokens, c, name, parent)),
    decreases tokens.len() - c.at, 95nat,
{
    if c.at < tokens.len() {
        lemma_methods(tokens, crate::grammar::step(c), Seq::empty());
    }
}

proof fn lemma_methods(tokens: Seq<TokenView>, c: Cursor, seen: Seq<StatementView>)
    requires
        c.at <= tokens.len(),
    ensures
        forward(tokens, c, methods(tokens, c, seen)),
        ({
            let method = function(tokens, c);
            method.value is Some ==> advanced(tokens, c, method.cursor)
        }),
    decreases tokens.len() - c.at, 90nat,
{
    lemma_function(tokens, c);
    let method = function(tokens, c);
    match method.value {
        Some(m) => lemma_methods(tokens, method.cursor, seen.push(m)),
        None => {},
    }
}

proof fn lemma_block(tokens: Seq<TokenView>, c: Cursor, seen: Seq<StatementView>, valid: bool)
    requires
        c.at <= tokens.len(),
    ensures
        forward(tokens, c, block(tokens, c, seen, valid)),
    decreases tokens.len() - c.at, 90nat,
{
    if c.at < tokens.len() {
        lemma_statement(tokens, c);
        let item = statement(tokens, c);
        match item.value {
            Some(s) => lemma_block(tokens, item.cursor, seen.push(s), valid),
            None => {
                lemma_synchronize(tokens, item.cursor);
                let resumed = synchronize(tokens, item.cursor);
                if c.at < resumed.at {
                    lemma_block(tokens, resumed, seen, false);
                }
            },
        }
    }
}

proof fn lemma_condition(tokens: Seq<TokenView>, c: Cursor)
    requires
        c.at <= tokens.len(),
    ensures
        consuming(tokens, c, condition(tokens, c)),
    decreases tokens.len() - c.at, 65nat,
{
    if c.at < tokens.len() {
        lemma_expression(tokens, crate::grammar::step(c));
    }
}

proof fn lemma_for_initializer(tokens: Seq<TokenView>, c: Cursor)
    requires
        c.at <= tokens.len(),
    ensures
        consuming(tokens, c, for_initializer(tokens, c)),
    decreases tokens.len() - c.at, 65nat,
{
    if c.at < tokens.len() {
        lemma_stmt_decl(tokens, crate::grammar::step(c));
    }
    lemma_expression(tokens, c);
}

proof fn lemma_for_condition(tokens: Seq<TokenView>, c: Cursor)
    requires
        c.at <= tokens.len(),
    ensures
        consuming(tokens, c, for_condition(tokens, c)),
    decreases tokens.len() - c.at, 65nat,
{
    lemma_expression(tokens, c);
}

proof fn lemma_for_increment(tokens: Seq<TokenView>, c: Cursor)
    requires
        c.at <= tokens.len(),
    ensures
        consuming(tokens, c, for_increment(tokens, c)),
    decreases tokens.len() - c.at, 65nat,
{
    lemma_expression(tokens, c);
}

proof fn lemma_for_loop(tokens: Seq<TokenView>, c: Cursor)
    requires
        c.at <= tokens.len(),
    ensures
        consuming(tokens, c, for_loop(tokens, c)),
    decreases tokens.len() - c.at, 68nat,
{
    if c.at < tokens.len() {
        let c1 = crate::grammar::step(c);
        lemma_for_initializer(tokens, c1);
        let first = for_initializer(tokens, c1);
        if first.value is Some {
            lemma_for_condition(tokens, first.cursor);
            let second = for_condition(tokens, first.cursor);
            if second.value is Some {
                lemma_for_increment(tokens, second.cursor);
                let third = for_increment(tokens, second.cursor);
                if third.value is Some {
                    lemma_stmt_nestable(tokens, third.cursor);
                }
            }
        }
    }
}

proof fn lemma_simple_statements(tokens: Seq<TokenView>, c: Cursor, line: nat)
    requires
        c.at <= tokens.len(),
    ensures
        consuming(tokens, c, print_statement(tokens, c)),
        consuming(tokens, c, expression_statement(tokens, c)),
        forward(tokens, c, return_statement(tokens, c, line)),
    decreases tokens.len() - c.at, 66nat,
{
    lemma_expression(tokens, c);
}

proof fn lemma_if_statement(tokens: Seq<TokenView>, c: Cursor)
    requires
        c.at <= tokens.len(),
    ensures
        consuming(tokens, c, if_statement(tokens, c)),
    decreases tokens.len() - c.at, 68nat,
{
    lemma_condition(tokens, c);
    let test = condition(tokens, c);
    if test.value is Some {
        lemma_stmt_nestable(tokens, test.cursor);
        let first = stmt_nestable(tokens, test.cursor);
        if first.value is Some && first.cursor.at < tokens.len() {
            lemma_stmt_nestable(tokens, crate::grammar::step(first.cursor));
        }
    }
}

proof fn lemma_while_statement(tokens: Seq<TokenView>, c: Cursor)
    requires
        c.at <= tokens.len(),
    ensures
        consuming(tokens, c, while_statement(tokens, c)),
    decreases tokens.len() - c.at, 68nat,
{
    lemma_condition(tokens, c);
    let test = condition(tokens, c);
    if test.value is Some {
        lemma_stmt_nestable(tokens, test.cursor);
    }
}

proof fn lemma_block_statement(tokens: Seq<TokenView>, c: Cursor)
    requires
        c.at <= tokens.len(),
    ensures
        forward(tokens, c, block_statement(tokens, c)),
    decreases tokens.len() - c.at, 95nat,
{
    lemma_block(tokens, c, Seq::empty(), true);
}

proof fn lemma_stmt_nestable(tokens: Seq<TokenView>, c: Cursor)
    requires
        c.at <= tokens.len(),
    ensures
        consuming(tokens, c, stmt_nestable(tokens, c)),
    decreases tokens.len() - c.at, 70nat,
{
    if c.at < tokens.len() {
        let c1 = crate::grammar::step(c);
        lemma_block_statement(tokens, c1);
        lemma_simple_statements(tokens, c1, crate::grammar::line_at(tokens, c.at + 1));
        lemma_if_statement(tokens, c1);
        lemma_while_statement(tokens, c1);
        lemma_for_loop(tokens, c1);
    }
    lemma_simple_statements(tokens, c, 0);
}

/// An expression that was read took at least one token, and no function of
/// the grammar for expressions goes back or past the end: the guard `kept`
/// changes nothing.
pub proof fn law_expressions_move_forward(tokens: Seq<TokenView>, c: Cursor)
    requires
        c.at <= tokens.len(),
    ensures
        consuming(tokens, c, expression(tokens, c)),
        kept(tokens, c, expression(tokens, c)) == expression(tokens, c),
{
    lemma_expression(tokens, c);
}

/// A function or method that was read took at least one token: the guard
/// `advanced` changes nothing where the methods of a class are read.
pub proof fn law_functions_move_forward(tokens: Seq<TokenView>, c: Cursor)
    requires
        c.at <= tokens.len(),
    ensures
        ({
            let method = function(tokens, c);
            &&& kept(tokens, c, method) == method
            &&& method.value is Some ==> advanced(tokens, c, method.cursor)
        }),
{
    lemma_function(tokens, c);
}

/// A statement that was read took at least one token, and recovery behind a
/// statement that failed takes one wherever there is one: the guards `kept`
/// and `advanced` change nothing, and parsing ends.
pub proof fn law_statements_move_forward(tokens: Seq<TokenView>, c: Cursor)
    requires
        c.at < tokens.len(),
    ensures
        ({
            let item = statement(tokens, c);
            &&& kept(tokens, c, item) == item
            &&& item.value is Some ==> advanced(tokens, c, item.cursor)
            &&& item.value is None ==> advanced(tokens, c, synchronize(tokens, item.cursor))
        }),
{
    lemma_statement(tokens, c);
    lemma_synchronize(tokens, statement(tokens, c).cursor);
}

} // verus!
