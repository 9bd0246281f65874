//! The grammar as a function from token sequences to syntax trees.
//!
//! ```text
//! program     → declaration* EOF
//! declaration → "var" IDENT ("=" expression)? ";"
//!             | "fun" function | "class" IDENT ("<" IDENT)? "{" function* "}"
//!             | statement
//! function    → IDENT "(" parameters? ")" block
//! statement   → exprStmt | printStmt | block | ifStmt | whileStmt | forStmt | returnStmt
//! expression  → assignment
//! assignment  → (call ".")? IDENT "=" assignment | logic_or
//! logic_or … factor → the binary levels, each left-associative
//! unary       → ("!" | "-") unary | call
//! call        → primary ("(" arguments? ")" | "." IDENT)*
//! ```
//!
//! Every function takes the tokens and a cursor and answers with the cursor
//! it reached and the tree it read, if it read one. Messages are added to
//! the cursor as they arise.

use vstd::prelude::*;
use crate::error::error_text;
use crate::expression::ExpressionView;
use crate::node::{BinaryOp, LiteralView, LogicOp, UnaryOp};
use crate::statement::StatementView;
use crate::token::{TokenDataView, TokenKind, TokenView};

verus! {

/// How far the parser has come: the number of tokens it has consumed and
/// the messages it has collected.
pub struct Cursor {
    pub at: nat,
    pub errors: Seq<Seq<char>>,
}

/// The outcome of reading one construct.
pub struct Parsed<T> {
    pub cursor: Cursor,
    pub value: Option<T>,
}

/// The line that messages are tied to: that of the token consumed last.
pub open spec fn line_at(tokens: Seq<TokenView>, at: nat) -> nat {
    if 0 < at <= tokens.len() {
        tokens[at - 1].line
    } else {
        1
    }
}

pub open spec fn at_end(tokens: Seq<TokenView>, c: Cursor) -> bool {
    c.at >= tokens.len()
}

/// The kind of the next token.
pub open spec fn peek(tokens: Seq<TokenView>, c: Cursor) -> Option<TokenKind> {
    if c.at < tokens.len() {
        Some(tokens[c.at as int].data.kind())
    } else {
        None
    }
}

/// Whether the next token is of kind `kind`.
pub open spec fn next_is(tokens: Seq<TokenView>, c: Cursor, kind: TokenKind) -> bool {
    peek(tokens, c) == Some(kind)
}

/// The cursor past the next token.
pub open spec fn step(c: Cursor) -> Cursor {
    Cursor { at: c.at + 1, errors: c.errors }
}

pub open spec fn with_error(tokens: Seq<TokenView>, c: Cursor, message: Seq<char>) -> Cursor {
    Cursor { at: c.at, errors: c.errors.push(error_text(line_at(tokens, c.at), message)) }
}

pub open spec fn done<T>(c: Cursor, value: T) -> Parsed<T> {
    Parsed { cursor: c, value: Some(value) }
}

pub open spec fn fail<T>(tokens: Seq<TokenView>, c: Cursor, message: Seq<char>) -> Parsed<T> {
    Parsed { cursor: with_error(tokens, c, message), value: None }
}

pub open spec fn failed<T>(c: Cursor) -> Parsed<T> {
    Parsed { cursor: c, value: None }
}

/// Whether `to` lies behind `from` and within the tokens.
pub open spec fn advanced(tokens: Seq<TokenView>, from: Cursor, to: Cursor) -> bool {
    from.at < to.at <= tokens.len()
}

/// An outcome whose cursor has neither gone back nor past the end; any
/// other counts as a failure at `from`. The definitions below are
/// well-founded by this, and by `advanced` where a construct repeats. No
/// outcome of the grammar is such another: see the module `progress`.
pub open spec fn kept<T>(tokens: Seq<TokenView>, from: Cursor, p: Parsed<T>) -> Parsed<T> {
    if from.at <= p.cursor.at <= tokens.len() {
        p
    } else {
        failed(from)
    }
}

/// Consumes the next token, whatever it is.
pub open spec fn advance(tokens: Seq<TokenView>, c: Cursor) -> Parsed<TokenView> {
    if c.at < tokens.len() {
        done(step(c), tokens[c.at as int])
    } else {
        fail(tokens, c, "Ran out of tokens unexpectedly. (This likely indicates a scanner bug.)"@)
    }
}

/// The name that the next token carries, where it is an identifier.
pub open spec fn identifier_at(tokens: Seq<TokenView>, c: Cursor) -> Option<Seq<char>> {
    if c.at < tokens.len() {
        match tokens[c.at as int].data {
            TokenDataView::Identifier(name) => Some(name),
            _ => None,
        }
    } else {
        None
    }
}

/// Consumes the `;` that ends a statement; where it is missing, a message
/// is added and parsing goes on.
pub open spec fn pass_semicolon(tokens: Seq<TokenView>, c: Cursor) -> Cursor {
    if next_is(tokens, c, TokenKind::Semicolon) {
        step(c)
    } else {
        with_error(tokens, c, "Expected ';' at end of statement."@)
    }
}

/// Whether a statement may start with a token of this kind.
pub open spec fn starts_statement(kind: TokenKind) -> bool {
    kind == TokenKind::Class || kind == TokenKind::Fun || kind == TokenKind::Var || kind
        == TokenKind::For || kind == TokenKind::If || kind == TokenKind::While || kind
        == TokenKind::Print || kind == TokenKind::Return
}

/// Recovery after a failed statement: tokens are dropped until one of them
/// was a `;`, or until the next one may start a statement.
pub open spec fn synchronize(tokens: Seq<TokenView>, c: Cursor) -> Cursor
    decreases tokens.len() - c.at,
{
    if c.at >= tokens.len() {
        c
    } else if tokens[c.at as int].data.kind() == TokenKind::Semicolon {
        step(c)
    } else {
        match peek(tokens, step(c)) {
            Some(kind) => if starts_statement(kind) {
                step(c)
            } else {
                synchronize(tokens, step(c))
            },
            None => step(c),
        }
    }
}

/// The operator of a binary level.
pub enum Operator {
    Logic(LogicOp),
    Binary(BinaryOp),
}

/// The operator that a token of kind `kind` is on level `level`. Levels,
/// from the loosest: 0 `or`, 1 `and`, 2 equality, 3 comparison, 4 term,
/// 5 factor.
pub open spec fn operator_at(level: nat, kind: TokenKind) -> Option<Operator> {
    if level == 0 && kind == TokenKind::Or {
        Some(Operator::Logic(LogicOp::Or))
    } else if level == 1 && kind == TokenKind::And {
        Some(Operator::Logic(LogicOp::And))
    } else if level == 2 && kind == TokenKind::BangEqual {
        Some(Operator::Binary(BinaryOp::NotEqual))
    } else if level == 2 && kind == TokenKind::EqualEqual {
        Some(Operator::Binary(BinaryOp::Equal))
    } else if level == 3 && kind == TokenKind::Less {
        Some(Operator::Binary(BinaryOp::Less))
    } else if level == 3 && kind == TokenKind::LessEqual {
        Some(Operator::Binary(BinaryOp::LessEqual))
    } else if level == 3 && kind == TokenKind::Greater {
        Some(Operator::Binary(BinaryOp::Greater))
    } else if level == 3 && kind == TokenKind::GreaterEqual {
        Some(Operator::Binary(BinaryOp::GreaterEqual))
    } else if level == 4 && kind == TokenKind::Minus {
        Some(Operator::Binary(BinaryOp::Subtract))
    } else if level == 4 && kind == TokenKind::Plus {
        Some(Operator::Binary(BinaryOp::Add))
    } else if level == 5 && kind == TokenKind::Percent {
        Some(Operator::Binary(BinaryOp::Modulo))
    } else if level == 5 && kind == TokenKind::Slash {
        Some(Operator::Binary(BinaryOp::Divide))
    } else if level == 5 && kind == TokenKind::Star {
        Some(Operator::Binary(BinaryOp::Multiply))
    } else {
        None
    }
}

pub open spec fn join(left: ExpressionView, op: Operator, right: ExpressionView) -> ExpressionView {
    match op {
        Operator::Logic(op) => ExpressionView::Logical {
            left: Box::new(left),
            op,
            right: Box::new(right),
        },
        Operator::Binary(op) => ExpressionView::Binary {
            left: Box::new(left),
            op,
            right: Box::new(right),
        },
    }
}

/// The name of a token kind, as messages show it.
pub open spec fn kind_name(kind: TokenKind) -> Seq<char> {
    match kind {
        TokenKind::LeftParen => "LeftParen"@,
        TokenKind::RightParen => "RightParen"@,
        TokenKind::LeftBrace => "LeftBrace"@,
        TokenKind::RightBrace => "RightBrace"@,
        TokenKind::Comma => "Comma"@,
        TokenKind::Dot => "Dot"@,
        TokenKind::Semicolon => "Semicolon"@,
        TokenKind::Minus => "Minus"@,
        TokenKind::Plus => "Plus"@,
        TokenKind::Slash => "Slash"@,
        TokenKind::Star => "Star"@,
        TokenKind::Percent => "Percent"@,
        TokenKind::Bang => "Bang"@,
        TokenKind::Equal => "Equal"@,
        TokenKind::EqualEqual => "EqualEqual"@,
        TokenKind::Greater => "Greater"@,
        TokenKind::GreaterEqual => "GreaterEqual"@,
        TokenKind::Less => "Less"@,
        TokenKind::LessEqual => "LessEqual"@,
        TokenKind::BangEqual => "BangEqual"@,
        TokenKind::Identifier => "Identifier"@,
        TokenKind::StringData => "StringData"@,
        TokenKind::Number => "Number"@,
        TokenKind::Nil => "Nil"@,
        TokenKind::True => "True"@,
        TokenKind::False => "False"@,
        TokenKind::And => "And"@,
        TokenKind::Class => "Class"@,
        TokenKind::Else => "Else"@,
        TokenKind::Fun => "Fun"@,
        TokenKind::For => "For"@,
        TokenKind::If => "If"@,
        TokenKind::Or => "Or"@,
        TokenKind::Print => "Print"@,
        TokenKind::Return => "Return"@,
        TokenKind::Super => "Super"@,
        TokenKind::This => "This"@,
        TokenKind::Var => "Var"@,
        TokenKind::While => "While"@,
        TokenKind::EndOfFile => "EndOfFile"@,
    }
}

pub open spec fn nil() -> ExpressionView {
    ExpressionView::LitExp(LiteralView::Nil)
}

/// The largest number of arguments that a call may have, plus one.
pub open spec fn argument_limit() -> nat {
    255
}

/// `expression → assignment`
pub open spec fn expression(tokens: Seq<TokenView>, c: Cursor) -> Parsed<ExpressionView>
    decreases tokens.len() - c.at, 30nat,
{
    assignment(tokens, c)
}

/// `assignment → (call ".")? IDENT "=" assignment | logic_or`: the left side
/// is read as an expression and then has to be a name or a property.
pub open spec fn assignment(tokens: Seq<TokenView>, c: Cursor) -> Parsed<ExpressionView>
    decreases tokens.len() - c.at, 29nat,
{
    let left = kept(tokens, c, binary(tokens, c, 0));
    match left.value {
        None => left,
        Some(target) => if next_is(tokens, left.cursor, TokenKind::Equal) {
            let after = step(left.cursor);
            match target {
                ExpressionView::Identifier(name) => {
                    let value = expression(tokens, after);
                    match value.value {
                        Some(v) => done(value.cursor, ExpressionView::Assignment(name, Box::new(v))),
                        None => failed(value.cursor),
                    }
                },
                ExpressionView::Getter(object, name) => {
                    let value = expression(tokens, after);
                    match value.value {
                        Some(v) => done(
                            value.cursor,
                            ExpressionView::Setter(object, name, Box::new(v)),
                        ),
                        None => failed(value.cursor),
                    }
                },
                _ => fail(tokens, after, "Invalid assignment target."@),
            }
        } else {
            left
        },
    }
}

/// One binary level: an operand of the next tighter level, then any number
/// of operators of this level, each with another such operand.
pub open spec fn binary(tokens: Seq<TokenView>, c: Cursor, level: nat) -> Parsed<ExpressionView>
    decreases tokens.len() - c.at,
        (if level >= 5 {
            18
        } else {
            28 - 2 * level
        }),
{
    if level >= 5 {
        let first = kept(tokens, c, unary(tokens, c));
        match first.value {
            None => first,
            Some(left) => binary_rest(tokens, first.cursor, left, 5),
        }
    } else {
        let first = kept(tokens, c, binary(tokens, c, level + 1));
        match first.value {
            None => first,
            Some(left) => binary_rest(tokens, first.cursor, left, level),
        }
    }
}

/// The operators of a level that follow the operand `left`.
pub open spec fn binary_rest(
    tokens: Seq<TokenView>,
    c: Cursor,
    left: ExpressionView,
    level: nat,
) -> Parsed<ExpressionView>
    decreases tokens.len() - c.at,
        (if level >= 5 {
            17
        } else {
            27 - 2 * level
        }),
{
    if level > 5 {
        done(c, left)
    } else {
        match peek(tokens, c) {
            Some(kind) => match operator_at(level, kind) {
                Some(op) => {
                    let after = step(c);
                    let right = kept(
                        tokens,
                        after,
                        if level == 5 {
                            unary(tokens, after)
                        } else {
                            binary(tokens, after, level + 1)
                        },
                    );
                    match right.value {
                        None => right,
                        Some(r) => binary_rest(tokens, right.cursor, join(left, op, r), level),
                    }
                },
                None => done(c, left),
            },
            None => done(c, left),
        }
    }
}

/// `unary → ("!" | "-") unary | call`
pub open spec fn unary(tokens: Seq<TokenView>, c: Cursor) -> Parsed<ExpressionView>
    decreases tokens.len() - c.at, 16nat,
{
    if next_is(tokens, c, TokenKind::Bang) || next_is(tokens, c, TokenKind::Minus) {
        let op = if next_is(tokens, c, TokenKind::Bang) {
            UnaryOp::Not
        } else {
            UnaryOp::Negative
        };
        let operand = unary(tokens, step(c));
        match operand.value {
            Some(e) => done(operand.cursor, ExpressionView::Unary(op, Box::new(e))),
            None => failed(operand.cursor),
        }
    } else {
        call(tokens, c)
    }
}

/// `call → primary ("(" arguments? ")" | "." IDENT)*`. Every call of the
/// chain carries the line of the token that the chain starts with.
pub open spec fn call(tokens: Seq<TokenView>, c: Cursor) -> Parsed<ExpressionView>
    decreases tokens.len() - c.at, 15nat,
{
    let head = kept(tokens, c, primary(tokens, c));
    match head.value {
        None => head,
        Some(e) => call_rest(tokens, head.cursor, e, line_at(tokens, c.at + 1)),
    }
}

pub open spec fn call_rest(
    tokens: Seq<TokenView>,
    c: Cursor,
    callee: ExpressionView,
    line: nat,
) -> Parsed<ExpressionView>
    decreases tokens.len() - c.at, 13nat,
{
    if next_is(tokens, c, TokenKind::LeftParen) {
        let list = kept(tokens, step(c), arguments(tokens, step(c)));
        match list.value {
            None => failed(list.cursor),
            Some(items) => call_rest(
                tokens,
                list.cursor,
                ExpressionView::Call(Box::new(callee), items, line),
                line,
            ),
        }
    } else if next_is(tokens, c, TokenKind::Dot) {
        match identifier_at(tokens, step(c)) {
            Some(name) => call_rest(
                tokens,
                step(step(c)),
                ExpressionView::Getter(Box::new(callee), name),
                line,
            ),
            None => fail(tokens, step(c), "Expected property name after '.'."@),
        }
    } else {
        done(c, callee)
    }
}

/// The arguments of a call, behind its `(` and up to its `)`.
pub open spec fn arguments(tokens: Seq<TokenView>, c: Cursor) -> Parsed<Seq<ExpressionView>>
    decreases tokens.len() - c.at, 41nat,
{
    if next_is(tokens, c, TokenKind::RightParen) {
        done(step(c), Seq::empty())
    } else {
        arguments_rest(tokens, c, Seq::empty())
    }
}

pub open spec fn arguments_rest(
    tokens: Seq<TokenView>,
    c: Cursor,
    seen: Seq<ExpressionView>,
) -> Parsed<Seq<ExpressionView>>
    decreases tokens.len() - c.at, 40nat,
{
    let item = kept(tokens, c, expression(tokens, c));
    match item.value {
        None => failed(item.cursor),
        Some(e) => if next_is(tokens, item.cursor, TokenKind::Comma) {
            arguments_rest(tokens, step(item.cursor), seen.push(e))
        } else if next_is(tokens, item.cursor, TokenKind::RightParen) {
            if seen.len() + 1 >= argument_limit() {
                fail(tokens, step(item.cursor), "Can't have more than 254 arguments."@)
            } else {
                done(step(item.cursor), seen.push(e))
            }
        } else {
            fail(tokens, item.cursor, "Unexpectedly reached end of file while parsing arguments."@)
        },
    }
}

/// ```text
/// primary → NUMBER | STRING | "true" | "false" | "nil" | "this"
///         | "super" "." IDENT | IDENT | "(" expression ")"
/// ```
pub open spec fn primary(tokens: Seq<TokenView>, c: Cursor) -> Parsed<ExpressionView>
    decreases tokens.len() - c.at, 14nat,
{
    let first = advance(tokens, c);
    match first.value {
        None => failed(first.cursor),
        Some(token) => {
            let c1 = first.cursor;
            match token.data {
                TokenDataView::Identifier(name) => done(c1, ExpressionView::Identifier(name)),
                TokenDataView::Number(bits) => done(
                    c1,
                    ExpressionView::LitExp(LiteralView::Number(bits)),
                ),
                TokenDataView::StringData(text) => done(
                    c1,
                    ExpressionView::LitExp(LiteralView::StringData(text)),
                ),
                TokenDataView::True => done(c1, ExpressionView::LitExp(LiteralView::Boolean(true))),
                TokenDataView::False => done(
                    c1,
                    ExpressionView::LitExp(LiteralView::Boolean(false)),
                ),
                TokenDataView::Nil => done(c1, nil()),
                TokenDataView::This => done(c1, ExpressionView::This),
                TokenDataView::Super => if !next_is(tokens, c1, TokenKind::Dot) {
                    fail(tokens, c1, "Expected '.' after 'super'."@)
                } else {
                    match identifier_at(tokens, step(c1)) {
                        Some(name) => done(step(step(c1)), ExpressionView::Super(name)),
                        None => fail(tokens, step(c1), "Expected superclass method name."@),
                    }
                },
                TokenDataView::LeftParen => {
                    let inner = kept(tokens, c1, expression(tokens, c1));
                    match inner.value {
                        None => inner,
                        Some(e) => if at_end(tokens, inner.cursor) {
                            fail(
                                tokens,
                                inner.cursor,
                                "Ran out of tokens unexpectedly. (This likely indicates a scanner bug.)"@,
                            )
                        } else if next_is(tokens, inner.cursor, TokenKind::RightParen) {
                            done(step(inner.cursor), ExpressionView::Grouping(Box::new(e)))
                        } else {
                            fail(tokens, inner.cursor, "Missing close parenthesis."@)
                        },
                    }
                },
                TokenDataView::EndOfFile => fail(
                    tokens,
                    c1,
                    "Expected an expression; reached end of file."@,
                ),
                other => fail(
                    tokens,
                    c1,
                    "Expected an expression; recieved "@ + kind_name(other.kind()) + "."@,
                ),
            }
        },
    }
}

/// ```text
/// declaration → "var" IDENT ("=" expression)? ";" | "fun" function
///             | "class" IDENT ("<" IDENT)? "{" function* "}" | statement
/// ```
pub open spec fn statement(tokens: Seq<TokenView>, c: Cursor) -> Parsed<StatementView>
    decreases tokens.len() - c.at, 80nat,
{
    if next_is(tokens, c, TokenKind::Var) {
        stmt_decl(tokens, step(c))
    } else if next_is(tokens, c, TokenKind::Fun) {
        function(tokens, step(c))
    } else if next_is(tokens, c, TokenKind::Class) {
        class(tokens, step(c))
    } else if !at_end(tokens, c) {
        stmt_nestable(tokens, c)
    } else {
        fail(tokens, c, "Attempted to read a statement while no tokens were present."@)
    }
}

/// A variable declaration, behind its `var`. Without an initializer the
/// variable starts as `nil`.
pub open spec fn stmt_decl(tokens: Seq<TokenView>, c: Cursor) -> Parsed<StatementView>
    decreases tokens.len() - c.at, 60nat,
{
    let first = advance(tokens, c);
    match first.value {
        None => failed(first.cursor),
        Some(token) => match token.data {
            TokenDataView::Identifier(name) => if next_is(tokens, first.cursor, TokenKind::Equal) {
                let value = kept(
                    tokens,
                    step(first.cursor),
                    expression(tokens, step(first.cursor)),
                );
                match value.value {
                    None => failed(value.cursor),
                    Some(e) => done(
                        pass_semicolon(tokens, value.cursor),
                        StatementView::Decl(name, e),
                    ),
                }
            } else {
                done(pass_semicolon(tokens, first.cursor), StatementView::Decl(name, nil()))
            },
            _ => fail(tokens, first.cursor, "Expected variable name after 'var'."@),
        },
    }
}

/// The parameter names of a function, behind its `(` and up to its `)`.
pub open spec fn parameters(tokens: Seq<TokenView>, c: Cursor) -> Parsed<Seq<Seq<char>>> {
    if next_is(tokens, c, TokenKind::RightParen) {
        done(step(c), Seq::empty())
    } else {
        parameters_rest(tokens, c, Seq::empty())
    }
}

pub open spec fn parameters_rest(tokens: Seq<TokenView>, c: Cursor, seen: Seq<Seq<char>>) -> Parsed<
    Seq<Seq<char>>,
>
    decreases tokens.len() - c.at,
{
    match identifier_at(tokens, c) {
        None => fail(tokens, c, "Expected parameter name."@),
        Some(name) => if next_is(tokens, step(c), TokenKind::Comma) {
            parameters_rest(tokens, step(step(c)), seen.push(name))
        } else if next_is(tokens, step(c), TokenKind::RightParen) {
            done(step(step(c)), seen.push(name))
        } else {
            fail(tokens, step(c), "Expected ')' after parameters."@)
        },
    }
}

/// `function → IDENT "(" parameters? ")" block`: a function declaration
/// behind its `fun`, or a method of a class body.
pub open spec fn function(tokens: Seq<TokenView>, c: Cursor) -> Parsed<StatementView>
    decreases tokens.len() - c.at, 60nat,
{
    match identifier_at(tokens, c) {
        None => fail(tokens, c, "Expected function name."@),
        Some(name) => if !next_is(tokens, step(c), TokenKind::LeftParen) {
            fail(tokens, step(c), "Expected '(' after function name."@)
        } else {
            let names = kept(tokens, step(step(c)), parameters(tokens, step(step(c))));
            match names.value {
                None => failed(names.cursor),
                Some(params) => if !next_is(tokens, names.cursor, TokenKind::LeftBrace) {
                    fail(tokens, names.cursor, "Expected '{' before function body."@)
                } else {
                    let body = block(tokens, step(names.cursor), Seq::empty(), true);
                    match body.value {
                        None => failed(body.cursor),
                        Some(items) => done(body.cursor, StatementView::Fun(name, params, items)),
                    }
                },
            }
        },
    }
}

/// A class declaration, behind its `class`.
pub open spec fn class(tokens: Seq<TokenView>, c: Cursor) -> Parsed<StatementView>
    decreases tokens.len() - c.at, 60nat,
{
    match identifier_at(tokens, c) {
        None => fail(tokens, c, "Expected class name."@),
        Some(name) => {
            let c1 = step(c);
            if next_is(tokens, c1, TokenKind::Less) {
                match identifier_at(tokens, step(c1)) {
                    None => fail(tokens, step(c1), "Expected superclass name."@),
                    Some(parent) => class_body(tokens, step(step(c1)), name, parent),
                }
            } else {
                class_body(tokens, c1, name, Seq::empty())
            }
        },
    }
}

pub open spec fn class_body(
    tokens: Seq<TokenView>,
    c: Cursor,
    name: Seq<char>,
    parent: Seq<char>,
) -> Parsed<StatementView>
    decreases tokens.len() - c.at, 95nat,
{
    if !next_is(tokens, c, TokenKind::LeftBrace) {
        fail(tokens, c, "Expected '{' before class body."@)
    } else {
        let body = methods(tokens, step(c), Seq::empty());
        match body.value {
            None => failed(body.cursor),
            Some(items) => done(body.cursor, StatementView::Class(name, parent, items)),
        }
    }
}

/// The methods of a class body, up to its `}`.
pub open spec fn methods(tokens: Seq<TokenView>, c: Cursor, seen: Seq<StatementView>) -> Parsed<
    Seq<StatementView>,
>
    decreases tokens.len() - c.at, 90nat,
{
    if at_end(tokens, c) {
        fail(tokens, c, "Expected '}' after class body."@)
    } else if next_is(tokens, c, TokenKind::RightBrace) {
        done(step(c), seen)
    } else {
        let method = kept(tokens, c, function(tokens, c));
        match method.value {
            None => failed(method.cursor),
            Some(m) => if advanced(tokens, c, method.cursor) {
                methods(tokens, method.cursor, seen.push(m))
            } else {
                failed(method.cursor)
            },
        }
    }
}

/// The statements of a block, behind its `{` and up to its `}` or to the
/// end of the tokens. After a statement that failed, parsing recovers and
/// goes on, and the block as a whole fails.
pub open spec fn block(
    tokens: Seq<TokenView>,
    c: Cursor,
    seen: Seq<StatementView>,
    valid: bool,
) -> Parsed<Seq<StatementView>>
    decreases tokens.len() - c.at, 90nat,
{
    if at_end(tokens, c) {
        if valid {
            done(c, seen)
        } else {
            failed(c)
        }
    } else if next_is(tokens, c, TokenKind::RightBrace) {
        if valid {
            done(step(c), seen)
        } else {
            failed(step(c))
        }
    } else {
        let item = kept(tokens, c, statement(tokens, c));
        match item.value {
            Some(s) => if advanced(tokens, c, item.cursor) {
                block(tokens, item.cursor, seen.push(s), valid)
            } else {
                failed(item.cursor)
            },
            None => {
                let resumed = synchronize(tokens, item.cursor);
                if advanced(tokens, c, resumed) {
                    block(tokens, resumed, seen, false)
                } else {
                    failed(resumed)
                }
            },
        }
    }
}

/// `"(" expression ")"` behind `if` or `while`.
pub open spec fn condition(tokens: Seq<TokenView>, c: Cursor) -> Parsed<ExpressionView>
    decreases tokens.len() - c.at, 65nat,
{
    if !next_is(tokens, c, TokenKind::LeftParen) {
        fail(tokens, c, "Expected '(' after if statement."@)
    } else {
        let test = kept(tokens, step(c), expression(tokens, step(c)));
        match test.value {
            None => failed(test.cursor),
            Some(e) => if !next_is(tokens, test.cursor, TokenKind::RightParen) {
                fail(tokens, test.cursor, "Expected ')' after if condition."@)
            } else {
                done(step(test.cursor), e)
            },
        }
    }
}

/// The first clause of a `for`, behind the `(`: a declaration, an
/// expression statement, or nothing but the `;`.
pub open spec fn for_initializer(tokens: Seq<TokenView>, c: Cursor) -> Parsed<Seq<StatementView>>
    decreases tokens.len() - c.at, 65nat,
{
    if next_is(tokens, c, TokenKind::Semicolon) {
        done(step(c), Seq::empty())
    } else if next_is(tokens, c, TokenKind::Var) {
        let decl = stmt_decl(tokens, step(c));
        match decl.value {
            None => failed(decl.cursor),
            Some(s) => done(decl.cursor, seq![s]),
        }
    } else {
        let first = expression(tokens, c);
        match first.value {
            None => failed(first.cursor),
            Some(e) => done(pass_semicolon(tokens, first.cursor), seq![StatementView::Expr(e)]),
        }
    }
}

/// The second clause of a `for`: a condition, `true` where it is left out.
pub open spec fn for_condition(tokens: Seq<TokenView>, c: Cursor) -> Parsed<ExpressionView>
    decreases tokens.len() - c.at, 65nat,
{
    if next_is(tokens, c, TokenKind::Semicolon) {
        done(step(c), ExpressionView::LitExp(LiteralView::Boolean(true)))
    } else {
        let test = expression(tokens, c);
        match test.value {
            None => failed(test.cursor),
            Some(e) => done(pass_semicolon(tokens, test.cursor), e),
        }
    }
}

/// The third clause of a `for`, up to the `)`: an expression, or nothing.
pub open spec fn for_increment(tokens: Seq<TokenView>, c: Cursor) -> Parsed<Seq<StatementView>>
    decreases tokens.len() - c.at, 65nat,
{
    if next_is(tokens, c, TokenKind::RightParen) {
        done(step(c), Seq::empty())
    } else {
        let last = kept(tokens, c, expression(tokens, c));
        match last.value {
            None => failed(last.cursor),
            Some(e) => if !next_is(tokens, last.cursor, TokenKind::RightParen) {
                fail(tokens, last.cursor, "Expected ')' after for clauses."@)
            } else {
                done(step(last.cursor), seq![StatementView::Expr(e)])
            },
        }
    }
}

/// `{ init; while (test) { body; incr; } }`, where `init` and `incr` each
/// hold one statement or none.
pub open spec fn desugared_for(
    init: Seq<StatementView>,
    test: ExpressionView,
    body: StatementView,
    incr: Seq<StatementView>,
) -> StatementView {
    StatementView::Block(
        init.push(StatementView::While(test, Box::new(StatementView::Block(seq![body] + incr)))),
    )
}

/// `for (init; cond; incr) body` is read as `{ init; while (cond) { body; incr; } }`.
pub open spec fn for_loop(tokens: Seq<TokenView>, c: Cursor) -> Parsed<StatementView>
    decreases tokens.len() - c.at, 68nat,
{
    if !next_is(tokens, c, TokenKind::LeftParen) {
        fail(tokens, c, "Expected '(' after if statement."@)
    } else {
        let first = kept(tokens, step(c), for_initializer(tokens, step(c)));
        match first.value {
            None => failed(first.cursor),
            Some(init) => {
                let second = kept(tokens, first.cursor, for_condition(tokens, first.cursor));
                match second.value {
                    None => failed(second.cursor),
                    Some(test) => {
                        let third = kept(
                            tokens,
                            second.cursor,
                            for_increment(tokens, second.cursor),
                        );
                        match third.value {
                            None => failed(third.cursor),
                            Some(incr) => {
                                let body = stmt_nestable(tokens, third.cursor);
                                match body.value {
                                    None => failed(body.cursor),
                                    Some(s) => done(
                                        body.cursor,
                                        desugared_for(init, test, s, incr),
                                    ),
                                }
                            },
                        }
                    },
                }
            },
        }
    }
}

/// `printStmt → "print" expression ";"`, behind its `print`.
pub open spec fn print_statement(tokens: Seq<TokenView>, c: Cursor) -> Parsed<StatementView>
    decreases tokens.len() - c.at, 65nat,
{
    let value = expression(tokens, c);
    match value.value {
        None => failed(value.cursor),
        Some(e) => done(pass_semicolon(tokens, value.cursor), StatementView::Print(e)),
    }
}

/// `exprStmt → expression ";"`
pub open spec fn expression_statement(tokens: Seq<TokenView>, c: Cursor) -> Parsed<StatementView>
    decreases tokens.len() - c.at, 65nat,
{
    let value = expression(tokens, c);
    match value.value {
        None => failed(value.cursor),
        Some(e) => done(pass_semicolon(tokens, value.cursor), StatementView::Expr(e)),
    }
}

/// `returnStmt → "return" expression? ";"`, behind its `return`, which
/// stands on line `line`. Without an expression `nil` is returned.
pub open spec fn return_statement(tokens: Seq<TokenView>, c: Cursor, line: nat) -> Parsed<
    StatementView,
>
    decreases tokens.len() - c.at, 65nat,
{
    if next_is(tokens, c, TokenKind::Semicolon) {
        done(step(c), StatementView::Return(nil(), line))
    } else {
        let value = expression(tokens, c);
        match value.value {
            None => failed(value.cursor),
            Some(e) => done(pass_semicolon(tokens, value.cursor), StatementView::Return(e, line)),
        }
    }
}

/// `ifStmt → "if" "(" expression ")" statement ("else" statement)?`, behind
/// its `if`.
pub open spec fn if_statement(tokens: Seq<TokenView>, c: Cursor) -> Parsed<StatementView>
    decreases tokens.len() - c.at, 68nat,
{
    let test = kept(tokens, c, condition(tokens, c));
    match test.value {
        None => failed(test.cursor),
        Some(e) => {
            let first = kept(tokens, test.cursor, stmt_nestable(tokens, test.cursor));
            match first.value {
                None => failed(first.cursor),
                Some(then_branch) => if next_is(tokens, first.cursor, TokenKind::Else) {
                    let second = stmt_nestable(tokens, step(first.cursor));
                    match second.value {
                        None => failed(second.cursor),
                        Some(else_branch) => done(
                            second.cursor,
                            StatementView::If(e, Box::new(then_branch), Some(Box::new(else_branch))),
                        ),
                    }
                } else {
                    done(first.cursor, StatementView::If(e, Box::new(then_branch), None))
                },
            }
        },
    }
}

/// `whileStmt → "while" "(" expression ")" statement`, behind its `while`.
pub open spec fn while_statement(tokens: Seq<TokenView>, c: Cursor) -> Parsed<StatementView>
    decreases tokens.len() - c.at, 68nat,
{
    let test = kept(tokens, c, condition(tokens, c));
    match test.value {
        None => failed(test.cursor),
        Some(e) => {
            let body = stmt_nestable(tokens, test.cursor);
            match body.value {
                None => failed(body.cursor),
                Some(s) => done(body.cursor, StatementView::While(e, Box::new(s))),
            }
        },
    }
}

/// `block → "{" declaration* "}"`, behind its `{`.
pub open spec fn block_statement(tokens: Seq<TokenView>, c: Cursor) -> Parsed<StatementView>
    decreases tokens.len() - c.at, 95nat,
{
    let body = block(tokens, c, Seq::empty(), true);
    match body.value {
        None => failed(body.cursor),
        Some(items) => done(body.cursor, StatementView::Block(items)),
    }
}

/// `statement → exprStmt | printStmt | block | ifStmt | whileStmt | forStmt | returnStmt`
pub open spec fn stmt_nestable(tokens: Seq<TokenView>, c: Cursor) -> Parsed<StatementView>
    decreases tokens.len() - c.at, 70nat,
{
    if next_is(tokens, c, TokenKind::LeftBrace) {
        block_statement(tokens, step(c))
    } else if next_is(tokens, c, TokenKind::Print) {
        print_statement(tokens, step(c))
    } else if next_is(tokens, c, TokenKind::If) {
        if_statement(tokens, step(c))
    } else if next_is(tokens, c, TokenKind::While) {
        while_statement(tokens, step(c))
    } else if next_is(tokens, c, TokenKind::For) {
        for_loop(tokens, step(c))
    } else if next_is(tokens, c, TokenKind::Return) {
        return_statement(tokens, step(c), line_at(tokens, c.at + 1))
    } else {
        expression_statement(tokens, c)
    }
}

/// The cursor and the statements that a parse has reached.
pub struct Program {
    pub cursor: Cursor,
    pub output: Seq<StatementView>,
}

/// `program → declaration* EOF`, from a cursor on and behind the statements
/// read so far. After a statement that failed, parsing recovers and goes on.
pub open spec fn program(tokens: Seq<TokenView>, c: Cursor, seen: Seq<StatementView>) -> Program
    decreases tokens.len() - c.at, 100nat,
{
    if at_end(tokens, c) {
        Program { cursor: c, output: seen }
    } else if next_is(tokens, c, TokenKind::EndOfFile) {
        Program { cursor: step(c), output: seen }
    } else {
        let item = kept(tokens, c, statement(tokens, c));
        match item.value {
            Some(s) => if advanced(tokens, c, item.cursor) {
                program(tokens, item.cursor, seen.push(s))
            } else {
                Program { cursor: item.cursor, output: seen }
            },
            None => {
                let resumed = synchronize(tokens, item.cursor);
                if advanced(tokens, c, resumed) {
                    program(tokens, resumed, seen)
                } else {
                    Program { cursor: resumed, output: seen }
                }
            },
        }
    }
}

/// What parsing a token sequence yields: its statements, or, where anything
/// was wrong, every message.
pub open spec fn parse(tokens: Seq<TokenView>) -> Result<Seq<StatementView>, Seq<Seq<char>>> {
    let all = program(tokens, Cursor { at: 0, errors: Seq::empty() }, Seq::empty());
    if all.cursor.errors.len() == 0 {
        Ok(all.output)
    } else {
        Err(all.cursor.errors)
    }
}

} // verus!
