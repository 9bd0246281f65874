//! The recursive-descent parser: tokens to statements, with recovery after
//! a statement that failed.

use vstd::prelude::*;
use vstd::string::StringExecFns;
use crate::error::new_error_string;
use crate::expression::{expression_views, Expression, ExpressionView};
use crate::grammar::{
    advance, arguments, arguments_rest, assignment, at_end, binary, binary_rest, block,
    block_statement, call, call_rest, class, class_body, condition, desugared_for, expression,
    expression_statement, for_condition, for_increment, for_initializer, for_loop, function,
    identifier_at, if_statement, kind_name, methods, next_is, operator_at, parameters,
    parameters_rest, pass_semicolon, peek, primary, print_statement, program, return_statement,
    starts_statement, statement, step, stmt_decl, stmt_nestable, synchronize, unary,
    while_statement, with_error, Cursor, Operator, Parsed, Program,
};
use crate::node::{BinaryOp, Literal, LogicOp, UnaryOp};
use crate::scanner::{duplicate_texts, scan, text_views, LoxScanner};
use crate::statement::{
    duplicate_program, name_views, program_view, statement_views, Statement, StatementView,
};
use crate::token::{token_views, Token, TokenData, TokenKind, TokenView};

verus! {

pub struct LoxParser {
    tokens: Vec<Token>,
    error_strings: Vec<String>,
    output: Vec<Statement>,
    current: usize,
    inited: bool,
    loaded: bool,
}

/// The tree that a parsing function answered with, if it did.
pub open spec fn expression_of(r: Result<Box<Expression>, ()>) -> Option<ExpressionView> {
    match r {
        Ok(e) => Some(e@),
        Err(_) => None,
    }
}

pub open spec fn statement_of(r: Result<Statement, ()>) -> Option<StatementView> {
    match r {
        Ok(s) => Some(s@),
        Err(_) => None,
    }
}

pub open spec fn statements_of(r: Result<Vec<Box<Statement>>, ()>) -> Option<Seq<StatementView>> {
    match r {
        Ok(items) => Some(statement_views(items@)),
        Err(_) => None,
    }
}

pub open spec fn expressions_of(r: Result<Vec<Box<Expression>>, ()>) -> Option<Seq<ExpressionView>> {
    match r {
        Ok(items) => Some(expression_views(items@)),
        Err(_) => None,
    }
}

pub open spec fn names_of(r: Result<Vec<String>, ()>) -> Option<Seq<Seq<char>>> {
    match r {
        Ok(items) => Some(name_views(items@)),
        Err(_) => None,
    }
}

pub open spec fn token_of(r: Result<Token, ()>) -> Option<TokenView> {
    match r {
        Ok(t) => Some(t@),
        Err(_) => None,
    }
}

/// What `parse` answers in a state that has parsed.
pub open spec fn verdict(c: Cursor, output: Seq<StatementView>) -> Result<
    Seq<StatementView>,
    Seq<Seq<char>>,
> {
    if c.errors.len() == 0 {
        Ok(output)
    } else {
        Err(c.errors)
    }
}

pub open spec fn program_of(r: Result<Vec<Statement>, Vec<String>>) -> Result<
    Seq<StatementView>,
    Seq<Seq<char>>,
> {
    match r {
        Ok(items) => Ok(program_view(items@)),
        Err(errors) => Err(text_views(errors@)),
    }
}

/// The operator that a token kind is on a binary level.
fn operator_for(level: u8, kind: TokenKind) -> (op: Option<Operator>)
    ensures
        op == operator_at(level as nat, kind),
{
    if level == 0 && kind == TokenKind::Or {
        Some(Operator::Logic(LogicOp::Or))
    } else if level == 1 && kind == TokenKind::And {
        Some(Operator::Logic(LogicOp::And))
    } else if level == 2 && kind == TokenKind::BangEqual {
        Some(Operator::Binary(BinaryOp::NotEqual))
    } else if level == 2 && kind == TokenKind::EqualEqual {
        Some(Operator::Binary(BinaryOp::Equal))
    } else if level == 3 && kind == TokenKind::Less {
        Some(Operator::Binary(BinaryOp::Less))
    } else if level == 3 && kind == TokenKind::LessEqual {
        Some(Operator::Binary(BinaryOp::LessEqual))
    } else if level == 3 && kind == TokenKind::Greater {
        Some(Operator::Binary(BinaryOp::Greater))
    } else if level == 3 && kind == TokenKind::GreaterEqual {
        Some(Operator::Binary(BinaryOp::GreaterEqual))
    } else if level == 4 && kind == TokenKind::Minus {
        Some(Operator::Binary(BinaryOp::Subtract))
    } else if level == 4 && kind == TokenKind::Plus {
        Some(Operator::Binary(BinaryOp::Add))
    } else if level == 5 && kind == TokenKind::Percent {
        Some(Operator::Binary(BinaryOp::Modulo))
    } else if level == 5 && kind == TokenKind::Slash {
        Some(Operator::Binary(BinaryOp::Divide))
    } else if level == 5 && kind == TokenKind::Star {
        Some(Operator::Binary(BinaryOp::Multiply))
    } else {
        None
    }
}

fn join(left: Box<Expression>, op: Operator, right: Box<Expression>) -> (e: Box<Expression>)
    ensures
        e@ == crate::grammar::join(left@, op, right@),
{
    match op {
        Operator::Logic(op) => Expression::boxed_logical(left, op, right),
        Operator::Binary(op) => Expression::boxed_binary(left, op, right),
    }
}

/// `{ init; while (test) { body; incr; } }`
fn desugar_for(
    init: Vec<Box<Statement>>,
    test: Box<Expression>,
    body: Statement,
    incr: Vec<Box<Statement>>,
) -> (s: Statement)
    ensures
        s@ == desugared_for(statement_views(init@), test@, body@, statement_views(incr@)),
{
    let mut outer = init;
    let mut tail = incr;
    let mut inner: Vec<Box<Statement>> = Vec::new();
    inner.push(Box::new(body));
    inner.append(&mut tail);
    assert(statement_views(inner@) =~= seq![body@] + statement_views(incr@));
    let repeat = Statement::While(test, Box::new(Statement::block(inner)));
    outer.push(Box::new(repeat));
    assert(statement_views(outer@) =~= statement_views(init@).push(repeat@));
    Statement::block(outer)
}

fn starts(kind: TokenKind) -> (r: bool)
    ensures
        r == starts_statement(kind),
{
    kind == TokenKind::Class || kind == TokenKind::Fun || kind == TokenKind::Var || kind
        == TokenKind::For || kind == TokenKind::If || kind == TokenKind::While || kind
        == TokenKind::Print || kind == TokenKind::Return
}

/// The name of a token kind, as messages show it.
pub fn name_of_kind(kind: TokenKind) -> (name: &'static str)
    ensures
        name@ == kind_name(kind),
{
    match kind {
        TokenKind::LeftParen => "LeftParen",
        TokenKind::RightParen => "RightParen",
        TokenKind::LeftBrace => "LeftBrace",
        TokenKind::RightBrace => "RightBrace",
        TokenKind::Comma => "Comma",
        TokenKind::Dot => "Dot",
        TokenKind::Semicolon => "Semicolon",
        TokenKind::Minus => "Minus",
        TokenKind::Plus => "Plus",
        TokenKind::Slash => "Slash",
        TokenKind::Star => "Star",
        TokenKind::Percent => "Percent",
        TokenKind::Bang => "Bang",
        TokenKind::Equal => "Equal",
        TokenKind::EqualEqual => "EqualEqual",
        TokenKind::Greater => "Greater",
        TokenKind::GreaterEqual => "GreaterEqual",
        TokenKind::Less => "Less",
        TokenKind::LessEqual => "LessEqual",
        TokenKind::BangEqual => "BangEqual",
        TokenKind::Identifier => "Identifier",
        TokenKind::StringData => "StringData",
        TokenKind::Number => "Number",
        TokenKind::Nil => "Nil",
        TokenKind::True => "True",
        TokenKind::False => "False",
        TokenKind::And => "And",
        TokenKind::Class => "Class",
        TokenKind::Else => "Else",
        TokenKind::Fun => "Fun",
        TokenKind::For => "For",
        TokenKind::If => "If",
        TokenKind::Or => "Or",
        TokenKind::Print => "Print",
        TokenKind::Return => "Return",
        TokenKind::Super => "Super",
        TokenKind::This => "This",
        TokenKind::Var => "Var",
        TokenKind::While => "While",
        TokenKind::EndOfFile => "EndOfFile",
    }
}

impl LoxParser {
    /// The tokens that were loaded last.
    pub closed spec fn tokens(&self) -> Seq<TokenView> {
        token_views(self.tokens@)
    }

    /// How far the parser has come in them.
    pub closed spec fn cursor(&self) -> Cursor {
        Cursor { at: self.current as nat, errors: text_views(self.error_strings@) }
    }

    /// The statements read so far.
    pub closed spec fn output(&self) -> Seq<StatementView> {
        program_view(self.output@)
    }

    /// Whether tokens were ever loaded.
    pub closed spec fn has_input(&self) -> bool {
        self.inited
    }

    /// Whether `parse` has run on the tokens that were loaded last.
    pub closed spec fn has_parsed(&self) -> bool {
        self.loaded
    }

    pub closed spec fn wf(&self) -> bool {
        &&& self.current <= self.tokens.len()
        &&& self.loaded ==> self.inited
    }

    /// The same tokens, statements and flags, and a cursor that has not
    /// gone back.
    pub open spec fn continues(&self, before: &LoxParser) -> bool {
        &&& self.wf()
        &&& self.tokens() == before.tokens()
        &&& self.output() == before.output()
        &&& self.has_input() == before.has_input()
        &&& self.has_parsed() == before.has_parsed()
        &&& before.cursor().at <= self.cursor().at <= self.tokens().len()
    }

    /// The number of tokens that are left.
    pub open spec fn remaining(&self) -> int {
        self.tokens().len() - self.cursor().at
    }

    pub fn new() -> (parser: LoxParser)
        ensures
            parser.wf(),
            !parser.has_input(),
            !parser.has_parsed(),
            parser.tokens() == Seq::<TokenView>::empty(),
            parser.output() == Seq::<StatementView>::empty(),
            parser.cursor() == (Cursor { at: 0, errors: Seq::empty() }),
    {
        let parser = LoxParser {
            tokens: Vec::new(),
            error_strings: Vec::new(),
            output: Vec::new(),
            current: 0,
            inited: false,
            loaded: false,
        };
        assert(parser.cursor().errors =~= Seq::<Seq<char>>::empty());
        parser
    }

    /// Scans `s` and loads its tokens. Where the scan finds anything wrong,
    /// its messages come back and the parser stays as it was.
    pub fn load_string(&mut self, s: &str) -> (outcome: Result<(), Vec<String>>)
        requires
            old(self).wf(),
        ensures
            final(self).wf(),
            match outcome {
                Ok(_) => {
                    &&& scan(s@) == Ok::<Seq<TokenView>, Seq<Seq<char>>>(final(self).tokens())
                    &&& final(self).has_input()
                    &&& !final(self).has_parsed()
                    &&& final(self).output() == Seq::<StatementView>::empty()
                    &&& final(self).cursor() == (Cursor { at: 0, errors: Seq::empty() })
                },
                Err(errors) => {
                    &&& scan(s@) == Err::<Seq<TokenView>, Seq<Seq<char>>>(text_views(errors@))
                    &&& *final(self) == *old(self)
                },
            },
    {
        let mut scanner = LoxScanner::new(s);
        match scanner.scan_tokens() {
            Ok(tokens) => {
                self.load_token_vec(tokens);
                Ok(())
            },
            Err(e) => Err(e),
        }
    }

    /// Loads tokens: the parser starts afresh on them.
    pub fn load_token_vec(&mut self, tokens: Vec<Token>)
        ensures
            final(self).wf(),
            final(self).tokens() == token_views(tokens@),
            final(self).has_input(),
            !final(self).has_parsed(),
            final(self).output() == Seq::<StatementView>::empty(),
            final(self).cursor() == (Cursor { at: 0, errors: Seq::empty() }),
    {
        self.tokens = tokens;
        self.error_strings = Vec::new();
        self.output = Vec::new();
        self.current = 0;
        self.inited = true;
        self.loaded = false;
        assert(self.cursor().errors =~= Seq::<Seq<char>>::empty());
    }

    /// Parses what is left of the loaded tokens, once; every call answers
    /// with the statements read, or with the messages where there are any.
    pub fn parse(&mut self) -> (outcome: Result<Vec<Statement>, Vec<String>>)
        requires
            old(self).wf(),
        ensures
            final(self).wf(),
            final(self).tokens() == old(self).tokens(),
            final(self).has_input() == old(self).has_input(),
            !old(self).has_input() ==> {
                &&& *final(self) == *old(self)
                &&& outcome is Err
                &&& text_views(outcome->Err_0@) == seq!["Error: parser has not recieved input."@]
            },
            old(self).has_input() ==> {
                let reached = if old(self).has_parsed() {
                    Program { cursor: old(self).cursor(), output: old(self).output() }
                } else {
                    program(old(self).tokens(), old(self).cursor(), old(self).output())
                };
                &&& final(self).has_parsed()
                &&& final(self).cursor() == reached.cursor
                &&& final(self).output() == reached.output
                &&& program_of(outcome) == verdict(reached.cursor, reached.output)
            },
    {
        if self.inited && !self.loaded {
            self.loaded = true;
            self.program();
        }
        if !self.loaded {
            let mut errors: Vec<String> = Vec::new();
            errors.push(String::from_str("Error: parser has not recieved input."));
            Err(errors)
        } else if self.error_strings.len() == 0 {
            Ok(duplicate_program(&self.output))
        } else {
            Err(duplicate_texts(&self.error_strings))
        }
    }

    /// `program`: statements up to the end-of-input token, with recovery
    /// after each that failed.
    fn program(&mut self)
        requires
            old(self).wf(),
        ensures
            final(self).wf(),
            final(self).tokens() == old(self).tokens(),
            final(self).has_input() == old(self).has_input(),
            final(self).has_parsed() == old(self).has_parsed(),
            program(old(self).tokens(), old(self).cursor(), old(self).output()) == (Program {
                cursor: final(self).cursor(),
                output: final(self).output(),
            }),
    {
        loop
            invariant
                self.wf(),
                self.tokens() == old(self).tokens(),
                self.has_input() == old(self).has_input(),
                self.has_parsed() == old(self).has_parsed(),
                program(self.tokens(), self.cursor(), self.output()) == program(
                    old(self).tokens(),
                    old(self).cursor(),
                    old(self).output(),
                ),
            decreases self.remaining(),
        {
            if self.is_at_end() {
                return ;
            }
            if self.check(TokenKind::EndOfFile) {
                self.bump();
                return ;
            }
            match self.statement() {
                Ok(s) => {
                    let ghost seen = self.output();
                    self.output.push(s);
                    assert(self.output() =~= seen.push(s@));
                },
                Err(_) => {
                    self.synchronize();
                },
            }
        }
    }

    /// `declaration`: a variable, function or class declaration, or a
    /// statement.
    pub fn statement(&mut self) -> (r: Result<Statement, ()>)
        requires
            old(self).wf(),
        ensures
            final(self).continues(old(self)),
            statement(old(self).tokens(), old(self).cursor()) == (Parsed {
                cursor: final(self).cursor(),
                value: statement_of(r),
            }),
            r is Ok ==> final(self).cursor().at > old(self).cursor().at,
        decreases old(self).remaining(), 80nat,
    {
        if self.check(TokenKind::Var) {
            self.bump();
            self.stmt_decl()
        } else if self.check(TokenKind::Fun) {
            self.bump();
            self.stmt_fun()
        } else if self.check(TokenKind::Class) {
            self.bump();
            self.stmt_class()
        } else if !self.is_at_end() {
            self.stmt_nestable()
        } else {
            self.add_error("Attempted to read a statement while no tokens were present.");
            Err(())
        }
    }

    fn stmt_decl(&mut self) -> (r: Result<Statement, ()>)
        requires
            old(self).wf(),
        ensures
            final(self).continues(old(self)),
            stmt_decl(old(self).tokens(), old(self).cursor()) == (Parsed {
                cursor: final(self).cursor(),
                value: statement_of(r),
            }),
        decreases old(self).remaining(), 60nat,
    {
        let token = match self.advance() {
            Ok(t) => t,
            Err(_) => {
                return Err(());
            },
        };
        match token.data {
            TokenData::Identifier(name) => {
                if self.check(TokenKind::Equal) {
                    self.bump();
                    let value = match self.expression() {
                        Ok(e) => e,
                        Err(_) => {
                            return Err(());
                        },
                    };
                    self.pass_semicolon();
                    Ok(Statement::Decl(name, value))
                } else {
                    self.pass_semicolon();
                    Ok(Statement::Decl(name, Expression::boxed_nil()))
                }
            },
            _ => {
                self.add_error("Expected variable name after 'var'.");
                Err(())
            },
        }
    }

    fn parameters(&mut self) -> (r: Result<Vec<String>, ()>)
        requires
            old(self).wf(),
        ensures
            final(self).continues(old(self)),
            parameters(old(self).tokens(), old(self).cursor()) == (Parsed {
                cursor: final(self).cursor(),
                value: names_of(r),
            }),
    {
        let mut names: Vec<String> = Vec::new();
        if self.check(TokenKind::RightParen) {
            self.bump();
            assert(name_views(names@) =~= Seq::<Seq<char>>::empty());
            return Ok(names);
        }
        assert(name_views(names@) =~= Seq::<Seq<char>>::empty());
        loop
            invariant
                self.continues(old(self)),
                parameters_rest(self.tokens(), self.cursor(), name_views(names@)) == parameters(
                    old(self).tokens(),
                    old(self).cursor(),
                ),
            decreases self.remaining(),
        {
            let name = match self.identifier() {
                Some(n) => n,
                None => {
                    self.add_error("Expected parameter name.");
                    return Err(());
                },
            };
            self.bump();
            let ghost seen = name_views(names@);
            names.push(name);
            assert(name_views(names@) =~= seen.push(name@));
            if self.check(TokenKind::Comma) {
                self.bump();
            } else if self.check(TokenKind::RightParen) {
                self.bump();
                return Ok(names);
            } else {
                self.add_error("Expected ')' after parameters.");
                return Err(());
            }
        }
    }

    /// A function declaration behind its `fun`, or a method.
    fn stmt_fun(&mut self) -> (r: Result<Statement, ()>)
        requires
            old(self).wf(),
        ensures
            final(self).continues(old(self)),
            function(old(self).tokens(), old(self).cursor()) == (Parsed {
                cursor: final(self).cursor(),
                value: statement_of(r),
            }),
            r is Ok ==> final(self).cursor().at > old(self).cursor().at,
        decreases old(self).remaining(), 60nat,
    {
        let name = match self.identifier() {
            Some(n) => n,
            None => {
                self.add_error("Expected function name.");
                return Err(());
            },
        };
        self.bump();
        if !self.check(TokenKind::LeftParen) {
            self.add_error("Expected '(' after function name.");
            return Err(());
        }
        self.bump();
        let params = match self.parameters() {
            Ok(p) => p,
            Err(_) => {
                return Err(());
            },
        };
        if !self.check(TokenKind::LeftBrace) {
            self.add_error("Expected '{' before function body.");
            return Err(());
        }
        self.bump();
        match self.block() {
            Ok(body) => Ok(Statement::function(name, params, body)),
            Err(_) => Err(()),
        }
    }

    fn stmt_class(&mut self) -> (r: Result<Statement, ()>)
        requires
            old(self).wf(),
        ensures
            final(self).continues(old(self)),
            class(old(self).tokens(), old(self).cursor()) == (Parsed {
                cursor: final(self).cursor(),
                value: statement_of(r),
            }),
            r is Ok ==> final(self).cursor().at > old(self).cursor().at,
        decreases old(self).remaining(), 60nat,
    {
        let name = match self.identifier() {
            Some(n) => n,
            None => {
                self.add_error("Expected class name.");
                return Err(());
            },
        };
        self.bump();
        if self.check(TokenKind::Less) {
            self.bump();
            match self.identifier() {
                Some(parent) => {
                    self.bump();
                    self.class_body(name, parent)
                },
                None => {
                    self.add_error("Expected superclass name.");
                    Err(())
                },
            }
        } else {
            self.class_body(name, String::new())
        }
    }

    /// The body of a class, from its `{` on.
    fn class_body(&mut self, name: String, parent: String) -> (r: Result<Statement, ()>)
        requires
            old(self).wf(),
        ensures
            final(self).continues(old(self)),
            class_body(old(self).tokens(), old(self).cursor(), name@, parent@) == (Parsed {
                cursor: final(self).cursor(),
                value: statement_of(r),
            }),
        decreases old(self).remaining(), 95nat,
    {
        if !self.check(TokenKind::LeftBrace) {
            self.add_error("Expected '{' before class body.");
            return Err(());
        }
        self.bump();
        match self.methods() {
            Ok(found) => Ok(Statement::class(name, parent, found)),
            Err(_) => Err(()),
        }
    }

    /// The methods of a class body, up to its `}`.
    fn methods(&mut self) -> (r: Result<Vec<Box<Statement>>, ()>)
        requires
            old(self).wf(),
        ensures
            final(self).continues(old(self)),
            methods(old(self).tokens(), old(self).cursor(), Seq::empty()) == (Parsed {
                cursor: final(self).cursor(),
                value: statements_of(r),
            }),
        decreases old(self).remaining(), 90nat,
    {
        let mut found: Vec<Box<Statement>> = Vec::new();
        assert(statement_views(found@) =~= Seq::<StatementView>::empty());
        loop
            invariant
                self.continues(old(self)),
                methods(self.tokens(), self.cursor(), statement_views(found@)) == methods(
                    old(self).tokens(),
                    old(self).cursor(),
                    Seq::empty(),
                ),
            decreases self.remaining(),
        {
            if self.is_at_end() {
                self.add_error("Expected '}' after class body.");
                return Err(());
            }
            if self.check(TokenKind::RightBrace) {
                self.bump();
                return Ok(found);
            }
            match self.stmt_fun() {
                Ok(m) => {
                    let ghost seen = statement_views(found@);
                    found.push(Box::new(m));
                    assert(statement_views(found@) =~= seen.push(m@));
                },
                Err(_) => {
                    return Err(());
                },
            }
        }
    }

    /// `"(" expression ")"` behind `if` or `while`.
    fn condition(&mut self) -> (r: Result<Box<Expression>, ()>)
        requires
            old(self).wf(),
        ensures
            final(self).continues(old(self)),
            condition(old(self).tokens(), old(self).cursor()) == (Parsed {
                cursor: final(self).cursor(),
                value: expression_of(r),
            }),
        decreases old(self).remaining(), 65nat,
    {
        if !self.check(TokenKind::LeftParen) {
            self.add_error("Expected '(' after if statement.");
            return Err(());
        }
        self.bump();
        let test = match self.expression() {
            Ok(e) => e,
            Err(_) => {
                return Err(());
            },
        };
        if !self.check(TokenKind::RightParen) {
            self.add_error("Expected ')' after if condition.");
            return Err(());
        }
        self.bump();
        Ok(test)
    }

    fn for_initializer(&mut self) -> (r: Result<Vec<Box<Statement>>, ()>)
        requires
            old(self).wf(),
        ensures
            final(self).continues(old(self)),
            for_initializer(old(self).tokens(), old(self).cursor()) == (Parsed {
                cursor: final(self).cursor(),
                value: statements_of(r),
            }),
        decreases old(self).remaining(), 65nat,
    {
        let mut list: Vec<Box<Statement>> = Vec::new();
        if self.check(TokenKind::Semicolon) {
            self.bump();
            assert(statement_views(list@) =~= Seq::<StatementView>::empty());
            Ok(list)
        } else if self.check(TokenKind::Var) {
            self.bump();
            match self.stmt_decl() {
                Ok(s) => {
                    list.push(Box::new(s));
                    assert(statement_views(list@) =~= seq![s@]);
                    Ok(list)
                },
                Err(_) => Err(()),
            }
        } else {
            match self.expression() {
                Ok(e) => {
                    self.pass_semicolon();
                    list.push(Box::new(Statement::Expr(e)));
                    assert(statement_views(list@) =~= seq![StatementView::Expr(e@)]);
                    Ok(list)
                },
                Err(_) => Err(()),
            }
        }
    }

    fn for_condition(&mut self) -> (r: Result<Box<Expression>, ()>)
        requires
            old(self).wf(),
        ensures
            final(self).continues(old(self)),
            for_condition(old(self).tokens(), old(self).cursor()) == (Parsed {
                cursor: final(self).cursor(),
                value: expression_of(r),
            }),
        decreases old(self).remaining(), 65nat,
    {
        if self.check(TokenKind::Semicolon) {
            self.bump();
            Ok(Expression::boxed_boolean(true))
        } else {
            match self.expression() {
                Ok(e) => {
                    self.pass_semicolon();
                    Ok(e)
                },
                Err(_) => Err(()),
            }
        }
    }

    fn for_increment(&mut self) -> (r: Result<Vec<Box<Statement>>, ()>)
        requires
            old(self).wf(),
        ensures
            final(self).continues(old(self)),
            for_increment(old(self).tokens(), old(self).cursor()) == (Parsed {
                cursor: final(self).cursor(),
                value: statements_of(r),
            }),
        decreases old(self).remaining(), 65nat,
    {
        let mut list: Vec<Box<Statement>> = Vec::new();
        if self.check(TokenKind::RightParen) {
            self.bump();
            assert(statement_views(list@) =~= Seq::<StatementView>::empty());
            Ok(list)
        } else {
            let e = match self.expression() {
                Ok(e) => e,
                Err(_) => {
                    return Err(());
                },
            };
            if !self.check(TokenKind::RightParen) {
                self.add_error("Expected ')' after for clauses.");
                return Err(());
            }
            self.bump();
            list.push(Box::new(Statement::Expr(e)));
            assert(statement_views(list@) =~= seq![StatementView::Expr(e@)]);
            Ok(list)
        }
    }

    /// A `for` loop behind its `for`, read as a block around a `while`.
    fn for_loop(&mut self) -> (r: Result<Statement, ()>)
        requires
            old(self).wf(),
        ensures
            final(self).continues(old(self)),
            for_loop(old(self).tokens(), old(self).cursor()) == (Parsed {
                cursor: final(self).cursor(),
                value: statement_of(r),
            }),
        decreases old(self).remaining(), 68nat,
    {
        if !self.check(TokenKind::LeftParen) {
            self.add_error("Expected '(' after if statement.");
            return Err(());
        }
        self.bump();
        let init = match self.for_initializer() {
            Ok(list) => list,
            Err(_) => {
                return Err(());
            },
        };
        let test = match self.for_condition() {
            Ok(e) => e,
            Err(_) => {
                return Err(());
            },
        };
        let incr = match self.for_increment() {
            Ok(list) => list,
            Err(_) => {
                return Err(());
            },
        };
        match self.stmt_nestable() {
            Ok(body) => Ok(desugar_for(init, test, body, incr)),
            Err(_) => Err(()),
        }
    }

    fn stmt_print(&mut self) -> (r: Result<Statement, ()>)
        requires
            old(self).wf(),
        ensures
            final(self).continues(old(self)),
            print_statement(old(self).tokens(), old(self).cursor()) == (Parsed {
                cursor: final(self).cursor(),
                value: statement_of(r),
            }),
        decreases old(self).remaining(), 65nat,
    {
        match self.expression() {
            Ok(e) => {
                self.pass_semicolon();
                Ok(Statement::Print(e))
            },
            Err(_) => Err(()),
        }
    }

    fn stmt_expression(&mut self) -> (r: Result<Statement, ()>)
        requires
            old(self).wf(),
        ensures
            final(self).continues(old(self)),
            expression_statement(old(self).tokens(), old(self).cursor()) == (Parsed {
                cursor: final(self).cursor(),
                value: statement_of(r),
            }),
            r is Ok ==> final(self).cursor().at > old(self).cursor().at,
        decreases old(self).remaining(), 65nat,
    {
        match self.expression() {
            Ok(e) => {
                self.pass_semicolon();
                Ok(Statement::Expr(e))
            },
            Err(_) => Err(()),
        }
    }

    fn stmt_return(&mut self, line: usize) -> (r: Result<Statement, ()>)
        requires
            old(self).wf(),
        ensures
            final(self).continues(old(self)),
            return_statement(old(self).tokens(), old(self).cursor(), line as nat) == (Parsed {
                cursor: final(self).cursor(),
                value: statement_of(r),
            }),
        decreases old(self).remaining(), 65nat,
    {
        if self.check(TokenKind::Semicolon) {
            self.bump();
            Ok(Statement::Return(Expression::boxed_nil(), line))
        } else {
            match self.expression() {
                Ok(e) => {
                    self.pass_semicolon();
                    Ok(Statement::Return(e, line))
                },
                Err(_) => Err(()),
            }
        }
    }

    fn stmt_if(&mut self) -> (r: Result<Statement, ()>)
        requires
            old(self).wf(),
        ensures
            final(self).continues(old(self)),
            if_statement(old(self).tokens(), old(self).cursor()) == (Parsed {
                cursor: final(self).cursor(),
                value: statement_of(r),
            }),
        decreases old(self).remaining(), 68nat,
    {
        let test = match self.condition() {
            Ok(e) => e,
            Err(_) => {
                return Err(());
            },
        };
        let then_branch = match self.stmt_nestable() {
            Ok(s) => s,
            Err(_) => {
                return Err(());
            },
        };
        if self.check(TokenKind::Else) {
            self.bump();
            match self.stmt_nestable() {
                Ok(else_branch) => Ok(
                    Statement::If(test, Box::new(then_branch), Some(Box::new(else_branch))),
                ),
                Err(_) => Err(()),
            }
        } else {
            Ok(Statement::If(test, Box::new(then_branch), None))
        }
    }

    fn stmt_while(&mut self) -> (r: Result<Statement, ()>)
        requires
            old(self).wf(),
        ensures
            final(self).continues(old(self)),
            while_statement(old(self).tokens(), old(self).cursor()) == (Parsed {
                cursor: final(self).cursor(),
                value: statement_of(r),
            }),
        decreases old(self).remaining(), 68nat,
    {
        let test = match self.condition() {
            Ok(e) => e,
            Err(_) => {
                return Err(());
            },
        };
        match self.stmt_nestable() {
            Ok(body) => Ok(Statement::While(test, Box::new(body))),
            Err(_) => Err(()),
        }
    }

    fn stmt_block(&mut self) -> (r: Result<Statement, ()>)
        requires
            old(self).wf(),
        ensures
            final(self).continues(old(self)),
            block_statement(old(self).tokens(), old(self).cursor()) == (Parsed {
                cursor: final(self).cursor(),
                value: statement_of(r),
            }),
        decreases old(self).remaining(), 95nat,
    {
        match self.block() {
            Ok(items) => Ok(Statement::block(items)),
            Err(_) => Err(()),
        }
    }

    /// `statement`: what may stand as the branch of an `if` or the body of
    /// a loop.
    fn stmt_nestable(&mut self) -> (r: Result<Statement, ()>)
        requires
            old(self).wf(),
        ensures
            final(self).continues(old(self)),
            stmt_nestable(old(self).tokens(), old(self).cursor()) == (Parsed {
                cursor: final(self).cursor(),
                value: statement_of(r),
            }),
            r is Ok ==> final(self).cursor().at > old(self).cursor().at,
        decreases old(self).remaining(), 70nat,
    {
        if self.check(TokenKind::LeftBrace) {
            self.bump();
            self.stmt_block()
        } else if self.check(TokenKind::Print) {
            self.bump();
            self.stmt_print()
        } else if self.check(TokenKind::If) {
            self.bump();
            self.stmt_if()
        } else if self.check(TokenKind::While) {
            self.bump();
            self.stmt_while()
        } else if self.check(TokenKind::For) {
            self.bump();
            self.for_loop()
        } else if self.check(TokenKind::Return) {
            let line = self.tokens[self.current].line;
            self.bump();
            self.stmt_return(line)
        } else {
            self.stmt_expression()
        }
    }

    /// The statements of a block behind its `{`.
    fn block(&mut self) -> (r: Result<Vec<Box<Statement>>, ()>)
        requires
            old(self).wf(),
        ensures
            final(self).continues(old(self)),
            block(old(self).tokens(), old(self).cursor(), Seq::empty(), true) == (Parsed {
                cursor: final(self).cursor(),
                value: statements_of(r),
            }),
        decreases old(self).remaining(), 90nat,
    {
        let mut items: Vec<Box<Statement>> = Vec::new();
        let mut valid = true;
        assert(statement_views(items@) =~= Seq::<StatementView>::empty());
        loop
            invariant
                self.continues(old(self)),
                block(self.tokens(), self.cursor(), statement_views(items@), valid) == block(
                    old(self).tokens(),
                    old(self).cursor(),
                    Seq::empty(),
                    true,
                ),
            decreases self.remaining(),
        {
            if self.is_at_end() {
                return if valid {
                    Ok(items)
                } else {
                    Err(())
                };
            }
            if self.check(TokenKind::RightBrace) {
                self.bump();
                return if valid {
                    Ok(items)
                } else {
                    Err(())
                };
            }
            match self.statement() {
                Ok(s) => {
                    let ghost seen = statement_views(items@);
                    items.push(Box::new(s));
                    assert(statement_views(items@) =~= seen.push(s@));
                },
                Err(_) => {
                    valid = false;
                    self.synchronize();
                },
            }
        }
    }

    /// `expression → assignment`
    pub fn expression(&mut self) -> (r: Result<Box<Expression>, ()>)
        requires
            old(self).wf(),
        ensures
            final(self).continues(old(self)),
            expression(old(self).tokens(), old(self).cursor()) == (Parsed {
                cursor: final(self).cursor(),
                value: expression_of(r),
            }),
            r is Ok ==> final(self).cursor().at > old(self).cursor().at,
        decreases old(self).remaining(), 31nat,
    {
        self.assignment()
    }

    fn assignment(&mut self) -> (r: Result<Box<Expression>, ()>)
        requires
            old(self).wf(),
        ensures
            final(self).continues(old(self)),
            assignment(old(self).tokens(), old(self).cursor()) == (Parsed {
                cursor: final(self).cursor(),
                value: expression_of(r),
            }),
            r is Ok ==> final(self).cursor().at > old(self).cursor().at,
        decreases old(self).remaining(), 30nat,
    {
        let target = match self.logic_or() {
            Ok(e) => e,
            Err(_) => {
                return Err(());
            },
        };
        if !self.check(TokenKind::Equal) {
            return Ok(target);
        }
        self.bump();
        match *target {
            Expression::Identifier(name) => {
                match self.expression() {
                    Ok(v) => Ok(Box::new(Expression::Assignment(name, v))),
                    Err(_) => Err(()),
                }
            },
            Expression::Getter(object, name) => {
                match self.expression() {
                    Ok(v) => Ok(Box::new(Expression::Setter(object, name, v))),
                    Err(_) => Err(()),
                }
            },
            _ => {
                self.add_error("Invalid assignment target.");
                Err(())
            },
        }
    }

    /// `logic_or → logic_and ("or" logic_and)*`
    fn logic_or(&mut self) -> (r: Result<Box<Expression>, ()>)
        requires
            old(self).wf(),
        ensures
            final(self).continues(old(self)),
            binary(old(self).tokens(), old(self).cursor(), 0) == (Parsed {
                cursor: final(self).cursor(),
                value: expression_of(r),
            }),
            r is Ok ==> final(self).cursor().at > old(self).cursor().at,
        decreases old(self).remaining(), 29nat,
    {
        self.binary(0)
    }

    /// `logic_and → equality ("and" equality)*`
    fn logic_and(&mut self) -> (r: Result<Box<Expression>, ()>)
        requires
            old(self).wf(),
        ensures
            final(self).continues(old(self)),
            binary(old(self).tokens(), old(self).cursor(), 1) == (Parsed {
                cursor: final(self).cursor(),
                value: expression_of(r),
            }),
            r is Ok ==> final(self).cursor().at > old(self).cursor().at,
        decreases old(self).remaining(), 27nat,
    {
        self.binary(1)
    }

    /// `equality → comparison (("!=" | "==") comparison)*`
    fn equality(&mut self) -> (r: Result<Box<Expression>, ()>)
        requires
            old(self).wf(),
        ensures
            final(self).continues(old(self)),
            binary(old(self).tokens(), old(self).cursor(), 2) == (Parsed {
                cursor: final(self).cursor(),
                value: expression_of(r),
            }),
            r is Ok ==> final(self).cursor().at > old(self).cursor().at,
        decreases old(self).remaining(), 25nat,
    {
        self.binary(2)
    }

    /// `comparison → term (("<" | "<=" | ">" | ">=") term)*`
    fn comparison(&mut self) -> (r: Result<Box<Expression>, ()>)
        requires
            old(self).wf(),
        ensures
            final(self).continues(old(self)),
            binary(old(self).tokens(), old(self).cursor(), 3) == (Parsed {
                cursor: final(self).cursor(),
                value: expression_of(r),
            }),
            r is Ok ==> final(self).cursor().at > old(self).cursor().at,
        decreases old(self).remaining(), 23nat,
    {
        self.binary(3)
    }

    /// `term → factor (("+" | "-") factor)*`
    fn term(&mut self) -> (r: Result<Box<Expression>, ()>)
        requires
            old(self).wf(),
        ensures
            final(self).continues(old(self)),
            binary(old(self).tokens(), old(self).cursor(), 4) == (Parsed {
                cursor: final(self).cursor(),
                value: expression_of(r),
            }),
            r is Ok ==> final(self).cursor().at > old(self).cursor().at,
        decreases old(self).remaining(), 21nat,
    {
        self.binary(4)
    }

    /// `factor → unary (("*" | "/" | "%") unary)*`
    fn factor(&mut self) -> (r: Result<Box<Expression>, ()>)
        requires
            old(self).wf(),
        ensures
            final(self).continues(old(self)),
            binary(old(self).tokens(), old(self).cursor(), 5) == (Parsed {
                cursor: final(self).cursor(),
                value: expression_of(r),
            }),
            r is Ok ==> final(self).cursor().at > old(self).cursor().at,
        decreases old(self).remaining(), 19nat,
    {
        self.binary(5)
    }

    /// The operand of a binary level: the next tighter level.
    fn operand(&mut self, level: u8) -> (r: Result<Box<Expression>, ()>)
        requires
            old(self).wf(),
            level <= 5,
        ensures
            final(self).continues(old(self)),
            (if level == 5 {
                unary(old(self).tokens(), old(self).cursor())
            } else {
                binary(old(self).tokens(), old(self).cursor(), (level + 1) as nat)
            }) == (Parsed { cursor: final(self).cursor(), value: expression_of(r) }),
            r is Ok ==> final(self).cursor().at > old(self).cursor().at,
        decreases old(self).remaining(), 28 - 2 * level, 0nat,
    {
        if level == 0 {
            self.logic_and()
        } else if level == 1 {
            self.equality()
        } else if level == 2 {
            self.comparison()
        } else if level == 3 {
            self.term()
        } else if level == 4 {
            self.factor()
        } else {
            self.unary()
        }
    }

    /// One binary level: an operand of the next tighter level, then any
    /// number of operators of this level, each with another such operand.
    /// `logic_or` is level 0, `logic_and` 1, `equality` 2, `comparison` 3,
    /// `term` 4 and `factor` 5.
    fn binary(&mut self, level: u8) -> (r: Result<Box<Expression>, ()>)
        requires
            old(self).wf(),
            level <= 5,
        ensures
            final(self).continues(old(self)),
            binary(old(self).tokens(), old(self).cursor(), level as nat) == (Parsed {
                cursor: final(self).cursor(),
                value: expression_of(r),
            }),
            r is Ok ==> final(self).cursor().at > old(self).cursor().at,
        decreases old(self).remaining(), 28 - 2 * level, 1nat,
    {
        let mut left = match self.operand(level) {
            Ok(e) => e,
            Err(_) => {
                return Err(());
            },
        };
        loop
            invariant
                level <= 5,
                self.continues(old(self)),
                self.cursor().at > old(self).cursor().at,
                binary_rest(self.tokens(), self.cursor(), left@, level as nat) == binary(
                    old(self).tokens(),
                    old(self).cursor(),
                    level as nat,
                ),
            decreases self.remaining(),
        {
            let op = match self.peek() {
                Some(kind) => match operator_for(level, kind) {
                    Some(op) => op,
                    None => {
                        return Ok(left);
                    },
                },
                None => {
                    return Ok(left);
                },
            };
            self.bump();
            match self.operand(level) {
                Ok(right) => {
                    left = join(left, op, right);
                },
                Err(_) => {
                    return Err(());
                },
            }
        }
    }

    /// `unary → ("!" | "-") unary | call`
    fn unary(&mut self) -> (r: Result<Box<Expression>, ()>)
        requires
            old(self).wf(),
        ensures
            final(self).continues(old(self)),
            unary(old(self).tokens(), old(self).cursor()) == (Parsed {
                cursor: final(self).cursor(),
                value: expression_of(r),
            }),
            r is Ok ==> final(self).cursor().at > old(self).cursor().at,
        decreases old(self).remaining(), 16nat,
    {
        if self.check(TokenKind::Bang) {
            self.bump();
            match self.unary() {
                Ok(e) => Ok(Expression::boxed_unary(UnaryOp::Not, e)),
                Err(_) => Err(()),
            }
        } else if self.check(TokenKind::Minus) {
            self.bump();
            match self.unary() {
                Ok(e) => Ok(Expression::boxed_unary(UnaryOp::Negative, e)),
                Err(_) => Err(()),
            }
        } else {
            self.call()
        }
    }

    /// `call → primary ("(" arguments? ")" | "." IDENT)*`
    fn call(&mut self) -> (r: Result<Box<Expression>, ()>)
        requires
            old(self).wf(),
        ensures
            final(self).continues(old(self)),
            call(old(self).tokens(), old(self).cursor()) == (Parsed {
                cursor: final(self).cursor(),
                value: expression_of(r),
            }),
            r is Ok ==> final(self).cursor().at > old(self).cursor().at,
        decreases old(self).remaining(), 15nat,
    {
        let line = if self.current < self.tokens.len() {
            self.tokens[self.current].line
        } else {
            1
        };
        let mut callee = match self.primary() {
            Ok(e) => e,
            Err(_) => {
                return Err(());
            },
        };
        loop
            invariant
                self.continues(old(self)),
                self.cursor().at > old(self).cursor().at,
                call_rest(self.tokens(), self.cursor(), callee@, line as nat) == call(
                    old(self).tokens(),
                    old(self).cursor(),
                ),
            decreases self.remaining(),
        {
            if self.check(TokenKind::LeftParen) {
                self.bump();
                match self.arguments() {
                    Ok(args) => {
                        callee = Expression::boxed_call(callee, args, line);
                    },
                    Err(_) => {
                        return Err(());
                    },
                }
            } else if self.check(TokenKind::Dot) {
                self.bump();
                match self.identifier() {
                    Some(name) => {
                        self.bump();
                        callee = Box::new(Expression::Getter(callee, name));
                    },
                    None => {
                        self.add_error("Expected property name after '.'.");
                        return Err(());
                    },
                }
            } else {
                return Ok(callee);
            }
        }
    }

    /// The arguments of a call behind its `(`.
    fn arguments(&mut self) -> (r: Result<Vec<Box<Expression>>, ()>)
        requires
            old(self).wf(),
        ensures
            final(self).continues(old(self)),
            arguments(old(self).tokens(), old(self).cursor()) == (Parsed {
                cursor: final(self).cursor(),
                value: expressions_of(r),
            }),
        decreases old(self).remaining(), 41nat,
    {
        let mut args: Vec<Box<Expression>> = Vec::new();
        assert(expression_views(args@) =~= Seq::<ExpressionView>::empty());
        if self.check(TokenKind::RightParen) {
            self.bump();
            return Ok(args);
        }
        loop
            invariant
                self.continues(old(self)),
                arguments_rest(self.tokens(), self.cursor(), expression_views(args@)) == arguments(
                    old(self).tokens(),
                    old(self).cursor(),
                ),
            decreases self.remaining(),
        {
            let item = match self.expression() {
                Ok(e) => e,
                Err(_) => {
                    return Err(());
                },
            };
            let ghost seen = expression_views(args@);
            args.push(item);
            assert(expression_views(args@) =~= seen.push(item@));
            if self.check(TokenKind::Comma) {
                self.bump();
            } else if self.check(TokenKind::RightParen) {
                self.bump();
                if args.len() >= 255 {
                    self.add_error("Can't have more than 254 arguments.");
                    return Err(());
                }
                return Ok(args);
            } else {
                self.add_error("Unexpectedly reached end of file while parsing arguments.");
                return Err(());
            }
        }
    }

    fn primary(&mut self) -> (r: Result<Box<Expression>, ()>)
        requires
            old(self).wf(),
        ensures
            final(self).continues(old(self)),
            primary(old(self).tokens(), old(self).cursor()) == (Parsed {
                cursor: final(self).cursor(),
                value: expression_of(r),
            }),
            r is Ok ==> final(self).cursor().at > old(self).cursor().at,
        decreases old(self).remaining(), 14nat,
    {
        let token = match self.advance() {
            Ok(t) => t,
            Err(_) => {
                return Err(());
            },
        };
        let kind = token.data.kind();
        match token.data {
            TokenData::Identifier(name) => Ok(Box::new(Expression::Identifier(name))),
            TokenData::Number(bits) => Ok(Expression::boxed_number(bits)),
            TokenData::StringData(text) => {
                let value = Literal::StringData(text);
                Ok(Expression::boxed_literal(value))
            },
            TokenData::True => Ok(Expression::boxed_boolean(true)),
            TokenData::False => Ok(Expression::boxed_boolean(false)),
            TokenData::Nil => Ok(Expression::boxed_nil()),
            TokenData::This => Ok(Expression::boxed_this()),
            TokenData::Super => {
                if !self.check(TokenKind::Dot) {
                    self.add_error("Expected '.' after 'super'.");
                    return Err(());
                }
                self.bump();
                match self.identifier() {
                    Some(name) => {
                        self.bump();
                        Ok(Box::new(Expression::Super(name)))
                    },
                    None => {
                        self.add_error("Expected superclass method name.");
                        Err(())
                    },
                }
            },
            TokenData::LeftParen => {
                let inner = match self.expression() {
                    Ok(e) => e,
                    Err(_) => {
                        return Err(());
                    },
                };
                if self.is_at_end() {
                    self.add_error(
                        "Ran out of tokens unexpectedly. (This likely indicates a scanner bug.)",
                    );
                    Err(())
                } else if self.check(TokenKind::RightParen) {
                    self.bump();
                    Ok(Expression::boxed_grouping(inner))
                } else {
                    self.add_error("Missing close parenthesis.");
                    Err(())
                }
            },
            TokenData::EndOfFile => {
                self.add_error("Expected an expression; reached end of file.");
                Err(())
            },
            _ => {
                let mut message = String::from_str("Expected an expression; recieved ");
                message.append(name_of_kind(kind));
                message.append(".");
                self.add_error(message.as_str());
                Err(())
            },
        }
    }

    /// Drops tokens until one of them was a `;`, or until the next one may
    /// start a statement.
    fn synchronize(&mut self)
        requires
            old(self).wf(),
        ensures
            final(self).continues(old(self)),
            final(self).cursor() == synchronize(old(self).tokens(), old(self).cursor()),
            old(self).remaining() > 0 ==> final(self).cursor().at > old(self).cursor().at,
    {
        while !self.is_at_end()
            invariant
                self.continues(old(self)),
                synchronize(self.tokens(), self.cursor()) == synchronize(
                    old(self).tokens(),
                    old(self).cursor(),
                ),
                old(self).remaining() > 0 ==> (self.cursor().at > old(self).cursor().at
                    || self.remaining() > 0),
            decreases self.remaining(),
        {
            let ended = self.check(TokenKind::Semicolon);
            self.bump();
            if ended {
                return ;
            }
            match self.peek() {
                Some(kind) => {
                    if starts(kind) {
                        return ;
                    }
                },
                None => {
                    return ;
                },
            }
        }
    }

    /// The kind of the next token.
    fn peek(&self) -> (kind: Option<TokenKind>)
        requires
            self.wf(),
        ensures
            kind == peek(self.tokens(), self.cursor()),
    {
        if self.current < self.tokens.len() {
            Some(self.tokens[self.current].data.kind())
        } else {
            None
        }
    }

    /// Whether the next token is of this kind.
    fn check(&self, kind: TokenKind) -> (r: bool)
        requires
            self.wf(),
        ensures
            r == next_is(self.tokens(), self.cursor(), kind),
            r ==> self.remaining() > 0,
    {
        match self.peek() {
            Some(k) => k == kind,
            None => false,
        }
    }

    /// The name that the next token carries, where it is an identifier.
    fn identifier(&self) -> (name: Option<String>)
        requires
            self.wf(),
        ensures
            match name {
                Some(n) => identifier_at(self.tokens(), self.cursor()) == Some(n@),
                None => identifier_at(self.tokens(), self.cursor()) is None,
            },
            name is Some ==> self.remaining() > 0,
    {
        if self.current < self.tokens.len() {
            match &self.tokens[self.current].data {
                TokenData::Identifier(name) => Some(name.clone()),
                _ => None,
            }
        } else {
            None
        }
    }

    /// Consumes the next token, which is there.
    fn bump(&mut self)
        requires
            old(self).wf(),
            old(self).remaining() > 0,
        ensures
            final(self).continues(old(self)),
            final(self).cursor() == step(old(self).cursor()),
    {
        self.current = self.current + 1;
    }

    /// Consumes the next token; at the end of the tokens that is an error.
    fn advance(&mut self) -> (r: Result<Token, ()>)
        requires
            old(self).wf(),
        ensures
            final(self).continues(old(self)),
            advance(old(self).tokens(), old(self).cursor()) == (Parsed {
                cursor: final(self).cursor(),
                value: token_of(r),
            }),
    {
        if self.current < self.tokens.len() {
            let token = self.tokens[self.current].duplicate();
            self.current = self.current + 1;
            Ok(token)
        } else {
            self.add_error("Ran out of tokens unexpectedly. (This likely indicates a scanner bug.)");
            Err(())
        }
    }

    fn pass_semicolon(&mut self)
        requires
            old(self).wf(),
        ensures
            final(self).continues(old(self)),
            final(self).cursor() == pass_semicolon(old(self).tokens(), old(self).cursor()),
    {
        if self.check(TokenKind::Semicolon) {
            self.bump();
        } else {
            self.add_error("Expected ';' at end of statement.");
        }
    }

    fn is_at_end(&self) -> (r: bool)
        requires
            self.wf(),
        ensures
            r == at_end(self.tokens(), self.cursor()),
            r == (self.remaining() <= 0),
    {
        self.current >= self.tokens.len()
    }

    /// Adds a message, tied to the line of the token consumed last.
    fn add_error(&mut self, message: &str)
        requires
            old(self).wf(),
        ensures
            final(self).continues(old(self)),
            final(self).cursor() == with_error(old(self).tokens(), old(self).cursor(), message@),
    {
        let line = if self.current > 0 {
            self.tokens[self.current - 1].line
        } else {
            1
        };
        let ghost seen = text_views(self.error_strings@);
        self.error_strings.push(new_error_string(line, message));
        assert(text_views(self.error_strings@) =~= seen.push(self.error_strings@.last()@));
    }
}

} // verus!
