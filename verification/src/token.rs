//! Tokens: what the scanner hands to the parser.

use vstd::prelude::*;
use vstd::string::StringExecFns;
use crate::numeral::{format_number, number_text};
use crate::text::{decimal, push_decimal};

verus! {

#[derive(Debug, PartialEq, Clone)]
pub enum TokenData {
    LeftParen,
    RightParen,
    LeftBrace,
    RightBrace,
    Comma,
    Dot,
    Semicolon,
    Minus,
    Plus,
    Slash,
    Star,
    Percent,
    Bang,
    Equal,
    EqualEqual,
    Greater,
    GreaterEqual,
    Less,
    LessEqual,
    BangEqual,
    Identifier(String),
    StringData(String),
    /// The bit pattern of the double that the numeral stands for.
    Number(u64),
    Nil,
    True,
    False,
    And,
    Class,
    Else,
    Fun,
    For,
    If,
    Or,
    Print,
    Return,
    Super,
    This,
    Var,
    While,
    EndOfFile,
}

/// The mathematical value that a [`TokenData`] stands for.
pub enum TokenDataView {
    LeftParen,
    RightParen,
    LeftBrace,
    RightBrace,
    Comma,
    Dot,
    Semicolon,
    Minus,
    Plus,
    Slash,
    Star,
    Percent,
    Bang,
    Equal,
    EqualEqual,
    Greater,
    GreaterEqual,
    Less,
    LessEqual,
    BangEqual,
    Identifier(Seq<char>),
    StringData(Seq<char>),
    Number(u64),
    Nil,
    True,
    False,
    And,
    Class,
    Else,
    Fun,
    For,
    If,
    Or,
    Print,
    Return,
    Super,
    This,
    Var,
    While,
    EndOfFile,
}

/// The kind of a token, without what it carries.
#[derive(Debug, PartialEq, Eq, Clone, Copy, Structural)]
pub enum TokenKind {
    LeftParen,
    RightParen,
    LeftBrace,
    RightBrace,
    Comma,
    Dot,
    Semicolon,
    Minus,
    Plus,
    Slash,
    Star,
    Percent,
    Bang,
    Equal,
    EqualEqual,
    Greater,
    GreaterEqual,
    Less,
    LessEqual,
    BangEqual,
    Identifier,
    StringData,
    Number,
    Nil,
    True,
    False,
    And,
    Class,
    Else,
    Fun,
    For,
    If,
    Or,
    Print,
    Return,
    Super,
    This,
    Var,
    While,
    EndOfFile,
}

#[derive(Debug, PartialEq, Clone)]
pub struct Token {
    pub data: TokenData,
    pub line: usize,
}

pub struct TokenView {
    pub data: TokenDataView,
    pub line: nat,
}

/// The views of a sequence of tokens, in order.
pub open spec fn token_views(tokens: Seq<Token>) -> Seq<TokenView> {
    Seq::new(tokens.len(), |i: int| tokens[i]@)
}

impl TokenDataView {
    pub open spec fn kind(self) -> TokenKind {
        match self {
            TokenDataView::LeftParen => TokenKind::LeftParen,
            TokenDataView::RightParen => TokenKind::RightParen,
            TokenDataView::LeftBrace => TokenKind::LeftBrace,
            TokenDataView::RightBrace => TokenKind::RightBrace,
            TokenDataView::Comma => TokenKind::Comma,
            TokenDataView::Dot => TokenKind::Dot,
            TokenDataView::Semicolon => TokenKind::Semicolon,
            TokenDataView::Minus => TokenKind::Minus,
            TokenDataView::Plus => TokenKind::Plus,
            TokenDataView::Slash => TokenKind::Slash,
            TokenDataView::Star => TokenKind::Star,
            TokenDataView::Percent => TokenKind::Percent,
            TokenDataView::Bang => TokenKind::Bang,
            TokenDataView::Equal => TokenKind::Equal,
            TokenDataView::EqualEqual => TokenKind::EqualEqual,
            TokenDataView::Greater => TokenKind::Greater,
            TokenDataView::GreaterEqual => TokenKind::GreaterEqual,
            TokenDataView::Less => TokenKind::Less,
            TokenDataView::LessEqual => TokenKind::LessEqual,
            TokenDataView::BangEqual => TokenKind::BangEqual,
            TokenDataView::Identifier(_) => TokenKind::Identifier,
            TokenDataView::StringData(_) => TokenKind::StringData,
            TokenDataView::Number(_) => TokenKind::Number,
            TokenDataView::Nil => TokenKind::Nil,
            TokenDataView::True => TokenKind::True,
            TokenDataView::False => TokenKind::False,
            TokenDataView::And => TokenKind::And,
            TokenDataView::Class => TokenKind::Class,
            TokenDataView::Else => TokenKind::Else,
            TokenDataView::Fun => TokenKind::Fun,
            TokenDataView::For => TokenKind::For,
            TokenDataView::If => TokenKind::If,
            TokenDataView::Or => TokenKind::Or,
            TokenDataView::Print => TokenKind::Print,
            TokenDataView::Return => TokenKind::Return,
            TokenDataView::Super => TokenKind::Super,
            TokenDataView::This => TokenKind::This,
            TokenDataView::Var => TokenKind::Var,
            TokenDataView::While => TokenKind::While,
            TokenDataView::EndOfFile => TokenKind::EndOfFile,
        }
    }
}

impl TokenDataView {
    /// How a token's data is shown: what it carries behind the name of its
    /// kind, and the brackets as themselves.
    pub open spec fn text(self) -> Seq<char> {
        match self {
            TokenDataView::Identifier(name) => "Identifier | "@ + name,
            TokenDataView::StringData(s) => "String | \""@ + s + "\""@,
            TokenDataView::Number(bits) => "Number | "@ + number_text(bits),
            TokenDataView::LeftParen => "("@,
            TokenDataView::RightParen => ")"@,
            TokenDataView::LeftBrace => "{"@,
            TokenDataView::RightBrace => "}"@,
            _ => "Unidentified static token"@,
        }
    }
}

impl TokenView {
    /// How a token is shown: its line in square brackets, then its data.
    pub open spec fn text(self) -> Seq<char> {
        "["@ + decimal(self.line) + "] "@ + self.data.text()
    }
}

impl TokenData {
    pub fn to_string(self) -> (text: String)
        ensures
            text@ == self@.text(),
    {
        match self {
            TokenData::Identifier(name) => {
                let mut text = String::from_str("Identifier | ");
                text.append(name.as_str());
                text
            },
            TokenData::StringData(s) => {
                let mut text = String::from_str("String | \"");
                text.append(s.as_str());
                text.append("\"");
                text
            },
            TokenData::Number(bits) => {
                let mut text = String::from_str("Number | ");
                text.append(format_number(bits).as_str());
                text
            },
            TokenData::LeftParen => String::from_str("("),
            TokenData::RightParen => String::from_str(")"),
            TokenData::LeftBrace => String::from_str("{"),
            TokenData::RightBrace => String::from_str("}"),
            _ => String::from_str("Unidentified static token"),
        }
    }

    pub open spec fn view(&self) -> TokenDataView {
        match self {
            TokenData::LeftParen => TokenDataView::LeftParen,
            TokenData::RightParen => TokenDataView::RightParen,
            TokenData::LeftBrace => TokenDataView::LeftBrace,
            TokenData::RightBrace => TokenDataView::RightBrace,
            TokenData::Comma => TokenDataView::Comma,
            TokenData::Dot => TokenDataView::Dot,
            TokenData::Semicolon => TokenDataView::Semicolon,
            TokenData::Minus => TokenDataView::Minus,
            TokenData::Plus => TokenDataView::Plus,
            TokenData::Slash => TokenDataView::Slash,
            TokenData::Star => TokenDataView::Star,
            TokenData::Percent => TokenDataView::Percent,
            TokenData::Bang => TokenDataView::Bang,
            TokenData::Equal => TokenDataView::Equal,
            TokenData::EqualEqual => TokenDataView::EqualEqual,
            TokenData::Greater => TokenDataView::Greater,
            TokenData::GreaterEqual => TokenDataView::GreaterEqual,
            TokenData::Less => TokenDataView::Less,
            TokenData::LessEqual => TokenDataView::LessEqual,
            TokenData::BangEqual => TokenDataView::BangEqual,
            TokenData::Identifier(s) => TokenDataView::Identifier(s@),
            TokenData::StringData(s) => TokenDataView::StringData(s@),
            TokenData::Number(n) => TokenDataView::Number(*n),
            TokenData::Nil => TokenDataView::Nil,
            TokenData::True => TokenDataView::True,
            TokenData::False => TokenDataView::False,
            TokenData::And => TokenDataView::And,
            TokenData::Class => TokenDataView::Class,
            TokenData::Else => TokenDataView::Else,
            TokenData::Fun => TokenDataView::Fun,
            TokenData::For => TokenDataView::For,
            TokenData::If => TokenDataView::If,
            TokenData::Or => TokenDataView::Or,
            TokenData::Print => TokenDataView::Print,
            TokenData::Return => TokenDataView::Return,
            TokenData::Super => TokenDataView::Super,
            TokenData::This => TokenDataView::This,
            TokenData::Var => TokenDataView::Var,
            TokenData::While => TokenDataView::While,
            TokenData::EndOfFile => TokenDataView::EndOfFile,
        }
    }

    pub fn kind(&self) -> (k: TokenKind)
        ensures
            k == self@.kind(),
    {
        match self {
            TokenData::LeftParen => TokenKind::LeftParen,
            TokenData::RightParen => TokenKind::RightParen,
            TokenData::LeftBrace => TokenKind::LeftBrace,
            TokenData::RightBrace => TokenKind::RightBrace,
            TokenData::Comma => TokenKind::Comma,
            TokenData::Dot => TokenKind::Dot,
            TokenData::Semicolon => TokenKind::Semicolon,
            TokenData::Minus => TokenKind::Minus,
            TokenData::Plus => TokenKind::Plus,
            TokenData::Slash => TokenKind::Slash,
            TokenData::Star => TokenKind::Star,
            TokenData::Percent => TokenKind::Percent,
            TokenData::Bang => TokenKind::Bang,
            TokenData::Equal => TokenKind::Equal,
            TokenData::EqualEqual => TokenKind::EqualEqual,
            TokenData::Greater => TokenKind::Greater,
            TokenData::GreaterEqual => TokenKind::GreaterEqual,
            TokenData::Less => TokenKind::Less,
            TokenData::LessEqual => TokenKind::LessEqual,
            TokenData::BangEqual => TokenKind::BangEqual,
            TokenData::Identifier(_) => TokenKind::Identifier,
            TokenData::StringData(_) => TokenKind::StringData,
            TokenData::Number(_) => TokenKind::Number,
            TokenData::Nil => TokenKind::Nil,
            TokenData::True => TokenKind::True,
            TokenData::False => TokenKind::False,
            TokenData::And => TokenKind::And,
            TokenData::Class => TokenKind::Class,
            TokenData::Else => TokenKind::Else,
            TokenData::Fun => TokenKind::Fun,
            TokenData::For => TokenKind::For,
            TokenData::If => TokenKind::If,
            TokenData::Or => TokenKind::Or,
            TokenData::Print => TokenKind::Print,
            TokenData::Return => TokenKind::Return,
            TokenData::Super => TokenKind::Super,
            TokenData::This => TokenKind::This,
            TokenData::Var => TokenKind::Var,
            TokenData::While => TokenKind::While,
            TokenData::EndOfFile => TokenKind::EndOfFile,
        }
    }

    /// A copy that stands for the same value.
    pub fn duplicate(&self) -> (copy: TokenData)
        ensures
            copy@ == self@,
    {
        match self {
            TokenData::LeftParen => TokenData::LeftParen,
            TokenData::RightParen => TokenData::RightParen,
            TokenData::LeftBrace => TokenData::LeftBrace,
            TokenData::RightBrace => TokenData::RightBrace,
            TokenData::Comma => TokenData::Comma,
            TokenData::Dot => TokenData::Dot,
            TokenData::Semicolon => TokenData::Semicolon,
            TokenData::Minus => TokenData::Minus,
            TokenData::Plus => TokenData::Plus,
            TokenData::Slash => TokenData::Slash,
            TokenData::Star => TokenData::Star,
            TokenData::Percent => TokenData::Percent,
            TokenData::Bang => TokenData::Bang,
            TokenData::Equal => TokenData::Equal,
            TokenData::EqualEqual => TokenData::EqualEqual,
            TokenData::Greater => TokenData::Greater,
            TokenData::GreaterEqual => TokenData::GreaterEqual,
            TokenData::Less => TokenData::Less,
            TokenData::LessEqual => TokenData::LessEqual,
            TokenData::BangEqual => TokenData::BangEqual,
            TokenData::Identifier(s) => TokenData::Identifier(s.clone()),
            TokenData::StringData(s) => TokenData::StringData(s.clone()),
            TokenData::Number(n) => TokenData::Number(*n),
            TokenData::Nil => TokenData::Nil,
            TokenData::True => TokenData::True,
            TokenData::False => TokenData::False,
            TokenData::And => TokenData::And,
            TokenData::Class => TokenData::Class,
            TokenData::Else => TokenData::Else,
            TokenData::Fun => TokenData::Fun,
            TokenData::For => TokenData::For,
            TokenData::If => TokenData::If,
            TokenData::Or => TokenData::Or,
            TokenData::Print => TokenData::Print,
            TokenData::Return => TokenData::Return,
            TokenData::Super => TokenData::Super,
            TokenData::This => TokenData::This,
            TokenData::Var => TokenData::Var,
            TokenData::While => TokenData::While,
            TokenData::EndOfFile => TokenData::EndOfFile,
        }
    }
}

impl Token {
    pub open spec fn view(&self) -> TokenView {
        TokenView { data: self.data@, line: self.line as nat }
    }

    pub fn to_string(self) -> (text: String)
        ensures
            text@ == self@.text(),
    {
        let mut text = String::from_str("[");
        push_decimal(&mut text, self.line as u64);
        text.append("] ");
        text.append(self.data.to_string().as_str());
        text
    }

    pub fn new(data: TokenData, line: usize) -> (token: Token)
        ensures
            token@ == (TokenView { data: data@, line: line as nat }),
    {
        Token { data, line }
    }

    /// A copy that stands for the same value.
    pub fn duplicate(&self) -> (copy: Token)
        ensures
            copy@ == self@,
    {
        Token { data: self.data.duplicate(), line: self.line }
    }
}

/// A copy of a list of tokens.
pub fn duplicate_tokens(tokens: &Vec<Token>) -> (copy: Vec<Token>)
    ensures
        token_views(copy@) == token_views(tokens@),
{
    let mut copy: Vec<Token> = Vec::new();
    let mut i: usize = 0;
    while i < tokens.len()
        invariant
            i <= tokens.len(),
            copy.len() == i,
            forall|j: int| 0 <= j < i ==> copy[j]@ == tokens[j]@,
        decreases tokens.len() - i,
    {
        copy.push(tokens[i].duplicate());
        i += 1;
    }
    copy
}

} // verus!
