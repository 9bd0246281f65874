//! The scanner: characters to tokens.

use vstd::prelude::*;
use vstd::string::StringExecFns;
use crate::error::{error_text, new_error_string};
use crate::number::{from_decimal, number_from_decimal};
use crate::text::{characters, decimal, push_char, push_decimal, slice_string};
use crate::token::{duplicate_tokens, token_views, Token, TokenData, TokenDataView, TokenView};

verus! {

/// `0` to `9`.
pub open spec fn digit(c: char) -> bool {
    '0' <= c && c <= '9'
}

/// A letter of the ASCII alphabet, or the underscore.
pub open spec fn letter(c: char) -> bool {
    ('a' <= c && c <= 'z') || ('A' <= c && c <= 'Z') || c == '_'
}

pub fn is_number(c: char) -> (r: bool)
    ensures
        r == digit(c),
{
    '0' <= c && c <= '9'
}

pub fn is_alpha(c: char) -> (r: bool)
    ensures
        r == letter(c),
{
    ('a' <= c && c <= 'z') || ('A' <= c && c <= 'Z') || c == '_'
}

pub fn is_alphanumeric(c: char) -> (r: bool)
    ensures
        r == (letter(c) || digit(c)),
{
    is_alpha(c) || is_number(c)
}

/// The kinds of character that a lexeme may run over.
#[derive(Debug, PartialEq, Eq, Clone, Copy, Structural)]
pub enum Run {
    /// Decimal digits.
    Digits,
    /// Letters, digits and underscores.
    Word,
    /// Anything but a double quote.
    Quoted,
    /// Anything but a line feed.
    Comment,
}

pub open spec fn in_run(kind: Run, c: char) -> bool {
    match kind {
        Run::Digits => digit(c),
        Run::Word => letter(c) || digit(c),
        Run::Quoted => c != '"',
        Run::Comment => c != '\n',
    }
}

/// How many characters from `from` on belong to the run, up to the first
/// that does not.
pub open spec fn run_length(source: Seq<char>, from: nat, kind: Run) -> nat
    decreases source.len() - from,
{
    if from < source.len() && in_run(kind, source[from as int]) {
        1 + run_length(source, from + 1, kind)
    } else {
        0
    }
}

/// The number of line feeds in `source[from..to]`.
pub open spec fn line_feeds(source: Seq<char>, from: nat, to: nat) -> nat
    decreases to - from,
{
    if from < to && to <= source.len() {
        (if source[from as int] == '\n' {
            1nat
        } else {
            0nat
        }) + line_feeds(source, from + 1, to)
    } else {
        0
    }
}

/// Line numbers stop counting at the largest machine integer.
pub open spec fn advance_line(line: nat, by: nat) -> nat {
    if line + by <= usize::MAX {
        line + by
    } else {
        usize::MAX as nat
    }
}

/// The token that a word stands for: a reserved word, or an identifier.
pub open spec fn word_token(text: Seq<char>) -> TokenDataView {
    if text == "nil"@ {
        TokenDataView::Nil
    } else if text == "true"@ {
        TokenDataView::True
    } else if text == "false"@ {
        TokenDataView::False
    } else if text == "and"@ {
        TokenDataView::And
    } else if text == "class"@ {
        TokenDataView::Class
    } else if text == "else"@ {
        TokenDataView::Else
    } else if text == "fun"@ {
        TokenDataView::Fun
    } else if text == "for"@ {
        TokenDataView::For
    } else if text == "if"@ {
        TokenDataView::If
    } else if text == "or"@ {
        TokenDataView::Or
    } else if text == "print"@ {
        TokenDataView::Print
    } else if text == "return"@ {
        TokenDataView::Return
    } else if text == "super"@ {
        TokenDataView::Super
    } else if text == "this"@ {
        TokenDataView::This
    } else if text == "var"@ {
        TokenDataView::Var
    } else if text == "while"@ {
        TokenDataView::While
    } else {
        TokenDataView::Identifier(text)
    }
}

/// What one step of the scanner yields: at most one token or one message,
/// the place where scanning goes on, and the line reached. A token or a
/// message carries the line reached.
pub struct ScanStep {
    pub token: Option<TokenDataView>,
    pub error: Option<Seq<char>>,
    pub next: nat,
    pub line: nat,
}

pub open spec fn emit(token: TokenDataView, next: nat, line: nat) -> ScanStep {
    ScanStep { token: Some(token), error: None, next, line }
}

pub open spec fn skip(next: nat, line: nat) -> ScanStep {
    ScanStep { token: None, error: None, next, line }
}

pub open spec fn fail(message: Seq<char>, next: nat, line: nat) -> ScanStep {
    ScanStep { token: None, error: Some(message), next, line }
}

pub open spec fn followed_by(source: Seq<char>, at: nat, c: char) -> bool {
    at + 1 < source.len() && source[(at + 1) as int] == c
}

/// One or two characters: the longer token where `=` follows.
pub open spec fn with_equal(
    source: Seq<char>,
    at: nat,
    line: nat,
    long: TokenDataView,
    short: TokenDataView,
) -> ScanStep {
    if followed_by(source, at, '=') {
        emit(long, at + 2, line)
    } else {
        emit(short, at + 1, line)
    }
}

/// A string literal that opens at `at`: everything up to the next double
/// quote, line feeds included, with no escapes.
pub open spec fn string_step(source: Seq<char>, at: nat, line: nat) -> ScanStep {
    let length = run_length(source, at + 1, Run::Quoted);
    let close = at + 1 + length;
    let reached = advance_line(line, line_feeds(source, at + 1, close));
    if close >= source.len() {
        fail(
            "Unterminated string starting at line ["@ + decimal(line) + "]."@,
            source.len(),
            reached,
        )
    } else {
        emit(
            TokenDataView::StringData(source.subrange((at + 1) as int, close as int)),
            close + 1,
            reached,
        )
    }
}

/// Where the numeral that starts at `at` ends: digits, and a fraction where
/// a dot with a digit behind it follows.
pub open spec fn number_end(source: Seq<char>, at: nat) -> nat {
    let whole = at + 1 + run_length(source, at + 1, Run::Digits);
    if whole + 1 < source.len() && source[whole as int] == '.' && digit(source[(whole + 1) as int]) {
        whole + 1 + run_length(source, whole + 1, Run::Digits)
    } else {
        whole
    }
}

pub open spec fn number_step(source: Seq<char>, at: nat, line: nat) -> ScanStep {
    let end = number_end(source, at);
    match number_from_decimal(source.subrange(at as int, end as int)) {
        Some(bits) => emit(TokenDataView::Number(bits), end, line),
        None => fail("Invalid number."@, end, line),
    }
}

pub open spec fn word_step(source: Seq<char>, at: nat, line: nat) -> ScanStep {
    let end = at + 1 + run_length(source, at + 1, Run::Word);
    emit(word_token(source.subrange(at as int, end as int)), end, line)
}

/// The step that the character at `at` starts.
pub open spec fn scan_step(source: Seq<char>, at: nat, line: nat) -> ScanStep {
    let c = source[at as int];
    if c == '(' {
        emit(TokenDataView::LeftParen, at + 1, line)
    } else if c == ')' {
        emit(TokenDataView::RightParen, at + 1, line)
    } else if c == '{' {
        emit(TokenDataView::LeftBrace, at + 1, line)
    } else if c == '}' {
        emit(TokenDataView::RightBrace, at + 1, line)
    } else if c == ',' {
        emit(TokenDataView::Comma, at + 1, line)
    } else if c == '.' {
        emit(TokenDataView::Dot, at + 1, line)
    } else if c == ';' {
        emit(TokenDataView::Semicolon, at + 1, line)
    } else if c == '+' {
        emit(TokenDataView::Plus, at + 1, line)
    } else if c == '-' {
        emit(TokenDataView::Minus, at + 1, line)
    } else if c == '*' {
        emit(TokenDataView::Star, at + 1, line)
    } else if c == '%' {
        emit(TokenDataView::Percent, at + 1, line)
    } else if c == '!' {
        with_equal(source, at, line, TokenDataView::BangEqual, TokenDataView::Bang)
    } else if c == '=' {
        with_equal(source, at, line, TokenDataView::EqualEqual, TokenDataView::Equal)
    } else if c == '<' {
        with_equal(source, at, line, TokenDataView::LessEqual, TokenDataView::Less)
    } else if c == '>' {
        with_equal(source, at, line, TokenDataView::GreaterEqual, TokenDataView::Greater)
    } else if c == '/' {
        if followed_by(source, at, '/') {
            skip(at + 2 + run_length(source, at + 2, Run::Comment), line)
        } else {
            emit(TokenDataView::Slash, at + 1, line)
        }
    } else if c == '"' {
        string_step(source, at, line)
    } else if digit(c) {
        number_step(source, at, line)
    } else if letter(c) {
        word_step(source, at, line)
    } else if c == ' ' || c == '\r' || c == '\t' {
        skip(at + 1, line)
    } else if c == '\n' {
        skip(at + 1, advance_line(line, 1))
    } else {
        fail("Unexpected character '"@.push(c) + "'."@, at + 1, line)
    }
}

/// The tokens and the messages of a scan.
pub struct Scan {
    pub tokens: Seq<TokenView>,
    pub errors: Seq<Seq<char>>,
}

/// The scan of `source[at..]`, which starts on line `line`. It ends with the
/// one end-of-input token.
pub open spec fn scan_from(source: Seq<char>, at: nat, line: nat) -> Scan
    decreases source.len() - at,
{
    if at >= source.len() {
        Scan { tokens: seq![TokenView { data: TokenDataView::EndOfFile, line }], errors: seq![] }
    } else {
        let step = scan_step(source, at, line);
        if step.next <= at || step.next > source.len() {
            Scan { tokens: seq![], errors: seq![] }
        } else {
            let rest = scan_from(source, step.next, step.line);
            Scan {
                tokens: match step.token {
                    Some(data) => seq![TokenView { data, line: step.line }] + rest.tokens,
                    None => rest.tokens,
                },
                errors: match step.error {
                    Some(message) => seq![error_text(step.line, message)] + rest.errors,
                    None => rest.errors,
                },
            }
        }
    }
}

/// What scanning a source text yields: its tokens, or, where anything was
/// wrong, every message.
pub open spec fn scan(source: Seq<char>) -> Result<Seq<TokenView>, Seq<Seq<char>>> {
    let all = scan_from(source, 0, 1);
    if all.errors.len() == 0 {
        Ok(all.tokens)
    } else {
        Err(all.errors)
    }
}

/// A run ends within the source.
pub proof fn lemma_run_within(source: Seq<char>, from: nat, kind: Run)
    requires
        from <= source.len(),
    ensures
        from + run_length(source, from, kind) <= source.len(),
    decreases source.len() - from,
{
    if from < source.len() && in_run(kind, source[from as int]) {
        lemma_run_within(source, from + 1, kind);
    }
}

/// Every step moves on, and none beyond the end of the source.
pub proof fn lemma_step_advances(source: Seq<char>, at: nat, line: nat)
    requires
        at < source.len(),
    ensures
        at < scan_step(source, at, line).next <= source.len(),
{
    lemma_run_within(source, at + 1, Run::Digits);
    lemma_run_within(source, at + 1, Run::Word);
    let whole = at + 1 + run_length(source, at + 1, Run::Digits);
    if whole + 1 < source.len() {
        lemma_run_within(source, whole + 1, Run::Digits);
    }
    if at + 2 <= source.len() {
        lemma_run_within(source, at + 2, Run::Comment);
    }
}

/// No step yields the end-of-input token.
pub proof fn lemma_step_token(source: Seq<char>, at: nat, line: nat)
    requires
        at < source.len(),
    ensures
        scan_step(source, at, line).token != Some(TokenDataView::EndOfFile),
{
}

/// A scan ends with the end-of-input token, and holds it only there.
pub proof fn lemma_one_end_of_input(source: Seq<char>, at: nat, line: nat)
    requires
        at <= source.len(),
    ensures
        ({
            let tokens = scan_from(source, at, line).tokens;
            &&& tokens.len() >= 1
            &&& tokens.last().data == TokenDataView::EndOfFile
            &&& forall|i: int|
                0 <= i < tokens.len() - 1 ==> (#[trigger] tokens[i]).data
                    != TokenDataView::EndOfFile
        }),
    decreases source.len() - at,
{
    if at < source.len() {
        lemma_step_advances(source, at, line);
        lemma_step_token(source, at, line);
        let step = scan_step(source, at, line);
        lemma_one_end_of_input(source, step.next, step.line);
    }
}

/// The views of a sequence of strings, in order.
pub open spec fn text_views(items: Seq<String>) -> Seq<Seq<char>> {
    Seq::new(items.len(), |i: int| items[i]@)
}

/// A copy of a list of strings.
pub fn duplicate_texts(items: &Vec<String>) -> (copy: Vec<String>)
    ensures
        text_views(copy@) == text_views(items@),
{
    let mut copy: Vec<String> = Vec::new();
    let mut i: usize = 0;
    while i < items.len()
        invariant
            i <= items.len(),
            copy.len() == i,
            forall|j: int| 0 <= j < i ==> copy[j]@ == items[j]@,
        decreases items.len() - i,
    {
        copy.push(items[i].clone());
        i += 1;
    }
    copy
}

struct Scanned {
    token: Option<TokenData>,
    error: Option<String>,
    next: usize,
    line: usize,
}

impl Scanned {
    spec fn view(&self) -> ScanStep {
        ScanStep {
            token: match self.token {
                Some(t) => Some(t@),
                None => None,
            },
            error: match self.error {
                Some(e) => Some(e@),
                None => None,
            },
            next: self.next as nat,
            line: self.line as nat,
        }
    }
}

pub struct LoxScanner {
    source: Vec<char>,
    tokens: Vec<Token>,
    error_strings: Vec<String>,
    inited: bool,
}

/// The end of the run that starts at `from`.
fn run_end(source: &Vec<char>, from: usize, kind: Run) -> (end: usize)
    requires
        from <= source.len(),
    ensures
        end == from + run_length(source@, from as nat, kind),
        end <= source.len(),
    decreases source.len() - from,
{
    let mut end: usize = from;
    while end < source.len() && in_run_exec(kind, source[end])
        invariant
            from <= end <= source.len(),
            from + run_length(source@, from as nat, kind) == end + run_length(
                source@,
                end as nat,
                kind,
            ),
        decreases source.len() - end,
    {
        end += 1;
    }
    end
}

fn in_run_exec(kind: Run, c: char) -> (r: bool)
    ensures
        r == in_run(kind, c),
{
    match kind {
        Run::Digits => is_number(c),
        Run::Word => is_alphanumeric(c),
        Run::Quoted => c != '"',
        Run::Comment => c != '\n',
    }
}

/// The line reached after `source[from..to]`.
fn line_after(source: &Vec<char>, from: usize, to: usize, line: usize) -> (reached: usize)
    requires
        from <= to <= source.len(),
    ensures
        reached == advance_line(line as nat, line_feeds(source@, from as nat, to as nat)),
{
    let mut reached: usize = line;
    let mut i: usize = from;
    while i < to
        invariant
            from <= i <= to <= source.len(),
            advance_line(reached as nat, line_feeds(source@, i as nat, to as nat)) == advance_line(
                line as nat,
                line_feeds(source@, from as nat, to as nat),
            ),
        decreases to - i,
    {
        if source[i] == '\n' && reached < usize::MAX {
            reached += 1;
        }
        i += 1;
    }
    reached
}

fn followed(source: &Vec<char>, at: usize, c: char) -> (r: bool)
    requires
        at < source.len(),
    ensures
        r == followed_by(source@, at as nat, c),
{
    at + 1 < source.len() && source[at + 1] == c
}

fn token_step(token: TokenData, next: usize, line: usize) -> (step: Scanned)
    ensures
        step@ == emit(token@, next as nat, line as nat),
{
    Scanned { token: Some(token), error: None, next, line }
}

fn empty_step(next: usize, line: usize) -> (step: Scanned)
    ensures
        step@ == skip(next as nat, line as nat),
{
    Scanned { token: None, error: None, next, line }
}

fn error_step(message: String, next: usize, line: usize) -> (step: Scanned)
    ensures
        step@ == fail(message@, next as nat, line as nat),
{
    Scanned { token: None, error: Some(message), next, line }
}

fn word(text: String) -> (token: TokenData)
    ensures
        token@ == word_token(text@),
{
    if text == String::from_str("nil") {
        TokenData::Nil
    } else if text == String::from_str("true") {
        TokenData::True
    } else if text == String::from_str("false") {
        TokenData::False
    } else if text == String::from_str("and") {
        TokenData::And
    } else if text == String::from_str("class") {
        TokenData::Class
    } else if text == String::from_str("else") {
        TokenData::Else
    } else if text == String::from_str("fun") {
        TokenData::Fun
    } else if text == String::from_str("for") {
        TokenData::For
    } else if text == String::from_str("if") {
        TokenData::If
    } else if text == String::from_str("or") {
        TokenData::Or
    } else if text == String::from_str("print") {
        TokenData::Print
    } else if text == String::from_str("return") {
        TokenData::Return
    } else if text == String::from_str("super") {
        TokenData::Super
    } else if text == String::from_str("this") {
        TokenData::This
    } else if text == String::from_str("var") {
        TokenData::Var
    } else if text == String::from_str("while") {
        TokenData::While
    } else {
        TokenData::Identifier(text)
    }
}

impl LoxScanner {
    /// The characters that this scanner was made for.
    pub closed spec fn source(&self) -> Seq<char> {
        self.source@
    }

    /// Whether `scan_tokens` has run.
    pub closed spec fn scanned(&self) -> bool {
        self.inited
    }

    /// What the scanner has kept of a scan is what the scan of its source is.
    pub closed spec fn wf(&self) -> bool {
        self.inited ==> {
            &&& token_views(self.tokens@) == scan_from(self.source@, 0, 1).tokens
            &&& text_views(self.error_strings@) == scan_from(self.source@, 0, 1).errors
        }
    }

    pub fn new(source: &str) -> (scanner: LoxScanner)
        ensures
            scanner.wf(),
            scanner.source() == source@,
            !scanner.scanned(),
    {
        LoxScanner {
            source: characters(source),
            tokens: Vec::new(),
            error_strings: Vec::new(),
            inited: false,
        }
    }

    fn with_equal(source: &Vec<char>, at: usize, line: usize, long: TokenData, short: TokenData) -> (step:
        Scanned)
        requires
            at < source.len(),
        ensures
            step@ == with_equal(source@, at as nat, line as nat, long@, short@),
    {
        if followed(source, at, '=') {
            token_step(long, at + 2, line)
        } else {
            token_step(short, at + 1, line)
        }
    }

    fn process_string(source: &Vec<char>, at: usize, line: usize) -> (step: Scanned)
        requires
            at < source.len(),
        ensures
            step@ == string_step(source@, at as nat, line as nat),
    {
        let close = run_end(source, at + 1, Run::Quoted);
        let reached = line_after(source, at + 1, close, line);
        if close >= source.len() {
            let mut message = String::from_str("Unterminated string starting at line [");
            push_decimal(&mut message, line as u64);
            message.append("].");
            error_step(message, source.len(), reached)
        } else {
            token_step(TokenData::StringData(slice_string(source, at + 1, close)), close + 1, reached)
        }
    }

    fn process_number(source: &Vec<char>, at: usize, line: usize) -> (step: Scanned)
        requires
            at < source.len(),
        ensures
            step@ == number_step(source@, at as nat, line as nat),
    {
        let whole = run_end(source, at + 1, Run::Digits);
        let end = if whole < source.len() && whole + 1 < source.len() && source[whole] == '.'
            && is_number(source[whole + 1]) {
            run_end(source, whole + 1, Run::Digits)
        } else {
            whole
        };
        let text = slice_string(source, at, end);
        match from_decimal(text.as_str()) {
            Some(bits) => token_step(TokenData::Number(bits), end, line),
            None => error_step(String::from_str("Invalid number."), end, line),
        }
    }

    fn process_identifier(source: &Vec<char>, at: usize, line: usize) -> (step: Scanned)
        requires
            at < source.len(),
        ensures
            step@ == word_step(source@, at as nat, line as nat),
    {
        let end = run_end(source, at + 1, Run::Word);
        token_step(word(slice_string(source, at, end)), end, line)
    }

    fn step(source: &Vec<char>, at: usize, line: usize) -> (step: Scanned)
        requires
            at < source.len(),
        ensures
            step@ == scan_step(source@, at as nat, line as nat),
    {
        let c = source[at];
        if c == '(' {
            token_step(TokenData::LeftParen, at + 1, line)
        } else if c == ')' {
            token_step(TokenData::RightParen, at + 1, line)
        } else if c == '{' {
            token_step(TokenData::LeftBrace, at + 1, line)
        } else if c == '}' {
            token_step(TokenData::RightBrace, at + 1, line)
        } else if c == ',' {
            token_step(TokenData::Comma, at + 1, line)
        } else if c == '.' {
            token_step(TokenData::Dot, at + 1, line)
        } else if c == ';' {
            token_step(TokenData::Semicolon, at + 1, line)
        } else if c == '+' {
            token_step(TokenData::Plus, at + 1, line)
        } else if c == '-' {
            token_step(TokenData::Minus, at + 1, line)
        } else if c == '*' {
            token_step(TokenData::Star, at + 1, line)
        } else if c == '%' {
            token_step(TokenData::Percent, at + 1, line)
        } else if c == '!' {
            Self::with_equal(source, at, line, TokenData::BangEqual, TokenData::Bang)
        } else if c == '=' {
            Self::with_equal(source, at, line, TokenData::EqualEqual, TokenData::Equal)
        } else if c == '<' {
            Self::with_equal(source, at, line, TokenData::LessEqual, TokenData::Less)
        } else if c == '>' {
            Self::with_equal(source, at, line, TokenData::GreaterEqual, TokenData::Greater)
        } else if c == '/' {
            if followed(source, at, '/') {
                empty_step(run_end(source, at + 2, Run::Comment), line)
            } else {
                token_step(TokenData::Slash, at + 1, line)
            }
        } else if c == '"' {
            Self::process_string(source, at, line)
        } else if is_number(c) {
            Self::process_number(source, at, line)
        } else if is_alpha(c) {
            Self::process_identifier(source, at, line)
        } else if c == ' ' || c == '\r' || c == '\t' {
            empty_step(at + 1, line)
        } else if c == '\n' {
            empty_step(
                at + 1,
                if line < usize::MAX {
                    line + 1
                } else {
                    line
                },
            )
        } else {
            let mut message = String::from_str("Unexpected character '");
            push_char(&mut message, c);
            message.append("'.");
            error_step(message, at + 1, line)
        }
    }

    /// Scans the source on the first call; every call answers with the
    /// tokens of that scan, or with its messages where there are any.
    pub fn scan_tokens(&mut self) -> (outcome: Result<Vec<Token>, Vec<String>>)
        requires
            old(self).wf(),
        ensures
            final(self).wf(),
            final(self).scanned(),
            final(self).source() == old(self).source(),
            match outcome {
                Ok(tokens) => scan(old(self).source()) == Ok::<Seq<TokenView>, Seq<Seq<char>>>(
                    token_views(tokens@),
                ),
                Err(errors) => scan(old(self).source()) == Err::<Seq<TokenView>, Seq<Seq<char>>>(
                    text_views(errors@),
                ),
            },
    {
        if !self.inited {
            let mut tokens: Vec<Token> = Vec::new();
            let mut errors: Vec<String> = Vec::new();
            let mut at: usize = 0;
            let mut line: usize = 1;
            while at < self.source.len()
                invariant
                    at <= self.source.len(),
                    scan_from(self.source@, 0, 1).tokens == token_views(tokens@) + scan_from(
                        self.source@,
                        at as nat,
                        line as nat,
                    ).tokens,
                    scan_from(self.source@, 0, 1).errors == text_views(errors@) + scan_from(
                        self.source@,
                        at as nat,
                        line as nat,
                    ).errors,
                decreases self.source.len() - at,
            {
                let step = Self::step(&self.source, at, line);
                proof {
                    lemma_step_advances(self.source@, at as nat, line as nat);
                }
                match step.token {
                    Some(data) => {
                        tokens.push(Token::new(data, step.line));
                    },
                    None => {},
                }
                match step.error {
                    Some(message) => {
                        errors.push(new_error_string(step.line, message.as_str()));
                    },
                    None => {},
                }
                at = step.next;
                line = step.line;
            }
            let ghost seen_tokens = token_views(tokens@);
            tokens.push(Token::new(TokenData::EndOfFile, line));
            assert(token_views(tokens@) =~= seen_tokens + scan_from(
                self.source@,
                at as nat,
                line as nat,
            ).tokens);
            self.tokens = tokens;
            self.error_strings = errors;
            self.inited = true;
        }
        if self.error_strings.len() == 0 {
            Ok(duplicate_tokens(&self.tokens))
        } else {
            Err(duplicate_texts(&self.error_strings))
        }
    }

    /// `None` before the first scan; afterwards, whether the scan found
    /// nothing wrong.
    pub fn is_valid(&self) -> (valid: Option<bool>)
        requires
            self.wf(),
        ensures
            valid == if self.scanned() {
                Some(scan(self.source()) is Ok)
            } else {
                None
            },
    {
        if self.inited {
            Some(self.error_strings.len() == 0)
        } else {
            None
        }
    }
}

} // verus!
