//! A tree-walking interpreter for a small dynamically-typed language with
//! closures and single-inheritance classes.
//!
//! Source text is scanned into tokens ([`scanner`]), parsed into a syntax
//! tree ([`parser`], which follows [`grammar`]) and evaluated against an
//! environment of scopes ([`interpreter`], which follows [`semantics`]).
//! Every stage is stated against a mathematical model and proved to meet it;
//! [`laws`], [`balance`] and [`progress`] hold what follows for all programs.
//!
//! Numbers are IEEE-754 doubles, held by their bit patterns ([`number`]) and
//! written as their shortest numerals ([`numeral`]).

pub mod text;
pub mod error;
pub mod number;
pub mod numeral;
pub mod clock;

pub mod token;
pub mod scanner;

pub mod node;
pub mod expression;
pub mod statement;
pub mod callable;
pub mod instance;

pub mod grammar;
pub mod parser;
pub mod progress;

pub mod scope;
pub mod environment;
pub mod semantics;
pub mod interpreter;
pub mod laws;
pub mod balance;

pub mod program;
pub mod prompt;
