//! Running a source text from start to end: scan, parse, evaluate.

use vstd::prelude::*;
use vstd::string::StringExecFns;
use crate::clock::{agrees, group_clock};
use crate::grammar::parse;
use crate::interpreter::LoxInterpreter;
use crate::parser::LoxParser;
use crate::scanner::{scan, text_views};
use crate::semantics::{interpret, trimmed, InterpreterView};

verus! {

/// Every message followed by a line feed.
pub open spec fn lines(messages: Seq<Seq<char>>) -> Seq<char>
    decreases messages.len(),
{
    if messages.len() == 0 {
        Seq::empty()
    } else {
        lines(messages.drop_last()) + messages.last() + seq!['\n']
    }
}

/// The messages, one to a line, without a line feed at the end.
pub open spec fn joined(messages: Seq<Seq<char>>) -> Seq<char> {
    trimmed(lines(messages))
}

/// What running a source text in a state yields: the state that is left,
/// and the text to show. That is the output of the program, or, behind a
/// heading, what went wrong at the first stage that failed.
pub open spec fn report(s: InterpreterView, source: Seq<char>, depth: nat, clock: Seq<u64>) -> (
    InterpreterView,
    Seq<char>,
) {
    match scan(source) {
        Err(errors) => (s, "Scanning error(s):\n"@ + joined(errors)),
        Ok(tokens) => match parse(tokens) {
            Err(errors) => (s, "Parsing error(s):\n"@ + joined(errors)),
            Ok(program) => {
                let run = interpret(s, program, depth, clock);
                match run.result {
                    Ok(output) => (run.state, output),
                    Err(message) => (run.state, "Runtime error: "@ + message),
                }
            },
        },
    }
}

/// The messages, one to a line.
pub fn format_vec_output(messages: &Vec<String>) -> (text: String)
    ensures
        text@ == joined(text_views(messages@)),
{
    let mut text = String::new();
    let mut i: usize = 0;
    while i < messages.len()
        invariant
            i <= messages.len(),
            text@ == lines(text_views(messages@).subrange(0, i as int)),
        decreases messages.len() - i,
    {
        proof {
            let next = text_views(messages@).subrange(0, i + 1);
            assert(next.drop_last() =~= text_views(messages@).subrange(0, i as int));
            reveal_strlit("\n");
        }
        text.append(messages[i].as_str());
        text.append("\n");
        i += 1;
    }
    proof {
        assert(text_views(messages@).subrange(0, messages.len() as int) =~= text_views(messages@));
    }
    let count = text.as_str().unicode_len();
    if count > 0 {
        let shorter = String::from_str(text.as_str().substring_char(0, count - 1));
        shorter
    } else {
        text
    }
}

/// Runs a source text in an interpreter and says what to show.
pub fn run_source(parser: &mut LoxParser, interpreter: &mut LoxInterpreter, source: &str) -> (text:
    String)
    requires
        old(parser).wf(),
        old(interpreter).wf(),
    ensures
        final(parser).wf(),
        final(interpreter).follows(old(interpreter)),
        forall|clock: Seq<u64>| #[trigger]
            agrees(clock, final(interpreter).clock()) ==> report(
                old(interpreter)@,
                source@,
                old(interpreter).depth(),
                clock,
            ) == (final(interpreter)@, text@),
{
    broadcast use group_clock;

    match parser.load_string(source) {
        Ok(_) => {},
        Err(errors) => {
            let mut text = String::from_str("Scanning error(s):\n");
            text.append(format_vec_output(&errors).as_str());
            return text;
        },
    }
    match parser.parse() {
        Ok(program) => {
            match interpreter.interpret(program) {
                Ok(output) => output,
                Err(message) => {
                    let mut text = String::from_str("Runtime error: ");
                    text.append(message.as_str());
                    text
                },
            }
        },
        Err(errors) => {
            let mut text = String::from_str("Parsing error(s):\n");
            text.append(format_vec_output(&errors).as_str());
            text
        },
    }
}

/// A program: a source text to run.
pub struct LoxProgram {
    instructions: String,
}

impl LoxProgram {
    pub closed spec fn source(&self) -> Seq<char> {
        self.instructions@
    }

    /// The program of a source text.
    pub fn new(instructions: String) -> (program: LoxProgram)
        ensures
            program.source() == instructions@,
    {
        LoxProgram { instructions }
    }

    /// Runs the program in a fresh interpreter and says what to show, for
    /// the readings that the clock gave during the run.
    pub fn run(&self) -> (text: String)
        ensures
            exists|clock: Seq<u64>|
                report(
                    LoxInterpreter::initial(),
                    self.source(),
                    crate::interpreter::DEPTH_LIMIT as nat,
                    clock,
                ).1 == text@,
    {
        self.run_within(crate::interpreter::DEPTH_LIMIT)
    }

    /// Runs the program in a fresh interpreter whose evaluation may nest
    /// `limit` levels.
    pub fn run_within(&self, limit: u64) -> (text: String)
        ensures
            exists|clock: Seq<u64>|
                report(LoxInterpreter::initial(), self.source(), limit as nat, clock).1 == text@,
    {
        broadcast use group_clock;

        let mut parser = LoxParser::new();
        let mut interpreter = LoxInterpreter::with_depth_limit(limit);
        let text = run_source(&mut parser, &mut interpreter, self.instructions.as_str());
        proof {
            let clock = interpreter.clock();
            assert(agrees(clock, interpreter.clock()));
            assert(report(LoxInterpreter::initial(), self.source(), limit as nat, clock).1
                == text@);
        }
        text
    }
}

} // verus!
