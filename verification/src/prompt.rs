//! The interactive prompt: one interpreter that takes command after
//! command.

use vstd::prelude::*;
use crate::clock::{agrees, group_clock};
use crate::interpreter::LoxInterpreter;
use crate::parser::LoxParser;
use crate::program::{report, run_source};
use crate::semantics::InterpreterView;

verus! {

pub struct LoxPrompt {
    parser: LoxParser,
    interpreter: LoxInterpreter,
}

impl LoxPrompt {
    /// The state of the interpreter behind the prompt.
    pub closed spec fn state(&self) -> InterpreterView {
        self.interpreter@
    }

    /// The clock readings that the interpreter has taken so far.
    pub closed spec fn clock(&self) -> Seq<u64> {
        self.interpreter.clock()
    }

    /// The number of levels that evaluation may nest.
    pub closed spec fn depth(&self) -> nat {
        self.interpreter.depth()
    }

    pub closed spec fn wf(&self) -> bool {
        self.parser.wf() && self.interpreter.wf()
    }

    pub fn new() -> (prompt: LoxPrompt)
        ensures
            prompt.wf(),
            prompt.state() == LoxInterpreter::initial(),
            prompt.clock() == Seq::<u64>::empty(),
            prompt.depth() == crate::interpreter::DEPTH_LIMIT,
    {
        Self::with_depth_limit(crate::interpreter::DEPTH_LIMIT)
    }

    /// A prompt whose evaluation may nest `limit` levels.
    pub fn with_depth_limit(limit: u64) -> (prompt: LoxPrompt)
        ensures
            prompt.wf(),
            prompt.state() == LoxInterpreter::initial(),
            prompt.clock() == Seq::<u64>::empty(),
            prompt.depth() == limit,
    {
        LoxPrompt {
            parser: LoxParser::new(),
            interpreter: LoxInterpreter::with_depth_limit(limit),
        }
    }

    /// Runs one command and says what to show. What earlier commands have
    /// defined is there for this one.
    pub fn command(&mut self, input: &str) -> (text: String)
        requires
            old(self).wf(),
        ensures
            final(self).wf(),
            final(self).depth() == old(self).depth(),
            agrees(final(self).clock(), old(self).clock()),
            forall|clock: Seq<u64>| #[trigger]
                agrees(clock, final(self).clock()) ==> report(
                    old(self).state(),
                    input@,
                    old(self).depth(),
                    clock,
                ) == (final(self).state(), text@),
    {
        broadcast use group_clock;

        run_source(&mut self.parser, &mut self.interpreter, input)
    }
}

} // verus!
