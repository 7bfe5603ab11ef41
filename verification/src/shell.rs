//! The evaluator capability: turning a shell-command template plus a set of
//! named capture variables into a resolved name, synchronously, with a
//! success-or-failure outcome. A deterministic in-memory implementation is
//! provided here for testing; a production implementation that spawns a
//! child process lives with the host application.

use vstd::prelude::*;

use crate::matcher::OutputSelector;
use crate::template::{pairs_lookup, pairs_map, CaptureSet};
use crate::text::chars_of;

verus! {

/// Capability to evaluate a shell-command template against a set of
/// variables, capturing the selected output stream. `evaluate_blocking`
/// blocks its caller until the outcome is known.
pub trait Evaluator {
    /// The outcome this evaluator produces for the given command template,
    /// variables and output selection: the captured output, or a failure
    /// message.
    spec fn eval_spec(
        &self,
        command: Seq<char>,
        vars: Map<Seq<char>, Seq<char>>,
        output: OutputSelector,
    ) -> Result<Seq<char>, Seq<char>>;

    /// Evaluates the command template synchronously and returns the
    /// captured output, trimmed as the implementation documents, or the
    /// failure message.
    fn evaluate_blocking(&self, command: &str, vars: &CaptureSet, output: OutputSelector) -> (r:
        Result<String, String>)
        ensures
            match (r, self.eval_spec(command@, vars.as_map(), output)) {
                (Ok(s), Ok(t)) => s@ == t,
                (Err(e), Err(f)) => e@ == f,
                _ => false,
            },
    ;
}

/// A deterministic evaluator for tests: an in-memory table from command
/// template to canned output, with no process spawning. A command that has
/// no canned response fails.
#[derive(Clone, Debug)]
pub struct MockEvaluator {
    pub responses: Vec<(String, String)>,
}

impl MockEvaluator {
    /// The table of canned responses, later entries overriding earlier ones.
    pub open spec fn response_map(&self) -> Map<Seq<char>, Seq<char>> {
        pairs_map(self.responses@)
    }

    /// An evaluator with no canned responses: every evaluation fails.
    pub fn new() -> (r: MockEvaluator)
        ensures
            r.responses@.len() == 0,
    {
        MockEvaluator { responses: Vec::new() }
    }

    /// Adds a canned response for one command template.
    pub fn with_response(&mut self, command: String, output: String)
        ensures
            final(self).response_map() == old(self).response_map().insert(command@, output@),
    {
        self.responses.push((command, output));
        proof {
            assert(self.responses@.drop_last() =~= old(self).responses@);
        }
    }
}

impl Evaluator for MockEvaluator {
    open spec fn eval_spec(
        &self,
        command: Seq<char>,
        vars: Map<Seq<char>, Seq<char>>,
        output: OutputSelector,
    ) -> Result<Seq<char>, Seq<char>> {
        if self.response_map().dom().contains(command) {
            Ok(self.response_map()[command])
        } else {
            Err("no canned response for command"@)
        }
    }

    fn evaluate_blocking(&self, command: &str, vars: &CaptureSet, output: OutputSelector) -> (r:
        Result<String, String>) {
        let key = chars_of(command);
        match pairs_lookup(&self.responses, &key) {
            Some(v) => Ok(v),
            None => Err("no canned response for command".to_owned()),
        }
    }
}

} // verus!
