//! The selection rules that decide which cgroups are reported and under what
//! name: a path selector (exact, glob, or regular expression) together with
//! an optional rewrite strategy.

use vstd::prelude::*;

verus! {

/// Which of the child process's output streams a shell rewrite captures.
#[derive(Clone, Copy, Debug, PartialEq, Eq, Structural)]
pub enum OutputSelector {
    Stdout,
    Stderr,
}

/// How a rule selects cgroup paths. Only the pattern of a `Regex` selector
/// is consulted by name resolution; `ExactPath` and `Glob` selection itself
/// happens upstream, before a rule reaches this engine.
#[derive(Clone, Debug)]
pub enum NameMatcher {
    ExactPath(String),
    Glob(String),
    Regex(String),
}

/// A rewrite template: a fixed name (with `{group}` placeholders when the
/// selector is a regex), or a shell command whose output becomes the name.
#[derive(Clone, Debug)]
pub enum Templated {
    Name(String),
    Shell { shell: String, output: OutputSelector },
}

/// The rewrite strategy of a rule.
#[derive(Clone, Debug)]
pub enum RewriteCgroupName {
    RemovePrefix { remove_prefix: String },
    Template { name: Templated },
}

/// One configured rule: the selector that matched the cgroup and the
/// rewrite, if any, that decides its externally visible name.
#[derive(Clone, Debug)]
pub struct CgroupMatcher {
    pub path: NameMatcher,
    pub rewrite: Option<RewriteCgroupName>,
}

} // verus!
