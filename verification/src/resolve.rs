//! Name resolution: given a cgroup's raw path and the rule that selected it,
//! decide the externally visible name. Pure string rewrites are computed
//! here; a shell rewrite is handed to an [`Evaluator`], and its failure is
//! fatal to the one cgroup's snapshot only.

use vstd::prelude::*;

use crate::matcher::{CgroupMatcher, NameMatcher, OutputSelector, RewriteCgroupName, Templated};
use crate::shell::Evaluator;
use crate::template::{render_spec, render_template, CaptureSet};
use crate::text::{chars_of, string_from_chars, subrange_vec};

verus! {

/// Why a single cgroup's name could not be resolved.
#[derive(Clone, Debug, PartialEq, Eq)]
pub enum ResolveError {
    /// A shell template was paired with a selector that is not a regex: a
    /// configuration invariant that upstream validation must enforce.
    ShellTemplateWithNonRegexSelector,
    /// A regex selector whose pattern does not compile: likewise a
    /// configuration invariant violated upstream.
    InvalidRegexPattern,
    /// The evaluator failed while computing a shell-templated name; the
    /// underlying failure message is attached.
    Evaluation(String),
}

/// Whether `regex::Regex::new` accepts `pattern`.
pub uninterp spec fn regex_compiles(pattern: Seq<char>) -> bool;

/// Whether the compiled `pattern` matches `path`, as `regex::Regex::is_match`
/// decides it.
pub uninterp spec fn regex_matches(pattern: Seq<char>, path: Seq<char>) -> bool;

/// The named capture groups of the leftmost match of `pattern` in `path`:
/// each named group that participated in the match, mapped to the text it
/// matched, as `regex::Regex::captures` reports them.
pub uninterp spec fn regex_capture_map(pattern: Seq<char>, path: Seq<char>) -> Map<
    Seq<char>,
    Seq<char>,
>;

enum RegexOutcome {
    BadPattern,
    NoMatch,
    Matched(CaptureSet),
}

/// Relies on `regex::Regex::new` and `regex::Regex::captures`: `new` fails
/// exactly when the pattern is invalid; `captures` returns `Some` exactly
/// when the haystack matches; each named group that participated in the
/// match reports the text it matched, and groups that did not participate
/// are left out. Group names are unique within a pattern, so the collected
/// pairs denote exactly the crate's name-to-text mapping.
#[verifier::external_body]
fn regex_named_captures(pattern: &str, path: &str) -> (r: RegexOutcome)
    ensures
        (r is BadPattern) <==> !regex_compiles(pattern@),
        (r is NoMatch) <==> (regex_compiles(pattern@) && !regex_matches(pattern@, path@)),
        (r matches RegexOutcome::Matched(cs) ==> regex_compiles(pattern@) && regex_matches(
            pattern@,
            path@,
        ) && cs.as_map() == regex_capture_map(pattern@, path@)),
{
    let re = match regex::Regex::new(pattern) { Ok(re) => re, Err(_) => return RegexOutcome::BadPattern };
    let caps = match re.captures(path) { Some(c) => c, None => return RegexOutcome::NoMatch };
    let mut entries: Vec<(String, String)> = Vec::new();
    for name in re.capture_names().flatten() {
        if let Some(m) = caps.name(name) {
            entries.push((name.to_string(), m.as_str().to_string()));
        }
    }
    RegexOutcome::Matched(CaptureSet { entries })
}

/// `p` with `pre` removed from its front when `p` starts with `pre`, and `p`
/// unchanged otherwise.
pub open spec fn strip_prefix_spec(p: Seq<char>, pre: Seq<char>) -> Seq<char> {
    if pre.len() <= p.len() && p.take(pre.len() as int) == pre {
        p.skip(pre.len() as int)
    } else {
        p
    }
}

/// What resolving a path against a rule must produce: a finished name, a
/// shell evaluation still to run, or a configuration error.
pub enum NameResolution {
    Name(Seq<char>),
    RunShell { shell: Seq<char>, vars: Map<Seq<char>, Seq<char>>, output: OutputSelector },
    Fail(ResolveError),
}

/// The resolution a rule prescribes for a raw path.
///
/// With no rewrite the path itself is the name. `RemovePrefix` strips its
/// prefix when present and otherwise changes nothing, and never fails. A
/// template with a non-regex selector may only be a literal; a shell
/// template there is a configuration violation. With a regex selector, a
/// path the pattern does not match falls back to the literal text, or to
/// the shell command string unexpanded; a matching path renders the literal
/// template from the captures, or hands the shell template and captures to
/// the evaluator.
pub open spec fn resolution_of(path: Seq<char>, m: CgroupMatcher) -> NameResolution {
    match m.rewrite {
        None => NameResolution::Name(path),
        Some(RewriteCgroupName::RemovePrefix { remove_prefix }) => NameResolution::Name(
            strip_prefix_spec(path, remove_prefix@),
        ),
        Some(RewriteCgroupName::Template { name }) => match m.path {
            NameMatcher::Regex(pattern) => {
                if !regex_compiles(pattern@) {
                    NameResolution::Fail(ResolveError::InvalidRegexPattern)
                } else if !regex_matches(pattern@, path) {
                    match name {
                        Templated::Name(n) => NameResolution::Name(n@),
                        Templated::Shell { shell, .. } => NameResolution::Name(shell@),
                    }
                } else {
                    match name {
                        Templated::Name(n) => NameResolution::Name(
                            render_spec(n@, regex_capture_map(pattern@, path)),
                        ),
                        Templated::Shell { shell, output } => NameResolution::RunShell {
                            shell: shell@,
                            vars: regex_capture_map(pattern@, path),
                            output,
                        },
                    }
                }
            },
            _ => match name {
                Templated::Name(n) => NameResolution::Name(n@),
                Templated::Shell { .. } => NameResolution::Fail(
                    ResolveError::ShellTemplateWithNonRegexSelector,
                ),
            },
        },
    }
}

fn strip_prefix_exec(path: &str, prefix: &str) -> (r: String)
    ensures
        r@ == strip_prefix_spec(path@, prefix@),
{
    let p = chars_of(path);
    let pre = chars_of(prefix);
    if pre.len() > p.len() {
        return path.to_owned();
    }
    let mut i: usize = 0;
    while i < pre.len()
        invariant
            i <= pre.len() <= p.len(),
            p@ == path@,
            pre@ == prefix@,
            p@.take(i as int) =~= pre@.take(i as int),
        decreases pre.len() - i,
    {
        if p[i] != pre[i] {
            proof {
                assert(p@.take(pre@.len() as int)[i as int] == p@[i as int]);
                assert(pre@[i as int] != p@[i as int]);
                assert(p@.take(pre@.len() as int) != pre@);
            }
            return path.to_owned();
        }
        assert(p@.take(i as int + 1) =~= pre@.take(i as int + 1));
        i = i + 1;
    }
    proof {
        assert(pre@.take(pre@.len() as int) =~= pre@);
        assert(p@.take(pre@.len() as int) == pre@);
    }
    let suffix = subrange_vec(&p, pre.len(), p.len());
    proof {
        assert(suffix@ =~= p@.skip(pre@.len() as int));
    }
    string_from_chars(&suffix)
}

/// One step of resolution, with any shell evaluation left to the caller.
pub enum ResolveStep {
    /// The name is fully decided.
    Resolved(String),
    /// The caller must evaluate `shell` with `vars` and feed the outcome to
    /// [`resolve_eval_outcome`].
    EvalNeeded { shell: String, vars: CaptureSet, output: OutputSelector },
}

/// Resolves as far as possible without running a shell command: exactly the
/// resolution that [`resolution_of`] prescribes, with a shell evaluation, if
/// one is called for, handed back to the caller.
pub fn resolve_request(path: &str, matcher: &CgroupMatcher) -> (r: Result<
    ResolveStep,
    ResolveError,
>)
    ensures
        match resolution_of(path@, *matcher) {
            NameResolution::Name(n) => r matches Ok(ResolveStep::Resolved(s)) && s@ == n,
            NameResolution::RunShell { shell, vars, output } => r matches Ok(
                ResolveStep::EvalNeeded { shell: sh, vars: vs, output: o },
            ) && sh@ == shell && vs.as_map() == vars && o == output,
            NameResolution::Fail(e) => r matches Err(e2) && e2 == e,
        },
{
    match &matcher.rewrite {
        None => Ok(ResolveStep::Resolved(path.to_owned())),
        Some(RewriteCgroupName::RemovePrefix { remove_prefix }) => Ok(
            ResolveStep::Resolved(strip_prefix_exec(path, remove_prefix.as_str())),
        ),
        Some(RewriteCgroupName::Template { name }) => match &matcher.path {
            NameMatcher::Regex(pattern) => match regex_named_captures(pattern.as_str(), path) {
                RegexOutcome::BadPattern => Err(ResolveError::InvalidRegexPattern),
                RegexOutcome::NoMatch => match name {
                    Templated::Name(n) => Ok(ResolveStep::Resolved(n.clone())),
                    Templated::Shell { shell, .. } => Ok(ResolveStep::Resolved(shell.clone())),
                },
                RegexOutcome::Matched(cs) => match name {
                    Templated::Name(n) => Ok(
                        ResolveStep::Resolved(render_template(n.as_str(), &cs)),
                    ),
                    Templated::Shell { shell, output } => Ok(
                        ResolveStep::EvalNeeded { shell: shell.clone(), vars: cs, output: *output },
                    ),
                },
            },
            _ => match name {
                Templated::Name(n) => Ok(ResolveStep::Resolved(n.clone())),
                Templated::Shell { .. } => Err(ResolveError::ShellTemplateWithNonRegexSelector),
            },
        },
    }
}

/// Folds an evaluator's outcome into the resolution result: its failure is
/// wrapped as a template-evaluation error.
pub fn resolve_eval_outcome(outcome: Result<String, String>) -> (r: Result<String, ResolveError>)
    ensures
        match outcome {
            Ok(s) => r matches Ok(s2) && s2@ == s@,
            Err(m) => r matches Err(e) && e matches ResolveError::Evaluation(em) && em@ == m@,
        },
{
    match outcome {
        Ok(s) => Ok(s),
        Err(m) => Err(ResolveError::Evaluation(m)),
    }
}

/// Resolves a cgroup's externally visible name: the resolution that
/// [`resolution_of`] prescribes, with any shell template evaluated by
/// `evaluator` and an evaluator failure wrapped as a template-evaluation
/// error fatal to this one cgroup.
pub fn resolve<E: Evaluator>(path: &str, matcher: &CgroupMatcher, evaluator: &E) -> (r: Result<
    String,
    ResolveError,
>)
    ensures
        match resolution_of(path@, *matcher) {
            NameResolution::Name(n) => r matches Ok(s) && s@ == n,
            NameResolution::Fail(e) => r matches Err(e2) && e2 == e,
            NameResolution::RunShell { shell, vars, output } => match evaluator.eval_spec(
                shell,
                vars,
                output,
            ) {
                Ok(out) => r matches Ok(s) && s@ == out,
                Err(msg) => r matches Err(e) && e matches ResolveError::Evaluation(em) && em@
                    == msg,
            },
        },
{
    match resolve_request(path, matcher) {
        Ok(ResolveStep::Resolved(s)) => Ok(s),
        Ok(ResolveStep::EvalNeeded { shell, vars, output }) => {
            let outcome = evaluator.evaluate_blocking(shell.as_str(), &vars, output);
            resolve_eval_outcome(outcome)
        },
        Err(e) => Err(e),
    }
}

/// With `rewrite` absent, every raw path resolves to itself, whatever the
/// selector and evaluator.
pub proof fn lemma_no_rewrite_keeps_path(path: Seq<char>, m: CgroupMatcher)
    requires
        m.rewrite is None,
    ensures
        resolution_of(path, m) == NameResolution::Name(path),
{
}

/// A `RemovePrefix` rewrite never fails: it strips the prefix from a path
/// that starts with it and leaves any other path unchanged.
pub proof fn lemma_remove_prefix(path: Seq<char>, m: CgroupMatcher, x: Seq<char>)
    requires
        m.rewrite matches Some(RewriteCgroupName::RemovePrefix { remove_prefix }) && remove_prefix@
            == x,
    ensures
        x.len() <= path.len() && path.take(x.len() as int) == x ==> resolution_of(path, m)
            == NameResolution::Name(path.skip(x.len() as int)),
        !(x.len() <= path.len() && path.take(x.len() as int) == x) ==> resolution_of(path, m)
            == NameResolution::Name(path),
{
}

/// Against a regex selector that does not match the path, a `Literal`
/// template resolves to its literal text, and a `Shell` template to its
/// command string verbatim, unexpanded; neither is an error.
pub proof fn lemma_no_match_falls_back(path: Seq<char>, m: CgroupMatcher, pattern: String)
    requires
        m.path == NameMatcher::Regex(pattern),
        regex_compiles(pattern@),
        !regex_matches(pattern@, path),
    ensures
        m.rewrite matches Some(
            RewriteCgroupName::Template { name: Templated::Name(n) },
        ) ==> resolution_of(path, m) == NameResolution::Name(n@),
        m.rewrite matches Some(
            RewriteCgroupName::Template { name: Templated::Shell { shell, .. } },
        ) ==> resolution_of(path, m) == NameResolution::Name(shell@),
{
}

} // verus!
