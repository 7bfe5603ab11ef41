use cgroups_exporter::matcher::{
    CgroupMatcher, NameMatcher, OutputSelector, RewriteCgroupName, Templated,
};
use cgroups_exporter::resolve::{resolve, resolve_request, ResolveError, ResolveStep};
use cgroups_exporter::shell::{Evaluator, MockEvaluator};
use cgroups_exporter::template::{render_template, CaptureSet};

fn glob_rule(pattern: &str, rewrite: Option<RewriteCgroupName>) -> CgroupMatcher {
    CgroupMatcher {
        path: NameMatcher::Glob(pattern.to_string()),
        rewrite,
    }
}

fn regex_rule(pattern: &str, rewrite: Option<RewriteCgroupName>) -> CgroupMatcher {
    CgroupMatcher {
        path: NameMatcher::Regex(pattern.to_string()),
        rewrite,
    }
}

#[test]
fn no_rewrite_keeps_the_raw_path() {
    let rule = glob_rule("user.slice/*", None);
    let evaluator = MockEvaluator::new();
    let name = resolve("user.slice/session-1.scope", &rule, &evaluator).unwrap();
    assert_eq!(name, "user.slice/session-1.scope");
}

#[test]
fn remove_prefix_strips_a_present_prefix() {
    let rule = glob_rule(
        "user.slice/user-1000.slice/*",
        Some(RewriteCgroupName::RemovePrefix {
            remove_prefix: "user.slice/user-1000.slice/".to_string(),
        }),
    );
    let evaluator = MockEvaluator::new();
    let name = resolve("user.slice/user-1000.slice/session-1.scope", &rule, &evaluator).unwrap();
    assert_eq!(name, "session-1.scope");
}

#[test]
fn remove_prefix_leaves_other_paths_unchanged() {
    let rule = glob_rule(
        "*",
        Some(RewriteCgroupName::RemovePrefix {
            remove_prefix: "system.slice/".to_string(),
        }),
    );
    let evaluator = MockEvaluator::new();
    let name = resolve("user.slice/session-1.scope", &rule, &evaluator).unwrap();
    assert_eq!(name, "user.slice/session-1.scope");
}

#[test]
fn remove_prefix_of_the_whole_path_leaves_empty_name() {
    let rule = glob_rule(
        "*",
        Some(RewriteCgroupName::RemovePrefix {
            remove_prefix: "a/b".to_string(),
        }),
    );
    let evaluator = MockEvaluator::new();
    assert_eq!(resolve("a/b", &rule, &evaluator).unwrap(), "");
}

#[test]
fn literal_template_on_glob_selector_is_taken_verbatim() {
    let rule = glob_rule(
        "user.slice/*",
        Some(RewriteCgroupName::Template {
            name: Templated::Name("sessions".to_string()),
        }),
    );
    let evaluator = MockEvaluator::new();
    let name = resolve("user.slice/session-1.scope", &rule, &evaluator).unwrap();
    assert_eq!(name, "sessions");
}

#[test]
fn shell_template_on_glob_selector_is_a_config_violation() {
    let rule = glob_rule(
        "user.slice/*",
        Some(RewriteCgroupName::Template {
            name: Templated::Shell {
                shell: "echo hi".to_string(),
                output: OutputSelector::Stdout,
            },
        }),
    );
    let evaluator = MockEvaluator::new();
    let err = resolve("user.slice/session-1.scope", &rule, &evaluator).unwrap_err();
    assert_eq!(err, ResolveError::ShellTemplateWithNonRegexSelector);
}

#[test]
fn invalid_regex_pattern_is_a_config_violation() {
    let rule = regex_rule(
        "app/(unclosed",
        Some(RewriteCgroupName::Template {
            name: Templated::Name("x".to_string()),
        }),
    );
    let evaluator = MockEvaluator::new();
    let err = resolve("app/anything", &rule, &evaluator).unwrap_err();
    assert_eq!(err, ResolveError::InvalidRegexPattern);
}

#[test]
fn unmatched_regex_literal_template_yields_the_literal() {
    let rule = regex_rule(
        "app/tenant-(?P<id>\\d+)/.*",
        Some(RewriteCgroupName::Template {
            name: Templated::Name("tenant_{id}".to_string()),
        }),
    );
    let evaluator = MockEvaluator::new();
    let name = resolve("system.slice/sshd.service", &rule, &evaluator).unwrap();
    assert_eq!(name, "tenant_{id}");
}

#[test]
fn unmatched_regex_shell_template_yields_the_command_unexpanded() {
    let rule = regex_rule(
        "app/tenant-(?P<id>\\d+)/.*",
        Some(RewriteCgroupName::Template {
            name: Templated::Shell {
                shell: "lookup-tenant {id}".to_string(),
                output: OutputSelector::Stdout,
            },
        }),
    );
    let evaluator = MockEvaluator::new();
    let name = resolve("system.slice/sshd.service", &rule, &evaluator).unwrap();
    assert_eq!(name, "lookup-tenant {id}");
}

#[test]
fn matched_regex_literal_template_substitutes_captures() {
    let rule = regex_rule(
        "app/svc-(?P<id>\\d+)",
        Some(RewriteCgroupName::Template {
            name: Templated::Name("svc-{id}".to_string()),
        }),
    );
    let evaluator = MockEvaluator::new();
    let name = resolve("app/svc-42", &rule, &evaluator).unwrap();
    assert_eq!(name, "svc-42");
}

#[test]
fn tenant_scenario_resolves_from_regex_captures() {
    let rule = regex_rule(
        "app/tenant-(?P<id>\\d+)/.*",
        Some(RewriteCgroupName::Template {
            name: Templated::Name("tenant_{id}".to_string()),
        }),
    );
    let evaluator = MockEvaluator::new();
    let name = resolve("app/tenant-42/worker", &rule, &evaluator).unwrap();
    assert_eq!(name, "tenant_42");
}

#[test]
fn matched_shell_template_uses_the_evaluator() {
    let rule = regex_rule(
        "app/tenant-(?P<id>\\d+)/.*",
        Some(RewriteCgroupName::Template {
            name: Templated::Shell {
                shell: "lookup-tenant {id}".to_string(),
                output: OutputSelector::Stdout,
            },
        }),
    );
    let mut evaluator = MockEvaluator::new();
    evaluator.with_response("lookup-tenant {id}".to_string(), "acme".to_string());
    let name = resolve("app/tenant-42/worker", &rule, &evaluator).unwrap();
    assert_eq!(name, "acme");
}

#[test]
fn evaluator_failure_is_wrapped_as_an_evaluation_error() {
    let rule = regex_rule(
        "app/tenant-(?P<id>\\d+)/.*",
        Some(RewriteCgroupName::Template {
            name: Templated::Shell {
                shell: "lookup-tenant {id}".to_string(),
                output: OutputSelector::Stdout,
            },
        }),
    );
    let evaluator = MockEvaluator::new();
    let err = resolve("app/tenant-42/worker", &rule, &evaluator).unwrap_err();
    match err {
        ResolveError::Evaluation(_) => {}
        other => panic!("expected an evaluation error, got {:?}", other),
    }
}

#[test]
fn resolve_request_hands_shell_evaluation_to_the_caller() {
    let rule = regex_rule(
        "app/tenant-(?P<id>\\d+)/.*",
        Some(RewriteCgroupName::Template {
            name: Templated::Shell {
                shell: "lookup-tenant {id}".to_string(),
                output: OutputSelector::Stderr,
            },
        }),
    );
    match resolve_request("app/tenant-42/worker", &rule).unwrap() {
        ResolveStep::EvalNeeded {
            shell,
            vars,
            output,
        } => {
            assert_eq!(shell, "lookup-tenant {id}");
            assert_eq!(output, OutputSelector::Stderr);
            // The captures reach the evaluator; expanding the command with
            // them is the evaluator's first step.
            let expanded = render_template("lookup-tenant {id}", &vars);
            assert_eq!(expanded, "lookup-tenant 42");
        }
        other => panic!("expected a pending shell evaluation, got {:?}", names_of(&other)),
    }
}

fn names_of(step: &ResolveStep) -> &'static str {
    match step {
        ResolveStep::Resolved(_) => "resolved",
        ResolveStep::EvalNeeded { .. } => "eval-needed",
    }
}

#[test]
fn mock_evaluator_reports_its_outcome_directly() {
    let mut evaluator = MockEvaluator::new();
    evaluator.with_response("run {x}".to_string(), "out".to_string());
    let mut vars = CaptureSet::new();
    vars.insert("x".to_string(), "1".to_string());
    let ok = evaluator.evaluate_blocking("run {x}", &vars, OutputSelector::Stdout);
    assert_eq!(ok.unwrap(), "out");
    let err = evaluator.evaluate_blocking("other", &vars, OutputSelector::Stdout);
    assert!(err.is_err());
}
