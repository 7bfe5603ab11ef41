use cgroups_exporter::template::{render_template, CaptureSet};

fn vars(pairs: &[(&str, &str)]) -> CaptureSet {
    let mut set = CaptureSet::new();
    for (k, v) in pairs {
        set.insert(k.to_string(), v.to_string());
    }
    set
}

#[test]
fn plain_text_renders_unchanged() {
    assert_eq!(render_template("no placeholders", &vars(&[])), "no placeholders");
}

#[test]
fn present_variable_is_substituted() {
    assert_eq!(render_template("svc-{id}", &vars(&[("id", "42")])), "svc-42");
}

#[test]
fn several_placeholders_render_in_order() {
    let v = vars(&[("a", "1"), ("b", "2")]);
    assert_eq!(render_template("{a}-{b}-{a}", &v), "1-2-1");
}

#[test]
fn absent_variable_renders_as_empty_string() {
    assert_eq!(render_template("a-{x}-b", &vars(&[])), "a--b");
}

#[test]
fn later_pair_with_the_same_name_wins() {
    let mut v = CaptureSet::new();
    v.insert("x".to_string(), "1".to_string());
    v.insert("x".to_string(), "2".to_string());
    assert_eq!(render_template("{x}", &v), "2");
}

#[test]
fn braces_around_a_spaced_name_stay_literal() {
    assert_eq!(render_template("{a b}", &vars(&[("a", "1")])), "{a b}");
}

#[test]
fn empty_braces_stay_literal() {
    assert_eq!(render_template("{}", &vars(&[])), "{}");
}

#[test]
fn unclosed_brace_keeps_the_rest_literal() {
    assert_eq!(render_template("x{abc", &vars(&[("abc", "1")])), "x{abc");
}
