//! Behaviour of the template composer on concrete templates.

use skeptic::SkepticError;
use skeptic::compose_template;

#[test]
fn no_template_passes_body_through() {
    let r = compose_template(&None, "fn main() {}\n".to_string());
    assert_eq!(r.unwrap(), "fn main() {}\n");
}

#[test]
fn round_trip_simple_marker() {
    let t = Some("wrap({}) end".to_string());
    let r = compose_template(&t, "X".to_string());
    assert_eq!(r.unwrap(), "wrap(X) end");
}

#[test]
fn escaped_braces_become_literals() {
    let t = Some("{{ {} }}".to_string());
    let r = compose_template(&t, "X".to_string());
    assert_eq!(r.unwrap(), "{ X }");
}

#[test]
fn realistic_wrapper_template() {
    let t = Some("fn main() {{ {} }}".to_string());
    let r = compose_template(&t, "let x = 1;".to_string());
    assert_eq!(r.unwrap(), "fn main() { let x = 1; }");
}

#[test]
fn multiple_markers_rejected() {
    let t = Some("{} and {}".to_string());
    let r = compose_template(&t, "X".to_string());
    assert_eq!(r.unwrap_err(), SkepticError::MalformedTemplate);
}

#[test]
fn multiple_markers_rejected_regardless_of_body() {
    let t = Some("{} and {}".to_string());
    let r = compose_template(&t, String::new());
    assert_eq!(r.unwrap_err(), SkepticError::MalformedTemplate);
}

#[test]
fn no_marker_rejected() {
    let t = Some("no markers here".to_string());
    let r = compose_template(&t, "X".to_string());
    assert_eq!(r.unwrap_err(), SkepticError::MalformedTemplate);
}

#[test]
fn empty_template_rejected() {
    let t = Some(String::new());
    let r = compose_template(&t, "X".to_string());
    assert_eq!(r.unwrap_err(), SkepticError::MalformedTemplate);
}

#[test]
fn escape_pairs_alone_are_no_marker() {
    let t = Some("{{}}".to_string());
    let r = compose_template(&t, "X".to_string());
    assert_eq!(r.unwrap_err(), SkepticError::MalformedTemplate);
}

#[test]
fn marker_at_template_end_is_found() {
    let t = Some("prefix {}".to_string());
    let r = compose_template(&t, "B".to_string());
    assert_eq!(r.unwrap(), "prefix B");
}

#[test]
fn marker_alone_is_found() {
    let t = Some("{}".to_string());
    let r = compose_template(&t, "B".to_string());
    assert_eq!(r.unwrap(), "B");
}

#[test]
fn whitespace_inside_marker_tolerated() {
    let t = Some("a{ \n\t }b".to_string());
    let r = compose_template(&t, "X".to_string());
    assert_eq!(r.unwrap(), "aXb");
}

#[test]
fn triple_runs_split_into_pair_and_marker() {
    let t = Some("a{{{ }}}b".to_string());
    let r = compose_template(&t, "X".to_string());
    assert_eq!(r.unwrap(), "a{X}b");
}

#[test]
fn free_brace_not_forming_marker_is_dropped() {
    let t = Some("fn main() { {} }".to_string());
    let r = compose_template(&t, "X".to_string());
    assert_eq!(r.unwrap(), "fn main()  X ");
}

#[test]
fn non_adjacent_free_braces_are_no_marker() {
    // the candidate opener is followed by a non-whitespace character
    let t = Some("{x}".to_string());
    let r = compose_template(&t, "X".to_string());
    assert_eq!(r.unwrap_err(), SkepticError::MalformedTemplate);
}
