//! Behaviour of the name sanitizer and the annotation parser on concrete
//! inputs.

use skeptic::parse_annotation;
use skeptic::sanitize;

fn is_canonical_text(s: &str) -> bool {
    let cs: Vec<char> = s.chars().collect();
    if cs.is_empty() {
        return true;
    }
    if cs[0] == '_' || cs[cs.len() - 1] == '_' {
        return false;
    }
    for w in cs.windows(2) {
        if w[0] == '_' && w[1] == '_' {
            return false;
        }
    }
    cs.iter().all(|&c| c.is_ascii_lowercase() || c.is_ascii_digit() || c == '_')
}

#[test]
fn sanitize_lowers_and_replaces() {
    assert_eq!(sanitize("Hello, World!"), "hello_world");
}

#[test]
fn sanitize_drops_empty_segments() {
    assert_eq!(sanitize("__a__b__"), "a_b");
    assert_eq!(sanitize("..."), "");
    assert_eq!(sanitize(""), "");
}

#[test]
fn sanitize_keeps_digits() {
    assert_eq!(sanitize("Chapter 12.3"), "chapter_12_3");
}

#[test]
fn sanitize_is_idempotent_on_samples() {
    for s in ["Hello, World!", "__a__b__", "", "MiXeD-42 cases", "日本語 text", "a"] {
        let once = sanitize(s);
        let twice = sanitize(&once);
        assert_eq!(once, twice);
        assert!(is_canonical_text(&once));
    }
}

#[test]
fn annotation_rust_ignore() {
    let a = parse_annotation("rust,ignore");
    assert!(a.is_code_sample);
    assert!(a.ignore);
    assert!(!a.no_run);
    assert!(!a.should_panic);
    assert!(!a.is_legacy_template_marker);
    assert!(a.template_ref.is_none());
}

#[test]
fn annotation_unrecognized_token_tolerated() {
    let a = parse_annotation("rust,python");
    assert!(a.is_code_sample);
    assert!(!a.ignore);
}

#[test]
fn annotation_foreign_language_is_no_sample() {
    let a = parse_annotation("python");
    assert!(!a.is_code_sample);
}

#[test]
fn annotation_empty_info_is_no_sample() {
    let a = parse_annotation("");
    assert!(!a.is_code_sample);
}

#[test]
fn annotation_flags_combine() {
    let a = parse_annotation("rust,no_run,should_panic");
    assert!(a.is_code_sample);
    assert!(a.no_run);
    assert!(a.should_panic);
}

#[test]
fn annotation_template_reference() {
    let a = parse_annotation("rust,skt-mytemplate");
    assert!(a.is_code_sample);
    assert_eq!(a.template_ref.as_deref(), Some("mytemplate"));
}

#[test]
fn annotation_legacy_template_marker() {
    let a = parse_annotation("rust,skeptic-template");
    assert!(a.is_code_sample);
    assert!(a.is_legacy_template_marker);
    assert!(a.template_ref.is_none());
}
