//! Behaviour of template selection, line cleaning, and test-source
//! assembly on concrete inputs.

use skeptic::DocTest;
use skeptic::SkepticError;
use skeptic::Test;
use skeptic::build_test_src;
use skeptic::clean_omitted_line;
use skeptic::create_test_input;
use skeptic::get_template;
use skeptic::target_dir_from_out_dir;

fn make_doc() -> DocTest {
    DocTest {
        path: "README.md".to_string(),
        old_template: None,
        tests: Vec::new(),
        templates: vec![("wrap".to_string(), "fn main() {{ {} }}".to_string())],
    }
}

fn make_test(template: Option<&str>) -> Test {
    Test {
        name: "readme_line_7".to_string(),
        text: vec!["fn main() {}\n".to_string()],
        ignore: false,
        no_run: false,
        should_panic: false,
        template: template.map(|t| t.to_string()),
        line: 7,
    }
}

#[test]
fn clean_omitted_line_strips_hash_space() {
    assert_eq!(clean_omitted_line("# use std::fmt;\n"), "use std::fmt;\n");
    assert_eq!(clean_omitted_line("   # hidden\n"), "hidden\n");
}

#[test]
fn clean_omitted_line_strips_lone_hash() {
    assert_eq!(clean_omitted_line("#"), "");
    assert_eq!(clean_omitted_line("  #\n"), "\n");
}

#[test]
fn clean_omitted_line_keeps_ordinary_lines() {
    assert_eq!(clean_omitted_line("fn main() {}\n"), "fn main() {}\n");
    assert_eq!(clean_omitted_line("  indented();\n"), "  indented();\n");
    assert_eq!(clean_omitted_line("#[derive(Debug)]\n"), "#[derive(Debug)]\n");
}

#[test]
fn create_test_input_cleans_and_joins() {
    let lines = vec![
        "# use std::fmt;\n".to_string(),
        "fn main() {}\n".to_string(),
    ];
    assert_eq!(create_test_input(&lines), "use std::fmt;\nfn main() {}\n");
}

#[test]
fn get_template_resolves_named_tag() {
    let doc = make_doc();
    let test = make_test(Some("wrap"));
    let r = get_template(&doc, &test).unwrap();
    assert_eq!(r.as_deref(), Some("fn main() {{ {} }}"));
}

#[test]
fn get_template_reports_unresolved_tag() {
    let doc = make_doc();
    let test = make_test(Some("missing"));
    let e = get_template(&doc, &test).unwrap_err();
    assert_eq!(e, SkepticError::UnresolvedTemplateReference);
}

#[test]
fn get_template_falls_back_to_default() {
    let mut doc = make_doc();
    doc.old_template = Some("default {}".to_string());
    let test = make_test(None);
    let r = get_template(&doc, &test).unwrap();
    assert_eq!(r.as_deref(), Some("default {}"));
}

#[test]
fn get_template_absent_everywhere_is_none() {
    let doc = make_doc();
    let test = make_test(None);
    let r = get_template(&doc, &test).unwrap();
    assert!(r.is_none());
}

#[test]
fn build_test_src_without_template() {
    let doc = make_doc();
    let test = make_test(None);
    let src = build_test_src(&doc, &test).unwrap();
    let expected = "// file README.md, line 7\n\
                    // test readme_line_7\n\
                    #![feature(termination_trait_lib)] // skeptic\n\
                    \n\
                    fn main() {}\n\
                    \n\
                    \n\
                    pub fn __skeptic_main() -> i32 {\n    \
                    use std::process::Termination;\n    \
                    main().report()\n\
                    }\n";
    assert_eq!(src, expected);
}

#[test]
fn build_test_src_with_named_template() {
    let doc = make_doc();
    let test = Test {
        text: vec!["let x = 1;".to_string()],
        ..make_test(Some("wrap"))
    };
    let src = build_test_src(&doc, &test).unwrap();
    assert!(src.contains("fn main() { let x = 1; }"));
}

#[test]
fn build_test_src_unresolved_reference_fails() {
    let doc = make_doc();
    let test = make_test(Some("missing"));
    let e = build_test_src(&doc, &test).unwrap_err();
    assert_eq!(e, SkepticError::UnresolvedTemplateReference);
}

#[test]
fn build_test_src_malformed_template_fails() {
    let mut doc = make_doc();
    doc.old_template = Some("no markers at all".to_string());
    let test = make_test(None);
    let e = build_test_src(&doc, &test).unwrap_err();
    assert_eq!(e, SkepticError::MalformedTemplate);
}

fn comps(parts: &[&str]) -> Vec<String> {
    parts.iter().map(|p| p.to_string()).collect()
}

#[test]
fn target_dir_without_triple() {
    let out_dir = comps(&["home", "proj", "target", "debug", "build", "x-1234", "out"]);
    let (dir, had_triple) = target_dir_from_out_dir(&out_dir, "x86_64-unknown-linux-gnu");
    assert!(!had_triple);
    assert_eq!(dir, comps(&["home", "proj", "target"]));
}

#[test]
fn target_dir_with_triple() {
    let out_dir = comps(&[
        "home",
        "target",
        "x86_64-unknown-linux-gnu",
        "release",
        "build",
        "x-1234",
        "out",
    ]);
    let (dir, had_triple) = target_dir_from_out_dir(&out_dir, "x86_64-unknown-linux-gnu");
    assert!(had_triple);
    assert_eq!(dir, comps(&["home", "target"]));
}
