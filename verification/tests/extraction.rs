//! Behaviour of the markdown block extractor and the companion-template
//! pass on concrete event streams.

use skeptic::MdEvent;
use skeptic::extract::extract_templates;
use skeptic::extract_tests;

fn code_start(info: &str) -> MdEvent {
    MdEvent::CodeStart { info: info.to_string() }
}

fn text(content: &str, offset: usize) -> MdEvent {
    MdEvent::Text { content: content.to_string(), offset }
}

#[test]
fn extraction_preserves_document_order_and_lines() {
    // two fenced rust blocks whose first text tokens sit after 10 and 40
    // newlines, under no heading
    let mut doc: Vec<u8> = vec![b'\n'; 10];
    doc.extend(std::iter::repeat(b'\n').take(30));
    assert_eq!(doc.len(), 40);
    let events = vec![
        code_start("rust"),
        text("a();\n", 10),
        MdEvent::CodeEnd,
        code_start("rust"),
        text("b();\n", 40),
        MdEvent::CodeEnd,
    ];
    let (tests, old_template) = extract_tests("doc", &doc, &events);
    assert!(old_template.is_none());
    assert_eq!(tests.len(), 2);
    assert_eq!(tests[0].name, "doc_line_10");
    assert_eq!(tests[1].name, "doc_line_40");
    assert!(tests[0].name.ends_with("_line_10"));
    assert!(tests[1].name.ends_with("_line_40"));
    assert_eq!(tests[0].text, vec!["a();\n".to_string()]);
    assert_eq!(tests[1].text, vec!["b();\n".to_string()]);
}

#[test]
fn heading_sets_section_in_names() {
    let doc: Vec<u8> = b"# My Heading\n\n```rust\nx();\n```\n".to_vec();
    let off = doc.iter().position(|&b| b == b'x').unwrap();
    let events = vec![
        MdEvent::HeadingStart { level: 1 },
        text("My Heading", 2),
        MdEvent::HeadingEnd { level: 1 },
        code_start("rust"),
        text("x();\n", off),
        MdEvent::CodeEnd,
    ];
    let (tests, _) = extract_tests("doc", &doc, &events);
    assert_eq!(tests.len(), 1);
    assert_eq!(tests[0].name, "doc_sect_my_heading_line_3");
}

#[test]
fn deep_headings_do_not_set_section() {
    let doc: Vec<u8> = vec![b'\n'; 5];
    let events = vec![
        MdEvent::HeadingStart { level: 3 },
        text("Deep", 0),
        MdEvent::HeadingEnd { level: 3 },
        code_start("rust"),
        text("x();\n", 5),
        MdEvent::CodeEnd,
    ];
    let (tests, _) = extract_tests("doc", &doc, &events);
    assert_eq!(tests.len(), 1);
    assert_eq!(tests[0].name, "doc_line_5");
}

#[test]
fn non_sample_blocks_are_skipped() {
    let doc: Vec<u8> = vec![b'\n'; 3];
    let events = vec![
        code_start("python"),
        text("print()\n", 0),
        MdEvent::CodeEnd,
        code_start("rust"),
        text("y();\n", 3),
        MdEvent::CodeEnd,
    ];
    let (tests, _) = extract_tests("doc", &doc, &events);
    assert_eq!(tests.len(), 1);
    assert_eq!(tests[0].name, "doc_line_3");
}

#[test]
fn annotation_flags_carry_into_test_units() {
    let doc: Vec<u8> = Vec::new();
    let events = vec![
        code_start("rust,ignore,should_panic,skt-wrap"),
        text("z();\n", 0),
        MdEvent::CodeEnd,
    ];
    let (tests, _) = extract_tests("doc", &doc, &events);
    assert_eq!(tests.len(), 1);
    assert!(tests[0].ignore);
    assert!(tests[0].should_panic);
    assert!(!tests[0].no_run);
    assert_eq!(tests[0].template.as_deref(), Some("wrap"));
    assert_eq!(tests[0].line, 0);
    assert_eq!(tests[0].name, "doc_line_0");
}

#[test]
fn legacy_template_block_becomes_default_template() {
    let doc: Vec<u8> = vec![b'\n'; 2];
    let events = vec![
        code_start("rust,skeptic-template"),
        text("fn main() {{ {} }}\n", 2),
        MdEvent::CodeEnd,
        code_start("rust"),
        text("w();\n", 2),
        MdEvent::CodeEnd,
    ];
    let (tests, old_template) = extract_tests("doc", &doc, &events);
    assert_eq!(tests.len(), 1);
    assert_eq!(old_template.as_deref(), Some("fn main() {{ {} }}\n"));
}

#[test]
fn companion_pass_collects_named_templates() {
    let events = vec![
        code_start("rust,skt-wrap"),
        text("fn main() {{\n", 0),
        text("{}\n", 14),
        text("}}\n", 17),
        MdEvent::CodeEnd,
        code_start("rust"),
        text("not a template\n", 20),
        MdEvent::CodeEnd,
        code_start("skt-other"),
        text("other body\n", 40),
        MdEvent::CodeEnd,
    ];
    let map = extract_templates(&events);
    assert_eq!(map.len(), 2);
    assert_eq!(map[0].0, "wrap");
    assert_eq!(map[0].1, "fn main() {{\n{}\n}}\n");
    assert_eq!(map[1].0, "other");
    assert_eq!(map[1].1, "other body\n");
}

#[test]
fn text_outside_any_block_is_ignored() {
    let doc: Vec<u8> = Vec::new();
    let events = vec![text("prose\n", 0), MdEvent::Other, MdEvent::CodeEnd];
    let (tests, old_template) = extract_tests("doc", &doc, &events);
    assert!(tests.is_empty());
    assert!(old_template.is_none());
}
