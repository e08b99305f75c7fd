//! The markdown block extractor.
//!
//! A single forward pass over a document's structural event stream drives a
//! three-state buffer machine: headings below the nesting threshold set the
//! current section, fenced blocks classified as genuine code samples
//! accumulate text, and on a block's end either the document's legacy
//! default template is stored or a named test unit is produced.  A second,
//! independent pass over a companion document collects its named templates.

use vstd::prelude::*;

use crate::annotation::Annotation;
use crate::annotation::AnnotationV;
use crate::annotation::annotation_spec;
use crate::annotation::parse_annotation;
use crate::chars::dec_str;
use crate::doc::Test;
use crate::doc::TestV;
use crate::doc::opt_view;
use crate::doc::strs_view;
use crate::doc::tests_view;
use crate::doc::tpl_view;
use crate::sanitize::sanitize;
use crate::sanitize::sanitize_spec;

verus! {

/// How many occurrences of a byte a sequence holds.
pub open spec fn count_occ(s: Seq<u8>, b: u8) -> nat
    decreases s.len(),
{
    if s.len() == 0 {
        0
    } else {
        count_occ(s.drop_last(), b) + if s.last() == b {
            1nat
        } else {
            0nat
        }
    }
}

/// Relies on `bytecount::count`: the number of occurrences of the needle
/// byte in the first `end` bytes of the haystack.
#[verifier::external_body]
fn count_byte_prefix(hay: &[u8], end: usize, needle: u8) -> (r: usize)
    requires
        end <= hay@.len(),
    ensures
        r == count_occ(hay@.take(end as int), needle),
{
    bytecount::count(&hay[..end], needle)
}

/// The 0-based line number of the byte offset: newlines in the prefix
/// before it, the offset clamped to the document's length.
pub open spec fn line_of(doc: Seq<u8>, off: nat) -> nat {
    if off <= doc.len() {
        count_occ(doc.take(off as int), 10)
    } else {
        count_occ(doc, 10)
    }
}

/// Computes `line_of` with the fast byte counter.
fn line_of_exec(doc: &[u8], off: usize) -> (r: usize)
    ensures
        r == line_of(doc@, off as nat),
{
    let end = if off <= doc.len() {
        off
    } else {
        doc.len()
    };
    proof {
        if off > doc@.len() {
            assert(doc@.take(doc@.len() as int) =~= doc@);
        }
    }
    count_byte_prefix(doc, end, 10)
}

/// One structural event of a document, as the collaborator that tokenized
/// the document reports it.
pub enum MdEvent {
    /// A heading opens, with its nesting level.
    HeadingStart { level: u32 },
    /// A heading closes, with its nesting level.
    HeadingEnd { level: u32 },
    /// A fenced code block opens, with its info string.
    CodeStart { info: String },
    /// A fenced code block closes.
    CodeEnd,
    /// A text chunk, with its byte offset into the raw document.
    Text { content: String, offset: usize },
    /// Any event the extractor ignores.
    Other,
}

/// The mathematical value of an [`MdEvent`].
pub ghost enum MdEventV {
    HeadingStart { level: u32 },
    HeadingEnd { level: u32 },
    CodeStart { info: Seq<char> },
    CodeEnd,
    Text { content: Seq<char>, offset: nat },
    Other,
}

impl View for MdEvent {
    type V = MdEventV;

    open spec fn view(&self) -> MdEventV {
        match self {
            MdEvent::HeadingStart { level } => MdEventV::HeadingStart { level: *level },
            MdEvent::HeadingEnd { level } => MdEventV::HeadingEnd { level: *level },
            MdEvent::CodeStart { info } => MdEventV::CodeStart { info: info@ },
            MdEvent::CodeEnd => MdEventV::CodeEnd,
            MdEvent::Text { content, offset } => MdEventV::Text {
                content: content@,
                offset: *offset as nat,
            },
            MdEvent::Other => MdEventV::Other,
        }
    }
}

/// The views of an event list.
pub open spec fn events_view(evs: Seq<MdEvent>) -> Seq<MdEventV> {
    Seq::new(evs.len(), |i: int| evs[i]@)
}

/// The concatenation of a document's text chunks.
pub open spec fn concat_all(lines: Seq<Seq<char>>) -> Seq<char>
    decreases lines.len(),
{
    if lines.len() == 0 {
        Seq::empty()
    } else {
        lines[0] + concat_all(lines.drop_first())
    }
}

/// The derived name of a test unit: the sanitized file stem, the current
/// section if one is set, and the 0-based start line.
pub open spec fn name_spec(stem: Seq<char>, section: Option<Seq<char>>, line: nat) -> Seq<char> {
    sanitize_spec(stem) + (match section {
        Option::Some(s) => "_sect_"@ + s,
        Option::None => Seq::<char>::empty(),
    }) + "_line_"@ + dec_str(line)
}

/// The extractor's buffer register.
pub enum Buffer {
    /// Nothing is being accumulated.
    Empty,
    /// A heading's text is being accumulated.
    Heading { text: String },
    /// A code sample's text chunks are being accumulated.
    Code { annot: Annotation, lines: Vec<String>, line: Option<usize> },
}

/// The mathematical value of a [`Buffer`].
pub ghost enum BufferV {
    Empty,
    Heading { text: Seq<char> },
    Code { annot: AnnotationV, lines: Seq<Seq<char>>, line: Option<nat> },
}

impl View for Buffer {
    type V = BufferV;

    open spec fn view(&self) -> BufferV {
        match self {
            Buffer::Empty => BufferV::Empty,
            Buffer::Heading { text } => BufferV::Heading { text: text@ },
            Buffer::Code { annot, lines, line } => BufferV::Code {
                annot: annot@,
                lines: strs_view(lines@),
                line: match line {
                    Option::Some(l) => Option::Some(*l as nat),
                    Option::None => Option::None,
                },
            },
        }
    }
}

/// The extractor's full state.
pub ghost struct ExtStateV {
    pub section: Option<Seq<char>>,
    pub buffer: BufferV,
    pub tests: Seq<TestV>,
    pub old_template: Option<Seq<char>>,
}

/// The extractor's starting state.
pub open spec fn init_ext() -> ExtStateV {
    ExtStateV {
        section: Option::None,
        buffer: BufferV::Empty,
        tests: Seq::empty(),
        old_template: Option::None,
    }
}

/// The heading nesting threshold: only headings below it set the section.
pub open spec fn section_threshold() -> u32 {
    3
}

/// One step of the extractor's state machine.
pub open spec fn ext_step(st: ExtStateV, ev: MdEventV, doc: Seq<u8>, stem: Seq<char>) -> ExtStateV {
    match ev {
        MdEventV::HeadingStart { level } => if level < section_threshold() {
            ExtStateV { buffer: BufferV::Heading { text: Seq::empty() }, ..st }
        } else {
            st
        },
        MdEventV::HeadingEnd { level } => if level < section_threshold() {
            match st.buffer {
                BufferV::Heading { text } => ExtStateV {
                    section: Option::Some(sanitize_spec(text)),
                    buffer: BufferV::Empty,
                    ..st
                },
                _ => st,
            }
        } else {
            st
        },
        MdEventV::CodeStart { info } => {
            let a = annotation_spec(info);
            if a.is_code_sample {
                ExtStateV {
                    buffer: BufferV::Code {
                        annot: a,
                        lines: Seq::empty(),
                        line: Option::None,
                    },
                    ..st
                }
            } else {
                ExtStateV { buffer: BufferV::Empty, ..st }
            }
        },
        MdEventV::CodeEnd => match st.buffer {
            BufferV::Code { annot, lines, line } => if annot.is_legacy_template_marker {
                ExtStateV {
                    old_template: Option::Some(concat_all(lines)),
                    buffer: BufferV::Empty,
                    ..st
                }
            } else {
                let ln: nat = match line {
                    Option::Some(l) => l,
                    Option::None => 0,
                };
                ExtStateV {
                    tests: st.tests.push(
                        TestV {
                            name: name_spec(stem, st.section, ln),
                            text: lines,
                            ignore: annot.ignore,
                            no_run: annot.no_run,
                            should_panic: annot.should_panic,
                            template: annot.template_ref,
                            line: ln,
                        },
                    ),
                    buffer: BufferV::Empty,
                    ..st
                }
            },
            _ => st,
        },
        MdEventV::Text { content, offset } => match st.buffer {
            BufferV::Code { annot, lines, line } => ExtStateV {
                buffer: BufferV::Code {
                    annot: annot,
                    lines: lines.push(content),
                    line: match line {
                        Option::Some(l) => Option::Some(l),
                        Option::None => Option::Some(line_of(doc, offset)),
                    },
                },
                ..st
            },
            BufferV::Heading { text } => ExtStateV {
                buffer: BufferV::Heading { text: text + content },
                ..st
            },
            BufferV::Empty => st,
        },
        MdEventV::Other => st,
    }
}

/// The fold of `ext_step` over an event list, from the front.
pub open spec fn ext_fold(st: ExtStateV, evs: Seq<MdEventV>, doc: Seq<u8>, stem: Seq<char>) -> ExtStateV
    decreases evs.len(),
{
    if evs.len() == 0 {
        st
    } else {
        ext_fold(ext_step(st, evs[0], doc, stem), evs.drop_first(), doc, stem)
    }
}

/// What extracting a document yields: the machine run over the whole event
/// stream from the starting state.
pub open spec fn extract_spec(stem: Seq<char>, doc: Seq<u8>, evs: Seq<MdEventV>) -> ExtStateV {
    ext_fold(init_ext(), evs, doc, stem)
}

/// The extractor's state assembled from its executable parts.
pub open spec fn st_of(
    section: Option<String>,
    buffer: Buffer,
    tests: Seq<Test>,
    old_template: Option<String>,
) -> ExtStateV {
    ExtStateV {
        section: opt_view(section),
        buffer: buffer@,
        tests: tests_view(tests),
        old_template: opt_view(old_template),
    }
}

/// Concatenates a sample's text chunks.
fn concat_chunks(lines: &Vec<String>) -> (r: String)
    ensures
        r@ == concat_all(strs_view(lines@)),
{
    let ghost lv = strs_view(lines@);
    let mut out: Vec<char> = Vec::new();
    proof {
        assert(lv.skip(0) =~= lv);
    }
    let mut i: usize = 0;
    while i < lines.len()
        invariant
            i <= lines@.len(),
            lv == strs_view(lines@),
            concat_all(lv) == out@ + concat_all(lv.skip(i as int)),
        decreases lines@.len() - i,
    {
        let ghost out_before = out@;
        crate::chars::append_str_chars(&mut out, lines[i].as_str());
        proof {
            let rest = lv.skip(i as int);
            assert(rest[0] == lv[i as int]);
            assert(rest.drop_first() =~= lv.skip(i + 1));
            assert(out_before + (lv[i as int] + concat_all(lv.skip(i + 1))) =~= out@ + concat_all(
                lv.skip(i + 1),
            ));
        }
        i = i + 1;
    }
    proof {
        assert(lv.skip(lines@.len() as int) =~= Seq::<Seq<char>>::empty());
        assert(out@ + Seq::<char>::empty() =~= out@);
    }
    crate::chars::string_from_chars(out.as_slice())
}

/// Builds a unit's derived name from the pre-sanitized stem, the current
/// section, and the start line.
fn build_name(stem_s: &String, section: &Option<String>, line: usize) -> (r: String)
    ensures
        r@ == stem_s@ + (match opt_view(*section) {
            Option::Some(s) => "_sect_"@ + s,
            Option::None => Seq::<char>::empty(),
        }) + "_line_"@ + dec_str(line as nat),
{
    let mut out: Vec<char> = Vec::new();
    crate::chars::append_str_chars(&mut out, stem_s.as_str());
    match section {
        Option::Some(s) => {
            crate::chars::append_str_chars(&mut out, "_sect_");
            crate::chars::append_str_chars(&mut out, s.as_str());
        },
        Option::None => {},
    }
    crate::chars::append_str_chars(&mut out, "_line_");
    crate::chars::append_dec(&mut out, line);
    proof {
        assert(out@ =~= stem_s@ + (match opt_view(*section) {
            Option::Some(s) => "_sect_"@ + s,
            Option::None => Seq::<char>::empty(),
        }) + "_line_"@ + dec_str(line as nat));
    }
    crate::chars::string_from_chars(out.as_slice())
}

/// Runs the extractor over a document's event stream: a single forward
/// pass, producing the test units in document order and the legacy default
/// template if one block declared it.
pub fn extract_tests(file_stem: &str, doc: &[u8], events: &Vec<MdEvent>) -> (r: (
    Vec<Test>,
    Option<String>,
))
    ensures
        ({
            let fin = extract_spec(file_stem@, doc@, events_view(events@));
            tests_view(r.0@) == fin.tests && opt_view(r.1) == fin.old_template
        }),
{
    let ghost evs = events_view(events@);
    let ghost docv = doc@;
    let ghost stemv = file_stem@;

    let stem_s = sanitize(file_stem);
    let mut section: Option<String> = Option::None;
    let mut buffer: Buffer = Buffer::Empty;
    let mut tests: Vec<Test> = Vec::new();
    let mut old_template: Option<String> = Option::None;

    proof {
        assert(evs.skip(0) =~= evs);
        assert(tests_view(tests@) =~= Seq::<TestV>::empty());
    }
    let n = events.len();
    let mut e: usize = 0;
    while e < n
        invariant
            e <= n,
            n == events@.len(),
            evs == events_view(events@),
            docv == doc@,
            stemv == file_stem@,
            stem_s@ == sanitize_spec(stemv),
            extract_spec(stemv, docv, evs) == ext_fold(
                st_of(section, buffer, tests@, old_template),
                evs.skip(e as int),
                docv,
                stemv,
            ),
        decreases n - e,
    {
        let ghost st_before = st_of(section, buffer, tests@, old_template);
        proof {
            let rest = evs.skip(e as int);
            assert(rest[0] == evs[e as int]);
            assert(evs[e as int] == events@[e as int]@);
            assert(rest.drop_first() =~= evs.skip(e + 1));
        }
        let ev = &events[e];
        match ev {
            MdEvent::HeadingStart { level } => {
                if *level < 3 {
                    buffer = Buffer::Heading { text: String::new() };
                }
            },
            MdEvent::HeadingEnd { level } => {
                if *level < 3 {
                    let mut b = Buffer::Empty;
                    core::mem::swap(&mut buffer, &mut b);
                    match b {
                        Buffer::Heading { text } => {
                            section = Option::Some(sanitize(text.as_str()));
                        },
                        other => {
                            buffer = other;
                        },
                    }
                }
            },
            MdEvent::CodeStart { info } => {
                let a = parse_annotation(info.as_str());
                if a.is_code_sample {
                    buffer = Buffer::Code { annot: a, lines: Vec::new(), line: Option::None };
                    proof {
                        assert(strs_view(Seq::<String>::empty()) =~= Seq::<Seq<char>>::empty());
                    }
                } else {
                    buffer = Buffer::Empty;
                }
            },
            MdEvent::CodeEnd => {
                let mut b = Buffer::Empty;
                core::mem::swap(&mut buffer, &mut b);
                match b {
                    Buffer::Code { annot, lines, line } => {
                        if annot.is_legacy_template_marker {
                            old_template = Option::Some(concat_chunks(&lines));
                        } else {
                            let ln: usize = match line {
                                Option::Some(l) => l,
                                Option::None => 0,
                            };
                            let name = build_name(&stem_s, &section, ln);
                            let ghost tests_before = tests@;
                            tests.push(
                                Test {
                                    name: name,
                                    text: lines,
                                    ignore: annot.ignore,
                                    no_run: annot.no_run,
                                    should_panic: annot.should_panic,
                                    template: annot.template_ref,
                                    line: ln,
                                },
                            );
                            proof {
                                assert(tests_view(tests@) =~= tests_view(tests_before).push(
                                    tests@[tests@.len() - 1]@,
                                ));
                            }
                        }
                    },
                    other => {
                        buffer = other;
                    },
                }
            },
            MdEvent::Text { content, offset } => {
                let mut b = Buffer::Empty;
                core::mem::swap(&mut buffer, &mut b);
                match b {
                    Buffer::Code { annot, lines, line } => {
                        let mut lines2 = lines;
                        let ghost lines_before = lines2@;
                        lines2.push(content.clone());
                        proof {
                            assert(strs_view(lines2@) =~= strs_view(lines_before).push(content@));
                        }
                        let line2: Option<usize> = match line {
                            Option::Some(l) => Option::Some(l),
                            Option::None => Option::Some(line_of_exec(doc, *offset)),
                        };
                        buffer = Buffer::Code { annot: annot, lines: lines2, line: line2 };
                    },
                    Buffer::Heading { text } => {
                        let mut text2 = text;
                        text2.append(content.as_str());
                        buffer = Buffer::Heading { text: text2 };
                    },
                    Buffer::Empty => {},
                }
            },
            MdEvent::Other => {},
        }
        proof {
            assert(st_of(section, buffer, tests@, old_template) == ext_step(
                st_before,
                evs[e as int],
                docv,
                stemv,
            ));
        }
        e = e + 1;
    }
    proof {
        assert(evs.skip(n as int) =~= Seq::<MdEventV>::empty());
    }
    (tests, old_template)
}

/// The template pass's state: the block being accumulated, if its info
/// string named a tag, and the mapping gathered so far.
pub ghost struct TplStateV {
    pub cur: Option<(Seq<char>, Seq<Seq<char>>)>,
    pub map: Seq<(Seq<char>, Seq<char>)>,
}

/// The template pass's starting state.
pub open spec fn init_tpl() -> TplStateV {
    TplStateV { cur: Option::None, map: Seq::empty() }
}

/// One step of the template pass: only fenced blocks whose info string
/// names a `skt-` tag are kept; headings play no part.
pub open spec fn tpl_step(st: TplStateV, ev: MdEventV) -> TplStateV {
    match ev {
        MdEventV::CodeStart { info } => match annotation_spec(info).template_ref {
            Option::Some(tag) => TplStateV { cur: Option::Some((tag, Seq::empty())), ..st },
            Option::None => TplStateV { cur: Option::None, ..st },
        },
        MdEventV::Text { content, offset } => match st.cur {
            Option::Some((tag, lines)) => TplStateV {
                cur: Option::Some((tag, lines.push(content))),
                ..st
            },
            Option::None => st,
        },
        MdEventV::CodeEnd => match st.cur {
            Option::Some((tag, lines)) => TplStateV {
                cur: Option::None,
                map: st.map.push((tag, concat_all(lines))),
            },
            Option::None => st,
        },
        _ => st,
    }
}

/// The fold of `tpl_step` over an event list, from the front.
pub open spec fn tpl_fold(st: TplStateV, evs: Seq<MdEventV>) -> TplStateV
    decreases evs.len(),
{
    if evs.len() == 0 {
        st
    } else {
        tpl_fold(tpl_step(st, evs[0]), evs.drop_first())
    }
}

/// What the companion-template pass yields over an event stream.
pub open spec fn templates_spec(evs: Seq<MdEventV>) -> Seq<(Seq<char>, Seq<char>)> {
    tpl_fold(init_tpl(), evs).map
}

/// The template pass's state assembled from its executable parts.
pub open spec fn tpl_st_of(cur: Option<(String, Vec<String>)>, map: Seq<(String, String)>) -> TplStateV {
    TplStateV {
        cur: match cur {
            Option::Some((tag, lines)) => Option::Some((tag@, strs_view(lines@))),
            Option::None => Option::None,
        },
        map: tpl_view(map),
    }
}

/// Runs the companion-template pass over a template document's event
/// stream, producing the tag-to-body mapping in document order.
pub fn extract_templates(events: &Vec<MdEvent>) -> (r: Vec<(String, String)>)
    ensures
        tpl_view(r@) == templates_spec(events_view(events@)),
{
    let ghost evs = events_view(events@);
    let mut cur: Option<(String, Vec<String>)> = Option::None;
    let mut map: Vec<(String, String)> = Vec::new();
    proof {
        assert(evs.skip(0) =~= evs);
        assert(tpl_view(map@) =~= Seq::<(Seq<char>, Seq<char>)>::empty());
    }
    let n = events.len();
    let mut e: usize = 0;
    while e < n
        invariant
            e <= n,
            n == events@.len(),
            evs == events_view(events@),
            tpl_fold(init_tpl(), evs) == tpl_fold(tpl_st_of(cur, map@), evs.skip(e as int)),
        decreases n - e,
    {
        let ghost st_before = tpl_st_of(cur, map@);
        proof {
            let rest = evs.skip(e as int);
            assert(rest[0] == evs[e as int]);
            assert(evs[e as int] == events@[e as int]@);
            assert(rest.drop_first() =~= evs.skip(e + 1));
        }
        let ev = &events[e];
        match ev {
            MdEvent::CodeStart { info } => {
                let a = parse_annotation(info.as_str());
                match a.template_ref {
                    Option::Some(tag) => {
                        cur = Option::Some((tag, Vec::new()));
                        proof {
                            assert(strs_view(Seq::<String>::empty()) =~= Seq::<Seq<char>>::empty());
                        }
                    },
                    Option::None => {
                        cur = Option::None;
                    },
                }
            },
            MdEvent::Text { content, offset } => {
                let mut c = Option::None;
                core::mem::swap(&mut cur, &mut c);
                match c {
                    Option::Some((tag, lines)) => {
                        let mut lines2 = lines;
                        let ghost lines_before = lines2@;
                        lines2.push(content.clone());
                        proof {
                            assert(strs_view(lines2@) =~= strs_view(lines_before).push(content@));
                        }
                        cur = Option::Some((tag, lines2));
                    },
                    Option::None => {},
                }
            },
            MdEvent::CodeEnd => {
                let mut c = Option::None;
                core::mem::swap(&mut cur, &mut c);
                match c {
                    Option::Some((tag, lines)) => {
                        let body = concat_chunks(&lines);
                        let ghost map_before = map@;
                        map.push((tag, body));
                        proof {
                            assert(tpl_view(map@) =~= tpl_view(map_before).push(
                                (map@[map@.len() - 1].0@, map@[map@.len() - 1].1@),
                            ));
                        }
                    },
                    Option::None => {},
                }
            },
            _ => {},
        }
        proof {
            assert(tpl_st_of(cur, map@) == tpl_step(st_before, evs[e as int]));
        }
        e = e + 1;
    }
    proof {
        assert(evs.skip(n as int) =~= Seq::<MdEventV>::empty());
    }
    map
}

} // verus!
