//! From an extracted test unit to the source text of one generated test
//! crate: template selection, line cleaning, and final assembly.

use vstd::prelude::*;

use crate::chars::is_ws_char;
use crate::chars::is_ws;
use crate::chars::dec_str;
use crate::doc::DocTest;
use crate::doc::DocTestV;
use crate::doc::Test;
use crate::doc::TestV;
use crate::doc::lookup;
use crate::doc::opt_view;
use crate::doc::strs_view;
use crate::errors::SkepticError;
use crate::template::compose_spec;
use crate::template::compose_template;
use crate::template::template_ok;

verus! {

/// The length of the run of whitespace that starts the string.
pub open spec fn lead_ws_len(s: Seq<char>) -> nat
    decreases s.len(),
{
    if s.len() > 0 && is_ws_char(s[0]) {
        1 + lead_ws_len(s.drop_first())
    } else {
        0
    }
}

/// The length of the run of whitespace that ends the string.
pub open spec fn trail_ws_len(s: Seq<char>) -> nat
    decreases s.len(),
{
    if s.len() > 0 && is_ws_char(s[s.len() - 1]) {
        1 + trail_ws_len(s.drop_last())
    } else {
        0
    }
}

/// The string with its leading whitespace removed.
pub open spec fn trim_start_spec(s: Seq<char>) -> Seq<char> {
    s.skip(lead_ws_len(s) as int)
}

/// The string with its trailing whitespace removed.
pub open spec fn trim_end_spec(s: Seq<char>) -> Seq<char> {
    s.take(s.len() - trail_ws_len(s) as int)
}

/// What `clean_omitted_line` returns: after leading whitespace, a line
/// opening with `# ` loses that prefix, a line that is a lone `#` (up to
/// trailing whitespace) loses the `#`, and any other line passes unchanged.
pub open spec fn clean_spec(line: Seq<char>) -> Seq<char> {
    let t = trim_start_spec(line);
    if t.len() >= 2 && t[0] == '#' && t[1] == ' ' {
        t.skip(2)
    } else if trim_end_spec(t) == seq!['#'] {
        t.skip(1)
    } else {
        line
    }
}

/// The code body handed to composition: each text chunk cleaned of omitted
/// line markers, all chunks concatenated.
pub open spec fn test_input_spec(lines: Seq<Seq<char>>) -> Seq<char>
    decreases lines.len(),
{
    if lines.len() == 0 {
        Seq::empty()
    } else {
        clean_spec(lines[0]) + test_input_spec(lines.drop_first())
    }
}

/// Whether the unit's template reference, if any, resolves in the document.
pub open spec fn template_resolves(doc: DocTestV, test: TestV) -> bool {
    match test.template {
        Option::Some(tag) => lookup(doc.templates, tag) is Some,
        Option::None => true,
    }
}

/// The template the unit composes with: its named template if it references
/// one, else the document's legacy default, else none.
pub open spec fn resolved_template(doc: DocTestV, test: TestV) -> Option<Seq<char>> {
    match test.template {
        Option::Some(tag) => lookup(doc.templates, tag),
        Option::None => doc.old_template,
    }
}

/// Whether composing this unit succeeds: the reference resolves and the
/// selected template, if any, is well formed.
pub open spec fn composed_ok(doc: DocTestV, test: TestV) -> bool {
    &&& template_resolves(doc, test)
    &&& match resolved_template(doc, test) {
        Option::Some(t) => template_ok(t),
        Option::None => true,
    }
}

/// The composed source body of the unit.
pub open spec fn composed_src(doc: DocTestV, test: TestV) -> Seq<char> {
    let input = test_input_spec(test.text);
    match resolved_template(doc, test) {
        Option::Some(t) => compose_spec(t, input),
        Option::None => input,
    }
}

/// The full generated source text of the unit's test crate.
pub open spec fn test_src_spec(doc: DocTestV, test: TestV) -> Seq<char> {
    "// file "@ + doc.path + ", line "@ + dec_str(test.line) + "\n// test "@ + test.name
        + "\n#![feature(termination_trait_lib)] // skeptic\n\n"@ + composed_src(doc, test)
        + "\n\npub fn __skeptic_main() -> i32 {\n    use std::process::Termination;\n    main().report()\n}\n"@
}

/// A scan that sees `m` whitespace characters and then a boundary has found
/// the leading whitespace length.
proof fn lemma_lead_ws_scan(s: Seq<char>, m: int)
    requires
        0 <= m <= s.len(),
        forall|k: int| 0 <= k < m ==> is_ws_char(#[trigger] s[k]),
        m == s.len() || !is_ws_char(s[m]),
    ensures
        lead_ws_len(s) == m,
    decreases m,
{
    if m == 0 {
    } else {
        lemma_lead_ws_scan(s.drop_first(), m - 1);
    }
}

/// A scan that sees `m` whitespace characters from the end and then a
/// boundary has found the trailing whitespace length.
proof fn lemma_trail_ws_scan(s: Seq<char>, m: int)
    requires
        0 <= m <= s.len(),
        forall|k: int| s.len() - m <= k < s.len() ==> is_ws_char(#[trigger] s[k]),
        m == s.len() || !is_ws_char(s[s.len() - m - 1]),
    ensures
        trail_ws_len(s) == m,
    decreases m,
{
    if m == 0 {
    } else {
        assert(forall|k: int|
            s.drop_last().len() - (m - 1) <= k < s.drop_last().len() ==> is_ws_char(
                #[trigger] s.drop_last()[k],
            ));
        lemma_trail_ws_scan(s.drop_last(), m - 1);
    }
}

/// Just like documentation renderers, ignores a `#` marker at the start of
/// a code line: `# ` prefixes and lone-`#` lines are omitted text.
pub fn clean_omitted_line(line: &str) -> (r: String)
    ensures
        r@ == clean_spec(line@),
{
    let cs = crate::chars::chars_of(line);
    let n = cs.len();
    let mut a: usize = 0;
    while a < n && is_ws(cs[a])
        invariant
            a <= n,
            n == cs@.len(),
            cs@ == line@,
            forall|k: int| 0 <= k < a ==> is_ws_char(#[trigger] cs@[k]),
        decreases n - a,
    {
        a = a + 1;
    }
    proof {
        lemma_lead_ws_scan(cs@, a as int);
        assert(trim_start_spec(line@) =~= cs@.subrange(a as int, n as int));
    }
    let ghost t = trim_start_spec(line@);
    if n - a >= 2 && cs[a] == '#' && cs[a + 1] == ' ' {
        let mut out: Vec<char> = Vec::new();
        let mut i: usize = a + 2;
        while i < n
            invariant
                a + 2 <= i <= n,
                n == cs@.len(),
                out@ == cs@.subrange(a + 2, i as int),
            decreases n - i,
        {
            out.push(cs[i]);
            proof {
                assert(out@ =~= cs@.subrange(a + 2, i + 1));
            }
            i = i + 1;
        }
        proof {
            assert(t.skip(2) =~= cs@.subrange(a + 2, n as int));
        }
        crate::chars::string_from_chars(out.as_slice())
    } else {
        let mut b: usize = n;
        while b > a && is_ws(cs[b - 1])
            invariant
                a <= b <= n,
                n == cs@.len(),
                forall|k: int| b <= k < n ==> is_ws_char(#[trigger] cs@[k]),
            decreases b,
        {
            b = b - 1;
        }
        proof {
            assert(forall|k: int| 0 <= k < t.len() ==> t[k] == cs@[k + a]);
            lemma_trail_ws_scan(t, n - b);
            assert(trim_end_spec(t) =~= cs@.subrange(a as int, b as int));
        }
        if b - a == 1 && cs[a] == '#' {
            proof {
                assert(trim_end_spec(t) =~= seq!['#']);
            }
            let mut out: Vec<char> = Vec::new();
            let mut i: usize = a + 1;
            while i < n
                invariant
                    a + 1 <= i <= n,
                    n == cs@.len(),
                    out@ == cs@.subrange(a + 1, i as int),
                decreases n - i,
            {
                out.push(cs[i]);
                proof {
                    assert(out@ =~= cs@.subrange(a + 1, i + 1));
                }
                i = i + 1;
            }
            proof {
                assert(t.skip(1) =~= cs@.subrange(a + 1, n as int));
            }
            crate::chars::string_from_chars(out.as_slice())
        } else {
            proof {
                if trim_end_spec(t) == seq!['#'] {
                    assert(trim_end_spec(t).len() == 1);
                    assert(cs@.subrange(a as int, b as int).len() == b - a);
                    assert(cs@[a as int] == trim_end_spec(t)[0]);
                }
                assert(clean_spec(line@) == line@);
            }
            crate::chars::string_from_chars(cs.as_slice())
        }
    }
}

/// Builds the code body this unit's test operates on: every text chunk
/// cleaned of omitted-line markers and joined.
pub fn create_test_input(lines: &Vec<String>) -> (r: String)
    ensures
        r@ == test_input_spec(strs_view(lines@)),
{
    let ghost lv = strs_view(lines@);
    let mut out: Vec<char> = Vec::new();
    proof {
        assert(lv.skip(0) =~= lv);
    }
    let mut i: usize = 0;
    while i < lines.len()
        invariant
            i <= lines@.len(),
            lv == strs_view(lines@),
            test_input_spec(lv) == out@ + test_input_spec(lv.skip(i as int)),
        decreases lines@.len() - i,
    {
        let cleaned = clean_omitted_line(lines[i].as_str());
        let ghost out_before = out@;
        crate::chars::append_str_chars(&mut out, cleaned.as_str());
        proof {
            let rest = lv.skip(i as int);
            assert(rest[0] == lv[i as int]);
            assert(rest.drop_first() =~= lv.skip(i + 1));
            assert(out_before + (clean_spec(lv[i as int]) + test_input_spec(lv.skip(i + 1))) =~=
                out@ + test_input_spec(lv.skip(i + 1)));
        }
        i = i + 1;
    }
    proof {
        assert(lv.skip(lines@.len() as int) =~= Seq::<Seq<char>>::empty());
        assert(out@ + Seq::<char>::empty() =~= out@);
    }
    crate::chars::string_from_chars(out.as_slice())
}

/// Selects the template this unit composes with: the named template its tag
/// references, else the document's legacy default.  A tag that the document
/// does not define is an unresolved-reference error.
pub fn get_template(doc: &DocTest, test: &Test) -> (r: Result<Option<String>, SkepticError>)
    ensures
        match r {
            Result::Ok(opt) => template_resolves(doc@, test@) && opt_view(opt)
                == resolved_template(doc@, test@),
            Result::Err(e) => !template_resolves(doc@, test@) && e
                == SkepticError::UnresolvedTemplateReference,
        },
{
    match &test.template {
        Option::Some(tag) => {
            let ghost m = doc@.templates;
            proof {
                assert(m.skip(0) =~= m);
            }
            let n = doc.templates.len();
            let mut i: usize = 0;
            while i < n
                invariant
                    i <= n,
                    n == doc.templates@.len(),
                    m == doc@.templates,
                    test@.template == Option::Some(tag@),
                    lookup(m, tag@) == lookup(m.skip(i as int), tag@),
                decreases n - i,
            {
                proof {
                    assert(m.skip(i as int)[0] == m[i as int]);
                    assert(m.skip(i as int).drop_first() =~= m.skip(i + 1));
                }
                if doc.templates[i].0.eq(tag) {
                    return Result::Ok(Option::Some(doc.templates[i].1.clone()));
                }
                i = i + 1;
            }
            proof {
                assert(m.skip(n as int) =~= Seq::<(Seq<char>, Seq<char>)>::empty());
            }
            Result::Err(SkepticError::UnresolvedTemplateReference)
        },
        Option::None => {
            match &doc.old_template {
                Option::Some(s) => Result::Ok(Option::Some(s.clone())),
                Option::None => Result::Ok(Option::None),
            }
        },
    }
}

/// Builds the full source text of this unit's generated test crate: a
/// header naming the document and line, the composed body, and the harness
/// entry point.
pub fn build_test_src(doc: &DocTest, test: &Test) -> (r: Result<String, SkepticError>)
    ensures
        match r {
            Result::Ok(s) => composed_ok(doc@, test@) && s@ == test_src_spec(doc@, test@),
            Result::Err(e) => !composed_ok(doc@, test@) && e == (
            if !template_resolves(doc@, test@) {
                SkepticError::UnresolvedTemplateReference
            } else {
                SkepticError::MalformedTemplate
            }),
        },
{
    let template = match get_template(doc, test) {
        Result::Ok(t) => t,
        Result::Err(e) => {
            return Result::Err(e);
        },
    };
    let input = create_test_input(&test.text);
    let src = match compose_template(&template, input) {
        Result::Ok(s) => s,
        Result::Err(e) => {
            return Result::Err(e);
        },
    };
    proof {
        assert(src@ == composed_src(doc@, test@));
    }
    let mut out: Vec<char> = Vec::new();
    crate::chars::append_str_chars(&mut out, "// file ");
    crate::chars::append_str_chars(&mut out, doc.path.as_str());
    crate::chars::append_str_chars(&mut out, ", line ");
    crate::chars::append_dec(&mut out, test.line);
    crate::chars::append_str_chars(&mut out, "\n// test ");
    crate::chars::append_str_chars(&mut out, test.name.as_str());
    crate::chars::append_str_chars(&mut out, "\n#![feature(termination_trait_lib)] // skeptic\n\n");
    crate::chars::append_str_chars(&mut out, src.as_str());
    crate::chars::append_str_chars(
        &mut out,
        "\n\npub fn __skeptic_main() -> i32 {\n    use std::process::Termination;\n    main().report()\n}\n",
    );
    proof {
        assert(out@ =~= test_src_spec(doc@, test@));
    }
    Result::Ok(crate::chars::string_from_chars(out.as_slice()))
}

} // verus!
