//! The annotation parser: classifies a fenced block's info string.
//!
//! The info string is tokenized on every character that is not an ASCII
//! alphanumeric, `_`, or `-`.  Recognized tokens set flags; a token
//! starting with `skt-` names a template; any other nonempty token counts
//! as unrecognized.  The block is a genuine code sample iff the language
//! token was seen and either a recognized token was seen or no unrecognized
//! one was.

use vstd::prelude::*;

use crate::doc::opt_view;

verus! {

/// A character that can appear inside a token.
pub open spec fn is_tok_char(c: char) -> bool {
    ('a' <= c && c <= 'z') || ('A' <= c && c <= 'Z') || ('0' <= c && c <= '9') || c == '_' || c
        == '-'
}

/// The length of the leading run of token characters.
pub open spec fn tok_len(s: Seq<char>) -> nat
    decreases s.len(),
{
    if s.len() > 0 && is_tok_char(s[0]) {
        1 + tok_len(s.drop_first())
    } else {
        0
    }
}

/// The nonempty tokens of the info string, in order.
pub open spec fn tokens_of(s: Seq<char>) -> Seq<Seq<char>>
    decreases s.len(),
    via tokens_of_decreases
{
    if s.len() == 0 {
        Seq::empty()
    } else if !is_tok_char(s[0]) {
        tokens_of(s.drop_first())
    } else {
        seq![s.take(tok_len(s) as int)] + tokens_of(s.skip(tok_len(s) as int))
    }
}

#[via_fn]
proof fn tokens_of_decreases(s: Seq<char>) {
    if s.len() > 0 && is_tok_char(s[0]) {
        lemma_tok_len_le(s);
        assert(tok_len(s) >= 1);
    }
}

/// The leading token never reaches past the end.
proof fn lemma_tok_len_le(s: Seq<char>)
    ensures
        tok_len(s) <= s.len(),
    decreases s.len(),
{
    if s.len() > 0 && is_tok_char(s[0]) {
        lemma_tok_len_le(s.drop_first());
    }
}

/// The running state of the annotation fold.
pub ghost struct AnnotV {
    pub lang: bool,
    pub should_panic: bool,
    pub ignore: bool,
    pub no_run: bool,
    pub legacy: bool,
    pub tref: Option<Seq<char>>,
    pub seen_rec: bool,
    pub seen_unrec: bool,
}

/// The fold's starting state: nothing seen.
pub open spec fn init_annot() -> AnnotV {
    AnnotV {
        lang: false,
        should_panic: false,
        ignore: false,
        no_run: false,
        legacy: false,
        tref: Option::None,
        seen_rec: false,
        seen_unrec: false,
    }
}

/// The effect of one token on the running state.
pub open spec fn apply_token(a: AnnotV, tok: Seq<char>) -> AnnotV {
    if tok == "rust"@ {
        AnnotV { lang: true, seen_rec: true, ..a }
    } else if tok == "should_panic"@ {
        AnnotV { should_panic: true, seen_rec: true, ..a }
    } else if tok == "ignore"@ {
        AnnotV { ignore: true, seen_rec: true, ..a }
    } else if tok == "no_run"@ {
        AnnotV { no_run: true, seen_rec: true, ..a }
    } else if tok == "skeptic-template"@ {
        AnnotV { legacy: true, seen_rec: true, ..a }
    } else if tok.len() >= 4 && tok.take(4) == "skt-"@ {
        AnnotV { tref: Option::Some(tok.skip(4)), seen_rec: true, ..a }
    } else if tok.len() > 0 {
        AnnotV { seen_unrec: true, ..a }
    } else {
        a
    }
}

/// The fold of `apply_token` over a token list, from the front.
pub open spec fn annot_fold(a: AnnotV, toks: Seq<Seq<char>>) -> AnnotV
    decreases toks.len(),
{
    if toks.len() == 0 {
        a
    } else {
        annot_fold(apply_token(a, toks[0]), toks.drop_first())
    }
}

/// What parsing an info string yields, before the final sample policy.
pub open spec fn annot_of(info: Seq<char>) -> AnnotV {
    annot_fold(init_annot(), tokens_of(info))
}

/// The final policy: a genuine code sample iff the language token was seen
/// and either some recognized token was seen or no unrecognized one was.
pub open spec fn sample_of(a: AnnotV) -> bool {
    a.lang && (a.seen_rec || !a.seen_unrec)
}

/// The classification of one fenced block's info string.
pub struct Annotation {
    /// The block is a genuine code sample.
    pub is_code_sample: bool,
    /// The sample expects a panic.
    pub should_panic: bool,
    /// The sample is compiled but commented out of the generated suite.
    pub ignore: bool,
    /// The sample is built but never executed.
    pub no_run: bool,
    /// The block is the document's legacy default template.
    pub is_legacy_template_marker: bool,
    /// The tag of the named template the sample composes with.
    pub template_ref: Option<String>,
}

/// The mathematical value of an [`Annotation`].
pub ghost struct AnnotationV {
    pub is_code_sample: bool,
    pub should_panic: bool,
    pub ignore: bool,
    pub no_run: bool,
    pub is_legacy_template_marker: bool,
    pub template_ref: Option<Seq<char>>,
}

impl View for Annotation {
    type V = AnnotationV;

    open spec fn view(&self) -> AnnotationV {
        AnnotationV {
            is_code_sample: self.is_code_sample,
            should_panic: self.should_panic,
            ignore: self.ignore,
            no_run: self.no_run,
            is_legacy_template_marker: self.is_legacy_template_marker,
            template_ref: opt_view(self.template_ref),
        }
    }
}

/// The annotation an info string denotes, with the sample policy applied.
pub open spec fn annotation_spec(info: Seq<char>) -> AnnotationV {
    let a = annot_of(info);
    AnnotationV {
        is_code_sample: sample_of(a),
        should_panic: a.should_panic,
        ignore: a.ignore,
        no_run: a.no_run,
        is_legacy_template_marker: a.legacy,
        template_ref: a.tref,
    }
}

/// Law: a block whose info string never saw the language token is never a
/// genuine code sample, whatever else it holds.
pub proof fn lemma_no_language_no_sample(info: Seq<char>)
    ensures
        !annot_of(info).lang ==> !annotation_spec(info).is_code_sample,
{
}

/// Skipping a separator character does not change the token list.
proof fn lemma_tokens_skip_sep(s: Seq<char>, i: int)
    requires
        0 <= i < s.len(),
        !is_tok_char(s[i]),
    ensures
        tokens_of(s.skip(i)) == tokens_of(s.skip(i + 1)),
{
    assert(s.skip(i).drop_first() =~= s.skip(i + 1));
}

/// A scan that sees `m` token characters and then a boundary has found the
/// leading token length.
proof fn lemma_tok_len_scan(s: Seq<char>, m: int)
    requires
        0 <= m <= s.len(),
        forall|k: int| 0 <= k < m ==> is_tok_char(#[trigger] s[k]),
        m == s.len() || !is_tok_char(s[m]),
    ensures
        tok_len(s) == m,
    decreases m,
{
    if m > 0 {
        lemma_tok_len_scan(s.drop_first(), m - 1);
    }
}

/// A maximal token stretch is the head of the token list of its suffix.
proof fn lemma_tokens_take_tok(s: Seq<char>, i: int, k: int)
    requires
        0 <= i < k <= s.len(),
        forall|j: int| i <= j < k ==> is_tok_char(#[trigger] s[j]),
        k == s.len() || !is_tok_char(s[k]),
    ensures
        tokens_of(s.skip(i)) == seq![s.subrange(i, k)] + tokens_of(s.skip(k)),
{
    let u = s.skip(i);
    assert(forall|j: int| 0 <= j < k - i ==> #[trigger] u[j] == s[j + i]);
    lemma_tok_len_scan(u, k - i);
    assert(u.take(k - i) =~= s.subrange(i, k));
    assert(u.skip(k - i) =~= s.skip(k));
}

/// Folding a head token onto the fold of the rest.
proof fn lemma_fold_cons(a: AnnotV, tok: Seq<char>, toks: Seq<Seq<char>>)
    ensures
        annot_fold(a, seq![tok] + toks) == annot_fold(apply_token(a, tok), toks),
{
    let all = seq![tok] + toks;
    assert(all[0] == tok);
    assert(all.drop_first() =~= toks);
}

/// Whether the first `upto` characters of `v` spell the string `s`.
fn chars_prefix_eq_str(v: &Vec<char>, upto: usize, s: &str) -> (r: bool)
    requires
        upto <= v@.len(),
    ensures
        r == (v@.take(upto as int) == s@),
{
    let n = s.unicode_len();
    if upto != n {
        proof {
            assert(v@.take(upto as int).len() != s@.len());
        }
        return false;
    }
    let mut i: usize = 0;
    while i < n
        invariant
            i <= n,
            n == s@.len(),
            upto == n <= v@.len(),
            forall|k: int| 0 <= k < i ==> v@[k] == s@[k],
        decreases n - i,
    {
        if v[i] != s.get_char(i) {
            proof {
                assert(v@.take(upto as int)[i as int] != s@[i as int]);
            }
            return false;
        }
        i = i + 1;
    }
    proof {
        assert(v@.take(upto as int) =~= s@);
    }
    true
}

/// Classifies a fenced block's info string.
pub fn parse_annotation(info: &str) -> (r: Annotation)
    ensures
        r@ == annotation_spec(info@),
{
    let cs = crate::chars::chars_of(info);
    let n = cs.len();
    let ghost u = cs@;

    let mut lang = false;
    let mut should_panic = false;
    let mut ignore = false;
    let mut no_run = false;
    let mut legacy = false;
    let mut tref: Option<String> = Option::None;
    let mut seen_rec = false;
    let mut seen_unrec = false;

    proof {
        assert(u.skip(0) =~= u);
    }
    let mut i: usize = 0;
    while i < n
        invariant
            i <= n,
            n == u.len(),
            cs@ == u,
            u == info@,
            annot_of(info@) == annot_fold(
                AnnotV {
                    lang: lang,
                    should_panic: should_panic,
                    ignore: ignore,
                    no_run: no_run,
                    legacy: legacy,
                    tref: opt_view(tref),
                    seen_rec: seen_rec,
                    seen_unrec: seen_unrec,
                },
                tokens_of(u.skip(i as int)),
            ),
        decreases n - i,
    {
        let c = cs[i];
        let tokc = ('a' <= c && c <= 'z') || ('A' <= c && c <= 'Z') || ('0' <= c && c <= '9') || c
            == '_' || c == '-';
        if !tokc {
            proof {
                lemma_tokens_skip_sep(u, i as int);
            }
            i = i + 1;
        } else {
            let ghost a_before = AnnotV {
                lang: lang,
                should_panic: should_panic,
                ignore: ignore,
                no_run: no_run,
                legacy: legacy,
                tref: opt_view(tref),
                seen_rec: seen_rec,
                seen_unrec: seen_unrec,
            };
            let mut k: usize = i;
            let mut tok: Vec<char> = Vec::new();
            while k < n
                invariant
                    i <= k <= n,
                    n == u.len(),
                    cs@ == u,
                    tok@ == u.subrange(i as int, k as int),
                    forall|j: int| i <= j < k ==> is_tok_char(#[trigger] u[j]),
                ensures
                    i <= k <= n,
                    tok@ == u.subrange(i as int, k as int),
                    forall|j: int| i <= j < k ==> is_tok_char(#[trigger] u[j]),
                    k == n || !is_tok_char(u[k as int]),
                decreases n - k,
            {
                let c2 = cs[k];
                let tokc2 = ('a' <= c2 && c2 <= 'z') || ('A' <= c2 && c2 <= 'Z') || ('0' <= c2
                    && c2 <= '9') || c2 == '_' || c2 == '-';
                if !tokc2 {
                    break;
                }
                tok.push(c2);
                proof {
                    assert(tok@ =~= u.subrange(i as int, k + 1));
                }
                k = k + 1;
            }
            proof {
                assert(k > i);
                lemma_tokens_take_tok(u, i as int, k as int);
                lemma_fold_cons(a_before, tok@, tokens_of(u.skip(k as int)));
            }
            let ts = tok.as_slice();
            if crate::chars::chars_eq_str(ts, "rust") {
                lang = true;
                seen_rec = true;
            } else if crate::chars::chars_eq_str(ts, "should_panic") {
                should_panic = true;
                seen_rec = true;
            } else if crate::chars::chars_eq_str(ts, "ignore") {
                ignore = true;
                seen_rec = true;
            } else if crate::chars::chars_eq_str(ts, "no_run") {
                no_run = true;
                seen_rec = true;
            } else if crate::chars::chars_eq_str(ts, "skeptic-template") {
                legacy = true;
                seen_rec = true;
            } else if tok.len() >= 4 && chars_prefix_eq_str(&tok, 4, "skt-") {
                let mut suffix: Vec<char> = Vec::new();
                let mut j: usize = 4;
                while j < tok.len()
                    invariant
                        4 <= j <= tok@.len(),
                        suffix@ == tok@.subrange(4, j as int),
                    decreases tok@.len() - j,
                {
                    suffix.push(tok[j]);
                    proof {
                        assert(suffix@ =~= tok@.subrange(4, j + 1));
                    }
                    j = j + 1;
                }
                proof {
                    assert(suffix@ =~= tok@.skip(4));
                }
                tref = Option::Some(crate::chars::string_from_chars(suffix.as_slice()));
                seen_rec = true;
            } else {
                seen_unrec = true;
            }
            proof {
                let a_after = AnnotV {
                    lang: lang,
                    should_panic: should_panic,
                    ignore: ignore,
                    no_run: no_run,
                    legacy: legacy,
                    tref: opt_view(tref),
                    seen_rec: seen_rec,
                    seen_unrec: seen_unrec,
                };
                assert(a_after == apply_token(a_before, tok@));
            }
            i = k;
        }
    }
    proof {
        assert(u.skip(n as int) =~= Seq::<char>::empty());
    }
    Annotation {
        is_code_sample: lang && (seen_rec || !seen_unrec),
        should_panic: should_panic,
        ignore: ignore,
        no_run: no_run,
        is_legacy_template_marker: legacy,
        template_ref: tref,
    }
}

} // verus!
