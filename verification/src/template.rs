//! The template composer.
//!
//! A template's brace syntax has three constructs: `{{` yields a literal
//! `{`, `}}` yields a literal `}`, and exactly one bare `{` ... `}` pair —
//! not part of any double-brace run, with only whitespace between the two —
//! is the substitution marker replaced by the code body.
//!
//! A maximal run of identical braces is read by parity: an even run is
//! all literal-escape pairs; an odd run has one free character left over
//! after pairing off the rest.  A free `{` that is followed, over optional
//! whitespace, by a free `}` (the first character of its run) forms a
//! marker candidate.  Exactly one candidate must exist in the template;
//! zero or several are a `MalformedTemplate` error.  A free brace that is
//! not part of the marker is dropped from the output; every full pair
//! emits a single literal brace.

use vstd::prelude::*;

use crate::chars::is_ws_char;
use crate::chars::is_ws;
use crate::errors::SkepticError;

verus! {

/// A brace character.
pub open spec fn is_brace(c: char) -> bool {
    c == '{' || c == '}'
}

/// The first index of the maximal run of characters equal to `t[i]` that
/// contains position `i`.
pub open spec fn run_start_of(t: Seq<char>, i: int) -> int
    decreases i,
{
    if 0 < i < t.len() && t[i - 1] == t[i] {
        run_start_of(t, i - 1)
    } else {
        i
    }
}

/// One past the last index of the maximal run of characters equal to `t[i]`
/// that contains position `i`.
pub open spec fn run_end_of(t: Seq<char>, i: int) -> int
    decreases t.len() - i,
{
    if 0 <= i < t.len() - 1 && t[i + 1] == t[i] {
        run_end_of(t, i + 1)
    } else {
        i + 1
    }
}

/// The free opener of an odd-length `{` run: its last character.
pub open spec fn free_open(t: Seq<char>, i: int) -> bool {
    &&& 0 <= i < t.len()
    &&& t[i] == '{'
    &&& (i + 1 == t.len() || t[i + 1] != '{')
    &&& (i - run_start_of(t, i) + 1) % 2 == 1
}

/// The free closer of an odd-length `}` run: its first character.
pub open spec fn free_close(t: Seq<char>, j: int) -> bool {
    &&& 0 <= j < t.len()
    &&& t[j] == '}'
    &&& (j == 0 || t[j - 1] != '}')
    &&& (run_end_of(t, j) - j) % 2 == 1
}

/// A substitution marker: a free opener followed, over whitespace only, by a
/// free closer.
pub open spec fn is_marker(t: Seq<char>, i: int, j: int) -> bool {
    &&& free_open(t, i)
    &&& free_close(t, j)
    &&& i < j
    &&& forall|k: int| i < k < j ==> is_ws_char(#[trigger] t[k])
}

/// A well-formed template: exactly one substitution marker.
pub open spec fn template_ok(t: Seq<char>) -> bool {
    &&& exists|i: int, j: int| is_marker(t, i, j)
    &&& forall|i1: int, j1: int, i2: int, j2: int|
        #![trigger is_marker(t, i1, j1), is_marker(t, i2, j2)]
        is_marker(t, i1, j1) && is_marker(t, i2, j2) ==> i1 == i2 && j1 == j2
}

/// Bounds and content of the run to the left of `i`.
proof fn lemma_run_start_bounds(t: Seq<char>, i: int)
    requires
        0 <= i < t.len(),
    ensures
        0 <= run_start_of(t, i) <= i,
        forall|k: int| run_start_of(t, i) <= k <= i ==> t[k] == t[i],
        run_start_of(t, i) == 0 || t[run_start_of(t, i) - 1] != t[i],
    decreases i,
{
    if 0 < i && t[i - 1] == t[i] {
        lemma_run_start_bounds(t, i - 1);
    }
}

/// Bounds and content of the run to the right of `i`.
proof fn lemma_run_end_bounds(t: Seq<char>, i: int)
    requires
        0 <= i < t.len(),
    ensures
        i < run_end_of(t, i) <= t.len(),
        forall|k: int| i <= k < run_end_of(t, i) ==> t[k] == t[i],
        run_end_of(t, i) == t.len() || t[run_end_of(t, i)] != t[i],
    decreases t.len() - i,
{
    if i < t.len() - 1 && t[i + 1] == t[i] {
        lemma_run_end_bounds(t, i + 1);
    }
}

/// The start of a literal escape pair in the render walk.  Inside the run
/// holding the marker opener, the characters before the opener pair off;
/// inside the run the marker closer starts, the characters after it pair
/// off; in every other brace run the characters pair from the front, an odd
/// leftover staying unpaired.
pub open spec fn is_pair_start(t: Seq<char>, o: int, c: int, i: int) -> bool {
    if 0 <= i < t.len() && is_brace(t[i]) {
        let s = run_start_of(t, i);
        let e = run_end_of(t, i);
        if t[i] == '{' && e - 1 == o {
            i < e - 1 && (i - s) % 2 == 0
        } else if t[i] == '}' && s == c {
            s + 1 <= i && i + 1 < e && (i - (s + 1)) % 2 == 0
        } else {
            (i - s) % 2 == 0 && i < s + 2 * ((e - s) / 2)
        }
    } else {
        false
    }
}

/// The render walk from position `i` on: the marker opener emits the body
/// and skips past the closer, an escape-pair start emits one brace and skips
/// the pair, an unpaired brace is dropped, and any other character is
/// copied.
pub open spec fn render_from(t: Seq<char>, body: Seq<char>, o: int, c: int, i: int) -> Seq<char>
    decreases t.len() - i,
    via render_from_decreases
{
    if i < 0 || i >= t.len() {
        Seq::empty()
    } else if i == o {
        if i < c && c < t.len() {
            body + render_from(t, body, o, c, c + 1)
        } else {
            body
        }
    } else if is_pair_start(t, o, c, i) {
        seq![t[i]] + render_from(t, body, o, c, i + 2)
    } else if is_brace(t[i]) {
        render_from(t, body, o, c, i + 1)
    } else {
        seq![t[i]] + render_from(t, body, o, c, i + 1)
    }
}

#[via_fn]
proof fn render_from_decreases(t: Seq<char>, body: Seq<char>, o: int, c: int, i: int) {
    if 0 <= i < t.len() && i != o && is_pair_start(t, o, c, i) {
        lemma_run_start_bounds(t, i);
        lemma_run_end_bounds(t, i);
    }
}

/// What composing a well-formed template with a body yields: the render
/// walk from the front, around the template's one marker.
pub open spec fn compose_spec(t: Seq<char>, body: Seq<char>) -> Seq<char> {
    let (o, c) = choose|o: int, c: int| is_marker(t, o, c);
    render_from(t, body, o, c, 0)
}

/// Law: a template with no brace character holds no substitution marker,
/// so composing with it fails as malformed.
pub proof fn lemma_braceless_template_malformed(t: Seq<char>)
    requires
        forall|i: int| 0 <= i < t.len() ==> !is_brace(#[trigger] t[i]),
    ensures
        !template_ok(t),
{
    if exists|i: int, j: int| is_marker(t, i, j) {
        let (i, j) = choose|i: int, j: int| is_marker(t, i, j);
        assert(t[i] == '{');
    }
}

/// Finds the first index of the run containing `i`.
fn run_start_exec(t: &Vec<char>, i: usize) -> (s: usize)
    requires
        i < t@.len(),
    ensures
        s == run_start_of(t@, i as int),
        s <= i,
{
    let mut s = i;
    while s > 0 && t[s - 1] == t[s]
        invariant
            s <= i < t@.len(),
            t@[s as int] == t@[i as int],
            run_start_of(t@, i as int) == run_start_of(t@, s as int),
        decreases s,
    {
        s = s - 1;
    }
    s
}

/// Finds the index one past the run containing `i`.
fn run_end_exec(t: &Vec<char>, i: usize) -> (e: usize)
    requires
        i < t@.len(),
    ensures
        e == run_end_of(t@, i as int),
        i < e <= t@.len(),
{
    let n = t.len();
    let mut e = i;
    while e + 1 < n && t[e + 1] == t[e]
        invariant
            i <= e < n,
            n == t@.len(),
            t@[e as int] == t@[i as int],
            run_end_of(t@, i as int) == run_end_of(t@, e as int),
        decreases n - e,
    {
        e = e + 1;
    }
    e + 1
}

/// Looks for a marker whose opener is position `i`; a marker found there is
/// the only one with that opener.
fn try_marker_at(t: &Vec<char>, i: usize) -> (r: Option<usize>)
    requires
        i < t@.len(),
    ensures
        match r {
            Some(j) => is_marker(t@, i as int, j as int) && (forall|j0: int|
                is_marker(t@, i as int, j0) ==> j0 == j),
            None => forall|j0: int| !is_marker(t@, i as int, j0),
        },
{
    let n = t.len();
    if t[i] != '{' || (i + 1 < n && t[i + 1] == '{') {
        return None;
    }
    let s = run_start_exec(t, i);
    if (i - s + 1) % 2 == 0 {
        assert(!free_open(t@, i as int));
        return None;
    }
    assert(free_open(t@, i as int));
    let mut j = i + 1;
    while j < n && is_ws(t[j])
        invariant
            i + 1 <= j <= n,
            n == t@.len(),
            forall|k: int| i < k < j ==> is_ws_char(#[trigger] t@[k]),
        decreases n - j,
    {
        j = j + 1;
    }
    if j == n {
        assert forall|j0: int| !is_marker(t@, i as int, j0) by {
            if is_marker(t@, i as int, j0) {
                assert(is_ws_char(t@[j0]));
                assert(t@[j0] == '}');
            }
        }
        return None;
    }
    if t[j] != '}' {
        assert forall|j0: int| !is_marker(t@, i as int, j0) by {
            if is_marker(t@, i as int, j0) {
                if j0 < j {
                    assert(is_ws_char(t@[j0]));
                } else if j0 > j {
                    assert(is_ws_char(t@[j as int]));
                }
            }
        }
        return None;
    }
    let e = run_end_exec(t, j);
    assert(t@[j as int - 1] != '}');
    if (e - j) % 2 == 1 {
        assert(free_close(t@, j as int));
        assert(is_marker(t@, i as int, j as int));
        assert forall|j0: int| is_marker(t@, i as int, j0) implies j0 == j by {
            if j0 < j {
                assert(is_ws_char(t@[j0]));
            } else if j0 > j {
                assert(is_ws_char(t@[j as int]));
            }
        }
        Some(j)
    } else {
        assert forall|j0: int| !is_marker(t@, i as int, j0) by {
            if is_marker(t@, i as int, j0) {
                if j0 < j {
                    assert(is_ws_char(t@[j0]));
                } else if j0 > j {
                    assert(is_ws_char(t@[j as int]));
                } else {
                    assert(!free_close(t@, j0));
                }
            }
        }
        None
    }
}

/// Collects every substitution marker of the template, in order of opener.
fn find_markers(t: &Vec<char>) -> (pairs: Vec<(usize, usize)>)
    ensures
        forall|k: int| 0 <= k < pairs@.len() ==> is_marker(
            t@,
            #[trigger] pairs@[k].0 as int,
            pairs@[k].1 as int,
        ),
        forall|i: int, j: int| is_marker(t@, i, j) ==> exists|k: int|
            0 <= k < pairs@.len() && #[trigger] pairs@[k] == (i as usize, j as usize),
        forall|k1: int, k2: int| 0 <= k1 < k2 < pairs@.len() ==> (#[trigger] pairs@[k1]).0 < (
        #[trigger] pairs@[k2]).0,
{
    let n = t.len();
    let mut pairs: Vec<(usize, usize)> = Vec::new();
    let mut i: usize = 0;
    while i < n
        invariant
            i <= n,
            n == t@.len(),
            forall|k: int| 0 <= k < pairs@.len() ==> is_marker(
                t@,
                #[trigger] pairs@[k].0 as int,
                pairs@[k].1 as int,
            ),
            forall|i0: int, j0: int| 0 <= i0 < i && is_marker(t@, i0, j0) ==> exists|k: int|
                0 <= k < pairs@.len() && #[trigger] pairs@[k] == (i0 as usize, j0 as usize),
            forall|k: int| 0 <= k < pairs@.len() ==> (#[trigger] pairs@[k]).0 < i,
            forall|k1: int, k2: int| 0 <= k1 < k2 < pairs@.len() ==> (#[trigger] pairs@[k1]).0 < (
            #[trigger] pairs@[k2]).0,
        decreases n - i,
    {
        let ghost old_pairs = pairs@;
        match try_marker_at(t, i) {
            Some(j) => {
                pairs.push((i, j));
                proof {
                    assert forall|i0: int, j0: int|
                        0 <= i0 < i + 1 && is_marker(t@, i0, j0) implies exists|k: int|
                        0 <= k < pairs@.len() && #[trigger] pairs@[k] == (
                        i0 as usize,
                        j0 as usize,
                    ) by {
                        if i0 == i {
                            assert(j0 == j);
                            assert(pairs@[pairs@.len() - 1] == (i0 as usize, j0 as usize));
                        } else {
                            let k = choose|k: int|
                                0 <= k < old_pairs.len() && old_pairs[k] == (
                                i0 as usize,
                                j0 as usize,
                                );
                            assert(pairs@[k] == (i0 as usize, j0 as usize));
                        }
                    }
                }
            },
            None => {},
        }
        i = i + 1;
    }
    proof {
        assert forall|i0: int, j0: int| is_marker(t@, i0, j0) implies exists|k: int|
            0 <= k < pairs@.len() && #[trigger] pairs@[k] == (i0 as usize, j0 as usize) by {
            assert(0 <= i0 < n);
        }
    }
    pairs
}

/// Renders the template around its marker `(o, c)`, splicing in the body.
fn render(t: &Vec<char>, body: &Vec<char>, o: usize, c: usize) -> (out: Vec<char>)
    requires
        is_marker(t@, o as int, c as int),
    ensures
        out@ == render_from(t@, body@, o as int, c as int, 0),
{
    let n = t.len();
    let ghost oi = o as int;
    let ghost ci = c as int;
    let mut out: Vec<char> = Vec::new();
    let mut i: usize = 0;
    while i < n
        invariant
            n == t@.len(),
            oi == o as int,
            ci == c as int,
            is_marker(t@, oi, ci),
            render_from(t@, body@, oi, ci, 0) == out@ + render_from(t@, body@, oi, ci, i as int),
        decreases n - i,
    {
        let ghost out_before = out@;
        if i == o {
            crate::chars::append_chars(&mut out, body.as_slice());
            proof {
                assert(oi < ci < t@.len());
                assert(out_before + (body@ + render_from(t@, body@, oi, ci, ci + 1)) =~= out@
                    + render_from(t@, body@, oi, ci, ci + 1));
            }
            i = c + 1;
        } else if t[i] != '{' && t[i] != '}' {
            out.push(t[i]);
            proof {
                assert(!is_pair_start(t@, oi, ci, i as int));
                assert(out_before + (seq![t@[i as int]] + render_from(t@, body@, oi, ci, i + 1))
                    =~= out@ + render_from(t@, body@, oi, ci, i + 1));
            }
            i = i + 1;
        } else {
            let s = run_start_exec(t, i);
            let e = run_end_exec(t, i);
            let pair = if t[i] == '{' && e - 1 == o {
                i < e - 1 && (i - s) % 2 == 0
            } else if t[i] == '}' && s == c {
                s + 1 <= i && i + 1 < e && (i - (s + 1)) % 2 == 0
            } else {
                (i - s) % 2 == 0 && i < s + 2 * ((e - s) / 2)
            };
            proof {
                assert(pair == is_pair_start(t@, oi, ci, i as int));
            }
            if pair {
                out.push(t[i]);
                proof {
                    assert(out_before + (seq![t@[i as int]] + render_from(
                        t@,
                        body@,
                        oi,
                        ci,
                        i + 2,
                    )) =~= out@ + render_from(t@, body@, oi, ci, i + 2));
                }
                i = i + 2;
            } else {
                i = i + 1;
            }
        }
    }
    proof {
        assert(render_from(t@, body@, oi, ci, i as int) == Seq::<char>::empty());
        assert(out@ + Seq::<char>::empty() =~= out@);
    }
    out
}

/// Splices the code body into the template.  Without a template the body
/// passes through unchanged; with one, the template must hold exactly one
/// substitution marker, else composition fails as malformed.
pub fn compose_template(template: &Option<String>, test: String) -> (r: Result<
    String,
    SkepticError,
>)
    ensures
        match template {
            Option::None => match r {
                Result::Ok(s) => s@ == test@,
                Result::Err(_) => false,
            },
            Option::Some(t) => match r {
                Result::Ok(s) => template_ok(t@) && s@ == compose_spec(t@, test@),
                Result::Err(e) => !template_ok(t@) && e == SkepticError::MalformedTemplate,
            },
        },
{
    match template {
        Option::None => Result::Ok(test),
        Option::Some(tmpl) => {
            let tc = crate::chars::chars_of(tmpl.as_str());
            let pairs = find_markers(&tc);
            if pairs.len() == 0 {
                proof {
                    if exists|i: int, j: int| is_marker(tc@, i, j) {
                        let (i, j) = choose|i: int, j: int| is_marker(tc@, i, j);
                        assert(exists|k: int|
                            0 <= k < pairs@.len() && #[trigger] pairs@[k] == (
                            i as usize,
                            j as usize,
                            ));
                    }
                }
                Result::Err(SkepticError::MalformedTemplate)
            } else if pairs.len() > 1 {
                proof {
                    let p0 = pairs@[0];
                    let p1 = pairs@[1];
                    assert(is_marker(tc@, p0.0 as int, p0.1 as int));
                    assert(is_marker(tc@, p1.0 as int, p1.1 as int));
                    assert(p0.0 < p1.0);
                }
                Result::Err(SkepticError::MalformedTemplate)
            } else {
                let p = pairs[0];
                let (o, c) = (p.0, p.1);
                proof {
                    assert(is_marker(tc@, o as int, c as int));
                    assert forall|i1: int, j1: int, i2: int, j2: int|
                        #![trigger is_marker(tc@, i1, j1), is_marker(tc@, i2, j2)]
                        is_marker(tc@, i1, j1) && is_marker(tc@, i2, j2) implies i1 == i2 && j1
                        == j2 by {
                        let k1 = choose|k: int|
                            0 <= k < pairs@.len() && pairs@[k] == (i1 as usize, j1 as usize);
                        let k2 = choose|k: int|
                            0 <= k < pairs@.len() && pairs@[k] == (i2 as usize, j2 as usize);
                        assert(k1 == 0 && k2 == 0);
                    }
                    assert(template_ok(tc@));
                }
                let body = crate::chars::chars_of(test.as_str());
                let out = render(&tc, &body, o, c);
                proof {
                    let (o2, c2) = choose|o2: int, c2: int| is_marker(tc@, o2, c2);
                    assert(is_marker(tc@, o2, c2));
                    assert(o2 == o as int && c2 == c as int);
                }
                Result::Ok(crate::chars::string_from_chars(out.as_slice()))
            }
        },
    }
}

} // verus!
