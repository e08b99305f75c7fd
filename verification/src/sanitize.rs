//! The name sanitizer: maps arbitrary text to a canonical identifier.
//!
//! Lowercase the input, map every character that is not ASCII-alphanumeric
//! to `_`, split on `_`, drop empty segments, and rejoin with a single `_`.
//! The result is empty or matches `^[a-z0-9]+(_[a-z0-9]+)*$`, and the
//! function is idempotent.

use vstd::prelude::*;

verus! {

/// An ASCII lowercase letter or digit.
pub open spec fn is_lower_alnum(c: char) -> bool {
    ('a' <= c && c <= 'z') || ('0' <= c && c <= '9')
}

/// An ASCII uppercase letter.
pub open spec fn is_upper_alpha(c: char) -> bool {
    'A' <= c && c <= 'Z'
}

/// The lowercase counterpart of an ASCII uppercase letter.
pub open spec fn lower_alpha(c: char) -> char {
    if c == 'A' { 'a' } else if c == 'B' { 'b' } else if c == 'C' { 'c' }
    else if c == 'D' { 'd' } else if c == 'E' { 'e' } else if c == 'F' { 'f' }
    else if c == 'G' { 'g' } else if c == 'H' { 'h' } else if c == 'I' { 'i' }
    else if c == 'J' { 'j' } else if c == 'K' { 'k' } else if c == 'L' { 'l' }
    else if c == 'M' { 'm' } else if c == 'N' { 'n' } else if c == 'O' { 'o' }
    else if c == 'P' { 'p' } else if c == 'Q' { 'q' } else if c == 'R' { 'r' }
    else if c == 'S' { 's' } else if c == 'T' { 't' } else if c == 'U' { 'u' }
    else if c == 'V' { 'v' } else if c == 'W' { 'w' } else if c == 'X' { 'x' }
    else if c == 'Y' { 'y' } else { 'z' }
}

/// One character of the sanitized alphabet: lowercase alphanumerics pass,
/// uppercase letters are lowered, everything else becomes `_`.
pub open spec fn norm_char(c: char) -> char {
    if is_lower_alnum(c) {
        c
    } else if is_upper_alpha(c) {
        lower_alpha(c)
    } else {
        '_'
    }
}

/// `norm_char` applied to every character.
pub open spec fn norm_all(s: Seq<char>) -> Seq<char> {
    s.map_values(|c: char| norm_char(c))
}

/// The length of the leading run of non-`_` characters.
pub open spec fn seg_len(s: Seq<char>) -> nat
    decreases s.len(),
{
    if s.len() > 0 && s[0] != '_' {
        1 + seg_len(s.drop_first())
    } else {
        0
    }
}

/// The maximal non-`_` segments of `s`, in order, empty ones dropped.
pub open spec fn segments_of(s: Seq<char>) -> Seq<Seq<char>>
    decreases s.len(),
    via segments_of_decreases
{
    if s.len() == 0 {
        Seq::empty()
    } else if s[0] == '_' {
        segments_of(s.drop_first())
    } else {
        seq![s.take(seg_len(s) as int)] + segments_of(s.skip(seg_len(s) as int))
    }
}

#[via_fn]
proof fn segments_of_decreases(s: Seq<char>) {
    if s.len() > 0 && s[0] != '_' {
        lemma_seg_len_le(s);
        assert(seg_len(s) >= 1);
    }
}

/// The leading segment never reaches past the end.
proof fn lemma_seg_len_le(s: Seq<char>)
    ensures
        seg_len(s) <= s.len(),
    decreases s.len(),
{
    if s.len() > 0 && s[0] != '_' {
        lemma_seg_len_le(s.drop_first());
    }
}

/// The segments joined with a single `_` between neighbours.
pub open spec fn join_us(segs: Seq<Seq<char>>) -> Seq<char>
    decreases segs.len(),
{
    if segs.len() == 0 {
        Seq::empty()
    } else if segs.len() == 1 {
        segs[0]
    } else {
        segs[0] + seq!['_'] + join_us(segs.drop_first())
    }
}

/// What `sanitize` returns, as a function of the input characters.
pub open spec fn sanitize_spec(s: Seq<char>) -> Seq<char> {
    join_us(segments_of(norm_all(s)))
}

/// A canonical identifier: empty, or matching `^[a-z0-9]+(_[a-z0-9]+)*$`.
pub open spec fn is_canonical(s: Seq<char>) -> bool {
    &&& forall|i: int| 0 <= i < s.len() ==> is_lower_alnum(#[trigger] s[i]) || s[i] == '_'
    &&& s.len() > 0 ==> s[0] != '_' && s[s.len() - 1] != '_'
    &&& forall|i: int| 0 <= i && i + 1 < s.len() ==> !(#[trigger] s[i] == '_' && s[i + 1] == '_')
}

/// `norm_char` as executable code.
fn norm_char_exec(c: char) -> (r: char)
    ensures
        r == norm_char(c),
{
    if ('a' <= c && c <= 'z') || ('0' <= c && c <= '9') {
        c
    } else if 'A' <= c && c <= 'Z' {
        if c == 'A' { 'a' } else if c == 'B' { 'b' } else if c == 'C' { 'c' }
        else if c == 'D' { 'd' } else if c == 'E' { 'e' } else if c == 'F' { 'f' }
        else if c == 'G' { 'g' } else if c == 'H' { 'h' } else if c == 'I' { 'i' }
        else if c == 'J' { 'j' } else if c == 'K' { 'k' } else if c == 'L' { 'l' }
        else if c == 'M' { 'm' } else if c == 'N' { 'n' } else if c == 'O' { 'o' }
        else if c == 'P' { 'p' } else if c == 'Q' { 'q' } else if c == 'R' { 'r' }
        else if c == 'S' { 's' } else if c == 'T' { 't' } else if c == 'U' { 'u' }
        else if c == 'V' { 'v' } else if c == 'W' { 'w' } else if c == 'X' { 'x' }
        else if c == 'Y' { 'y' } else { 'z' }
    } else {
        '_'
    }
}

/// A scan that sees `m` non-`_` characters and then a boundary has found the
/// leading segment length.
proof fn lemma_seg_len_scan(s: Seq<char>, m: int)
    requires
        0 <= m <= s.len(),
        forall|k: int| 0 <= k < m ==> #[trigger] s[k] != '_',
        m == s.len() || s[m] == '_',
    ensures
        seg_len(s) == m,
    decreases m,
{
    if m == 0 {
    } else {
        lemma_seg_len_scan(s.drop_first(), m - 1);
    }
}

/// Skipping a `_` does not change the segment list.
proof fn lemma_segments_skip_sep(s: Seq<char>, i: int)
    requires
        0 <= i < s.len(),
        s[i] == '_',
    ensures
        segments_of(s.skip(i)) == segments_of(s.skip(i + 1)),
{
    assert(s.skip(i).drop_first() =~= s.skip(i + 1));
}

/// A maximal non-`_` stretch is the head of the segment list of its suffix.
proof fn lemma_segments_take_seg(s: Seq<char>, i: int, k: int)
    requires
        0 <= i < k <= s.len(),
        forall|j: int| i <= j < k ==> #[trigger] s[j] != '_',
        k == s.len() || s[k] == '_',
    ensures
        segments_of(s.skip(i)) == seq![s.subrange(i, k)] + segments_of(s.skip(k)),
{
    let u = s.skip(i);
    assert(forall|j: int| 0 <= j < k - i ==> #[trigger] u[j] != '_');
    lemma_seg_len_scan(u, k - i);
    assert(u.take(k - i) =~= s.subrange(i, k));
    assert(u.skip(k - i) =~= s.skip(k));
}

/// Joining a head segment onto the join of the rest.
proof fn lemma_join_cons(seg: Seq<char>, segs: Seq<Seq<char>>)
    ensures
        segs.len() == 0 ==> join_us(seq![seg] + segs) == seg,
        segs.len() > 0 ==> join_us(seq![seg] + segs) == seg + seq!['_'] + join_us(segs),
{
    let all = seq![seg] + segs;
    assert(all[0] == seg);
    if segs.len() == 0 {
        assert(all.len() == 1);
    } else {
        assert(all.drop_first() =~= segs);
    }
}

/// A segment fit for joining: nonempty, all lowercase alphanumerics.
pub open spec fn good_seg(seg: Seq<char>) -> bool {
    seg.len() > 0 && forall|j: int| 0 <= j < seg.len() ==> is_lower_alnum(#[trigger] seg[j])
}

/// Every segment of the list is fit for joining.
pub open spec fn good_segs(segs: Seq<Seq<char>>) -> bool {
    forall|i: int| 0 <= i < segs.len() ==> good_seg(#[trigger] segs[i])
}

/// The characters inside the leading segment are not `_`, and the character
/// after it, if any, is `_`.
proof fn lemma_seg_len_bounds(s: Seq<char>)
    ensures
        seg_len(s) <= s.len(),
        forall|k: int| 0 <= k < seg_len(s) ==> #[trigger] s[k] != '_',
        seg_len(s) < s.len() ==> s[seg_len(s) as int] == '_',
    decreases s.len(),
{
    if s.len() > 0 && s[0] != '_' {
        lemma_seg_len_bounds(s.drop_first());
        assert forall|k: int| 0 <= k < seg_len(s) implies #[trigger] s[k] != '_' by {
            if k > 0 {
                assert(s.drop_first()[k - 1] != '_');
            }
        }
    }
}

/// Splitting a string over the sanitized alphabet yields segments fit for
/// joining.
proof fn lemma_segments_good(u: Seq<char>)
    requires
        forall|k: int| 0 <= k < u.len() ==> is_lower_alnum(#[trigger] u[k]) || u[k] == '_',
    ensures
        good_segs(segments_of(u)),
    decreases u.len(),
{
    if u.len() == 0 {
    } else if u[0] == '_' {
        lemma_segments_good(u.drop_first());
    } else {
        let m = seg_len(u) as int;
        lemma_seg_len_bounds(u);
        let head = u.take(m);
        assert(good_seg(head)) by {
            assert(forall|j: int| 0 <= j < m ==> #[trigger] head[j] == u[j] && u[j] != '_');
        }
        lemma_segments_good(u.skip(m));
        let segs = segments_of(u);
        assert(segs == seq![head] + segments_of(u.skip(m)));
        assert forall|i: int| 0 <= i < segs.len() implies good_seg(#[trigger] segs[i]) by {
            if i == 0 {
                assert(segs[i] == head);
            } else {
                assert(segs[i] == segments_of(u.skip(m))[i - 1]);
            }
        }
    }
}

/// Joining segments fit for joining yields a canonical identifier, whose
/// first character is the first character of the first segment.
proof fn lemma_join_canonical(segs: Seq<Seq<char>>)
    requires
        good_segs(segs),
    ensures
        is_canonical(join_us(segs)),
        segs.len() > 0 ==> join_us(segs).len() > 0 && join_us(segs)[0] == segs[0][0],
    decreases segs.len(),
{
    if segs.len() == 0 {
    } else if segs.len() == 1 {
        assert(good_seg(segs[0]));
    } else {
        assert(good_seg(segs[0]));
        assert(good_segs(segs.drop_first())) by {
            assert(forall|i: int|
                0 <= i < segs.drop_first().len() ==> #[trigger] segs.drop_first()[i]
                    == segs[i + 1]);
        }
        lemma_join_canonical(segs.drop_first());
        let a = segs[0];
        let b = join_us(segs.drop_first());
        let w = a + seq!['_'] + b;
        assert(join_us(segs) == w);
        assert forall|i: int| 0 <= i < w.len() implies is_lower_alnum(#[trigger] w[i]) || w[i]
            == '_' by {
            if i < a.len() {
                assert(w[i] == a[i]);
            } else if i == a.len() {
                assert(w[i] == '_');
            } else {
                assert(w[i] == b[i - a.len() - 1]);
            }
        }
        assert(w[0] == a[0]);
        assert(w[w.len() - 1] == b[b.len() - 1]);
        assert forall|i: int| 0 <= i && i + 1 < w.len() implies !(#[trigger] w[i] == '_' && w[i
            + 1] == '_') by {
            if i + 1 < a.len() {
                assert(w[i] == a[i]);
            } else if i + 1 == a.len() {
                assert(w[i] == a[i]);
            } else if i == a.len() {
                assert(w[i + 1] == b[0] && b[0] == segs.drop_first()[0][0]);
            } else {
                assert(w[i] == b[i - a.len() - 1] && w[i + 1] == b[i - a.len()]);
            }
        }
    }
}

/// A canonical identifier splits into segments whose join restores it.
proof fn lemma_join_segments_id(u: Seq<char>)
    requires
        is_canonical(u),
    ensures
        join_us(segments_of(u)) == u,
    decreases u.len(),
{
    if u.len() == 0 {
    } else {
        let m = seg_len(u) as int;
        lemma_seg_len_bounds(u);
        if m == u.len() {
            assert(segments_of(u) == seq![u.take(m)] + segments_of(u.skip(m)));
            assert(u.skip(m) =~= Seq::<char>::empty());
            lemma_join_cons(u.take(m), segments_of(u.skip(m)));
            assert(u.take(m) =~= u);
        } else {
            assert(u[m] == '_');
            assert(m + 1 < u.len());
            let v = u.skip(m + 1);
            assert(is_canonical(v)) by {
                assert(forall|k: int| 0 <= k < v.len() ==> #[trigger] v[k] == u[k + m + 1]);
                assert(v[0] == u[m + 1]);
                assert(v.len() > 0);
                assert(v[v.len() - 1] == u[u.len() - 1]);
            }
            assert(v.len() > 0 && v[0] != '_');
            lemma_join_segments_id(v);
            lemma_segments_skip_sep(u, m);
            assert(u.skip(0) =~= u);
            assert(segments_of(u) == seq![u.take(m)] + segments_of(u.skip(m)));
            assert(segments_of(v).len() >= 1);
            assert(join_us(segments_of(v)) == v);
            lemma_join_cons(u.take(m), segments_of(v));
            assert(join_us(segments_of(u)) == u.take(m) + seq!['_'] + v);
            assert(u.take(m) + seq!['_'] + v =~= u);
        }
    }
}

/// Law: sanitizing is idempotent, and its result is empty or matches
/// `^[a-z0-9]+(_[a-z0-9]+)*$`.
pub proof fn lemma_sanitize_idempotent(s: Seq<char>)
    ensures
        is_canonical(sanitize_spec(s)),
        sanitize_spec(sanitize_spec(s)) == sanitize_spec(s),
{
    let u = norm_all(s);
    assert(forall|k: int| 0 <= k < u.len() ==> is_lower_alnum(#[trigger] u[k]) || u[k] == '_');
    lemma_segments_good(u);
    lemma_join_canonical(segments_of(u));
    let r = sanitize_spec(s);
    assert(norm_all(r) =~= r) by {
        assert(forall|k: int|
            0 <= k < r.len() ==> #[trigger] norm_all(r)[k] == norm_char(r[k]) && norm_char(r[k])
                == r[k]);
    }
    lemma_join_segments_id(r);
}

/// Maps arbitrary text to a canonical identifier: lowercase, non-alphanumeric
/// characters replaced by `_`, empty segments dropped.
pub fn sanitize(s: &str) -> (r: String)
    ensures
        r@ == sanitize_spec(s@),
{
    let cs = crate::chars::chars_of(s);
    let n = cs.len();
    let mut mapped: Vec<char> = Vec::new();
    let mut i: usize = 0;
    while i < n
        invariant
            i <= n,
            n == cs@.len(),
            mapped@ == norm_all(cs@.take(i as int)),
        decreases n - i,
    {
        mapped.push(norm_char_exec(cs[i]));
        proof {
            assert(mapped@ =~= norm_all(cs@.take(i + 1)));
        }
        i = i + 1;
    }
    proof {
        assert(cs@.take(n as int) =~= cs@);
    }
    let ghost u = mapped@;
    proof {
        assert(u == norm_all(s@));
    }

    let mut out: Vec<char> = Vec::new();
    proof {
        assert(u.skip(0) =~= u);
    }
    let mut i: usize = 0;
    while i < n
        invariant
            i <= n,
            n == u.len(),
            mapped@ == u,
            out@.len() == 0 ==> join_us(segments_of(u)) == join_us(segments_of(u.skip(i as int))),
            out@.len() > 0 ==> join_us(segments_of(u)) == out@ + (
                if segments_of(u.skip(i as int)).len() == 0 {
                    Seq::<char>::empty()
                } else {
                    seq!['_'] + join_us(segments_of(u.skip(i as int)))
                }),
        decreases n - i,
    {
        if mapped[i] == '_' {
            proof {
                lemma_segments_skip_sep(u, i as int);
            }
            i = i + 1;
        } else {
            let mut k: usize = i;
            while k < n
                invariant
                    i <= k <= n,
                    n == u.len(),
                    mapped@ == u,
                    forall|j: int| i <= j < k ==> #[trigger] u[j] != '_',
                ensures
                    i <= k <= n,
                    forall|j: int| i <= j < k ==> #[trigger] u[j] != '_',
                    k == n || u[k as int] == '_',
                decreases n - k,
            {
                if mapped[k] == '_' {
                    break;
                }
                k = k + 1;
            }
            proof {
                lemma_segments_take_seg(u, i as int, k as int);
                lemma_join_cons(u.subrange(i as int, k as int), segments_of(u.skip(k as int)));
            }
            if out.len() > 0 {
                out.push('_');
            }
            let ghost out_before = out@;
            let mut j: usize = i;
            while j < k
                invariant
                    i <= j <= k <= n,
                    n == u.len(),
                    mapped@ == u,
                    out@ == out_before + u.subrange(i as int, j as int),
                decreases k - j,
            {
                out.push(mapped[j]);
                proof {
                    assert(out@ =~= out_before + u.subrange(i as int, j + 1));
                }
                j = j + 1;
            }
            i = k;
        }
    }
    proof {
        assert(u.skip(n as int) =~= Seq::<char>::empty());
        if out@.len() > 0 {
            assert(out@ + Seq::<char>::empty() =~= out@);
        }
        assert(join_us(segments_of(u)) == out@);
    }
    crate::chars::string_from_chars(out.as_slice())
}

} // verus!
