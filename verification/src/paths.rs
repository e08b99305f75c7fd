//! Deriving the cargo target directory from a build script's output
//! directory, given as a list of path components.

use vstd::prelude::*;

verus! {

/// Whether the components end with `.../(debug|release)/build/<hash>/out`,
/// the shape a build script's output directory always has.
pub open spec fn out_dir_shape(comps: Seq<Seq<char>>) -> bool {
    &&& comps.len() >= 4
    &&& comps[comps.len() - 1] == "out"@
    &&& comps[comps.len() - 3] == "build"@
    &&& (comps[comps.len() - 4] == "debug"@ || comps[comps.len() - 4] == "release"@)
}

/// The views of a component list.
pub open spec fn comps_view(comps: Seq<String>) -> Seq<Seq<char>> {
    Seq::new(comps.len(), |i: int| comps[i]@)
}

/// Whether the components, after the four fixed trailing ones, also end
/// with the target triple, so that it too must be stripped.
pub open spec fn has_triple(comps: Seq<Seq<char>>, triple: Seq<char>) -> bool {
    comps.len() >= 5 && comps[comps.len() - 5] == triple
}

/// Whether the characters of `a` spell exactly the string `b`.
fn str_eq(a: &str, b: &str) -> (r: bool)
    ensures
        r == (a@ == b@),
{
    let ac = crate::chars::chars_of(a);
    crate::chars::chars_eq_str(ac.as_slice(), b)
}

/// Derives the target directory from a build script's output directory.
/// The output directory ends in `(debug|release)/build/<hash>/out`, with
/// the target triple one component earlier when the build was made for an
/// explicit target; those components are stripped, and the second result
/// says whether the triple was among them.
pub fn target_dir_from_out_dir(out_dir: &Vec<String>, target_triple: &str) -> (r: (
    Vec<String>,
    bool,
))
    requires
        out_dir_shape(comps_view(out_dir@)),
    ensures
        ({
            let comps = comps_view(out_dir@);
            let strip = has_triple(comps, target_triple@);
            &&& r.1 == strip
            &&& comps_view(r.0@) == comps.take(
                comps.len() - (if strip {
                    5int
                } else {
                    4int
                }),
            )
        }),
{
    let n = out_dir.len();
    let strip = n >= 5 && str_eq(out_dir[n - 5].as_str(), target_triple);
    let keep = if strip {
        n - 5
    } else {
        n - 4
    };
    let mut r: Vec<String> = Vec::new();
    let mut i: usize = 0;
    while i < keep
        invariant
            i <= keep <= n,
            n == out_dir@.len(),
            comps_view(r@) == comps_view(out_dir@).take(i as int),
        decreases keep - i,
    {
        let elem = out_dir[i].clone();
        proof {
            assert(elem@ == out_dir@[i as int]@);
        }
        let ghost r_before = r@;
        proof {
            assert(comps_view(r_before).len() == r_before.len());
            assert(r_before.len() == i);
        }
        r.push(elem);
        proof {
            assert(r@ == r_before.push(elem));
            assert forall|k: int| 0 <= k < i + 1 implies comps_view(r@)[k] == comps_view(
                out_dir@,
            ).take(i + 1)[k] by {
                if k < i {
                    assert(comps_view(r_before)[k] == comps_view(out_dir@).take(i as int)[k]);
                    assert(r@[k] == r_before[k]);
                } else {
                    assert(r@[k] == elem);
                }
            }
            assert(comps_view(r@) =~= comps_view(out_dir@).take(i + 1));
        }
        i = i + 1;
    }
    (r, strip)
}

} // verus!
