//! Header merging.
//!
//! A request's headers are the per-call overlay merged over the client's
//! defaults: on a name collision the overlay wins, otherwise both sides are
//! preserved, defaults first. Duplicate names within either side are allowed
//! and kept.

use vstd::prelude::*;

use crate::urls::str_eq;

verus! {

/// Some header in `hs` carries this name.
pub open spec fn has_name(hs: Seq<(Seq<char>, Seq<char>)>, name: Seq<char>) -> bool {
    exists|k: int| 0 <= k < hs.len() && (#[trigger] hs[k]).0 == name
}

/// Keep a default header exactly when the overlay does not name it.
pub open spec fn keeps(overlay: Seq<(Seq<char>, Seq<char>)>) -> spec_fn(
    (Seq<char>, Seq<char>),
) -> bool {
    |h: (Seq<char>, Seq<char>)| !has_name(overlay, h.0)
}

/// The merged header sequence: the defaults whose names the overlay does not
/// override, in order, followed by the whole overlay.
pub open spec fn merged_headers(
    defaults: Seq<(Seq<char>, Seq<char>)>,
    overlay: Seq<(Seq<char>, Seq<char>)>,
) -> Seq<(Seq<char>, Seq<char>)> {
    defaults.filter(keeps(overlay)) + overlay
}

/// Whether any header in `hs` carries `name`.
pub fn contains_name(hs: &Vec<(String, String)>, name: &str) -> (r: bool)
    ensures
        r == has_name(hs.deep_view(), name@),
{
    let mut k: usize = 0;
    while k < hs.len()
        invariant
            k <= hs@.len(),
            forall|j: int| 0 <= j < k ==> (#[trigger] hs.deep_view()[j]).0 != name@,
        decreases hs@.len() - k,
    {
        if str_eq(hs[k].0.as_str(), name) {
            proof {
                assert((hs.deep_view()[k as int]).0 == name@);
            }
            return true;
        }
        k = k + 1;
    }
    false
}

/// Merge a per-call overlay over the client defaults: overlay wins on name
/// collision, everything else is preserved.
pub fn merge_headers(defaults: &Vec<(String, String)>, overlay: &Vec<(String, String)>) -> (r: Vec<
    (String, String),
>)
    ensures
        r.deep_view() == merged_headers(defaults.deep_view(), overlay.deep_view()),
{
    let ghost d = defaults.deep_view();
    let ghost o = overlay.deep_view();
    let mut out: Vec<(String, String)> = Vec::new();
    let mut i: usize = 0;
    proof {
        reveal(Seq::filter);
        assert(d.take(0) =~= Seq::<(Seq<char>, Seq<char>)>::empty());
        assert(out.deep_view() =~= d.take(0).filter(keeps(o)));
    }
    while i < defaults.len()
        invariant
            i <= d.len(),
            d == defaults.deep_view(),
            o == overlay.deep_view(),
            out.deep_view() == d.take(i as int).filter(keeps(o)),
        decreases d.len() - i,
    {
        let h = &defaults[i];
        let named = contains_name(overlay, h.0.as_str());
        proof {
            reveal(Seq::filter);
            assert(d.take(i as int + 1).drop_last() =~= d.take(i as int));
            assert(d.take(i as int + 1).last() == d[i as int]);
            assert(d[i as int] == (h.0@, h.1@));
        }
        if !named {
            let ghost before = out.deep_view();
            out.push((h.0.clone(), h.1.clone()));
            proof {
                assert(out.deep_view() =~= before.push((h.0@, h.1@)));
            }
        }
        i = i + 1;
    }
    proof {
        assert(d.take(d.len() as int) =~= d);
    }
    let mut j: usize = 0;
    while j < overlay.len()
        invariant
            j <= o.len(),
            o == overlay.deep_view(),
            out.deep_view() == d.filter(keeps(o)) + o.take(j as int),
        decreases o.len() - j,
    {
        let h = &overlay[j];
        let ghost before = out.deep_view();
        out.push((h.0.clone(), h.1.clone()));
        proof {
            assert(o[j as int] == (h.0@, h.1@));
            assert(out.deep_view() =~= before.push((h.0@, h.1@)));
            assert(before.push(o[j as int]) =~= d.filter(keeps(o)) + o.take(j as int + 1));
        }
        j = j + 1;
    }
    proof {
        assert(o.take(o.len() as int) =~= o);
    }
    out
}

} // verus!
