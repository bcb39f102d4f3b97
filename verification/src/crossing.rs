//! Snapping an edit point to the nearest zero crossing. Which frames are tried, in which
//! order, and which source frames each try compares are decided here; whether two samples
//! straddle zero depends on the sample values, which the caller tests.
use vstd::prelude::*;
use crate::edit::EditList;
use crate::region::min_int;

verus! {

pub open spec fn sat_sub(a: int, b: int) -> int {
    if a >= b { a - b } else { 0 }
}

/// The `i`-th frame tried: for the distance `d = i / 2`, first the frame `d` before
/// `edit_frame` (not before the top), then the frame `d` after it (not past the last frame).
pub open spec fn candidate_at(edit_frame: int, total_frames: int, i: int) -> int {
    if i % 2 == 0 {
        sat_sub(edit_frame, i / 2)
    } else {
        min_int(edit_frame + i / 2, sat_sub(total_frames, 1))
    }
}

/// The source frames that a try at edit frame `c` compares: that of the frame before it
/// (or of `c` itself at the top) and that of `c`; none unless both play source audio.
pub open spec fn probe_at<G>(el: EditList<G>, c: int) -> Option<(usize, usize)> {
    match (el.spec_resolve(sat_sub(c, 1)), el.spec_resolve(c)) {
        (Some(prev), Some(here)) => Some((prev.source_frame, here.source_frame)),
        _ => None,
    }
}

/// The candidate frames, nearest first, for each distance below `search_radius`.
pub fn zero_crossing_candidates(edit_frame: usize, search_radius: usize, total_frames: usize) -> (r: Vec<usize>)
    requires
        edit_frame + search_radius <= usize::MAX,
        2 * search_radius <= usize::MAX,
    ensures
        r@.len() == 2 * search_radius,
        forall|i: int| 0 <= i < r@.len() ==> #[trigger] r@[i] == candidate_at(
            edit_frame as int,
            total_frames as int,
            i,
        ),
{
    let mut out: Vec<usize> = Vec::new();
    let last = if total_frames >= 1 { total_frames - 1 } else { 0 };
    let mut delta: usize = 0;
    while delta < search_radius
        invariant
            delta <= search_radius,
            edit_frame + search_radius <= usize::MAX,
            2 * search_radius <= usize::MAX,
            last == sat_sub(total_frames as int, 1),
            out@.len() == 2 * delta,
            forall|i: int| 0 <= i < out@.len() ==> #[trigger] out@[i] == candidate_at(
                edit_frame as int,
                total_frames as int,
                i,
            ),
        decreases search_radius - delta,
    {
        let before = if edit_frame >= delta { edit_frame - delta } else { 0 };
        let ahead = edit_frame + delta;
        let after = if ahead <= last { ahead } else { last };
        let ghost prev = out@;
        out.push(before);
        out.push(after);
        proof {
            assert forall|i: int| 0 <= i < out@.len() implies #[trigger] out@[i] == candidate_at(
                edit_frame as int,
                total_frames as int,
                i,
            ) by {
                if i < 2 * delta {
                    assert(out@[i] == prev[i]);
                } else if i == 2 * delta {
                    assert(i % 2 == 0 && i / 2 == delta);
                } else {
                    assert(i % 2 == 1 && i / 2 == delta);
                }
            }
        }
        delta += 1;
    }
    out
}

/// Each candidate frame with the source frames that its try compares.
pub fn crossing_probes<G: Copy>(edit_list: &EditList<G>, edit_frame: usize, search_radius: usize) -> (r: Vec<
    (usize, Option<(usize, usize)>),
>)
    requires
        edit_list.wf(),
        edit_frame + search_radius <= usize::MAX,
        2 * search_radius <= usize::MAX,
    ensures
        r@.len() == 2 * search_radius,
        forall|i: int| 0 <= i < r@.len() ==> {
            let c = candidate_at(edit_frame as int, edit_list.spec_total() as int, i);
            &&& (#[trigger] r@[i]).0 == c
            &&& r@[i].1 == probe_at(*edit_list, c)
        },
{
    let total = edit_list.total_frames();
    let candidates = zero_crossing_candidates(edit_frame, search_radius, total);
    let mut out: Vec<(usize, Option<(usize, usize)>)> = Vec::new();
    let mut k: usize = 0;
    while k < candidates.len()
        invariant
            edit_list.wf(),
            total == edit_list.spec_total(),
            candidates@.len() == 2 * search_radius,
            forall|i: int| 0 <= i < candidates@.len() ==> #[trigger] candidates@[i] == candidate_at(
                edit_frame as int,
                total as int,
                i,
            ),
            k <= candidates@.len(),
            out@.len() == k,
            forall|i: int| 0 <= i < k ==> {
                let c = candidate_at(edit_frame as int, total as int, i);
                &&& (#[trigger] out@[i]).0 == c
                &&& out@[i].1 == probe_at(*edit_list, c)
            },
        decreases candidates@.len() - k,
    {
        let c = candidates[k];
        let before = if c >= 1 { c - 1 } else { 0 };
        let probe = match (edit_list.resolve(before), edit_list.resolve(c)) {
            (Some(prev), Some(here)) => Some((prev.source_frame, here.source_frame)),
            _ => None,
        };
        out.push((c, probe));
        k += 1;
    }
    out
}

/// `i` is the first index whose flag is set.
pub open spec fn is_first_set(flags: Seq<bool>, i: int) -> bool {
    &&& 0 <= i < flags.len()
    &&& flags[i]
    &&& forall|j: int| 0 <= j < i ==> !#[trigger] flags[j]
}

/// The candidate of the first try that `crossing` marks as a zero crossing; `fallback`
/// when none is.
pub fn first_crossing(probes: &Vec<(usize, Option<(usize, usize)>)>, crossing: &Vec<bool>, fallback: usize) -> (r: usize)
    requires
        probes@.len() == crossing@.len(),
    ensures
        forall|i: int| is_first_set(crossing@, i) ==> r == probes@[i].0,
        (forall|i: int| 0 <= i < crossing@.len() ==> !#[trigger] crossing@[i]) ==> r == fallback,
{
    let mut k: usize = 0;
    while k < crossing.len()
        invariant
            probes@.len() == crossing@.len(),
            k <= crossing@.len(),
            forall|j: int| 0 <= j < k ==> !#[trigger] crossing@[j],
        decreases crossing@.len() - k,
    {
        if crossing[k] {
            proof {
                assert forall|i: int| is_first_set(crossing@, i) implies i == k by {
                    if i < k {
                        assert(!crossing@[i]);
                    } else if i > k {
                        assert(!crossing@[k as int]);
                    }
                }
            }
            return probes[k].0;
        }
        k += 1;
    }
    fallback
}

} // verus!
