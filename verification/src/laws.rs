//! What holds of the edit operations together, stated over the frames they play.
use vstd::prelude::*;
use crate::region::{Frame, Region, RegionKind, FadeCurve, FadePoint, lemma_slice, min_int, max_int};
use crate::timeline::{
    frames_of, remove_range, keep_range, clip, gap_frames, lemma_single, lemma_resolve_frames,
    all_wf, total_len, ripple_cut, ripple_piece, boundary_index, fades_at, splice_fade_len, resolve_in,
    lemma_take_step, lemma_take_all, lemma_frames_len, lemma_ripple_cut, lemma_boundary_index_range,
    lemma_resolve_locate, insert_cut, insert_piece, insert_regions, lemma_concat,
};
use crate::edit::{EditList, reversed_frames, ripple_regions, inserted_regions};

verus! {

/// Every sourced frame of `f` plays a source frame below `n`.
pub open spec fn sources_within<G>(f: Seq<Frame<G>>, n: nat) -> bool {
    forall|i: int| 0 <= i < f.len() ==> match #[trigger] f[i] {
        Frame::Sourced { source_frame, .. } => source_frame < n,
        Frame::Silent => true,
    }
}

/// `f` with `ins` put in at frame `p` (clamped to `f`).
pub open spec fn spliced<A>(f: Seq<A>, p: int, ins: Seq<A>) -> Seq<A> {
    f.take(clip(p, f.len() as int)) + ins + f.skip(clip(p, f.len() as int))
}

/// Resolving a frame reads what the timeline plays there: `None` exactly for silence and
/// for frames past the end, and otherwise the frame's source position, gain and offset.
pub proof fn law_resolve_matches_frames<G>(el: EditList<G>, i: int)
    requires
        0 <= i,
    ensures
        el.spec_resolve(i) is None <==> (i >= el.spec_total() || el.frames()[i] is Silent),
        el.spec_resolve(i) matches Some(r) ==> el.frames()[i] == (Frame::Sourced {
            source_frame: r.source_frame,
            gain: r.gain,
            dc_offset: r.dc_offset,
        }),
{
    lemma_resolve_frames(el.region_seq(), el.spec_fades(), i);
}

/// A fresh edit list plays the source frames `0..n` in order, at the gain and offset it
/// was made with.
pub proof fn law_fresh_list_plays_source<G>(n: usize, unity_gain: G, zero_offset: G)
    ensures
        ({
            let r = Region {
                kind: RegionKind::Source { source_start: 0, source_end: n },
                gain: unity_gain,
                dc_offset: zero_offset,
                fade_in: 0,
                fade_out: 0,
                fade_in_curve: FadeCurve::Linear,
                fade_out_curve: FadeCurve::Linear,
            };
            &&& frames_of(seq![r]).len() == n
            &&& forall|i: int| 0 <= i < n ==> #[trigger] frames_of(seq![r])[i] == (Frame::Sourced {
                source_frame: i as usize,
                gain: unity_gain,
                dc_offset: zero_offset,
            })
            &&& sources_within(frames_of(seq![r]), n as nat)
        }),
{
    let r = Region {
        kind: RegionKind::Source { source_start: 0, source_end: n },
        gain: unity_gain,
        dc_offset: zero_offset,
        fade_in: 0,
        fade_out: 0,
        fade_in_curve: FadeCurve::Linear,
        fade_out_curve: FadeCurve::Linear,
    };
    lemma_single(r);
}

/// Reversing the same range twice gives the timeline back unchanged.
pub proof fn law_reverse_twice<A>(f: Seq<A>, s: int, e: int)
    requires
        0 <= s < e,
    ensures
        reversed_frames(reversed_frames(f, s, e), s, e) == f,
{
    let g = reversed_frames(f, s, e);
    assert(g.len() == f.len());
    let a = clip(s, f.len() as int);
    let b = clip(e, f.len() as int);
    assert(g.subrange(a, b) =~= f.subrange(a, b).reverse());
    assert(g.subrange(a, b).reverse() =~= f.subrange(a, b));
    assert(reversed_frames(g, s, e) =~= f);
}

/// Reversing a range keeps the timeline's length and plays, at each frame of the range,
/// the frame mirrored about the range's middle.
pub proof fn law_reverse_mirrors<A>(f: Seq<A>, s: int, e: int, i: int)
    requires
        0 <= s < e <= f.len(),
        s <= i < e,
    ensures
        reversed_frames(f, s, e).len() == f.len(),
        reversed_frames(f, s, e)[i] == f[s + e - 1 - i],
{
}

/// Cutting a range and pasting it back at the cut point restores the timeline.
pub proof fn law_cut_then_paste_restores<A>(f: Seq<A>, s: int, e: int)
    requires
        0 <= s <= e,
    ensures
        spliced(remove_range(f, s, e), s, keep_range(f, s, e)) == f,
{
    let a = clip(s, f.len() as int);
    let b = clip(e, f.len() as int);
    let f1 = remove_range(f, s, e);
    assert(f1.len() == f.len() - (b - a));
    assert(clip(s, f1.len() as int) == a);
    assert(spliced(f1, s, keep_range(f, s, e)) =~= f);
}

/// Gap delete inside the timeline keeps its length, silences the range and leaves every
/// other frame where it was.
pub proof fn law_gap_delete_keeps_length<G>(f: Seq<Frame<G>>, s: int, e: int)
    requires
        0 <= s < e <= f.len(),
    ensures
        gap_frames(f, s, e).len() == f.len(),
        forall|i: int| 0 <= i < f.len() && !(s <= i < e) ==> #[trigger] gap_frames(f, s, e)[i] == f[i],
        forall|i: int| s <= i < e ==> #[trigger] gap_frames(f, s, e)[i] is Silent,
{
}

/// After a ripple delete of `s..e`, a marker moved as the editor moves it still points at
/// the same frame: one after the cut moves back by the cut's length, one before it stays.
pub proof fn law_ripple_marker_keeps_frame<A>(f: Seq<A>, s: int, e: int, p: int)
    requires
        0 <= s < e <= f.len(),
        0 <= p < f.len(),
        !(s <= p < e),
    ensures
        remove_range(f, s, e)[if p >= e { p - (e - s) } else { p }] == f[p],
{
}

/// Edits never make the timeline play audio outside the source: ripple delete, crop, gap
/// delete and reverse keep every sourced frame below `n`, and so does pasting frames that
/// keep it.
pub proof fn law_edits_stay_in_source<G>(f: Seq<Frame<G>>, n: nat, s: int, e: int, p: int, ins: Seq<Frame<G>>)
    requires
        sources_within(f, n),
        sources_within(ins, n),
        0 <= s < e,
    ensures
        sources_within(remove_range(f, s, e), n),
        sources_within(keep_range(f, s, e), n),
        sources_within(gap_frames(f, s, e), n),
        sources_within(reversed_frames(f, s, e), n),
        sources_within(spliced(f, p, ins), n),
{
    let a = clip(s, f.len() as int);
    let b = clip(e, f.len() as int);
    assert forall|i: int| 0 <= i < remove_range(f, s, e).len() implies match #[trigger] remove_range(f, s, e)[i] {
        Frame::Sourced { source_frame, .. } => source_frame < n,
        Frame::Silent => true,
    } by {
        if i < a {
            assert(remove_range(f, s, e)[i] == f[i]);
        } else {
            assert(remove_range(f, s, e)[i] == f[i - a + b]);
        }
    }
    assert forall|i: int| 0 <= i < keep_range(f, s, e).len() implies match #[trigger] keep_range(f, s, e)[i] {
        Frame::Sourced { source_frame, .. } => source_frame < n,
        Frame::Silent => true,
    } by {
        assert(keep_range(f, s, e)[i] == f[i + a]);
    }
    assert forall|i: int| 0 <= i < gap_frames(f, s, e).len() implies match #[trigger] gap_frames(f, s, e)[i] {
        Frame::Sourced { source_frame, .. } => source_frame < n,
        Frame::Silent => true,
    } by {
        if s < f.len() {
            if i < s {
                assert(gap_frames(f, s, e)[i] == f[i]);
            } else if i < e {
                assert(gap_frames(f, s, e)[i] is Silent);
            } else {
                assert(gap_frames(f, s, e)[i] == f[i - e + b]);
            }
        }
    }
    assert forall|i: int| 0 <= i < reversed_frames(f, s, e).len() implies match #[trigger] reversed_frames(f, s, e)[i] {
        Frame::Sourced { source_frame, .. } => source_frame < n,
        Frame::Silent => true,
    } by {
        if i < a {
            assert(reversed_frames(f, s, e)[i] == f[i]);
        } else if i < b {
            assert(reversed_frames(f, s, e)[i] == f[a + b - 1 - i]);
        } else {
            assert(reversed_frames(f, s, e)[i] == f[i]);
        }
    }
    let c = clip(p, f.len() as int);
    assert forall|i: int| 0 <= i < spliced(f, p, ins).len() implies match #[trigger] spliced(f, p, ins)[i] {
        Frame::Sourced { source_frame, .. } => source_frame < n,
        Frame::Silent => true,
    } by {
        if i < c {
            assert(spliced(f, p, ins)[i] == f[i]);
        } else if i < c + ins.len() {
            assert(spliced(f, p, ins)[i] == ins[i - c]);
        } else {
            assert(spliced(f, p, ins)[i] == f[i - ins.len()]);
        }
    }
}

/// Every region plays at least one frame.
pub open spec fn all_nonempty<G>(rs: Seq<Region<G>>) -> bool {
    forall|i: int| 0 <= i < rs.len() ==> #[trigger] rs[i].spec_len() > 0
}

proof fn lemma_boundary_total<G>(rs: Seq<Region<G>>, f: int)
    ensures
        boundary_index(rs, f) matches Some(i) ==> total_len(rs.take(i)) == f,
    decreases rs.len(),
{
    if rs.len() >= 2 {
        let d = rs.drop_last();
        lemma_boundary_total(d, f);
        match boundary_index(d, f) {
            Some(i) => {
                lemma_boundary_index_range(d, f);
                assert(d.take(i) =~= rs.take(i));
            },
            None => {
                assert(rs.take(rs.len() - 1) =~= d);
            },
        }
    }
}

proof fn lemma_prefix_strict<G>(rs: Seq<Region<G>>, i: int, j: int)
    requires
        all_nonempty(rs),
        0 <= i < j <= rs.len(),
    ensures
        total_len(rs.take(i)) < total_len(rs.take(j)),
    decreases j - i,
{
    lemma_take_step(rs, j - 1);
    assert(rs[j - 1].spec_len() > 0);
    if i < j - 1 {
        lemma_prefix_strict(rs, i, j - 1);
    }
}

/// With no empty region, the regions meeting at `f` are found at the one prefix that
/// ends there.
proof fn lemma_boundary_found<G>(rs: Seq<Region<G>>, f: int, k: int)
    requires
        all_nonempty(rs),
        1 <= k < rs.len(),
        total_len(rs.take(k)) == f,
    ensures
        boundary_index(rs, f) == Some(k),
    decreases rs.len(),
{
    let d = rs.drop_last();
    assert(all_nonempty(d)) by {
        assert forall|i: int| 0 <= i < d.len() implies #[trigger] d[i].spec_len() > 0 by {
            assert(d[i] == rs[i]);
        }
    }
    if k < rs.len() - 1 {
        assert(d.take(k) =~= rs.take(k));
        lemma_boundary_found(d, f, k);
    } else {
        lemma_boundary_total(d, f);
        lemma_boundary_index_range(d, f);
        match boundary_index(d, f) {
            Some(i) => {
                assert(d.take(i) =~= rs.take(i));
                lemma_prefix_strict(rs, i, k);
            },
            None => {},
        }
        assert(rs.take(k) =~= d);
    }
}

proof fn lemma_cut_before<G>(rs: Seq<Region<G>>, s: int, e: int)
    requires
        total_len(rs) <= s <= e,
    ensures
        ripple_cut(rs, s, e) == rs,
    decreases rs.len(),
{
    if rs.len() > 0 {
        let d = rs.drop_last();
        lemma_cut_before(d, s, e);
        assert(d + seq![rs.last()] =~= rs);
    }
}

proof fn lemma_cut_nonempty<G>(rs: Seq<Region<G>>, s: int, e: int)
    requires
        all_wf(rs),
        all_nonempty(rs),
        0 <= s <= e,
    ensures
        all_nonempty(ripple_cut(rs, s, e)),
    decreases rs.len(),
{
    if rs.len() > 0 {
        let d = rs.drop_last();
        assert(all_wf(d) && all_nonempty(d)) by {
            assert forall|i: int| 0 <= i < d.len() implies #[trigger] d[i].spec_len() > 0 && d[i].wf() by {
                assert(d[i] == rs[i]);
            }
        }
        lemma_cut_nonempty(d, s, e);
        let r = rs.last();
        assert(r == rs[rs.len() - 1]);
        let a = total_len(d) as int;
        let len = r.spec_len() as int;
        let os = max_int(s, a);
        let oe = min_int(e, a + len);
        let p = ripple_piece(r, a, s, e);
        if os < oe {
            if os - a > 0 {
                lemma_slice(r, 0, os - a);
            }
            if a + len - oe > 0 {
                lemma_slice(r, oe - a, len);
            }
        }
        assert(all_nonempty(p));
        let c = ripple_cut(d, s, e);
        assert forall|i: int| 0 <= i < (c + p).len() implies #[trigger] (c + p)[i].spec_len() > 0 by {
            if i < c.len() {
                assert((c + p)[i] == c[i]);
            } else {
                assert((c + p)[i] == p[i - c.len()]);
            }
        }
    }
}

/// A cut inside the timeline leaves a prefix of regions that ends exactly where the cut
/// began.
proof fn lemma_cut_splice<G>(rs: Seq<Region<G>>, s: int, e: int)
    requires
        all_wf(rs),
        all_nonempty(rs),
        0 < s < e,
        s <= total_len(rs),
    ensures
        exists|k: int| 1 <= k <= ripple_cut(rs, s, e).len() && total_len(#[trigger] ripple_cut(rs, s, e).take(k)) == s,
    decreases rs.len(),
{
    let d = rs.drop_last();
    assert(all_wf(d) && all_nonempty(d)) by {
        assert forall|i: int| 0 <= i < d.len() implies #[trigger] d[i].spec_len() > 0 && d[i].wf() by {
            assert(d[i] == rs[i]);
        }
    }
    let r = rs.last();
    assert(r == rs[rs.len() - 1]);
    let a = total_len(d) as int;
    let len = r.spec_len() as int;
    let c = ripple_cut(d, s, e);
    let p = ripple_piece(r, a, s, e);
    assert(ripple_cut(rs, s, e) == c + p);
    if a >= s {
        lemma_cut_splice(d, s, e);
        let k = choose|k: int| 1 <= k <= c.len() && total_len(#[trigger] c.take(k)) == s;
        assert((c + p).take(k) =~= c.take(k));
        assert(1 <= k <= (c + p).len() && total_len((c + p).take(k)) == s);
    } else {
        lemma_cut_before(d, s, e);
        let k: int = d.len() as int + 1;
        let os = max_int(s, a);
        let oe = min_int(e, a + len);
        if a + len == s {
            assert(p == seq![r]);
            assert((c + p).take(k) =~= rs);
        } else {
            lemma_slice(r, 0, s - a);
            assert(p[0] == r.spec_slice(0, s - a));
            assert((c + p).take(k) =~= d.push(r.spec_slice(0, s - a)));
            assert(d.push(r.spec_slice(0, s - a)).drop_last() =~= d);
        }
        assert(1 <= k <= (c + p).len() && total_len((c + p).take(k)) == s);
    }
}

proof fn lemma_total_same_lengths<G>(a: Seq<Region<G>>, b: Seq<Region<G>>)
    requires
        a.len() == b.len(),
        forall|i: int| 0 <= i < a.len() ==> #[trigger] a[i].spec_len() == b[i].spec_len(),
    ensures
        total_len(a) == total_len(b),
    decreases a.len(),
{
    if a.len() > 0 {
        lemma_total_same_lengths(a.drop_last(), b.drop_last());
        assert(a.last().spec_len() == b.last().spec_len()) by {
            assert(a.last() == a[a.len() - 1]);
            assert(b.last() == b[b.len() - 1]);
        }
    }
}

/// A ripple delete strictly inside the timeline leaves a splice at the cut point: the
/// region ending there fades out, and the region starting there fades in, each over at
/// most 128 frames and at most half its length. With fades enabled, the first frame after
/// the splice and the last frame before it sit at position 0 of those envelopes (where
/// they are silent), so the splice makes no click. The returned `k` is the index of the
/// region that starts at the cut.
pub proof fn law_ripple_delete_fades_splice<G>(rs: Seq<Region<G>>, fades: bool, s: int, e: int) -> (k: int)
    requires
        all_wf(rs),
        all_nonempty(rs),
        0 < s < e < total_len(rs),
    ensures
        ({
            let out = ripple_regions(rs, s, e, true);
            &&& 1 <= k < out.len()
            &&& total_len(out.take(k)) == s
            &&& out[k - 1].fade_out == splice_fade_len(out[k - 1].spec_len())
            &&& out[k].fade_in == splice_fade_len(out[k].spec_len())
            &&& fades && !out[k].is_silence() && out[k].spec_len() >= 2 ==> (resolve_in(out, fades, s) matches Some(rf)
                && rf.fade_in == Some(FadePoint { curve: out[k].fade_in_curve, position: 0, length: out[k].fade_in }))
            &&& fades && !out[k - 1].is_silence() && out[k - 1].spec_len() >= 2 ==> (resolve_in(out, fades, s - 1) matches Some(rf)
                && rf.fade_out == Some(FadePoint { curve: out[k - 1].fade_out_curve, position: 0, length: out[k - 1].fade_out }))
        }),
{
    let c = ripple_cut(rs, s, e);
    lemma_ripple_cut(rs, s, e);
    lemma_cut_nonempty(rs, s, e);
    lemma_cut_splice(rs, s, e);
    let k = choose|k: int| 1 <= k <= c.len() && total_len(#[trigger] c.take(k)) == s;
    lemma_frames_len(c);
    lemma_frames_len(rs);
    if k == c.len() {
        lemma_take_all(c);
        assert(false);
    }
    lemma_boundary_found(c, s, k);
    let out = fades_at(c, s);
    assert(out == ripple_regions(rs, s, e, true));
    assert(out.len() == c.len());
    assert forall|i: int| 0 <= i < out.len() implies #[trigger] out[i].spec_len() == c[i].spec_len() && out[i].kind == c[i].kind by {
    }
    assert(total_len(out.take(k)) == s) by {
        lemma_total_same_lengths(out.take(k), c.take(k));
    }
    assert(out[k] == c[k].with_fade_in(splice_fade_len(c[k].spec_len())));
    assert(out[k - 1] == c[k - 1].with_fade_out(splice_fade_len(c[k - 1].spec_len())));
    lemma_take_step(out, k);
    lemma_take_step(out, k - 1);
    assert(c[k].spec_len() > 0 && c[k - 1].spec_len() > 0);
    lemma_resolve_locate(out, fades, s, k);
    lemma_resolve_locate(out, fades, s - 1, k - 1);
    k
}

proof fn lemma_resolve_no_fades<G>(rs: Seq<Region<G>>, i: int)
    ensures
        resolve_in(rs, false, i) matches Some(r) ==> r.fade_in is None && r.fade_out is None,
    decreases rs.len(),
{
    if rs.len() > 0 {
        lemma_resolve_no_fades(rs.drop_last(), i);
    }
}

/// With fades turned off, no frame of the timeline plays under a fade envelope: whatever
/// fade lengths the regions carry, every resolved frame has neither a fade-in nor a
/// fade-out point.
pub proof fn law_fades_off_no_envelope<G>(el: EditList<G>, i: int)
    requires
        !el.spec_fades(),
    ensures
        el.spec_resolve(i) matches Some(r) ==> r.fade_in is None && r.fade_out is None,
{
    lemma_resolve_no_fades(el.region_seq(), i);
}

proof fn lemma_nonempty_concat<G>(a: Seq<Region<G>>, b: Seq<Region<G>>)
    requires
        all_nonempty(a),
        all_nonempty(b),
    ensures
        all_nonempty(a + b),
{
    assert forall|i: int| 0 <= i < (a + b).len() implies #[trigger] (a + b)[i].spec_len() > 0 by {
        if i < a.len() {
            assert((a + b)[i] == a[i]);
        } else {
            assert((a + b)[i] == b[i - a.len()]);
        }
    }
}

proof fn lemma_insert_before<G>(rs: Seq<Region<G>>, p: int, ins: Seq<Region<G>>)
    requires
        total_len(rs) < p,
    ensures
        insert_cut(rs, p, ins) == rs,
    decreases rs.len(),
{
    if rs.len() > 0 {
        let d = rs.drop_last();
        lemma_insert_before(d, p, ins);
        assert(d + seq![rs.last()] =~= rs);
    }
}

/// Inserting at a frame inside the timeline puts the inserted regions, unchanged, between
/// a prefix that ends at that frame and the rest.
proof fn lemma_insert_split<G>(rs: Seq<Region<G>>, p: int, ins: Seq<Region<G>>) -> (ab: (Seq<Region<G>>, Seq<Region<G>>))
    requires
        all_wf(rs),
        all_nonempty(rs),
        all_nonempty(ins),
        0 < p <= total_len(rs),
    ensures
        insert_cut(rs, p, ins) == ab.0 + ins + ab.1,
        total_len(ab.0) == p,
        ab.0.len() >= 1,
        all_nonempty(ab.0),
        all_nonempty(ab.1),
        total_len(ab.1) == total_len(rs) - p,
    decreases rs.len(),
{
    let d = rs.drop_last();
    assert(all_wf(d) && all_nonempty(d)) by {
        assert forall|i: int| 0 <= i < d.len() implies #[trigger] d[i].spec_len() > 0 && d[i].wf() by {
            assert(d[i] == rs[i]);
        }
    }
    let r = rs.last();
    assert(r == rs[rs.len() - 1]);
    let a = total_len(d) as int;
    let len = r.spec_len() as int;
    let piece = insert_piece(r, a, rs.len() == 1, p, ins);
    assert(insert_cut(rs, p, ins) == insert_cut(d, p, ins) + piece);
    if p <= a {
        let (a0, b0) = lemma_insert_split(d, p, ins);
        assert(piece == seq![r]);
        let b1 = b0 + seq![r];
        assert(all_nonempty(seq![r]));
        lemma_nonempty_concat(b0, seq![r]);
        lemma_concat(b0, seq![r]);
        lemma_single(r);
        assert(a0 + ins + b0 + seq![r] =~= a0 + ins + b1);
        (a0, b1)
    } else {
        lemma_insert_before(d, p, ins);
        lemma_slice(r, 0, p - a);
        let left = r.spec_slice(0, p - a);
        let a1 = d.push(left);
        assert(a1.drop_last() =~= d);
        assert(all_nonempty(a1)) by {
            assert forall|i: int| 0 <= i < a1.len() implies #[trigger] a1[i].spec_len() > 0 by {
                if i < d.len() {
                    assert(a1[i] == d[i]);
                }
            }
        }
        assert(total_len(Seq::<Region<G>>::empty()) == 0);
        let b1: Seq<Region<G>> = if a + len - p > 0 {
            seq![r.spec_slice(p - a, len)]
        } else {
            Seq::empty()
        };
        if a + len - p > 0 {
            lemma_slice(r, p - a, len);
            lemma_single(r.spec_slice(p - a, len));
        }
        assert(all_nonempty(b1));
        assert(piece == seq![left] + ins + b1);
        assert(d + (seq![left] + ins + b1) =~= a1 + ins + b1);
        (a1, b1)
    }
}

/// Pasting regions strictly inside the timeline splices at both ends of the pasted audio:
/// the regions meeting at the insertion frame `p`, and those meeting at `p` plus the
/// pasted length, each carry a fade (out before the splice, in after it) of at most 128
/// frames and at most half the region's length. The pasted regions sit, in order and
/// with their kinds, between the two splices; with fades enabled, the frame just after
/// the far splice starts at position 0 of its fade-in. Returns the indices of the regions
/// that start at the two splices.
pub proof fn law_insert_fades_both_splices<G>(rs: Seq<Region<G>>, p: int, ins: Seq<Region<G>>, fades: bool) -> (k: (int, int))
    requires
        all_wf(rs),
        all_nonempty(rs),
        all_wf(ins),
        all_nonempty(ins),
        ins.len() > 0,
        0 < p < total_len(rs),
    ensures
        ({
            let out = inserted_regions(rs, p, ins, true);
            let end = p + total_len(ins);
            &&& 1 <= k.0 < k.1 < out.len()
            &&& k.1 == k.0 + ins.len()
            &&& total_len(out.take(k.0)) == p
            &&& total_len(out.take(k.1)) == end
            &&& forall|j: int| 0 <= j < ins.len() ==> (#[trigger] out[k.0 + j]).kind == ins[j].kind
            &&& out[k.0 - 1].fade_out == splice_fade_len(out[k.0 - 1].spec_len())
            &&& out[k.0].fade_in == splice_fade_len(out[k.0].spec_len())
            &&& out[k.1 - 1].fade_out == splice_fade_len(out[k.1 - 1].spec_len())
            &&& out[k.1].fade_in == splice_fade_len(out[k.1].spec_len())
            &&& fades && !out[k.1].is_silence() && out[k.1].spec_len() >= 2 ==> (resolve_in(out, fades, end) matches Some(rf)
                && rf.fade_in == Some(FadePoint { curve: out[k.1].fade_in_curve, position: 0, length: out[k.1].fade_in }))
        }),
{
    let (a, b) = lemma_insert_split(rs, p, ins);
    assert(rs.len() > 0);
    assert(insert_regions(rs, p, ins) =~= a + ins + b);
    let x = a + ins + b;
    let k0 = a.len() as int;
    let k1 = k0 + ins.len();
    lemma_concat(a, ins);
    lemma_concat(a + ins, b);
    assert(b.len() > 0) by {
        if b.len() == 0 {
            assert(total_len(b) == 0);
        }
    }
    assert(x.take(k0) =~= a);
    assert(x.take(k1) =~= a + ins);
    lemma_nonempty_concat(a, ins);
    lemma_nonempty_concat(a + ins, b);
    lemma_boundary_found(x, p, k0);
    let y = fades_at(x, p);
    assert(y.len() == x.len());
    assert forall|i: int| 0 <= i < y.len() implies #[trigger] y[i].spec_len() == x[i].spec_len() && y[i].kind == x[i].kind by {}
    assert(all_nonempty(y));
    assert(total_len(y.take(k1)) == p + total_len(ins)) by {
        lemma_total_same_lengths(y.take(k1), x.take(k1));
    }
    lemma_boundary_found(y, p + total_len(ins), k1);
    let out = fades_at(y, p + total_len(ins));
    assert(out == inserted_regions(rs, p, ins, true));
    assert forall|i: int| 0 <= i < out.len() implies #[trigger] out[i].spec_len() == x[i].spec_len() && out[i].kind == x[i].kind by {
        assert(y[i].spec_len() == x[i].spec_len());
    }
    assert(total_len(out.take(k0)) == p) by {
        lemma_total_same_lengths(out.take(k0), x.take(k0));
    }
    assert(total_len(out.take(k1)) == p + total_len(ins)) by {
        lemma_total_same_lengths(out.take(k1), x.take(k1));
    }
    assert forall|j: int| 0 <= j < ins.len() implies (#[trigger] out[k0 + j]).kind == ins[j].kind by {
        assert(x[k0 + j] == ins[j]);
        assert(out[k0 + j].kind == x[k0 + j].kind);
    }
    assert(out[k0 - 1].fade_out == splice_fade_len(out[k0 - 1].spec_len())) by {
        assert(y[k0 - 1].spec_len() == x[k0 - 1].spec_len());
        assert(out[k0 - 1].spec_len() == x[k0 - 1].spec_len());
    }
    assert(out[k0].fade_in == splice_fade_len(out[k0].spec_len())) by {
        assert(y[k0].spec_len() == x[k0].spec_len());
        assert(out[k0].spec_len() == x[k0].spec_len());
    }
    lemma_take_step(out, k1);
    assert(out[k1].spec_len() > 0) by {
        assert(x[k1].spec_len() > 0);
    }
    lemma_resolve_locate(out, fades, p + total_len(ins), k1);
    (k0, k1)
}

} // verus!
