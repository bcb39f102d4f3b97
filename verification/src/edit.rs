//! The edit list: a non-destructive description of the edited timeline as a sequence
//! of regions over the (unchanged) source audio.
use vstd::prelude::*;
use crate::region::{
    Region, RegionKind, ResolvedFrame, Frame, SourceSpan, FadePoint, split_region_prefix, split_region_suffix,
};
use crate::timeline::{
    all_wf, total_len, frames_of, remove_range, keep_range, clip, ripple_cut, extract_cut,
    gap_cut, gap_frames, silent_frames, insert_cut, insert_regions, fades_at, boundary_index,
    splice_fade_len, resolve_in, lemma_take_step, lemma_take_prefix, lemma_take_all,
    lemma_resolve_locate, lemma_frames_len, lemma_ripple_cut, lemma_extract_cut, lemma_gap_cut,
    lemma_insert_regions, lemma_fades_at, lemma_boundary_index_stable, lemma_boundary_index_range,
    lemma_all_wf_concat, lemma_concat, flip_all, lemma_flip_all, lemma_same_sound,
};

verus! {

/// The edited timeline: regions played one after the other.
#[derive(Clone, Debug)]
pub struct EditList<G> {
    regions: Vec<Region<G>>,
    pub fades_enabled: bool,
    unity_gain: G,
    zero_offset: G,
}

impl<G> EditList<G> {
    /// The regions, in playing order.
    pub closed spec fn region_seq(&self) -> Seq<Region<G>> {
        self.regions@
    }

    /// Whether fade envelopes are applied.
    pub closed spec fn spec_fades(&self) -> bool {
        self.fades_enabled
    }

    /// The gain given to regions that the list creates itself.
    pub closed spec fn spec_unity_gain(&self) -> G {
        self.unity_gain
    }

    /// The DC offset given to regions that the list creates itself.
    pub closed spec fn spec_zero_offset(&self) -> G {
        self.zero_offset
    }

    pub open spec fn wf(&self) -> bool {
        &&& all_wf(self.region_seq())
        &&& total_len(self.region_seq()) <= usize::MAX
    }

    /// The frames of the edited timeline.
    pub open spec fn frames(&self) -> Seq<Frame<G>> {
        frames_of(self.region_seq())
    }

    pub open spec fn spec_total(&self) -> nat {
        total_len(self.region_seq())
    }

    pub open spec fn spec_resolve(&self, edit_frame: int) -> Option<ResolvedFrame<G>> {
        resolve_in(self.region_seq(), self.spec_fades(), edit_frame)
    }

    /// Everything but the regions is unchanged from `other`.
    pub open spec fn same_settings(&self, other: &Self) -> bool {
        &&& self.spec_fades() == other.spec_fades()
        &&& self.spec_unity_gain() == other.spec_unity_gain()
        &&& self.spec_zero_offset() == other.spec_zero_offset()
    }
}

/// The regions after ripple-deleting `s..e`, with splice fades at `s` when `boundary`.
pub open spec fn ripple_regions<G>(rs: Seq<Region<G>>, s: int, e: int, boundary: bool) -> Seq<Region<G>> {
    if s < e {
        let cut = ripple_cut(rs, s, e);
        if boundary { crate::timeline::fades_at(cut, s) } else { cut }
    } else {
        rs
    }
}

/// The regions after inserting `ins` at frame `p`, with splice fades at both ends of the
/// insertion when `boundary`.
pub open spec fn inserted_regions<G>(rs: Seq<Region<G>>, p: int, ins: Seq<Region<G>>, boundary: bool) -> Seq<Region<G>> {
    if ins.len() == 0 {
        rs
    } else {
        let x = insert_regions(rs, p, ins);
        if boundary { fades_at(fades_at(x, p), p + total_len(ins)) } else { x }
    }
}

/// The regions after replacing the frames `s..e` with the silence `gap`.
pub open spec fn gapped_regions<G>(rs: Seq<Region<G>>, s: int, e: int, gap: Region<G>) -> Seq<Region<G>> {
    if s < e { gap_cut(rs, s, e, gap) } else { rs }
}

/// `f` with its frames `s..e` (clamped to `f`) in reverse order.
pub open spec fn reversed_frames<A>(f: Seq<A>, s: int, e: int) -> Seq<A> {
    let a = clip(s, f.len() as int);
    let b = clip(e, f.len() as int);
    f.take(a) + f.subrange(a, b).reverse() + f.skip(b)
}

/// The regions after reversing the frames `s..e`.
pub open spec fn reversed_regions<G>(rs: Seq<Region<G>>, s: int, e: int) -> Seq<Region<G>> {
    if s < e {
        let x = flip_all(extract_cut(rs, s, e));
        let y = inserted_regions(ripple_regions(rs, s, e, true), s, x, true);
        fades_at(fades_at(y, s), e)
    } else {
        rs
    }
}

/// `m` is `a` with every gain (when `on_gain`) or every DC offset (otherwise) replaced by
/// a value that `f` can return for it.
pub open spec fn levels_mapped<G, F: Fn(G) -> G>(a: Seq<Region<G>>, m: Seq<Region<G>>, f: F, on_gain: bool) -> bool {
    &&& a.len() == m.len()
    &&& forall|i: int| 0 <= i < a.len() ==> {
        &&& (#[trigger] m[i]).kind == a[i].kind
        &&& m[i].fade_in == a[i].fade_in
        &&& m[i].fade_out == a[i].fade_out
        &&& m[i].fade_in_curve == a[i].fade_in_curve
        &&& m[i].fade_out_curve == a[i].fade_out_curve
        &&& if on_gain {
            m[i].dc_offset == a[i].dc_offset && call_ensures(f, (a[i].gain,), m[i].gain)
        } else {
            m[i].gain == a[i].gain && call_ensures(f, (a[i].dc_offset,), m[i].dc_offset)
        }
    }
}

/// Frame `b` is frame `a` with its gain (or DC offset) replaced by a value that `f` can
/// return for it.
pub open spec fn frame_mapped<G, F: Fn(G) -> G>(a: Frame<G>, b: Frame<G>, f: F, on_gain: bool) -> bool {
    match a {
        Frame::Silent => b is Silent,
        Frame::Sourced { source_frame, gain, dc_offset } => match b {
            Frame::Silent => false,
            Frame::Sourced { source_frame: sf2, gain: g2, dc_offset: d2 } => {
                &&& sf2 == source_frame
                &&& if on_gain {
                    d2 == dc_offset && call_ensures(f, (gain,), g2)
                } else {
                    g2 == gain && call_ensures(f, (dc_offset,), d2)
                }
            },
        },
    }
}

pub proof fn lemma_levels_mapped<G, F: Fn(G) -> G>(a: Seq<Region<G>>, m: Seq<Region<G>>, f: F, on_gain: bool)
    requires
        all_wf(a),
        levels_mapped(a, m, f, on_gain),
    ensures
        all_wf(m),
        total_len(m) == total_len(a),
        frames_of(m).len() == frames_of(a).len(),
        forall|i: int| 0 <= i < frames_of(a).len() ==> frame_mapped(#[trigger] frames_of(a)[i], frames_of(m)[i], f, on_gain),
    decreases a.len(),
{
    lemma_frames_len(a);
    lemma_frames_len(m);
    assert forall|i: int| 0 <= i < m.len() implies #[trigger] m[i].wf() by {
        assert(a[i].wf());
    }
    if a.len() > 0 {
        let da = a.drop_last();
        let dm = m.drop_last();
        assert(all_wf(da));
        assert(levels_mapped(da, dm, f, on_gain)) by {
            assert forall|i: int| 0 <= i < da.len() implies (#[trigger] dm[i]).kind == da[i].kind by {
                assert(m[i].kind == a[i].kind);
            }
        }
        lemma_levels_mapped(da, dm, f, on_gain);
        lemma_frames_len(da);
        let ra = a.last();
        let rm = m.last();
        assert(rm.kind == ra.kind);
        assert forall|i: int| 0 <= i < frames_of(a).len() implies frame_mapped(#[trigger] frames_of(a)[i], frames_of(m)[i], f, on_gain) by {
            if i < frames_of(da).len() {
                assert(frames_of(a)[i] == frames_of(da)[i]);
                assert(frames_of(m)[i] == frames_of(dm)[i]);
            } else {
                let k = i - frames_of(da).len();
                assert(frames_of(a)[i] == ra.frames()[k]);
                assert(frames_of(m)[i] == rm.frames()[k]);
            }
        }
    }
}

/// `a` with the fade-in (when `fade_in`) or fade-out of every region set to `len` frames
/// (at most the region's length) with curve `curve`.
pub open spec fn faded_regions<G>(a: Seq<Region<G>>, len: int, curve: crate::region::FadeCurve, fade_in: bool) -> Seq<Region<G>> {
    Seq::new(a.len(), |i: int| {
        let n = crate::region::min_int(len, a[i].spec_len() as int) as usize;
        if fade_in {
            Region { fade_in: n, fade_in_curve: curve, ..a[i] }
        } else {
            Region { fade_out: n, fade_out_curve: curve, ..a[i] }
        }
    })
}

/// `rs` with a splice fade-in on region `start_idx` and a splice fade-out on region
/// `end_idx - 1`, the indices clamped to the regions.
pub open spec fn edge_fades<G>(rs: Seq<Region<G>>, start_idx: int, end_idx: int) -> Seq<Region<G>> {
    let e = crate::region::min_int(end_idx, rs.len() as int);
    let s = crate::region::min_int(start_idx, e);
    Seq::new(rs.len(), |i: int| {
        if s <= i < e {
            let r1 = if i == s { rs[i].with_fade_in(splice_fade_len(rs[i].spec_len())) } else { rs[i] };
            if i == e - 1 { r1.with_fade_out(splice_fade_len(rs[i].spec_len())) } else { r1 }
        } else {
            rs[i]
        }
    })
}

/// The span of source frames that region `r` (starting at frame `r_start`) contributes to
/// the edit range `s..e`, if it overlaps it and is not silence.
pub open spec fn span_piece<G>(r: Region<G>, r_start: int, s: int, e: int, fades: bool) -> Seq<SourceSpan<G>> {
    let len = r.spec_len() as int;
    let os = crate::region::max_int(s, r_start);
    let oe = crate::region::min_int(e, r_start + len);
    let a = os - r_start;
    let b = oe - r_start;
    let mid = (a + b) / 2;
    if os < oe {
        match r.kind {
            RegionKind::Source { source_start, .. } => seq![SourceSpan {
                source_start: (source_start + a) as usize,
                source_end: (source_start + b) as usize,
                gain: r.gain,
                fade_in: r.fade_in_at(mid, fades),
                fade_out: r.fade_out_at(mid, fades),
            }],
            RegionKind::Reversed { source_end, .. } => seq![SourceSpan {
                source_start: (source_end - b) as usize,
                source_end: (source_end - a) as usize,
                gain: r.gain,
                fade_in: r.fade_in_at(mid, fades),
                fade_out: r.fade_out_at(mid, fades),
            }],
            RegionKind::Silence { .. } => Seq::empty(),
        }
    } else {
        Seq::empty()
    }
}

/// The source spans that the edit range `s..e` covers, in order.
pub open spec fn spans_of<G>(rs: Seq<Region<G>>, s: int, e: int, fades: bool) -> Seq<SourceSpan<G>>
    decreases rs.len(),
{
    if rs.len() == 0 {
        Seq::empty()
    } else {
        spans_of(rs.drop_last(), s, e, fades) + span_piece(rs.last(), total_len(rs.drop_last()) as int, s, e, fades)
    }
}

/// The first region whose end is at or past frame `f`.
pub open spec fn first_reaching<G>(rs: Seq<Region<G>>, f: int) -> Option<int>
    decreases rs.len(),
{
    if rs.len() == 0 {
        None
    } else {
        match first_reaching(rs.drop_last(), f) {
            Some(i) => Some(i),
            None => if f <= total_len(rs) { Some(rs.len() - 1) } else { None },
        }
    }
}

/// The region that holds frame `f`; at the exact end of a region, the next one (or the
/// last region).
pub open spec fn region_index<G>(rs: Seq<Region<G>>, f: int) -> Option<int> {
    match first_reaching(rs, f) {
        Some(i) => Some(if f < total_len(rs.take(i + 1)) { i } else { crate::region::min_int(i + 1, rs.len() - 1) }),
        None => None,
    }
}

proof fn lemma_first_reaching_stable<G>(rs: Seq<Region<G>>, f: int, k: int, m: int)
    requires
        0 <= k <= m <= rs.len(),
        first_reaching(rs.take(k), f) is Some,
    ensures
        first_reaching(rs.take(m), f) == first_reaching(rs.take(k), f),
    decreases m - k,
{
    if m > k {
        lemma_first_reaching_stable(rs, f, k, m - 1);
        assert(rs.take(m).drop_last() =~= rs.take(m - 1));
    }
}

/// Total length of a slice of well-formed regions.
pub fn regions_len<G: Copy>(regions: &[Region<G>]) -> (n: usize)
    requires
        all_wf(regions@),
        total_len(regions@) <= usize::MAX,
    ensures
        n == total_len(regions@),
{
    let ghost rs = regions@;
    let mut sum: usize = 0;
    let mut i: usize = 0;
    while i < regions.len()
        invariant
            rs == regions@,
            all_wf(rs),
            total_len(rs) <= usize::MAX,
            i <= rs.len(),
            sum == total_len(rs.take(i as int)),
        decreases rs.len() - i,
    {
        proof {
            lemma_take_step(rs, i as int);
            lemma_take_prefix(rs, i as int + 1);
            assert(rs[i as int].wf());
        }
        sum = sum + regions[i].len();
        i += 1;
    }
    proof {
        lemma_take_all(rs);
    }
    sum
}

impl<G: Copy> EditList<G> {
    /// An edit list that plays the source frames `0..num_frames` once, unchanged.
    pub fn from_length(num_frames: usize, unity_gain: G, zero_offset: G) -> (el: Self)
        ensures
            el.wf(),
            el.region_seq() == seq![
                Region {
                    kind: RegionKind::Source { source_start: 0, source_end: num_frames },
                    gain: unity_gain,
                    dc_offset: zero_offset,
                    fade_in: 0,
                    fade_out: 0,
                    fade_in_curve: crate::region::FadeCurve::Linear,
                    fade_out_curve: crate::region::FadeCurve::Linear,
                },
            ],
            el.spec_fades(),
            el.spec_unity_gain() == unity_gain,
            el.spec_zero_offset() == zero_offset,
            el.spec_total() == num_frames,
    {
        let mut regions = Vec::new();
        regions.push(Region::source(0, num_frames, unity_gain, zero_offset));
        let el = EditList { regions, fades_enabled: true, unity_gain, zero_offset };
        proof {
            crate::timeline::lemma_single(el.regions@[0]);
            assert(el.regions@ =~= seq![el.regions@[0]]);
        }
        el
    }

    /// Number of frames of the edited timeline.
    pub fn total_frames(&self) -> (n: usize)
        requires
            self.wf(),
        ensures
            n == self.spec_total(),
    {
        let ghost rs = self.regions@;
        let mut sum: usize = 0;
        let mut i: usize = 0;
        while i < self.regions.len()
            invariant
                rs == self.regions@,
                all_wf(rs),
                total_len(rs) <= usize::MAX,
                i <= rs.len(),
                sum == total_len(rs.take(i as int)),
            decreases rs.len() - i,
        {
            proof {
                lemma_take_step(rs, i as int);
                lemma_take_prefix(rs, i as int + 1);
                assert(rs[i as int].wf());
            }
            sum = sum + self.regions[i].len();
            i += 1;
        }
        proof {
            lemma_take_all(rs);
        }
        sum
    }

    /// What the edited timeline plays at `edit_frame`: the source frame, the region's gain
    /// and DC offset and the fade envelope points; `None` for silence or past the end.
    pub fn resolve(&self, edit_frame: usize) -> (r: Option<ResolvedFrame<G>>)
        requires
            self.wf(),
        ensures
            r == self.spec_resolve(edit_frame as int),
    {
        let ghost rs = self.regions@;
        let mut offset: usize = 0;
        let mut i: usize = 0;
        while i < self.regions.len()
            invariant
                rs == self.regions@,
                all_wf(rs),
                total_len(rs) <= usize::MAX,
                i <= rs.len(),
                offset == total_len(rs.take(i as int)),
                offset <= edit_frame,
            decreases rs.len() - i,
        {
            proof {
                lemma_take_step(rs, i as int);
                lemma_take_prefix(rs, i as int + 1);
                assert(rs[i as int].wf());
            }
            let rlen = self.regions[i].len();
            if edit_frame < offset + rlen {
                proof {
                    lemma_resolve_locate(rs, self.fades_enabled, edit_frame as int, i as int);
                }
                return self.regions[i].resolve_frame(edit_frame - offset, self.fades_enabled);
            }
            offset = offset + rlen;
            i += 1;
        }
        proof {
            lemma_take_all(rs);
        }
        None
    }

    /// The regions left after taking the frames `start..end` out.
    fn ripple_cut_regions(&self, start: usize, end: usize) -> (out: Vec<Region<G>>)
        requires
            self.wf(),
            start <= end,
        ensures
            out@ == ripple_cut(self.region_seq(), start as int, end as int),
    {
        let ghost rs = self.regions@;
        let mut out: Vec<Region<G>> = Vec::new();
        let mut offset: usize = 0;
        let mut i: usize = 0;
        while i < self.regions.len()
            invariant
                rs == self.regions@,
                all_wf(rs),
                total_len(rs) <= usize::MAX,
                start <= end,
                i <= rs.len(),
                offset == total_len(rs.take(i as int)),
                out@ == ripple_cut(rs.take(i as int), start as int, end as int),
            decreases rs.len() - i,
        {
            proof {
                lemma_take_step(rs, i as int);
                lemma_take_prefix(rs, i as int + 1);
                assert(rs[i as int].wf());
                assert(rs.take(i as int + 1).drop_last() =~= rs.take(i as int));
            }
            let region = self.regions[i];
            let rlen = region.len();
            let r_start = offset;
            let r_end = offset + rlen;
            let overlap_start = if start > r_start { start } else { r_start };
            let overlap_end = if end < r_end { end } else { r_end };
            let ghost before = out@;
            if overlap_start < overlap_end {
                let pre_len = overlap_start - r_start;
                let post_len = r_end - overlap_end;
                if pre_len > 0 {
                    out.push(split_region_prefix(&region, pre_len));
                }
                let ghost mid = out@;
                if post_len > 0 {
                    out.push(split_region_suffix(&region, overlap_end - r_start, rlen));
                }
                proof {
                    assert(out@ =~= before + crate::timeline::ripple_piece(
                        region,
                        r_start as int,
                        start as int,
                        end as int,
                    ));
                }
            } else {
                out.push(region);
                proof {
                    assert(out@ =~= before + crate::timeline::ripple_piece(
                        region,
                        r_start as int,
                        start as int,
                        end as int,
                    ));
                }
            }
            offset = r_end;
            i += 1;
        }
        proof {
            lemma_take_all(rs);
        }
        out
    }

    /// Puts short splice fades on the two regions that meet at `edit_frame`.
    fn apply_boundary_fades_at(&mut self, edit_frame: usize)
        requires
            old(self).wf(),
        ensures
            final(self).wf(),
            final(self).same_settings(old(self)),
            final(self).region_seq() == fades_at(old(self).region_seq(), edit_frame as int),
            final(self).frames() == old(self).frames(),
    {
        let ghost rs = self.regions@;
        proof {
            lemma_fades_at(rs, edit_frame as int);
        }
        let mut offset: usize = 0;
        let mut i: usize = 0;
        while i < self.regions.len()
            invariant
                rs == self.regions@,
                all_wf(rs),
                total_len(rs) <= usize::MAX,
                i <= rs.len(),
                offset == total_len(rs.take(i as int)),
                boundary_index(rs.take(i as int), edit_frame as int) is None,
                self.same_settings(old(self)),
                rs == old(self).regions@,
            decreases rs.len() - i,
        {
            proof {
                lemma_take_step(rs, i as int);
                lemma_take_prefix(rs, i as int + 1);
                assert(rs[i as int].wf());
                assert(rs.take(i as int + 1).drop_last() =~= rs.take(i as int));
            }
            let rlen = self.regions[i].len();
            if offset == edit_frame && i > 0 {
                proof {
                    assert(boundary_index(rs.take(i as int + 1), edit_frame as int) == Some(i as int));
                    lemma_boundary_index_stable(rs, edit_frame as int, i as int + 1, rs.len() as int);
                    lemma_take_all(rs);
                    assert(rs[i as int - 1].wf());
                }
                let prev_len = self.regions[i - 1].len();
                let mut prev = self.regions[i - 1];
                prev.fade_out = if crate::region::DEFAULT_FADE_LEN < prev_len / 2 { crate::region::DEFAULT_FADE_LEN } else { prev_len / 2 };
                self.regions.set(i - 1, prev);
                let mut cur = self.regions[i];
                cur.fade_in = if crate::region::DEFAULT_FADE_LEN < rlen / 2 { crate::region::DEFAULT_FADE_LEN } else { rlen / 2 };
                self.regions.set(i, cur);
                proof {
                    assert(self.regions@ =~= fades_at(rs, edit_frame as int));
                    lemma_fades_at(rs, edit_frame as int);
                }
                return;
            }
            offset = offset + rlen;
            i += 1;
        }
        proof {
            lemma_take_all(rs);
        }
    }

    fn ripple_delete_inner(&mut self, start: usize, end: usize, apply_boundary: bool)
        requires
            old(self).wf(),
        ensures
            final(self).wf(),
            final(self).same_settings(old(self)),
            final(self).region_seq() == ripple_regions(old(self).region_seq(), start as int, end as int, apply_boundary),
            start < end ==> final(self).frames() == remove_range(old(self).frames(), start as int, end as int),
    {
        if start >= end {
            return;
        }
        let ghost rs = self.regions@;
        let out = self.ripple_cut_regions(start, end);
        proof {
            lemma_ripple_cut(rs, start as int, end as int);
            lemma_frames_len(rs);
            lemma_frames_len(out@);
        }
        self.regions = out;
        if apply_boundary {
            self.apply_boundary_fades_at(start);
        }
    }

    /// Removes the frames `start..end` and closes the gap; the regions that meet at `start`
    /// get short splice fades. Does nothing when `start >= end`.
    pub fn ripple_delete(&mut self, start: usize, end: usize)
        requires
            old(self).wf(),
        ensures
            final(self).wf(),
            final(self).same_settings(old(self)),
            final(self).region_seq() == ripple_regions(old(self).region_seq(), start as int, end as int, true),
            start < end ==> final(self).frames() == remove_range(old(self).frames(), start as int, end as int),
            start < end ==> final(self).spec_total() == old(self).spec_total()
                - (clip(end as int, old(self).spec_total() as int) - clip(start as int, old(self).spec_total() as int)),
    {
        self.ripple_delete_inner(start, end, true);
        proof {
            lemma_frames_len(self.regions@);
            lemma_frames_len(old(self).regions@);
        }
    }

    /// The regions that play the frames `start..end`.
    fn extract_cut_regions(&self, start: usize, end: usize) -> (out: Vec<Region<G>>)
        requires
            self.wf(),
            start <= end,
        ensures
            out@ == extract_cut(self.region_seq(), start as int, end as int),
    {
        let ghost rs = self.regions@;
        let mut out: Vec<Region<G>> = Vec::new();
        let mut offset: usize = 0;
        let mut i: usize = 0;
        while i < self.regions.len()
            invariant
                rs == self.regions@,
                all_wf(rs),
                total_len(rs) <= usize::MAX,
                start <= end,
                i <= rs.len(),
                offset == total_len(rs.take(i as int)),
                out@ == extract_cut(rs.take(i as int), start as int, end as int),
            decreases rs.len() - i,
        {
            proof {
                lemma_take_step(rs, i as int);
                lemma_take_prefix(rs, i as int + 1);
                assert(rs[i as int].wf());
                assert(rs.take(i as int + 1).drop_last() =~= rs.take(i as int));
            }
            let region = self.regions[i];
            let rlen = region.len();
            let r_start = offset;
            let r_end = offset + rlen;
            let overlap_start = if start > r_start { start } else { r_start };
            let overlap_end = if end < r_end { end } else { r_end };
            let ghost before = out@;
            if overlap_start < overlap_end {
                out.push(split_region_suffix(&region, overlap_start - r_start, overlap_end - r_start));
            }
            proof {
                assert(out@ =~= before + crate::timeline::extract_piece(
                    region,
                    r_start as int,
                    start as int,
                    end as int,
                ));
            }
            offset = r_end;
            i += 1;
        }
        proof {
            lemma_take_all(rs);
        }
        out
    }

    /// Keeps only the frames `start..end`; everything goes when `start >= end`.
    pub fn crop(&mut self, start: usize, end: usize)
        requires
            old(self).wf(),
        ensures
            final(self).wf(),
            final(self).same_settings(old(self)),
            final(self).region_seq() == if start < end {
                extract_cut(old(self).region_seq(), start as int, end as int)
            } else {
                Seq::empty()
            },
            final(self).frames() == if start < end {
                keep_range(old(self).frames(), start as int, end as int)
            } else {
                Seq::empty()
            },
    {
        if start >= end {
            self.regions.clear();
            proof {
                assert(self.regions@ =~= Seq::<Region<G>>::empty());
            }
            return;
        }
        let ghost rs = self.regions@;
        let out = self.extract_cut_regions(start, end);
        proof {
            lemma_extract_cut(rs, start as int, end as int);
            lemma_frames_len(rs);
            lemma_frames_len(out@);
        }
        self.regions = out;
    }

    /// The regions that play the frames `start..end` (none when `start >= end`).
    pub fn extract_regions(&self, start: usize, end: usize) -> (out: Vec<Region<G>>)
        requires
            self.wf(),
        ensures
            all_wf(out@),
            out@ == if start < end {
                extract_cut(self.region_seq(), start as int, end as int)
            } else {
                Seq::empty()
            },
            frames_of(out@) == if start < end {
                keep_range(self.frames(), start as int, end as int)
            } else {
                Seq::empty()
            },
            total_len(out@) <= self.spec_total(),
    {
        proof {
            lemma_frames_len(self.regions@);
        }
        if start >= end {
            let out = Vec::new();
            proof {
                assert(frames_of(out@) =~= Seq::<Frame<G>>::empty());
            }
            return out;
        }
        let out = self.extract_cut_regions(start, end);
        proof {
            lemma_extract_cut(self.regions@, start as int, end as int);
            lemma_frames_len(out@);
        }
        out
    }

    /// Replaces the frames `start..end` with silence, keeping the timeline's length; when
    /// `start` is past the end nothing changes. Does nothing when `start >= end`.
    pub fn gap_delete(&mut self, start: usize, end: usize)
        requires
            old(self).wf(),
        ensures
            final(self).wf(),
            final(self).same_settings(old(self)),
            final(self).region_seq() == gapped_regions(
                old(self).region_seq(),
                start as int,
                end as int,
                Region {
                    kind: RegionKind::Silence { len: (end - start) as usize },
                    gain: old(self).spec_unity_gain(),
                    dc_offset: old(self).spec_zero_offset(),
                    fade_in: 0,
                    fade_out: 0,
                    fade_in_curve: crate::region::FadeCurve::Linear,
                    fade_out_curve: crate::region::FadeCurve::Linear,
                },
            ),
            start < end ==> final(self).frames() == gap_frames(old(self).frames(), start as int, end as int),
    {
        if start >= end {
            return;
        }
        let ghost rs = self.regions@;
        let gap = Region::silence(end - start, self.unity_gain, self.zero_offset);
        proof {
            assert(gap.frames() =~= silent_frames::<G>(end - start));
        }
        let mut out: Vec<Region<G>> = Vec::new();
        let mut offset: usize = 0;
        let mut i: usize = 0;
        while i < self.regions.len()
            invariant
                rs == self.regions@,
                all_wf(rs),
                total_len(rs) <= usize::MAX,
                start < end,
                i <= rs.len(),
                offset == total_len(rs.take(i as int)),
                out@ == gap_cut(rs.take(i as int), start as int, end as int, gap),
            decreases rs.len() - i,
        {
            proof {
                lemma_take_step(rs, i as int);
                lemma_take_prefix(rs, i as int + 1);
                assert(rs[i as int].wf());
                assert(rs.take(i as int + 1).drop_last() =~= rs.take(i as int));
            }
            let region = self.regions[i];
            let rlen = region.len();
            let r_start = offset;
            let r_end = offset + rlen;
            let overlap_start = if start > r_start { start } else { r_start };
            let overlap_end = if end < r_end { end } else { r_end };
            let ghost before = out@;
            if overlap_start < overlap_end {
                let pre_len = overlap_start - r_start;
                let post_len = r_end - overlap_end;
                if pre_len > 0 {
                    out.push(split_region_prefix(&region, pre_len));
                }
                if start >= r_start {
                    out.push(gap);
                }
                if post_len > 0 {
                    out.push(split_region_suffix(&region, overlap_end - r_start, rlen));
                }
            } else {
                out.push(region);
            }
            proof {
                assert(out@ =~= before + crate::timeline::gap_piece(
                    region,
                    r_start as int,
                    start as int,
                    end as int,
                    gap,
                ));
            }
            offset = r_end;
            i += 1;
        }
        proof {
            lemma_take_all(rs);
            lemma_gap_cut(rs, start as int, end as int, gap);
            lemma_frames_len(rs);
            lemma_frames_len(out@);
        }
        self.regions = out;
    }

    fn insert_inner(&mut self, position: usize, regions: &[Region<G>], apply_boundary: bool)
        requires
            old(self).wf(),
            all_wf(regions@),
            old(self).spec_total() + total_len(regions@) <= usize::MAX,
            apply_boundary ==> position + total_len(regions@) <= usize::MAX,
        ensures
            final(self).wf(),
            final(self).same_settings(old(self)),
            final(self).region_seq() == inserted_regions(old(self).region_seq(), position as int, regions@, apply_boundary),
            final(self).frames() == old(self).frames().take(clip(position as int, old(self).spec_total() as int))
                + frames_of(regions@) + old(self).frames().skip(clip(position as int, old(self).spec_total() as int)),
            final(self).spec_total() == old(self).spec_total() + total_len(regions@),
    {
        let ghost rs = self.regions@;
        let ghost ins = regions@;
        proof {
            lemma_insert_regions(rs, position as int, ins);
            lemma_frames_len(rs);
            lemma_frames_len(ins);
            lemma_frames_len(insert_regions(rs, position as int, ins));
        }
        if regions.len() == 0 {
            proof {
                assert(frames_of(ins) =~= Seq::<Frame<G>>::empty());
                let f = frames_of(rs);
                let c = clip(position as int, total_len(rs) as int);
                assert(f.take(c) + frames_of(ins) + f.skip(c) =~= f);
            }
            return;
        }
        let insert_len = regions_len(regions);
        let mut new_regions: Vec<Region<G>> = Vec::new();
        let mut offset: usize = 0;
        let mut inserted = false;
        let mut i: usize = 0;
        while i < self.regions.len()
            invariant
                rs == self.regions@,
                ins == regions@,
                all_wf(rs),
                all_wf(ins),
                total_len(rs) <= usize::MAX,
                i <= rs.len(),
                offset == total_len(rs.take(i as int)),
                inserted == (i > 0 && position <= offset),
                new_regions@ == insert_cut(rs.take(i as int), position as int, ins),
            decreases rs.len() - i,
        {
            proof {
                lemma_take_step(rs, i as int);
                lemma_take_prefix(rs, i as int + 1);
                assert(rs[i as int].wf());
                assert(rs.take(i as int + 1).drop_last() =~= rs.take(i as int));
            }
            let region = self.regions[i];
            let rlen = region.len();
            let r_start = offset;
            let r_end = offset + rlen;
            let ghost before = new_regions@;
            if !inserted && position <= r_end && position >= r_start {
                let pre_len = position - r_start;
                let post_len = r_end - position;
                if pre_len > 0 {
                    new_regions.push(split_region_prefix(&region, pre_len));
                }
                let ghost with_pre = new_regions@;
                let mut j: usize = 0;
                while j < regions.len()
                    invariant
                        ins == regions@,
                        j <= ins.len(),
                        new_regions@ == with_pre + ins.take(j as int),
                    decreases ins.len() - j,
                {
                    new_regions.push(regions[j]);
                    proof {
                        assert(ins.take(j as int + 1) =~= ins.take(j as int).push(ins[j as int]));
                    }
                    j += 1;
                }
                proof {
                    assert(ins.take(ins.len() as int) =~= ins);
                }
                inserted = true;
                if post_len > 0 {
                    new_regions.push(split_region_suffix(&region, pre_len, rlen));
                }
            } else {
                new_regions.push(region);
            }
            proof {
                assert(new_regions@ =~= before + crate::timeline::insert_piece(
                    region,
                    r_start as int,
                    i == 0,
                    position as int,
                    ins,
                ));
            }
            offset = r_end;
            i += 1;
        }
        proof {
            lemma_take_all(rs);
        }
        if !inserted {
            let ghost before = new_regions@;
            let mut j: usize = 0;
            while j < regions.len()
                invariant
                    ins == regions@,
                    j <= ins.len(),
                    new_regions@ == before + ins.take(j as int),
                decreases ins.len() - j,
            {
                new_regions.push(regions[j]);
                proof {
                    assert(ins.take(j as int + 1) =~= ins.take(j as int).push(ins[j as int]));
                }
                j += 1;
            }
            proof {
                assert(ins.take(ins.len() as int) =~= ins);
            }
        }
        proof {
            assert(new_regions@ =~= insert_regions(rs, position as int, ins));
            let c = clip(position as int, total_len(rs) as int);
            assert((frames_of(rs).take(c) + frames_of(ins) + frames_of(rs).skip(c)).len() == total_len(rs) + total_len(ins));
        }
        self.regions = new_regions;
        if apply_boundary {
            self.apply_boundary_fades_at(position);
            self.apply_boundary_fades_at(position + insert_len);
        }
        proof {
            lemma_frames_len(self.regions@);
        }
    }

    /// Inserts `regions` at frame `position` (at the end when `position` is past it); the
    /// regions that meet at both ends of the insertion get short splice fades. Does nothing
    /// when `regions` is empty.
    pub fn insert(&mut self, position: usize, regions: &[Region<G>])
        requires
            old(self).wf(),
            all_wf(regions@),
            old(self).spec_total() + total_len(regions@) <= usize::MAX,
            position + total_len(regions@) <= usize::MAX,
        ensures
            final(self).wf(),
            final(self).same_settings(old(self)),
            final(self).region_seq() == inserted_regions(old(self).region_seq(), position as int, regions@, true),
            final(self).frames() == old(self).frames().take(clip(position as int, old(self).spec_total() as int))
                + frames_of(regions@) + old(self).frames().skip(clip(position as int, old(self).spec_total() as int)),
            final(self).spec_total() == old(self).spec_total() + total_len(regions@),
    {
        self.insert_inner(position, regions, true);
    }

    /// Plays the frames `start..end` backwards; the ends of the reversed stretch get short
    /// splice fades. Does nothing when `start >= end`.
    pub fn reverse_selection(&mut self, start: usize, end: usize)
        requires
            old(self).wf(),
        ensures
            final(self).wf(),
            final(self).same_settings(old(self)),
            final(self).region_seq() == reversed_regions(old(self).region_seq(), start as int, end as int),
            start < end ==> final(self).frames() == reversed_frames(old(self).frames(), start as int, end as int),
    {
        if start >= end {
            return;
        }
        let ghost rs = self.regions@;
        let ghost f = frames_of(rs);
        let extracted = self.extract_regions(start, end);
        let mut flipped: Vec<Region<G>> = Vec::new();
        let n = extracted.len();
        let mut j: usize = 0;
        while j < n
            invariant
                n == extracted@.len(),
                j <= n,
                flipped@ == flip_all(extracted@).take(j as int),
            decreases n - j,
        {
            let r = extracted[n - 1 - j];
            let kind = match r.kind {
                RegionKind::Source { source_start, source_end } => RegionKind::Reversed { source_start, source_end },
                RegionKind::Reversed { source_start, source_end } => RegionKind::Source { source_start, source_end },
                RegionKind::Silence { len } => RegionKind::Silence { len },
            };
            flipped.push(Region { kind, ..r });
            proof {
                assert(flip_all(extracted@).take(j as int + 1) =~= flip_all(extracted@).take(j as int).push(
                    extracted@[n - 1 - j].spec_flipped()));
            }
            j += 1;
        }
        proof {
            assert(flip_all(extracted@).take(n as int) =~= flip_all(extracted@));
            lemma_flip_all(extracted@);
            lemma_frames_len(extracted@);
            lemma_frames_len(rs);
        }
        self.ripple_delete(start, end);
        let ghost f1 = self.frames();
        proof {
            lemma_frames_len(self.regions@);
        }
        self.insert(start, flipped.as_slice());
        self.apply_boundary_fades_at(start);
        self.apply_boundary_fades_at(end);
        proof {
            let a = clip(start as int, f.len() as int);
            let b = clip(end as int, f.len() as int);
            let c = clip(start as int, f1.len() as int);
            assert(f1 == f.take(a) + f.skip(b));
            assert(self.frames() == f1.take(c) + f.subrange(a, b).reverse() + f1.skip(c));
            assert(self.frames() =~= f.take(a) + f.subrange(a, b).reverse() + f.skip(b));
        }
    }

    /// Replaces the gain of every region in `start..end` with what `gain_factor` gives for it. Does nothing when `start >= end`.
    #[verifier::rlimit(60)]
    pub fn set_gain_range<F: Fn(G) -> G>(&mut self, start: usize, end: usize, gain_factor: F)
        requires
            old(self).wf(),
            forall|g: G| gain_factor.requires((g,)),
        ensures
            final(self).wf(),
            final(self).same_settings(old(self)),
            start >= end ==> final(self).region_seq() == old(self).region_seq(),
            start < end ==> exists|m: Seq<Region<G>>|
                levels_mapped(extract_cut(old(self).region_seq(), start as int, end as int), m, gain_factor, true)
                && final(self).region_seq() == inserted_regions(
                    ripple_regions(old(self).region_seq(), start as int, end as int, true), start as int, m, true),
            final(self).frames().len() == old(self).frames().len(),
            forall|i: int| 0 <= i < old(self).frames().len() && !(start <= i < end)
                ==> #[trigger] final(self).frames()[i] == old(self).frames()[i],
            forall|i: int| 0 <= i < old(self).frames().len() && start <= i < end
                ==> frame_mapped(old(self).frames()[i], #[trigger] final(self).frames()[i], gain_factor, true),
    {
        if start >= end {
            return;
        }
        let ghost rs = self.regions@;
        let ghost f = frames_of(rs);
        let extracted = self.extract_regions(start, end);
        let mut mapped: Vec<Region<G>> = Vec::new();
        let n = extracted.len();
        let mut j: usize = 0;
        while j < n
            invariant
                n == extracted@.len(),
                j <= n,
                forall|g: G| gain_factor.requires((g,)),
                levels_mapped(extracted@.take(j as int), mapped@, gain_factor, true),
            decreases n - j,
        {
            let r = extracted[j];
            let v = gain_factor(r.gain);
            mapped.push(Region { gain: v, ..r });
            proof {
                let a = extracted@.take(j as int + 1);
                assert(a =~= extracted@.take(j as int).push(r));
                assert forall|i: int| 0 <= i < a.len() implies (#[trigger] mapped@[i]).kind == a[i].kind by {}
            }
            j += 1;
        }
        proof {
            assert(extracted@.take(n as int) =~= extracted@);
            lemma_levels_mapped(extracted@, mapped@, gain_factor, true);
            lemma_frames_len(extracted@);
            lemma_frames_len(rs);
        }
        self.ripple_delete(start, end);
        let ghost f1 = self.frames();
        proof {
            lemma_frames_len(self.regions@);
        }
        self.insert(start, mapped.as_slice());
        proof {
            lemma_frames_len(self.regions@);
            let a = clip(start as int, f.len() as int);
            let b = clip(end as int, f.len() as int);
            let c = clip(start as int, f1.len() as int);
            assert(f1 == f.take(a) + f.skip(b));
            let fm = frames_of(mapped@);
            let fe = frames_of(extracted@);
            assert(fe == f.subrange(a, b));
            assert(self.frames() == f1.take(c) + fm + f1.skip(c));
            assert(self.frames() =~= f.take(a) + fm + f.skip(b));
            assert forall|i: int| 0 <= i < f.len() && start <= i < end
                implies frame_mapped(f[i], #[trigger] self.frames()[i], gain_factor, true) by {
                assert(fe[i - a] == f[i]);
                assert(self.frames()[i] == fm[i - a]);
            }
        }
    }

    /// Replaces the DC offset of every region in `start..end` with what `offset_shift` gives for it. Does nothing when `start >= end`.
    #[verifier::rlimit(60)]
    pub fn set_dc_offset_range<F: Fn(G) -> G>(&mut self, start: usize, end: usize, offset_shift: F)
        requires
            old(self).wf(),
            forall|g: G| offset_shift.requires((g,)),
        ensures
            final(self).wf(),
            final(self).same_settings(old(self)),
            start >= end ==> final(self).region_seq() == old(self).region_seq(),
            start < end ==> exists|m: Seq<Region<G>>|
                levels_mapped(extract_cut(old(self).region_seq(), start as int, end as int), m, offset_shift, false)
                && final(self).region_seq() == inserted_regions(
                    ripple_regions(old(self).region_seq(), start as int, end as int, true), start as int, m, true),
            final(self).frames().len() == old(self).frames().len(),
            forall|i: int| 0 <= i < old(self).frames().len() && !(start <= i < end)
                ==> #[trigger] final(self).frames()[i] == old(self).frames()[i],
            forall|i: int| 0 <= i < old(self).frames().len() && start <= i < end
                ==> frame_mapped(old(self).frames()[i], #[trigger] final(self).frames()[i], offset_shift, false),
    {
        if start >= end {
            return;
        }
        let ghost rs = self.regions@;
        let ghost f = frames_of(rs);
        let extracted = self.extract_regions(start, end);
        let mut mapped: Vec<Region<G>> = Vec::new();
        let n = extracted.len();
        let mut j: usize = 0;
        while j < n
            invariant
                n == extracted@.len(),
                j <= n,
                forall|g: G| offset_shift.requires((g,)),
                levels_mapped(extracted@.take(j as int), mapped@, offset_shift, false),
            decreases n - j,
        {
            let r = extracted[j];
            let v = offset_shift(r.dc_offset);
            mapped.push(Region { dc_offset: v, ..r });
            proof {
                let a = extracted@.take(j as int + 1);
                assert(a =~= extracted@.take(j as int).push(r));
                assert forall|i: int| 0 <= i < a.len() implies (#[trigger] mapped@[i]).kind == a[i].kind by {}
            }
            j += 1;
        }
        proof {
            assert(extracted@.take(n as int) =~= extracted@);
            lemma_levels_mapped(extracted@, mapped@, offset_shift, false);
            lemma_frames_len(extracted@);
            lemma_frames_len(rs);
        }
        self.ripple_delete(start, end);
        let ghost f1 = self.frames();
        proof {
            lemma_frames_len(self.regions@);
        }
        self.insert(start, mapped.as_slice());
        proof {
            lemma_frames_len(self.regions@);
            let a = clip(start as int, f.len() as int);
            let b = clip(end as int, f.len() as int);
            let c = clip(start as int, f1.len() as int);
            assert(f1 == f.take(a) + f.skip(b));
            let fm = frames_of(mapped@);
            let fe = frames_of(extracted@);
            assert(fe == f.subrange(a, b));
            assert(self.frames() == f1.take(c) + fm + f1.skip(c));
            assert(self.frames() =~= f.take(a) + fm + f.skip(b));
            assert forall|i: int| 0 <= i < f.len() && start <= i < end
                implies frame_mapped(f[i], #[trigger] self.frames()[i], offset_shift, false) by {
                assert(fe[i - a] == f[i]);
                assert(self.frames()[i] == fm[i - a]);
            }
        }
    }

    /// Puts a fade-in with curve `curve` on every region in `start..end`, lasting `end - start` frames or the whole region if shorter. Does nothing when `start >= end`.
    #[verifier::rlimit(40)]
    pub fn apply_fade_in(&mut self, start: usize, end: usize, curve: crate::region::FadeCurve)
        requires
            old(self).wf(),
        ensures
            final(self).wf(),
            final(self).same_settings(old(self)),
            final(self).region_seq() == if start < end {
                inserted_regions(
                    ripple_regions(old(self).region_seq(), start as int, end as int, false),
                    start as int,
                    faded_regions(extract_cut(old(self).region_seq(), start as int, end as int), end - start, curve, true),
                    false,
                )
            } else {
                old(self).region_seq()
            },
            final(self).frames() == old(self).frames(),
    {
        if start >= end {
            return;
        }
        let ghost rs = self.regions@;
        let ghost f = frames_of(rs);
        let fade_len = end - start;
        let extracted = self.extract_regions(start, end);
        let ghost target = faded_regions(extracted@, end - start, curve, true);
        let mut faded: Vec<Region<G>> = Vec::new();
        let n = extracted.len();
        let mut j: usize = 0;
        while j < n
            invariant
                n == extracted@.len(),
                j <= n,
                all_wf(extracted@),
                fade_len == end - start,
                target == faded_regions(extracted@, end - start, curve, true),
                faded@ == target.take(j as int),
            decreases n - j,
        {
            let r = extracted[j];
            proof {
                assert(extracted@[j as int].wf());
            }
            let rlen = r.len();
            let len = if fade_len < rlen { fade_len } else { rlen };
            faded.push(Region { fade_in: len, fade_in_curve: curve, ..r });
            proof {
                assert(target.take(j as int + 1) =~= target.take(j as int).push(target[j as int]));
            }
            j += 1;
        }
        proof {
            assert(target.take(n as int) =~= target);
            assert forall|i: int| 0 <= i < extracted@.len() implies (#[trigger] extracted@[i]).kind == target[i].kind
                && extracted@[i].gain == target[i].gain && extracted@[i].dc_offset == target[i].dc_offset
                && target[i].wf() by {
                assert(extracted@[i].wf());
            }
            lemma_same_sound(extracted@, target);
            lemma_frames_len(extracted@);
            lemma_frames_len(rs);
        }
        self.ripple_delete_inner(start, end, false);
        let ghost f1 = self.frames();
        proof {
            lemma_frames_len(self.regions@);
        }
        self.insert_inner(start, faded.as_slice(), false);
        proof {
            let a = clip(start as int, f.len() as int);
            let b = clip(end as int, f.len() as int);
            let c = clip(start as int, f1.len() as int);
            assert(f1 == f.take(a) + f.skip(b));
            assert(frames_of(extracted@) == f.subrange(a, b));
            assert(self.frames() =~= f);
        }
    }

    /// Puts a fade-out with curve `curve` on every region in `start..end`, lasting `end - start` frames or the whole region if shorter. Does nothing when `start >= end`.
    #[verifier::rlimit(40)]
    pub fn apply_fade_out(&mut self, start: usize, end: usize, curve: crate::region::FadeCurve)
        requires
            old(self).wf(),
        ensures
            final(self).wf(),
            final(self).same_settings(old(self)),
            final(self).region_seq() == if start < end {
                inserted_regions(
                    ripple_regions(old(self).region_seq(), start as int, end as int, false),
                    start as int,
                    faded_regions(extract_cut(old(self).region_seq(), start as int, end as int), end - start, curve, false),
                    false,
                )
            } else {
                old(self).region_seq()
            },
            final(self).frames() == old(self).frames(),
    {
        if start >= end {
            return;
        }
        let ghost rs = self.regions@;
        let ghost f = frames_of(rs);
        let fade_len = end - start;
        let extracted = self.extract_regions(start, end);
        let ghost target = faded_regions(extracted@, end - start, curve, false);
        let mut faded: Vec<Region<G>> = Vec::new();
        let n = extracted.len();
        let mut j: usize = 0;
        while j < n
            invariant
                n == extracted@.len(),
                j <= n,
                all_wf(extracted@),
                fade_len == end - start,
                target == faded_regions(extracted@, end - start, curve, false),
                faded@ == target.take(j as int),
            decreases n - j,
        {
            let r = extracted[j];
            proof {
                assert(extracted@[j as int].wf());
            }
            let rlen = r.len();
            let len = if fade_len < rlen { fade_len } else { rlen };
            faded.push(Region { fade_out: len, fade_out_curve: curve, ..r });
            proof {
                assert(target.take(j as int + 1) =~= target.take(j as int).push(target[j as int]));
            }
            j += 1;
        }
        proof {
            assert(target.take(n as int) =~= target);
            assert forall|i: int| 0 <= i < extracted@.len() implies (#[trigger] extracted@[i]).kind == target[i].kind
                && extracted@[i].gain == target[i].gain && extracted@[i].dc_offset == target[i].dc_offset
                && target[i].wf() by {
                assert(extracted@[i].wf());
            }
            lemma_same_sound(extracted@, target);
            lemma_frames_len(extracted@);
            lemma_frames_len(rs);
        }
        self.ripple_delete_inner(start, end, false);
        let ghost f1 = self.frames();
        proof {
            lemma_frames_len(self.regions@);
        }
        self.insert_inner(start, faded.as_slice(), false);
        proof {
            let a = clip(start as int, f.len() as int);
            let b = clip(end as int, f.len() as int);
            let c = clip(start as int, f1.len() as int);
            assert(f1 == f.take(a) + f.skip(b));
            assert(frames_of(extracted@) == f.subrange(a, b));
            assert(self.frames() =~= f);
        }
    }

    /// Puts a splice fade-in on region `start_idx` and a splice fade-out on region
    /// `end_idx - 1`; the indices are clamped to the regions.
    pub fn apply_boundary_fades(&mut self, start_idx: usize, end_idx: usize)
        requires
            old(self).wf(),
        ensures
            final(self).wf(),
            final(self).same_settings(old(self)),
            final(self).region_seq() == edge_fades(old(self).region_seq(), start_idx as int, end_idx as int),
            final(self).frames() == old(self).frames(),
    {
        let ghost rs = self.regions@;
        let end_idx = if end_idx < self.regions.len() { end_idx } else { self.regions.len() };
        let start_idx = if start_idx < end_idx { start_idx } else { end_idx };
        let ghost target = edge_fades(rs, start_idx as int, end_idx as int);
        let mut i = start_idx;
        while i < end_idx
            invariant
                start_idx <= i <= end_idx <= rs.len(),
                all_wf(rs),
                self.regions@.len() == rs.len(),
                target == edge_fades(rs, start_idx as int, end_idx as int),
                forall|k: int| 0 <= k < rs.len() ==> #[trigger] self.regions@[k] == if k < i { target[k] } else { rs[k] },
                self.same_settings(old(self)),
                rs == old(self).regions@,
            decreases end_idx - i,
        {
            proof {
                assert(rs[i as int].wf());
                assert(self.regions@[i as int] == rs[i as int]);
            }
            let rlen = self.regions[i].len();
            let max_fade = rlen / 2;
            let len = if crate::region::DEFAULT_FADE_LEN < max_fade { crate::region::DEFAULT_FADE_LEN } else { max_fade };
            let mut r = self.regions[i];
            if i == start_idx {
                r.fade_in = len;
            }
            if i == end_idx - 1 {
                r.fade_out = len;
            }
            self.regions.set(i, r);
            i += 1;
        }
        proof {
            assert(self.regions@ =~= target);
            assert forall|k: int| 0 <= k < rs.len() implies (#[trigger] rs[k]).kind == target[k].kind
                && rs[k].gain == target[k].gain && rs[k].dc_offset == target[k].dc_offset && target[k].wf() by {
                assert(rs[k].wf());
            }
            lemma_same_sound(rs, target);
        }
    }

    /// Whether every frame of `start..end` is silence; false for an empty range or one that
    /// runs past the end.
    pub fn is_silence_range(&self, start: usize, end: usize) -> (r: bool)
        requires
            self.wf(),
        ensures
            r == (start < end && end <= self.spec_total() && forall|i: int|
                start <= i < end ==> #[trigger] self.frames()[i] is Silent),
    {
        if start >= end {
            return false;
        }
        let ghost rs = self.regions@;
        proof {
            lemma_frames_len(rs);
        }
        let mut offset: usize = 0;
        let mut checked = start;
        let mut i: usize = 0;
        while i < self.regions.len() && offset < end
            invariant
                rs == self.regions@,
                all_wf(rs),
                total_len(rs) <= usize::MAX,
                frames_of(rs).len() == total_len(rs),
                start < end,
                i <= rs.len(),
                offset == total_len(rs.take(i as int)),
                checked == if offset <= start { start as int } else { crate::region::min_int(end as int, offset as int) },
                forall|j: int| start <= j < crate::region::min_int(end as int, offset as int) ==> #[trigger] frames_of(rs)[j] is Silent,
            decreases rs.len() - i,
        {
            proof {
                lemma_take_step(rs, i as int);
                lemma_take_prefix(rs, i as int + 1);
                lemma_take_prefix(rs, i as int);
                lemma_frames_len(rs.take(i as int));
                assert(rs[i as int].wf());
            }
            let region = self.regions[i];
            let rlen = region.len();
            let r_start = offset;
            let r_end = offset + rlen;
            let ghost fr = frames_of(rs);
            proof {
                assert forall|j: int| r_start <= j < r_end implies fr[j] == #[trigger] region.frame(j - r_start) by {
                    assert(frames_of(rs.take(i as int + 1))[j] == fr[j]);
                    assert(frames_of(rs.take(i as int + 1))[j] == region.frames()[j - r_start]);
                }
            }
            if r_end > start {
                let overlap_start = if start > r_start { start } else { r_start };
                let overlap_end = if end < r_end { end } else { r_end };
                if overlap_start < overlap_end {
                    let is_silent = match region.kind {
                        RegionKind::Silence { .. } => true,
                        _ => false,
                    };
                    if !is_silent {
                        proof {
                            assert(fr[overlap_start as int] == region.frame(overlap_start - r_start));
                            assert(!(fr[overlap_start as int] is Silent));
                        }
                        return false;
                    }
                    checked = overlap_end;
                    proof {
                        assert forall|j: int| start <= j < crate::region::min_int(end as int, r_end as int) implies #[trigger] fr[j] is Silent by {
                            if j >= r_start {
                                assert(fr[j] == region.frame(j - r_start));
                            }
                        }
                    }
                }
            }
            offset = r_end;
            i += 1;
        }
        proof {
            lemma_take_prefix(rs, i as int);
            if i == rs.len() {
                lemma_take_all(rs);
            }
            if checked >= end {
                assert(offset > start);
                assert forall|j: int| start <= j < end implies #[trigger] self.frames()[j] is Silent by {
                    assert(self.frames()[j] == frames_of(rs)[j]);
                }
            } else {
                assert(i == rs.len());
                assert(end > total_len(rs));
            }
        }
        checked >= end
    }

    /// What the edited timeline plays at the frames `start..start + len` that exist.
    pub fn iter_source_frames(&self, start: usize, len: usize) -> (r: Vec<Option<ResolvedFrame<G>>>)
        requires
            self.wf(),
            start + len <= usize::MAX,
        ensures
            r@.len() == if start < self.spec_total() {
                crate::region::min_int(start + len, self.spec_total() as int) - start
            } else {
                0
            },
            forall|i: int| 0 <= i < r@.len() ==> #[trigger] r@[i] == self.spec_resolve(start + i),
    {
        let total = self.total_frames();
        let end = start + len;
        let stop = if end < total { end } else { total };
        let mut out: Vec<Option<ResolvedFrame<G>>> = Vec::new();
        let mut p = start;
        while p < stop
            invariant
                self.wf(),
                start <= p <= stop || (stop < start && p == start),
                out@.len() == p - start,
                forall|i: int| 0 <= i < out@.len() ==> #[trigger] out@[i] == self.spec_resolve(start + i),
            decreases stop - p,
        {
            out.push(self.resolve(p));
            p += 1;
        }
        out
    }

    /// The source spans that the edit range `edit_start..edit_end` covers, one for each
    /// overlapping non-silent region, with the region's gain and the fade envelope points at
    /// the middle of the overlap.
    pub fn source_ranges(&self, edit_start: usize, edit_end: usize) -> (r: Vec<SourceSpan<G>>)
        requires
            self.wf(),
        ensures
            r@ == spans_of(self.region_seq(), edit_start as int, edit_end as int, self.spec_fades()),
    {
        let ghost rs = self.regions@;
        let mut out: Vec<SourceSpan<G>> = Vec::new();
        let mut offset: usize = 0;
        let mut i: usize = 0;
        while i < self.regions.len()
            invariant
                rs == self.regions@,
                all_wf(rs),
                total_len(rs) <= usize::MAX,
                i <= rs.len(),
                offset == total_len(rs.take(i as int)),
                out@ == spans_of(rs.take(i as int), edit_start as int, edit_end as int, self.spec_fades()),
            decreases rs.len() - i,
        {
            proof {
                lemma_take_step(rs, i as int);
                lemma_take_prefix(rs, i as int + 1);
                assert(rs[i as int].wf());
                assert(rs.take(i as int + 1).drop_last() =~= rs.take(i as int));
            }
            let region = self.regions[i];
            let rlen = region.len();
            let r_start = offset;
            let r_end = offset + rlen;
            let overlap_start = if edit_start > r_start { edit_start } else { r_start };
            let overlap_end = if edit_end < r_end { edit_end } else { r_end };
            let ghost before = out@;
            if overlap_start < overlap_end {
                let inner_start = overlap_start - r_start;
                let inner_end = overlap_end - r_start;
                let mid = inner_start + (inner_end - inner_start) / 2;
                proof {
                    assert(mid == (inner_start + inner_end) / 2);
                }
                let fade_in = region.fade_in_point(mid, self.fades_enabled);
                let fade_out = region.fade_out_point(mid, self.fades_enabled);
                match region.kind {
                    RegionKind::Source { source_start, .. } => {
                        out.push(SourceSpan {
                            source_start: source_start + inner_start,
                            source_end: source_start + inner_end,
                            gain: region.gain,
                            fade_in,
                            fade_out,
                        });
                    },
                    RegionKind::Reversed { source_end, .. } => {
                        out.push(SourceSpan {
                            source_start: source_end - inner_end,
                            source_end: source_end - inner_start,
                            gain: region.gain,
                            fade_in,
                            fade_out,
                        });
                    },
                    RegionKind::Silence { .. } => {},
                }
            }
            proof {
                assert(out@ =~= before + span_piece(region, r_start as int, edit_start as int, edit_end as int, self.spec_fades()));
            }
            offset = r_end;
            i += 1;
        }
        proof {
            lemma_take_all(rs);
        }
        out
    }

    /// The index of the region that holds `edit_frame`; at the exact end of a region, the
    /// next region (or the last one). `None` past the end.
    pub fn region_index_at(&self, edit_frame: usize) -> (r: Option<usize>)
        requires
            self.wf(),
        ensures
            r matches Some(i) ==> region_index(self.region_seq(), edit_frame as int) == Some(i as int),
            r is None ==> region_index(self.region_seq(), edit_frame as int) is None,
    {
        let ghost rs = self.regions@;
        let mut offset: usize = 0;
        let mut i: usize = 0;
        while i < self.regions.len()
            invariant
                rs == self.regions@,
                all_wf(rs),
                total_len(rs) <= usize::MAX,
                i <= rs.len(),
                offset == total_len(rs.take(i as int)),
                first_reaching(rs.take(i as int), edit_frame as int) is None,
                offset < edit_frame || i == 0,
            decreases rs.len() - i,
        {
            proof {
                lemma_take_step(rs, i as int);
                lemma_take_prefix(rs, i as int + 1);
                assert(rs[i as int].wf());
                assert(rs.take(i as int + 1).drop_last() =~= rs.take(i as int));
            }
            let rlen = self.regions[i].len();
            if edit_frame <= offset + rlen {
                proof {
                    assert(first_reaching(rs.take(i as int + 1), edit_frame as int) == Some(i as int));
                    lemma_first_reaching_stable(rs, edit_frame as int, i as int + 1, rs.len() as int);
                    lemma_take_all(rs);
                }
                if edit_frame < offset + rlen {
                    return Some(i);
                }
                let next = if i + 1 < self.regions.len() - 1 { i + 1 } else { self.regions.len() - 1 };
                return Some(next);
            }
            offset = offset + rlen;
            i += 1;
        }
        proof {
            lemma_take_all(rs);
        }
        None
    }

    /// Turns the fade envelopes on or off.
    pub fn set_fades_enabled(&mut self, enabled: bool)
        ensures
            final(self).spec_fades() == enabled,
            final(self).region_seq() == old(self).region_seq(),
            final(self).spec_unity_gain() == old(self).spec_unity_gain(),
            final(self).spec_zero_offset() == old(self).spec_zero_offset(),
    {
        self.fades_enabled = enabled;
    }

    /// Whether the fade envelopes are on.
    pub fn fades_are_enabled(&self) -> (r: bool)
        ensures
            r == self.spec_fades(),
    {
        self.fades_enabled
    }

    /// The regions, in playing order.
    pub fn regions(&self) -> (r: &Vec<Region<G>>)
        ensures
            r@ == self.region_seq(),
    {
        &self.regions
    }
}

} // verus!
