use vstd::prelude::*;

verus! {

/// Length, in frames, of the fade that is put on both sides of an edit splice point.
pub const DEFAULT_FADE_LEN: usize = 128;

/// The shape of a fade envelope. The envelope value itself is a floating-point
/// function of `position / length` and is evaluated by the caller.
#[derive(Clone, Copy, Debug, PartialEq, Eq)]
pub enum FadeCurve {
    Linear,
    Exponential,
    Logarithmic,
    SCurve,
}

/// Where a region's frames come from.
#[derive(Clone, Copy, Debug, PartialEq, Eq)]
pub enum RegionKind {
    /// Source frames `source_start..source_end`, played forwards.
    Source { source_start: usize, source_end: usize },
    /// `len` frames of silence.
    Silence { len: usize },
    /// Source frames `source_start..source_end`, played backwards.
    Reversed { source_start: usize, source_end: usize },
}

/// One piece of the edit list: a stretch of source audio (or silence) with the
/// level and fade settings that apply to it. `G` is the type of the gain and DC
/// offset values; the library only moves them around.
#[derive(Clone, Copy, Debug, PartialEq)]
pub struct Region<G> {
    pub kind: RegionKind,
    pub gain: G,
    pub dc_offset: G,
    pub fade_in: usize,
    pub fade_out: usize,
    pub fade_in_curve: FadeCurve,
    pub fade_out_curve: FadeCurve,
}

/// What one frame of the edited timeline plays: silence, or one source frame at a level.
pub enum Frame<G> {
    Silent,
    Sourced { source_frame: usize, gain: G, dc_offset: G },
}

/// A point on a fade envelope: the envelope is `curve` evaluated at `position / length`.
#[derive(Clone, Copy, Debug, PartialEq, Eq)]
pub struct FadePoint {
    pub curve: FadeCurve,
    pub position: usize,
    pub length: usize,
}

/// A resolved, non-silent frame of the edited timeline.
#[derive(Clone, Copy, Debug, PartialEq)]
pub struct ResolvedFrame<G> {
    pub source_frame: usize,
    pub gain: G,
    pub dc_offset: G,
    /// The fade-in envelope point, when the frame lies in an active fade-in.
    pub fade_in: Option<FadePoint>,
    /// The fade-out envelope point, when the frame lies in an active fade-out.
    pub fade_out: Option<FadePoint>,
}

/// A contiguous run of source frames `source_start..source_end` that an edit range covers,
/// with the region's gain and the fade envelope points at the run's middle.
#[derive(Clone, Copy, Debug, PartialEq)]
pub struct SourceSpan<G> {
    pub source_start: usize,
    pub source_end: usize,
    pub gain: G,
    pub fade_in: Option<FadePoint>,
    pub fade_out: Option<FadePoint>,
}

pub open spec fn min_int(a: int, b: int) -> int {
    if a <= b { a } else { b }
}

pub open spec fn max_int(a: int, b: int) -> int {
    if a >= b { a } else { b }
}

impl<G> Region<G> {
    /// A region is well formed when its source range is not inverted.
    pub open spec fn wf(self) -> bool {
        match self.kind {
            RegionKind::Source { source_start, source_end } => source_start <= source_end,
            RegionKind::Silence { .. } => true,
            RegionKind::Reversed { source_start, source_end } => source_start <= source_end,
        }
    }

    pub open spec fn spec_len(self) -> nat {
        match self.kind {
            RegionKind::Source { source_start, source_end } => (source_end - source_start) as nat,
            RegionKind::Silence { len } => len as nat,
            RegionKind::Reversed { source_start, source_end } => (source_end - source_start) as nat,
        }
    }

    pub open spec fn is_silence(self) -> bool {
        self.kind is Silence
    }

    /// The frame played at offset `pos` inside the region.
    pub open spec fn frame(self, pos: int) -> Frame<G> {
        match self.kind {
            RegionKind::Source { source_start, .. } => Frame::Sourced {
                source_frame: (source_start + pos) as usize,
                gain: self.gain,
                dc_offset: self.dc_offset,
            },
            RegionKind::Silence { .. } => Frame::Silent,
            RegionKind::Reversed { source_end, .. } => Frame::Sourced {
                source_frame: (source_end - 1 - pos) as usize,
                gain: self.gain,
                dc_offset: self.dc_offset,
            },
        }
    }

    /// All frames of the region, in playing order.
    pub open spec fn frames(self) -> Seq<Frame<G>> {
        Seq::new(self.spec_len(), |p: int| self.frame(p))
    }

    /// The region cut down to its frames `a..b`, keeping every other setting.
    pub open spec fn spec_slice(self, a: int, b: int) -> Region<G> {
        Region {
            kind: match self.kind {
                RegionKind::Source { source_start, .. } => RegionKind::Source {
                    source_start: (source_start + a) as usize,
                    source_end: (source_start + b) as usize,
                },
                RegionKind::Silence { .. } => RegionKind::Silence { len: (b - a) as usize },
                RegionKind::Reversed { source_end, .. } => RegionKind::Reversed {
                    source_start: (source_end - b) as usize,
                    source_end: (source_end - a) as usize,
                },
            },
            gain: self.gain,
            dc_offset: self.dc_offset,
            fade_in: self.fade_in,
            fade_out: self.fade_out,
            fade_in_curve: self.fade_in_curve,
            fade_out_curve: self.fade_out_curve,
        }
    }

    /// The region with its direction flipped: forwards becomes backwards and back.
    pub open spec fn spec_flipped(self) -> Region<G> {
        Region {
            kind: match self.kind {
                RegionKind::Source { source_start, source_end } => RegionKind::Reversed {
                    source_start,
                    source_end,
                },
                RegionKind::Silence { len } => RegionKind::Silence { len },
                RegionKind::Reversed { source_start, source_end } => RegionKind::Source {
                    source_start,
                    source_end,
                },
            },
            ..self
        }
    }

    pub open spec fn with_fade_in(self, len: usize) -> Region<G> {
        Region { fade_in: len, ..self }
    }

    pub open spec fn with_fade_out(self, len: usize) -> Region<G> {
        Region { fade_out: len, ..self }
    }

    /// The fade-in point at offset `pos`, when fades are enabled and `pos` is inside the fade-in.
    pub open spec fn fade_in_at(self, pos: int, fades_enabled: bool) -> Option<FadePoint> {
        if fades_enabled && self.fade_in > 0 && pos < self.fade_in {
            Some(FadePoint { curve: self.fade_in_curve, position: pos as usize, length: self.fade_in })
        } else {
            None
        }
    }

    /// The fade-out point at offset `pos`, when fades are enabled and `pos` is inside the
    /// fade-out. A fade-out longer than the region is inactive.
    pub open spec fn fade_out_at(self, pos: int, fades_enabled: bool) -> Option<FadePoint> {
        if fades_enabled && self.fade_out > 0 && self.fade_out <= self.spec_len() && pos
            >= self.spec_len() - self.fade_out {
            Some(
                FadePoint {
                    curve: self.fade_out_curve,
                    position: (self.spec_len() - 1 - pos) as usize,
                    length: self.fade_out,
                },
            )
        } else {
            None
        }
    }

    /// What the region plays at offset `pos`: `None` for silence.
    pub open spec fn resolve_at(self, pos: int, fades_enabled: bool) -> Option<ResolvedFrame<G>> {
        match self.frame(pos) {
            Frame::Silent => None,
            Frame::Sourced { source_frame, gain, dc_offset } => Some(
                ResolvedFrame {
                    source_frame,
                    gain,
                    dc_offset,
                    fade_in: self.fade_in_at(pos, fades_enabled),
                    fade_out: self.fade_out_at(pos, fades_enabled),
                },
            ),
        }
    }
}

impl<G: Copy> Region<G> {
    /// A forward region over source frames `source_start..source_end`, with no fades.
    pub fn source(source_start: usize, source_end: usize, gain: G, dc_offset: G) -> (r: Self)
        ensures
            r.kind == (RegionKind::Source { source_start, source_end }),
            r.gain == gain,
            r.dc_offset == dc_offset,
            r.fade_in == 0,
            r.fade_out == 0,
            r.fade_in_curve == FadeCurve::Linear,
            r.fade_out_curve == FadeCurve::Linear,
    {
        Region {
            kind: RegionKind::Source { source_start, source_end },
            gain,
            dc_offset,
            fade_in: 0,
            fade_out: 0,
            fade_in_curve: FadeCurve::Linear,
            fade_out_curve: FadeCurve::Linear,
        }
    }

    /// `len` frames of silence, with no fades.
    pub fn silence(len: usize, gain: G, dc_offset: G) -> (r: Self)
        ensures
            r.kind == (RegionKind::Silence { len }),
            r.gain == gain,
            r.dc_offset == dc_offset,
            r.fade_in == 0,
            r.fade_out == 0,
            r.fade_in_curve == FadeCurve::Linear,
            r.fade_out_curve == FadeCurve::Linear,
    {
        Region {
            kind: RegionKind::Silence { len },
            gain,
            dc_offset,
            fade_in: 0,
            fade_out: 0,
            fade_in_curve: FadeCurve::Linear,
            fade_out_curve: FadeCurve::Linear,
        }
    }

    /// A backward region over source frames `source_start..source_end`, with no fades.
    pub fn reversed(source_start: usize, source_end: usize, gain: G, dc_offset: G) -> (r: Self)
        ensures
            r.kind == (RegionKind::Reversed { source_start, source_end }),
            r.gain == gain,
            r.dc_offset == dc_offset,
            r.fade_in == 0,
            r.fade_out == 0,
            r.fade_in_curve == FadeCurve::Linear,
            r.fade_out_curve == FadeCurve::Linear,
    {
        Region {
            kind: RegionKind::Reversed { source_start, source_end },
            gain,
            dc_offset,
            fade_in: 0,
            fade_out: 0,
            fade_in_curve: FadeCurve::Linear,
            fade_out_curve: FadeCurve::Linear,
        }
    }

    /// Number of frames the region plays.
    pub fn len(&self) -> (n: usize)
        requires
            self.wf(),
        ensures
            n == self.spec_len(),
    {
        match self.kind {
            RegionKind::Source { source_start, source_end } => source_end - source_start,
            RegionKind::Silence { len } => len,
            RegionKind::Reversed { source_start, source_end } => source_end - source_start,
        }
    }
}

impl<G: Copy> Region<G> {
    pub(crate) fn fade_in_point(&self, pos: usize, fades_enabled: bool) -> (r: Option<FadePoint>)
        ensures
            r == self.fade_in_at(pos as int, fades_enabled),
    {
        if fades_enabled && self.fade_in > 0 && pos < self.fade_in {
            Some(FadePoint { curve: self.fade_in_curve, position: pos, length: self.fade_in })
        } else {
            None
        }
    }

    pub(crate) fn fade_out_point(&self, pos: usize, fades_enabled: bool) -> (r: Option<FadePoint>)
        requires
            self.wf(),
            pos < self.spec_len(),
        ensures
            r == self.fade_out_at(pos as int, fades_enabled),
    {
        let rlen = self.len();
        if fades_enabled && self.fade_out > 0 && self.fade_out <= rlen && pos >= rlen
            - self.fade_out {
            Some(
                FadePoint {
                    curve: self.fade_out_curve,
                    position: rlen - 1 - pos,
                    length: self.fade_out,
                },
            )
        } else {
            None
        }
    }

    pub(crate) fn resolve_frame(&self, pos: usize, fades_enabled: bool) -> (r: Option<
        ResolvedFrame<G>,
    >)
        requires
            self.wf(),
            pos < self.spec_len(),
        ensures
            r == self.resolve_at(pos as int, fades_enabled),
    {
        let fade_in = self.fade_in_point(pos, fades_enabled);
        let fade_out = self.fade_out_point(pos, fades_enabled);
        match self.kind {
            RegionKind::Source { source_start, .. } => Some(
                ResolvedFrame {
                    source_frame: source_start + pos,
                    gain: self.gain,
                    dc_offset: self.dc_offset,
                    fade_in,
                    fade_out,
                },
            ),
            RegionKind::Silence { .. } => None,
            RegionKind::Reversed { source_end, .. } => Some(
                ResolvedFrame {
                    source_frame: source_end - 1 - pos,
                    gain: self.gain,
                    dc_offset: self.dc_offset,
                    fade_in,
                    fade_out,
                },
            ),
        }
    }
}

/// The first `prefix_len` frames of `region`.
pub fn split_region_prefix<G: Copy>(region: &Region<G>, prefix_len: usize) -> (r: Region<G>)
    requires
        region.wf(),
        prefix_len <= region.spec_len(),
    ensures
        r == region.spec_slice(0, prefix_len as int),
{
    let kind = match region.kind {
        RegionKind::Source { source_start, .. } => RegionKind::Source {
            source_start,
            source_end: source_start + prefix_len,
        },
        RegionKind::Silence { .. } => RegionKind::Silence { len: prefix_len },
        RegionKind::Reversed { source_end, .. } => RegionKind::Reversed {
            source_start: source_end - prefix_len,
            source_end,
        },
    };
    Region { kind, ..*region }
}

/// The frames `inner_start..inner_end` of `region`.
pub fn split_region_suffix<G: Copy>(region: &Region<G>, inner_start: usize, inner_end: usize) -> (r:
    Region<G>)
    requires
        region.wf(),
        inner_start <= inner_end <= region.spec_len(),
    ensures
        r == region.spec_slice(inner_start as int, inner_end as int),
{
    let kind = match region.kind {
        RegionKind::Source { source_start, .. } => RegionKind::Source {
            source_start: source_start + inner_start,
            source_end: source_start + inner_end,
        },
        RegionKind::Silence { .. } => RegionKind::Silence { len: inner_end - inner_start },
        RegionKind::Reversed { source_end, .. } => RegionKind::Reversed {
            source_start: source_end - inner_end,
            source_end: source_end - inner_start,
        },
    };
    Region { kind, ..*region }
}

/// Slicing keeps a region well formed, gives it the slice's length, and plays exactly
/// the corresponding frames.
pub proof fn lemma_slice<G>(r: Region<G>, a: int, b: int)
    requires
        r.wf(),
        0 <= a <= b <= r.spec_len(),
    ensures
        r.spec_slice(a, b).wf(),
        r.spec_slice(a, b).spec_len() == b - a,
        r.spec_slice(a, b).frames() == r.frames().subrange(a, b),
        r.spec_slice(a, b).is_silence() == r.is_silence(),
{
    let s = r.spec_slice(a, b);
    assert(s.frames() =~= r.frames().subrange(a, b));
}

/// Flipping a region keeps it well formed and plays its frames backwards.
pub proof fn lemma_flip<G>(r: Region<G>)
    requires
        r.wf(),
    ensures
        r.spec_flipped().wf(),
        r.spec_flipped().spec_len() == r.spec_len(),
        r.spec_flipped().frames() == r.frames().reverse(),
{
    assert(r.spec_flipped().frames() =~= r.frames().reverse());
}

} // verus!
