//! The mathematical model of a sequence of regions: its length, the frames it plays,
//! and the facts about splicing that the edit operations rest on.
use vstd::prelude::*;
use crate::region::{Frame, Region, ResolvedFrame, min_int, max_int, lemma_slice, lemma_flip, DEFAULT_FADE_LEN};

verus! {

/// Every region of the sequence is well formed.
pub open spec fn all_wf<G>(rs: Seq<Region<G>>) -> bool {
    forall|i: int| 0 <= i < rs.len() ==> #[trigger] rs[i].wf()
}

/// Total number of frames that the sequence plays.
pub open spec fn total_len<G>(rs: Seq<Region<G>>) -> nat
    decreases rs.len(),
{
    if rs.len() == 0 {
        0
    } else {
        total_len(rs.drop_last()) + rs.last().spec_len()
    }
}

/// The frames that the sequence plays, in order.
pub open spec fn frames_of<G>(rs: Seq<Region<G>>) -> Seq<Frame<G>>
    decreases rs.len(),
{
    if rs.len() == 0 {
        Seq::empty()
    } else {
        frames_of(rs.drop_last()) + rs.last().frames()
    }
}

/// Clamp `x` into `0..=n`.
pub open spec fn clip(x: int, n: int) -> int {
    if x < 0 {
        0
    } else if x > n {
        n
    } else {
        x
    }
}

/// `f` with its elements `s..e` taken out (the bounds clamped to `f`).
pub open spec fn remove_range<A>(f: Seq<A>, s: int, e: int) -> Seq<A> {
    f.take(clip(s, f.len() as int)) + f.skip(clip(e, f.len() as int))
}

/// The elements `s..e` of `f` (the bounds clamped to `f`).
pub open spec fn keep_range<A>(f: Seq<A>, s: int, e: int) -> Seq<A> {
    f.subrange(clip(s, f.len() as int), clip(e, f.len() as int))
}

/// `n` silent frames.
pub open spec fn silent_frames<G>(n: int) -> Seq<Frame<G>> {
    Seq::new(n as nat, |i: int| Frame::<G>::Silent)
}

pub proof fn lemma_frames_len<G>(rs: Seq<Region<G>>)
    ensures
        frames_of(rs).len() == total_len(rs),
    decreases rs.len(),
{
    if rs.len() > 0 {
        lemma_frames_len(rs.drop_last());
    }
}

/// Frames and lengths of a concatenation are the concatenations of frames and lengths.
pub proof fn lemma_concat<G>(a: Seq<Region<G>>, b: Seq<Region<G>>)
    ensures
        total_len(a + b) == total_len(a) + total_len(b),
        frames_of(a + b) == frames_of(a) + frames_of(b),
    decreases b.len(),
{
    if b.len() == 0 {
        assert(a + b =~= a);
        assert(frames_of(a) + frames_of(b) =~= frames_of(a));
    } else {
        lemma_concat(a, b.drop_last());
        assert((a + b).drop_last() =~= a + b.drop_last());
        assert((a + b).last() == b.last());
        assert(frames_of(a + b) =~= frames_of(a) + frames_of(b));
    }
}

pub proof fn lemma_all_wf_concat<G>(a: Seq<Region<G>>, b: Seq<Region<G>>)
    ensures
        all_wf(a + b) == (all_wf(a) && all_wf(b)),
{
    if all_wf(a) && all_wf(b) {
        assert forall|i: int| 0 <= i < (a + b).len() implies #[trigger] (a + b)[i].wf() by {
            if i < a.len() {
                assert((a + b)[i] == a[i]);
            } else {
                assert((a + b)[i] == b[i - a.len()]);
            }
        }
    }
    if all_wf(a + b) {
        assert forall|i: int| 0 <= i < a.len() implies #[trigger] a[i].wf() by {
            assert((a + b)[i] == a[i]);
        }
        assert forall|i: int| 0 <= i < b.len() implies #[trigger] b[i].wf() by {
            assert((a + b)[a.len() + i] == b[i]);
        }
    }
}

/// Stepping a prefix by one region adds that region's length and frames.
pub proof fn lemma_take_step<G>(rs: Seq<Region<G>>, k: int)
    requires
        0 <= k < rs.len(),
    ensures
        total_len(rs.take(k + 1)) == total_len(rs.take(k)) + rs[k].spec_len(),
        frames_of(rs.take(k + 1)) == frames_of(rs.take(k)) + rs[k].frames(),
{
    assert(rs.take(k + 1).drop_last() =~= rs.take(k));
    assert(rs.take(k + 1).last() == rs[k]);
}

/// A prefix plays the first frames of the whole sequence.
pub proof fn lemma_take_prefix<G>(rs: Seq<Region<G>>, k: int)
    requires
        0 <= k <= rs.len(),
    ensures
        total_len(rs.take(k)) <= total_len(rs),
        frames_of(rs.take(k)) == frames_of(rs).take(total_len(rs.take(k)) as int),
{
    assert(rs =~= rs.take(k) + rs.skip(k));
    lemma_concat(rs.take(k), rs.skip(k));
    lemma_frames_len(rs.take(k));
    lemma_frames_len(rs);
    assert(frames_of(rs.take(k)) =~= frames_of(rs).take(total_len(rs.take(k)) as int));
}

pub proof fn lemma_take_all<G>(rs: Seq<Region<G>>)
    ensures
        rs.take(rs.len() as int) == rs,
{
    assert(rs.take(rs.len() as int) =~= rs);
}

/// Two sequences that agree on every region's kind, gain and offset play the same frames.
pub proof fn lemma_same_sound<G>(a: Seq<Region<G>>, b: Seq<Region<G>>)
    requires
        a.len() == b.len(),
        forall|i: int|
            0 <= i < a.len() ==> (#[trigger] a[i]).kind == b[i].kind && a[i].gain == b[i].gain
                && a[i].dc_offset == b[i].dc_offset,
    ensures
        total_len(a) == total_len(b),
        frames_of(a) == frames_of(b),
    decreases a.len(),
{
    if a.len() > 0 {
        lemma_same_sound(a.drop_last(), b.drop_last());
        assert(a.last().frames() =~= b.last().frames());
    }
}

/// Removing a range from a concatenation removes it piecewise.
pub proof fn lemma_remove_range_concat<A>(x: Seq<A>, y: Seq<A>, s: int, e: int)
    requires
        0 <= s <= e,
    ensures
        remove_range(x + y, s, e) == remove_range(x, s, e) + remove_range(
            y,
            s - x.len(),
            e - x.len(),
        ),
{
    let a = x.len() as int;
    if e <= a {
        assert(remove_range(x + y, s, e) =~= remove_range(x, s, e) + remove_range(y, s - a, e - a));
    } else if s >= a {
        assert(remove_range(x + y, s, e) =~= remove_range(x, s, e) + remove_range(y, s - a, e - a));
    } else {
        assert(remove_range(x + y, s, e) =~= remove_range(x, s, e) + remove_range(y, s - a, e - a));
    }
}

/// Keeping a range of a concatenation keeps it piecewise.
pub proof fn lemma_keep_range_concat<A>(x: Seq<A>, y: Seq<A>, s: int, e: int)
    requires
        0 <= s <= e,
    ensures
        keep_range(x + y, s, e) == keep_range(x, s, e) + keep_range(y, s - x.len(), e - x.len()),
{
    let a = x.len() as int;
    if e <= a {
        assert(keep_range(x + y, s, e) =~= keep_range(x, s, e) + keep_range(y, s - a, e - a));
    } else if s >= a {
        assert(keep_range(x + y, s, e) =~= keep_range(x, s, e) + keep_range(y, s - a, e - a));
    } else {
        assert(keep_range(x + y, s, e) =~= keep_range(x, s, e) + keep_range(y, s - a, e - a));
    }
}


pub proof fn lemma_single<G>(r: Region<G>)
    ensures
        total_len(seq![r]) == r.spec_len(),
        frames_of(seq![r]) == r.frames(),
{
    assert(seq![r].drop_last() =~= Seq::<Region<G>>::empty());
    assert(total_len(Seq::<Region<G>>::empty()) == 0);
    assert(seq![r].last() == r);
    assert(frames_of(Seq::<Region<G>>::empty()) + r.frames() =~= r.frames());
}

// ---------------------------------------------------------------- ripple delete

/// What ripple-deleting `s..e` leaves of region `r`, which starts at frame `r_start`.
pub open spec fn ripple_piece<G>(r: Region<G>, r_start: int, s: int, e: int) -> Seq<Region<G>> {
    let len = r.spec_len() as int;
    let r_end = r_start + len;
    let os = max_int(s, r_start);
    let oe = min_int(e, r_end);
    if os < oe {
        (if os - r_start > 0 {
            seq![r.spec_slice(0, os - r_start)]
        } else {
            Seq::empty()
        }) + (if r_end - oe > 0 {
            seq![r.spec_slice(oe - r_start, len)]
        } else {
            Seq::empty()
        })
    } else {
        seq![r]
    }
}

/// The regions left after taking the frames `s..e` out of `rs`.
pub open spec fn ripple_cut<G>(rs: Seq<Region<G>>, s: int, e: int) -> Seq<Region<G>>
    decreases rs.len(),
{
    if rs.len() == 0 {
        Seq::empty()
    } else {
        ripple_cut(rs.drop_last(), s, e) + ripple_piece(
            rs.last(),
            total_len(rs.drop_last()) as int,
            s,
            e,
        )
    }
}

pub proof fn lemma_ripple_piece<G>(r: Region<G>, r_start: int, s: int, e: int)
    requires
        r.wf(),
        0 <= s <= e,
        0 <= r_start,
    ensures
        all_wf(ripple_piece(r, r_start, s, e)),
        frames_of(ripple_piece(r, r_start, s, e)) == remove_range(
            r.frames(),
            s - r_start,
            e - r_start,
        ),
{
    let len = r.spec_len() as int;
    let r_end = r_start + len;
    let os = max_int(s, r_start);
    let oe = min_int(e, r_end);
    let f = r.frames();
    if os < oe {
        let pre: Seq<Region<G>> = if os - r_start > 0 {
            seq![r.spec_slice(0, os - r_start)]
        } else {
            Seq::empty()
        };
        let post: Seq<Region<G>> = if r_end - oe > 0 {
            seq![r.spec_slice(oe - r_start, len)]
        } else {
            Seq::empty()
        };
        lemma_slice(r, 0, os - r_start);
        lemma_slice(r, oe - r_start, len);
        lemma_single(r.spec_slice(0, os - r_start));
        lemma_single(r.spec_slice(oe - r_start, len));
        lemma_concat(pre, post);
        lemma_all_wf_concat(pre, post);
        assert(frames_of(Seq::<Region<G>>::empty()) =~= Seq::<Frame<G>>::empty());
        assert(frames_of(pre) =~= f.take(clip(s - r_start, len)));
        assert(frames_of(post) =~= f.skip(clip(e - r_start, len)));
    } else {
        lemma_single(r);
        assert(remove_range(f, s - r_start, e - r_start) =~= f);
    }
}

pub proof fn lemma_ripple_cut<G>(rs: Seq<Region<G>>, s: int, e: int)
    requires
        all_wf(rs),
        0 <= s <= e,
    ensures
        all_wf(ripple_cut(rs, s, e)),
        frames_of(ripple_cut(rs, s, e)) == remove_range(frames_of(rs), s, e),
    decreases rs.len(),
{
    if rs.len() == 0 {
        assert(remove_range(frames_of(rs), s, e) =~= Seq::<Frame<G>>::empty());
    } else {
        let d = rs.drop_last();
        let a = total_len(d) as int;
        assert(all_wf(d));
        lemma_ripple_cut(d, s, e);
        lemma_ripple_piece(rs.last(), a, s, e);
        lemma_concat(ripple_cut(d, s, e), ripple_piece(rs.last(), a, s, e));
        lemma_all_wf_concat(ripple_cut(d, s, e), ripple_piece(rs.last(), a, s, e));
        lemma_frames_len(d);
        lemma_remove_range_concat(frames_of(d), rs.last().frames(), s, e);
    }
}

// ---------------------------------------------------------------- crop / extract

/// What keeping only `s..e` leaves of region `r`, which starts at frame `r_start`.
pub open spec fn extract_piece<G>(r: Region<G>, r_start: int, s: int, e: int) -> Seq<Region<G>> {
    let len = r.spec_len() as int;
    let os = max_int(s, r_start);
    let oe = min_int(e, r_start + len);
    if os < oe {
        seq![r.spec_slice(os - r_start, oe - r_start)]
    } else {
        Seq::empty()
    }
}

/// The regions that play the frames `s..e` of `rs`.
pub open spec fn extract_cut<G>(rs: Seq<Region<G>>, s: int, e: int) -> Seq<Region<G>>
    decreases rs.len(),
{
    if rs.len() == 0 {
        Seq::empty()
    } else {
        extract_cut(rs.drop_last(), s, e) + extract_piece(
            rs.last(),
            total_len(rs.drop_last()) as int,
            s,
            e,
        )
    }
}

pub proof fn lemma_extract_piece<G>(r: Region<G>, r_start: int, s: int, e: int)
    requires
        r.wf(),
        0 <= s <= e,
        0 <= r_start,
    ensures
        all_wf(extract_piece(r, r_start, s, e)),
        frames_of(extract_piece(r, r_start, s, e)) == keep_range(
            r.frames(),
            s - r_start,
            e - r_start,
        ),
{
    let len = r.spec_len() as int;
    let os = max_int(s, r_start);
    let oe = min_int(e, r_start + len);
    if os < oe {
        lemma_slice(r, os - r_start, oe - r_start);
        lemma_single(r.spec_slice(os - r_start, oe - r_start));
        assert(frames_of(extract_piece(r, r_start, s, e)) =~= keep_range(
            r.frames(),
            s - r_start,
            e - r_start,
        ));
    } else {
        assert(frames_of(Seq::<Region<G>>::empty()) =~= Seq::<Frame<G>>::empty());
        assert(keep_range(r.frames(), s - r_start, e - r_start) =~= Seq::<Frame<G>>::empty());
    }
}

pub proof fn lemma_extract_cut<G>(rs: Seq<Region<G>>, s: int, e: int)
    requires
        all_wf(rs),
        0 <= s <= e,
    ensures
        all_wf(extract_cut(rs, s, e)),
        frames_of(extract_cut(rs, s, e)) == keep_range(frames_of(rs), s, e),
    decreases rs.len(),
{
    if rs.len() == 0 {
        assert(keep_range(frames_of(rs), s, e) =~= Seq::<Frame<G>>::empty());
    } else {
        let d = rs.drop_last();
        let a = total_len(d) as int;
        assert(all_wf(d));
        lemma_extract_cut(d, s, e);
        lemma_extract_piece(rs.last(), a, s, e);
        lemma_concat(extract_cut(d, s, e), extract_piece(rs.last(), a, s, e));
        lemma_all_wf_concat(extract_cut(d, s, e), extract_piece(rs.last(), a, s, e));
        lemma_frames_len(d);
        lemma_keep_range_concat(frames_of(d), rs.last().frames(), s, e);
    }
}


// ---------------------------------------------------------------- gap delete

/// What gap-deleting `s..e` leaves of region `r`, which starts at frame `r_start`: the
/// silence `gap` goes after the part before `s`, in the region where `s` falls.
pub open spec fn gap_piece<G>(r: Region<G>, r_start: int, s: int, e: int, gap: Region<G>) -> Seq<
    Region<G>,
> {
    let len = r.spec_len() as int;
    let r_end = r_start + len;
    let os = max_int(s, r_start);
    let oe = min_int(e, r_end);
    if os < oe {
        (if os - r_start > 0 {
            seq![r.spec_slice(0, os - r_start)]
        } else {
            Seq::empty()
        }) + (if s >= r_start {
            seq![gap]
        } else {
            Seq::empty()
        }) + (if r_end - oe > 0 {
            seq![r.spec_slice(oe - r_start, len)]
        } else {
            Seq::empty()
        })
    } else {
        seq![r]
    }
}

/// The regions after replacing the frames `s..e` of `rs` with the silence `gap`.
pub open spec fn gap_cut<G>(rs: Seq<Region<G>>, s: int, e: int, gap: Region<G>) -> Seq<Region<G>>
    decreases rs.len(),
{
    if rs.len() == 0 {
        Seq::empty()
    } else {
        gap_cut(rs.drop_last(), s, e, gap) + gap_piece(
            rs.last(),
            total_len(rs.drop_last()) as int,
            s,
            e,
            gap,
        )
    }
}

/// The frames after replacing `s..e` of `f` with silence; nothing changes when `s` is
/// past the end.
pub open spec fn gap_frames<G>(f: Seq<Frame<G>>, s: int, e: int) -> Seq<Frame<G>> {
    if s < f.len() {
        f.take(s) + silent_frames(e - s) + f.skip(clip(e, f.len() as int))
    } else {
        f
    }
}

pub proof fn lemma_gap_piece<G>(r: Region<G>, r_start: int, s: int, e: int, gap: Region<G>)
    requires
        r.wf(),
        gap.wf(),
        gap.frames() == silent_frames::<G>(e - s),
        0 <= s < e,
        0 <= r_start,
    ensures
        all_wf(gap_piece(r, r_start, s, e, gap)),
        frames_of(gap_piece(r, r_start, s, e, gap)) == if s >= r_start && s < r_start
            + r.spec_len() {
            r.frames().take(s - r_start) + silent_frames(e - s) + r.frames().skip(
                clip(e - r_start, r.spec_len() as int),
            )
        } else {
            remove_range(r.frames(), s - r_start, e - r_start)
        },
{
    let len = r.spec_len() as int;
    let r_end = r_start + len;
    let os = max_int(s, r_start);
    let oe = min_int(e, r_end);
    let f = r.frames();
    let empty = Seq::<Region<G>>::empty();
    assert(frames_of(empty) =~= Seq::<Frame<G>>::empty());
    if os < oe {
        let pre: Seq<Region<G>> = if os - r_start > 0 {
            seq![r.spec_slice(0, os - r_start)]
        } else {
            empty
        };
        let mid: Seq<Region<G>> = if s >= r_start {
            seq![gap]
        } else {
            empty
        };
        let post: Seq<Region<G>> = if r_end - oe > 0 {
            seq![r.spec_slice(oe - r_start, len)]
        } else {
            empty
        };
        lemma_slice(r, 0, os - r_start);
        lemma_slice(r, oe - r_start, len);
        lemma_single(r.spec_slice(0, os - r_start));
        lemma_single(r.spec_slice(oe - r_start, len));
        lemma_single(gap);
        lemma_concat(pre, mid);
        lemma_concat(pre + mid, post);
        lemma_all_wf_concat(pre, mid);
        lemma_all_wf_concat(pre + mid, post);
        assert(frames_of(pre) =~= f.take(clip(s - r_start, len)));
        assert(frames_of(post) =~= f.skip(clip(e - r_start, len)));
        if s >= r_start {
            assert(frames_of(gap_piece(r, r_start, s, e, gap)) =~= f.take(s - r_start)
                + silent_frames(e - s) + f.skip(clip(e - r_start, len)));
        } else {
            assert(frames_of(gap_piece(r, r_start, s, e, gap)) =~= remove_range(
                f,
                s - r_start,
                e - r_start,
            ));
        }
    } else {
        lemma_single(r);
        assert(remove_range(f, s - r_start, e - r_start) =~= f);
    }
}

/// How replacing a range with silence splits over a concatenation.
proof fn lemma_gap_frames_concat<G>(x: Seq<Frame<G>>, y: Seq<Frame<G>>, s: int, e: int)
    requires
        0 <= s < e,
    ensures
        gap_frames(x + y, s, e) == if s < x.len() {
            gap_frames(x, s, e) + remove_range(y, s - x.len(), e - x.len())
        } else if s < x.len() + y.len() {
            x + (y.take(s - x.len()) + silent_frames(e - s) + y.skip(
                clip(e - x.len(), y.len() as int),
            ))
        } else {
            x + y
        },
{
    let a = x.len() as int;
    if s < a {
        if e <= a {
            assert(gap_frames(x + y, s, e) =~= gap_frames(x, s, e) + remove_range(y, s - a, e - a));
        } else {
            assert(gap_frames(x + y, s, e) =~= gap_frames(x, s, e) + remove_range(y, s - a, e - a));
        }
    } else if s < a + y.len() {
        assert(gap_frames(x + y, s, e) =~= x + (y.take(s - a) + silent_frames(e - s) + y.skip(
            clip(e - a, y.len() as int),
        )));
    }
}

pub proof fn lemma_gap_cut<G>(rs: Seq<Region<G>>, s: int, e: int, gap: Region<G>)
    requires
        all_wf(rs),
        gap.wf(),
        gap.frames() == silent_frames::<G>(e - s),
        0 <= s < e,
    ensures
        all_wf(gap_cut(rs, s, e, gap)),
        frames_of(gap_cut(rs, s, e, gap)) == gap_frames(frames_of(rs), s, e),
    decreases rs.len(),
{
    lemma_frames_len(rs);
    if rs.len() > 0 {
        let d = rs.drop_last();
        let a = total_len(d) as int;
        let r = rs.last();
        assert(all_wf(d));
        lemma_gap_cut(d, s, e, gap);
        lemma_gap_piece(r, a, s, e, gap);
        lemma_concat(gap_cut(d, s, e, gap), gap_piece(r, a, s, e, gap));
        lemma_all_wf_concat(gap_cut(d, s, e, gap), gap_piece(r, a, s, e, gap));
        lemma_frames_len(d);
        lemma_gap_frames_concat(frames_of(d), r.frames(), s, e);
        if s >= a + r.spec_len() {
            assert(remove_range(r.frames(), s - a, e - a) =~= r.frames());
        }
    }
}

// ---------------------------------------------------------------- insert

/// What inserting `ins` at frame `p` makes of region `r`, which starts at `r_start`;
/// `first` tells whether `r` is the first region. The insertion goes into the first
/// region whose closed frame range holds `p`.
pub open spec fn insert_piece<G>(
    r: Region<G>,
    r_start: int,
    first: bool,
    p: int,
    ins: Seq<Region<G>>,
) -> Seq<Region<G>> {
    let len = r.spec_len() as int;
    if r_start <= p && p <= r_start + len && (first || p > r_start) {
        (if p - r_start > 0 {
            seq![r.spec_slice(0, p - r_start)]
        } else {
            Seq::empty()
        }) + ins + (if r_start + len - p > 0 {
            seq![r.spec_slice(p - r_start, len)]
        } else {
            Seq::empty()
        })
    } else {
        seq![r]
    }
}

pub open spec fn insert_cut<G>(rs: Seq<Region<G>>, p: int, ins: Seq<Region<G>>) -> Seq<Region<G>>
    decreases rs.len(),
{
    if rs.len() == 0 {
        Seq::empty()
    } else {
        insert_cut(rs.drop_last(), p, ins) + insert_piece(
            rs.last(),
            total_len(rs.drop_last()) as int,
            rs.len() == 1,
            p,
            ins,
        )
    }
}

/// `rs` with `ins` inserted at frame `p`; past the end it is appended.
pub open spec fn insert_regions<G>(rs: Seq<Region<G>>, p: int, ins: Seq<Region<G>>) -> Seq<
    Region<G>,
> {
    insert_cut(rs, p, ins) + (if rs.len() == 0 || p > total_len(rs) {
        ins
    } else {
        Seq::empty()
    })
}

pub proof fn lemma_insert_piece<G>(
    r: Region<G>,
    r_start: int,
    first: bool,
    p: int,
    ins: Seq<Region<G>>,
)
    requires
        r.wf(),
        all_wf(ins),
        0 <= r_start <= p,
    ensures
        all_wf(insert_piece(r, r_start, first, p, ins)),
        frames_of(insert_piece(r, r_start, first, p, ins)) == if p <= r_start + r.spec_len() && (
        first || p > r_start) {
            r.frames().take(p - r_start) + frames_of(ins) + r.frames().skip(p - r_start)
        } else {
            r.frames()
        },
{
    let len = r.spec_len() as int;
    let f = r.frames();
    let empty = Seq::<Region<G>>::empty();
    assert(frames_of(empty) =~= Seq::<Frame<G>>::empty());
    if p <= r_start + len && (first || p > r_start) {
        let pre: Seq<Region<G>> = if p - r_start > 0 {
            seq![r.spec_slice(0, p - r_start)]
        } else {
            empty
        };
        let post: Seq<Region<G>> = if r_start + len - p > 0 {
            seq![r.spec_slice(p - r_start, len)]
        } else {
            empty
        };
        lemma_slice(r, 0, p - r_start);
        lemma_slice(r, p - r_start, len);
        lemma_single(r.spec_slice(0, p - r_start));
        lemma_single(r.spec_slice(p - r_start, len));
        lemma_concat(pre, ins);
        lemma_concat(pre + ins, post);
        lemma_all_wf_concat(pre, ins);
        lemma_all_wf_concat(pre + ins, post);
        assert(frames_of(pre) =~= f.take(p - r_start));
        assert(frames_of(post) =~= f.skip(p - r_start));
    } else {
        lemma_single(r);
    }
}

pub proof fn lemma_insert_cut<G>(rs: Seq<Region<G>>, p: int, ins: Seq<Region<G>>)
    requires
        all_wf(rs),
        all_wf(ins),
        0 <= p,
    ensures
        all_wf(insert_cut(rs, p, ins)),
        frames_of(insert_cut(rs, p, ins)) == if rs.len() > 0 && p <= total_len(rs) {
            frames_of(rs).take(p) + frames_of(ins) + frames_of(rs).skip(p)
        } else {
            frames_of(rs)
        },
    decreases rs.len(),
{
    lemma_frames_len(rs);
    if rs.len() > 0 {
        let d = rs.drop_last();
        let a = total_len(d) as int;
        let r = rs.last();
        let big_a = frames_of(d);
        let big_r = r.frames();
        let big_i = frames_of(ins);
        assert(all_wf(d));
        lemma_insert_cut(d, p, ins);
        lemma_frames_len(d);
        lemma_concat(insert_cut(d, p, ins), insert_piece(r, a, rs.len() == 1, p, ins));
        lemma_all_wf_concat(insert_cut(d, p, ins), insert_piece(r, a, rs.len() == 1, p, ins));
        assert(frames_of(rs) == big_a + big_r);
        if d.len() > 0 && p <= a {
            lemma_single(r);
            assert(insert_piece(r, a, rs.len() == 1, p, ins) == seq![r]);
            assert(frames_of(insert_cut(rs, p, ins)) =~= (big_a + big_r).take(p) + big_i + (big_a
                + big_r).skip(p));
        } else {
            if d.len() == 0 {
                assert(a == 0);
            }
            lemma_insert_piece(r, a, rs.len() == 1, p, ins);
            if p <= a + r.spec_len() {
                assert(frames_of(insert_cut(rs, p, ins)) =~= (big_a + big_r).take(p) + big_i + (
                big_a + big_r).skip(p));
            }
        }
    }
}

pub proof fn lemma_insert_regions<G>(rs: Seq<Region<G>>, p: int, ins: Seq<Region<G>>)
    requires
        all_wf(rs),
        all_wf(ins),
        0 <= p,
    ensures
        all_wf(insert_regions(rs, p, ins)),
        frames_of(insert_regions(rs, p, ins)) == frames_of(rs).take(
            clip(p, total_len(rs) as int),
        ) + frames_of(ins) + frames_of(rs).skip(clip(p, total_len(rs) as int)),
{
    lemma_insert_cut(rs, p, ins);
    lemma_frames_len(rs);
    let tail: Seq<Region<G>> = if rs.len() == 0 || p > total_len(rs) {
        ins
    } else {
        Seq::empty()
    };
    assert(frames_of(Seq::<Region<G>>::empty()) =~= Seq::<Frame<G>>::empty());
    lemma_concat(insert_cut(rs, p, ins), tail);
    lemma_all_wf_concat(insert_cut(rs, p, ins), tail);
    let f = frames_of(rs);
    if rs.len() == 0 || p > total_len(rs) {
        assert(frames_of(insert_regions(rs, p, ins)) =~= f.take(clip(p, total_len(rs) as int))
            + frames_of(ins) + f.skip(clip(p, total_len(rs) as int)));
    } else {
        assert(frames_of(insert_regions(rs, p, ins)) =~= f.take(clip(p, total_len(rs) as int))
            + frames_of(ins) + f.skip(clip(p, total_len(rs) as int)));
    }
}


// ---------------------------------------------------------------- splice fades

/// The index `i > 0` of the first region that starts exactly at frame `f`, if any.
pub open spec fn boundary_index<G>(rs: Seq<Region<G>>, f: int) -> Option<int>
    decreases rs.len(),
{
    if rs.len() < 2 {
        None
    } else {
        match boundary_index(rs.drop_last(), f) {
            Some(i) => Some(i),
            None => if total_len(rs.drop_last()) == f {
                Some(rs.len() - 1)
            } else {
                None
            },
        }
    }
}

pub open spec fn splice_fade_len(len: nat) -> usize {
    min_int(DEFAULT_FADE_LEN as int, len as int / 2) as usize
}

/// `rs` with a short fade-out and fade-in put on the two regions that meet at frame `f`
/// (the first such pair); unchanged when no region starts there.
pub open spec fn fades_at<G>(rs: Seq<Region<G>>, f: int) -> Seq<Region<G>> {
    match boundary_index(rs, f) {
        Some(i) => rs.update(
            i - 1,
            rs[i - 1].with_fade_out(splice_fade_len(rs[i - 1].spec_len())),
        ).update(i, rs[i].with_fade_in(splice_fade_len(rs[i].spec_len()))),
        None => rs,
    }
}

pub proof fn lemma_boundary_index_range<G>(rs: Seq<Region<G>>, f: int)
    ensures
        boundary_index(rs, f) matches Some(i) ==> 1 <= i < rs.len(),
    decreases rs.len(),
{
    if rs.len() >= 2 {
        lemma_boundary_index_range(rs.drop_last(), f);
    }
}

/// Once found in a prefix, the boundary stays the same in every longer prefix.
pub proof fn lemma_boundary_index_stable<G>(rs: Seq<Region<G>>, f: int, k: int, m: int)
    requires
        0 <= k <= m <= rs.len(),
        boundary_index(rs.take(k), f) is Some,
    ensures
        boundary_index(rs.take(m), f) == boundary_index(rs.take(k), f),
    decreases m - k,
{
    if m > k {
        lemma_boundary_index_stable(rs, f, k, m - 1);
        assert(rs.take(m).drop_last() =~= rs.take(m - 1));
        lemma_boundary_index_range(rs.take(k), f);
    }
}

/// Splice fades change no frame.
pub proof fn lemma_fades_at<G>(rs: Seq<Region<G>>, f: int)
    requires
        all_wf(rs),
    ensures
        all_wf(fades_at(rs, f)),
        fades_at(rs, f).len() == rs.len(),
        total_len(fades_at(rs, f)) == total_len(rs),
        frames_of(fades_at(rs, f)) == frames_of(rs),
{
    lemma_boundary_index_range(rs, f);
    let x = fades_at(rs, f);
    assert forall|i: int| 0 <= i < rs.len() implies (#[trigger] rs[i]).kind == x[i].kind
        && rs[i].gain == x[i].gain && rs[i].dc_offset == x[i].dc_offset && x[i].wf() by {
        assert(rs[i].wf());
        match boundary_index(rs, f) {
            Some(j) => {
                let y = rs.update(j - 1, rs[j - 1].with_fade_out(splice_fade_len(rs[j - 1].spec_len())));
                assert(y[i].kind == rs[i].kind && y[i].gain == rs[i].gain && y[i].dc_offset == rs[i].dc_offset);
                assert(x[i].kind == y[i].kind && x[i].gain == y[i].gain && x[i].dc_offset == y[i].dc_offset);
            },
            None => {},
        }
    }
    lemma_same_sound(rs, x);
}

// ---------------------------------------------------------------- reversal

/// The regions of `rs` in the opposite order, each flipped: they play `rs` backwards.
pub open spec fn flip_all<G>(rs: Seq<Region<G>>) -> Seq<Region<G>> {
    Seq::new(rs.len(), |i: int| rs[rs.len() - 1 - i].spec_flipped())
}

pub proof fn lemma_flip_all<G>(rs: Seq<Region<G>>)
    requires
        all_wf(rs),
    ensures
        all_wf(flip_all(rs)),
        total_len(flip_all(rs)) == total_len(rs),
        frames_of(flip_all(rs)) == frames_of(rs).reverse(),
    decreases rs.len(),
{
    let x = flip_all(rs);
    assert forall|i: int| 0 <= i < x.len() implies #[trigger] x[i].wf() by {
        lemma_flip(rs[rs.len() - 1 - i]);
    }
    if rs.len() > 0 {
        let d = rs.drop_last();
        let r = rs.last();
        assert(all_wf(d));
        lemma_flip_all(d);
        lemma_flip(r);
        assert(x =~= seq![r.spec_flipped()] + flip_all(d));
        lemma_single(r.spec_flipped());
        lemma_concat(seq![r.spec_flipped()], flip_all(d));
        assert(frames_of(rs) == frames_of(d) + r.frames());
        assert(frames_of(x) =~= frames_of(rs).reverse());
    } else {
        assert(x =~= Seq::<Region<G>>::empty());
        assert(frames_of(rs).reverse() =~= Seq::<Frame<G>>::empty());
    }
}


// ---------------------------------------------------------------- resolving frames

/// What the sequence plays at frame `i`: `None` for silence or past the end.
pub open spec fn resolve_in<G>(rs: Seq<Region<G>>, fades_enabled: bool, i: int) -> Option<
    ResolvedFrame<G>,
>
    decreases rs.len(),
{
    if rs.len() == 0 {
        None
    } else if i < total_len(rs.drop_last()) {
        resolve_in(rs.drop_last(), fades_enabled, i)
    } else if i < total_len(rs) {
        rs.last().resolve_at(i - total_len(rs.drop_last()), fades_enabled)
    } else {
        None
    }
}

proof fn lemma_resolve_prefix_stable<G>(rs: Seq<Region<G>>, fades: bool, i: int, k: int, m: int)
    requires
        0 <= k < m <= rs.len(),
        i < total_len(rs.take(k + 1)),
    ensures
        resolve_in(rs.take(m), fades, i) == resolve_in(rs.take(k + 1), fades, i),
    decreases m - k,
{
    if m > k + 1 {
        lemma_resolve_prefix_stable(rs, fades, i, k, m - 1);
        assert(rs.take(m).drop_last() =~= rs.take(m - 1));
        assert(rs.take(m - 1).take(k + 1) =~= rs.take(k + 1));
        lemma_take_prefix(rs.take(m - 1), k + 1);
    }
}

/// Frame `i` of the sequence is frame `i - offset` of the region `k` that holds it.
pub proof fn lemma_resolve_locate<G>(rs: Seq<Region<G>>, fades: bool, i: int, k: int)
    requires
        0 <= k < rs.len(),
        total_len(rs.take(k)) <= i < total_len(rs.take(k + 1)),
    ensures
        resolve_in(rs, fades, i) == rs[k].resolve_at(i - total_len(rs.take(k)), fades),
{
    lemma_resolve_prefix_stable(rs, fades, i, k, rs.len() as int);
    lemma_take_all(rs);
    lemma_take_step(rs, k);
    assert(rs.take(k + 1).drop_last() =~= rs.take(k));
}

/// Resolving agrees with the frames the sequence plays: silence and the end give `None`,
/// a sourced frame gives its source frame and level.
pub proof fn lemma_resolve_frames<G>(rs: Seq<Region<G>>, fades: bool, i: int)
    requires
        0 <= i,
    ensures
        resolve_in(rs, fades, i) is None <==> (i >= total_len(rs) || frames_of(rs)[i] is Silent),
        resolve_in(rs, fades, i) matches Some(r) ==> frames_of(rs)[i] == (Frame::Sourced {
            source_frame: r.source_frame,
            gain: r.gain,
            dc_offset: r.dc_offset,
        }),
    decreases rs.len(),
{
    lemma_frames_len(rs);
    if rs.len() > 0 {
        let d = rs.drop_last();
        lemma_frames_len(d);
        lemma_resolve_frames(d, fades, i);
        if i < total_len(d) {
            assert(frames_of(rs)[i] == frames_of(d)[i]);
        } else if i < total_len(rs) {
            assert(frames_of(rs)[i] == rs.last().frames()[i - total_len(d)]);
        }
    }
}

} // verus!
