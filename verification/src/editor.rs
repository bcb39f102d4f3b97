//! The editor's decisions about positions: where playback starts, loops and stops, how
//! markers follow an edit, and how a drag or click makes a selection.
use vstd::prelude::*;

verus! {

/// In and out points restrict playback when they differ from the whole timeline.
pub open spec fn spec_has_in_out(in_point: usize, out_point: usize, total_frames: usize) -> bool {
    in_point > 0 || out_point < total_frames
}

pub fn has_in_out(in_point: usize, out_point: usize, total_frames: usize) -> (r: bool)
    ensures
        r == spec_has_in_out(in_point, out_point, total_frames),
{
    in_point > 0 || out_point < total_frames
}

/// What a loop covers: the selection, else the in/out range when it is set, else the whole
/// timeline (no end).
pub open spec fn spec_loop_range(
    selection: Option<(usize, usize)>,
    in_point: usize,
    out_point: usize,
    total_frames: usize,
) -> (usize, Option<usize>) {
    match selection {
        Some((s, e)) => (s, Some(e)),
        None => if spec_has_in_out(in_point, out_point, total_frames) {
            (in_point, Some(out_point))
        } else {
            (0, None)
        },
    }
}

/// Where non-looping playback stops: the selection end, else the out point when in/out is
/// set, else nowhere before the end.
pub open spec fn spec_stop_boundary(
    selection: Option<(usize, usize)>,
    in_point: usize,
    out_point: usize,
    total_frames: usize,
) -> Option<usize> {
    match selection {
        Some((_, e)) => Some(e),
        None => if spec_has_in_out(in_point, out_point, total_frames) {
            Some(out_point)
        } else {
            None
        },
    }
}

/// Where Stop puts the playhead: the in point when in/out is set, else the top.
pub open spec fn spec_stop_position(in_point: usize, out_point: usize, total_frames: usize) -> usize {
    if spec_has_in_out(in_point, out_point, total_frames) {
        in_point
    } else {
        0
    }
}

/// Without a selection, playback is bounded by the in and out points: Stop always returns
/// to the in point and a loop always starts there, and playback runs unbounded (loop
/// without end, no stop point) only when neither marker restricts the timeline, that is
/// when the in point is at the top and the out point at or past the end.
pub proof fn law_markers_bound_playback(in_point: usize, out_point: usize, total_frames: usize)
    ensures
        spec_stop_position(in_point, out_point, total_frames) == in_point,
        spec_loop_range(None, in_point, out_point, total_frames).0 == in_point,
        spec_loop_range(None, in_point, out_point, total_frames).1 is None <==> (in_point == 0
            && out_point >= total_frames),
        spec_stop_boundary(None, in_point, out_point, total_frames) is None <==> (in_point == 0
            && out_point >= total_frames),
        spec_loop_range(None, in_point, out_point, total_frames).1 is Some ==> spec_loop_range(
            None,
            in_point,
            out_point,
            total_frames,
        ).1 == Some(out_point),
{
}

/// Where Play starts: the selection start, else the playhead; from the top when that is at
/// or past the end of a non-empty timeline.
pub fn play_start(selection: Option<(usize, usize)>, playhead: usize, total_frames: usize) -> (r:
    usize)
    ensures
        ({
            let from = match selection {
                Some((s, _)) => s,
                None => playhead,
            };
            r == if from >= total_frames && total_frames > 0 {
                0
            } else {
                from
            }
        }),
{
    let from = match selection {
        Some((s, _)) => s,
        None => playhead,
    };
    if from >= total_frames && total_frames > 0 {
        0
    } else {
        from
    }
}

/// What a loop covers: the selection, else the in/out range when it is set, else the whole
/// timeline (no end).
pub fn loop_range(
    selection: Option<(usize, usize)>,
    in_point: usize,
    out_point: usize,
    total_frames: usize,
) -> (r: (usize, Option<usize>))
    ensures
        r == spec_loop_range(selection, in_point, out_point, total_frames),
{
    match selection {
        Some((s, e)) => (s, Some(e)),
        None => if has_in_out(in_point, out_point, total_frames) {
            (in_point, Some(out_point))
        } else {
            (0, None)
        },
    }
}

/// Where non-looping playback stops: the selection end, else the out point when in/out is
/// set, else nowhere before the end.
pub fn stop_boundary(
    selection: Option<(usize, usize)>,
    in_point: usize,
    out_point: usize,
    total_frames: usize,
) -> (r: Option<usize>)
    ensures
        r == spec_stop_boundary(selection, in_point, out_point, total_frames),
{
    match selection {
        Some((_, e)) => Some(e),
        None => if has_in_out(in_point, out_point, total_frames) {
            Some(out_point)
        } else {
            None
        },
    }
}

/// Where Stop puts the playhead: the in point when in/out is set, else the top.
pub fn stop_position(in_point: usize, out_point: usize, total_frames: usize) -> (r: usize)
    ensures
        r == spec_stop_position(in_point, out_point, total_frames),
{
    if has_in_out(in_point, out_point, total_frames) {
        in_point
    } else {
        0
    }
}

/// Where a marker goes when `start..end` is ripple-deleted: markers after the cut move back
/// by its length, markers inside it go to its start.
pub fn shift_after_ripple(point: usize, start: usize, end: usize) -> (r: usize)
    requires
        start <= end,
    ensures
        r == if point >= end {
            point - (end - start)
        } else if point > start {
            start as int
        } else {
            point as int
        },
{
    if point >= end {
        point - (end - start)
    } else if point > start {
        start
    } else {
        point
    }
}

/// In and out points kept inside a timeline of `total_frames` frames, the out point not
/// before the in point.
pub fn clamp_in_out(in_point: usize, out_point: usize, total_frames: usize) -> (r: (usize, usize))
    ensures
        r.0 == if in_point <= total_frames {
            in_point
        } else {
            total_frames
        },
        r.1 == ({
            let o = if out_point <= total_frames {
                out_point
            } else {
                total_frames
            };
            if o >= r.0 {
                o
            } else {
                r.0
            }
        }),
        r.0 <= r.1 <= total_frames,
{
    let i = if in_point <= total_frames {
        in_point
    } else {
        total_frames
    };
    let o = if out_point <= total_frames {
        out_point
    } else {
        total_frames
    };
    let o = if o >= i {
        o
    } else {
        i
    };
    (i, o)
}

/// How far a nudge moves the playhead: a hundredth of a second, at least one frame.
pub fn nudge_step(sample_rate: u32) -> (r: usize)
    ensures
        r == if sample_rate / 100 >= 1 {
            (sample_rate / 100) as usize
        } else {
            1
        },
{
    let step = sample_rate / 100;
    if step >= 1 {
        step as usize
    } else {
        1
    }
}

/// The playhead nudged left by `step`, not before the top.
pub fn nudge_left(playhead: usize, step: usize) -> (r: usize)
    ensures
        r == if playhead >= step {
            playhead - step
        } else {
            0
        },
{
    if playhead >= step {
        playhead - step
    } else {
        0
    }
}

/// The playhead nudged right by `step`, not past the end.
pub fn nudge_right(playhead: usize, step: usize, total_frames: usize) -> (r: usize)
    requires
        playhead + step <= usize::MAX,
    ensures
        r == if playhead + step <= total_frames {
            playhead + step
        } else {
            total_frames as int
        },
{
    let p = playhead + step;
    if p <= total_frames {
        p
    } else {
        total_frames
    }
}

/// The selection after duplicating `start..end`: the copy, right after the copied range.
pub fn duplicate_selection(start: usize, end: usize) -> (r: (usize, usize))
    requires
        start <= end,
        end + (end - start) <= usize::MAX,
    ensures
        r == (end, (end + (end - start)) as usize),
{
    (end, end + (end - start))
}

/// The anchor that a shift-drag or shift-click at `frame` extends from: the far end of the
/// selection (the end when `frame` is before its middle), else the playhead.
pub fn drag_anchor(selection: Option<(usize, usize)>, playhead: usize, frame: usize) -> (r: usize)
    ensures
        r == match selection {
            Some((s, e)) => if frame < (s + e) / 2 {
                e
            } else {
                s
            },
            None => playhead,
        },
{
    match selection {
        Some((s, e)) => {
            let mid = s / 2 + e / 2 + (s % 2 + e % 2) / 2;
            if frame < mid {
                e
            } else {
                s
            }
        },
        None => playhead,
    }
}

/// The selection between two frames, in order; none when they coincide.
pub fn ordered_selection(anchor: usize, frame: usize) -> (r: Option<(usize, usize)>)
    ensures
        r == if anchor < frame {
            Some((anchor, frame))
        } else if frame < anchor {
            Some((frame, anchor))
        } else {
            None::<(usize, usize)>
        },
{
    let (a, b) = if anchor <= frame {
        (anchor, frame)
    } else {
        (frame, anchor)
    };
    if b > a {
        Some((a, b))
    } else {
        None
    }
}

/// Selecting everything: the whole timeline, when it is not empty.
pub fn select_all(total_frames: usize) -> (r: Option<(usize, usize)>)
    ensures
        r == if total_frames > 0 {
            Some((0usize, total_frames))
        } else {
            None::<(usize, usize)>
        },
{
    if total_frames > 0 {
        Some((0, total_frames))
    } else {
        None
    }
}

/// What a request to quit leads to.
#[derive(Clone, Copy, Debug, PartialEq, Eq, Structural)]
pub enum QuitResponse {
    /// Nothing happens: no request, or the unsaved-changes prompt is already showing.
    Ignore,
    /// The window closes.
    Close,
    /// Closing is held back and the unsaved-changes prompt is shown.
    Confirm,
}

/// A quit request closes the window at once when nothing is unsaved, and asks first when
/// something is; while the prompt is showing, further requests are ignored.
pub fn quit_response(requested: bool, prompt_showing: bool, dirty: bool) -> (r: QuitResponse)
    ensures
        r == if requested && !prompt_showing {
            if dirty {
                QuitResponse::Confirm
            } else {
                QuitResponse::Close
            }
        } else {
            QuitResponse::Ignore
        },
{
    if requested && !prompt_showing {
        if dirty {
            QuitResponse::Confirm
        } else {
            QuitResponse::Close
        }
    } else {
        QuitResponse::Ignore
    }
}

} // verus!
