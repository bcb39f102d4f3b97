//! The integer side of the peak pyramid: which level of the pyramid serves a zoom level,
//! and which blocks of that level each pixel covers. The peak values themselves are
//! floating point and live with the caller.
use vstd::prelude::*;
use vstd::arithmetic::div_mod::{
    lemma_fundamental_div_mod, lemma_fundamental_div_mod_converse, lemma_mod_pos_bound,
    lemma_div_multiples_vanish,
};

verus! {

/// Frames per block at level 0; each level above doubles it.
pub const BASE_BLOCK_SIZE: usize = 256;

/// The most levels a pyramid has.
pub const NUM_LEVELS: usize = 14;

/// Frames per block at level `level`.
pub open spec fn level_block_size(level: nat) -> nat
    decreases level,
{
    if level == 0 {
        BASE_BLOCK_SIZE as nat
    } else {
        2 * level_block_size((level - 1) as nat)
    }
}

/// The first level from `level` up whose blocks hold at least `ideal` frames; the top
/// level when none does.
pub open spec fn first_fitting_level(level: nat, num_levels: nat, ideal: nat) -> nat
    decreases num_levels - level,
{
    if level >= num_levels {
        (num_levels - 1) as nat
    } else if level_block_size(level) >= ideal {
        level
    } else {
        first_fitting_level(level + 1, num_levels, ideal)
    }
}

/// The level whose block size serves `ideal_block_size` frames per pixel: level 0 when
/// the base blocks are small enough, else the first level with blocks at least that large,
/// else the top level.
pub open spec fn spec_select_level(num_levels: nat, ideal_block_size: nat) -> nat {
    if ideal_block_size <= BASE_BLOCK_SIZE {
        0
    } else {
        first_fitting_level(1, num_levels, ideal_block_size)
    }
}

proof fn lemma_block_size_bound(level: nat)
    requires
        level < NUM_LEVELS,
    ensures
        level_block_size(level) <= 0x200000,
        level_block_size(level) > 0,
{
    reveal_with_fuel(level_block_size, 15);
    if level == 0 {
        assert(level_block_size(0) == 256);
    } else if level == 1 {
        assert(level_block_size(1) == 512);
    } else if level == 2 {
        assert(level_block_size(2) == 1024);
    } else if level == 3 {
        assert(level_block_size(3) == 2048);
    } else if level == 4 {
        assert(level_block_size(4) == 4096);
    } else if level == 5 {
        assert(level_block_size(5) == 8192);
    } else if level == 6 {
        assert(level_block_size(6) == 16384);
    } else if level == 7 {
        assert(level_block_size(7) == 32768);
    } else if level == 8 {
        assert(level_block_size(8) == 65536);
    } else if level == 9 {
        assert(level_block_size(9) == 131072);
    } else if level == 10 {
        assert(level_block_size(10) == 262144);
    } else if level == 11 {
        assert(level_block_size(11) == 524288);
    } else if level == 12 {
        assert(level_block_size(12) == 1048576);
    } else if level == 13 {
        assert(level_block_size(13) == 2097152);
    }
}

pub fn select_level(num_levels: usize, ideal_block_size: usize) -> (r: usize)
    requires
        1 <= num_levels <= NUM_LEVELS,
    ensures
        r == spec_select_level(num_levels as nat, ideal_block_size as nat),
        r < num_levels,
{
    if ideal_block_size <= BASE_BLOCK_SIZE {
        return 0;
    }
    let mut level: usize = 1;
    let mut block_size: usize = BASE_BLOCK_SIZE * 2;
    proof {
        reveal_with_fuel(level_block_size, 2);
    }
    while level < num_levels
        invariant
            1 <= level <= num_levels <= NUM_LEVELS,
            block_size == level_block_size(level as nat),
            ideal_block_size > BASE_BLOCK_SIZE,
            spec_select_level(num_levels as nat, ideal_block_size as nat) == first_fitting_level(
                level as nat,
                num_levels as nat,
                ideal_block_size as nat,
            ),
        decreases num_levels - level,
    {
        if block_size >= ideal_block_size {
            return level;
        }
        proof {
            lemma_block_size_bound(level as nat);
        }
        level += 1;
        block_size = block_size * 2;
    }
    num_levels - 1
}

/// The blocks `block_start..block_end` of a level with blocks of `block_size` frames and
/// `level_len` blocks that pixel `px` covers, when `num_pixels` pixels show the frames
/// `start_frame..end_frame`; clamped to the level.
pub open spec fn pixel_blocks(
    start_frame: nat,
    end_frame: nat,
    num_pixels: nat,
    block_size: nat,
    level_len: nat,
    px: nat,
) -> (nat, nat) {
    let span = (end_frame - start_frame) as nat;
    let frame_start = start_frame + (span * px) / num_pixels;
    let frame_end = start_frame + (span * (px + 1)) / num_pixels;
    let block_start = frame_start / block_size;
    let block_end = ((frame_end + block_size - 1) as nat) / block_size;
    (
        if block_start <= level_len {
            block_start
        } else {
            level_len
        },
        if block_end <= level_len {
            block_end
        } else {
            level_len
        },
    )
}

/// For each of `num_pixels` pixels showing the frames `start_frame..end_frame`, the range
/// of blocks of the level that it covers.
pub fn pixel_block_ranges(
    start_frame: usize,
    end_frame: usize,
    num_pixels: usize,
    block_size: usize,
    level_len: usize,
) -> (r: Vec<(usize, usize)>)
    requires
        start_frame < end_frame,
        num_pixels > 0,
        block_size > 0,
        (end_frame - start_frame) * num_pixels <= usize::MAX,
        end_frame + block_size <= usize::MAX,
    ensures
        r@.len() == num_pixels,
        forall|px: int|
            0 <= px < num_pixels ==> {
                let b = pixel_blocks(
                    start_frame as nat,
                    end_frame as nat,
                    num_pixels as nat,
                    block_size as nat,
                    level_len as nat,
                    px as nat,
                );
                (#[trigger] r@[px]).0 == b.0 && r@[px].1 == b.1
            },
{
    let span = end_frame - start_frame;
    let mut out: Vec<(usize, usize)> = Vec::new();
    let mut px: usize = 0;
    while px < num_pixels
        invariant
            px <= num_pixels,
            span == end_frame - start_frame,
            start_frame < end_frame,
            num_pixels > 0,
            block_size > 0,
            span * num_pixels <= usize::MAX,
            end_frame + block_size <= usize::MAX,
            out@.len() == px,
            forall|q: int|
                0 <= q < px ==> {
                    let b = pixel_blocks(
                        start_frame as nat,
                        end_frame as nat,
                        num_pixels as nat,
                        block_size as nat,
                        level_len as nat,
                        q as nat,
                    );
                    (#[trigger] out@[q]).0 == b.0 && out@[q].1 == b.1
                },
        decreases num_pixels - px,
    {
        proof {
            assert(span * px <= span * num_pixels) by (nonlinear_arith)
                requires
                    px < num_pixels,
            ;
            assert(span * (px + 1) <= span * num_pixels) by (nonlinear_arith)
                requires
                    px < num_pixels,
            ;
            assert((span * (px + 1)) / (num_pixels as int) <= span) by (nonlinear_arith)
                requires
                    px < num_pixels,
                    num_pixels > 0,
            ;
            assert((span * px) / (num_pixels as int) <= span) by (nonlinear_arith)
                requires
                    px < num_pixels,
                    num_pixels > 0,
            ;
        }
        let frame_start = start_frame + (span * px) / num_pixels;
        let frame_end = start_frame + (span * (px + 1)) / num_pixels;
        let block_start = frame_start / block_size;
        let block_end = (frame_end + block_size - 1) / block_size;
        let block_start = if block_start <= level_len {
            block_start
        } else {
            level_len
        };
        let block_end = if block_end <= level_len {
            block_end
        } else {
            level_len
        };
        out.push((block_start, block_end));
        px += 1;
    }
    out
}

/// Moving `x` on by `k` whole blocks moves its block index on by `k`.
proof fn lemma_div_shift(x: int, k: int, d: int)
    requires
        d > 0,
        x >= 0,
        k >= 0,
    ensures
        (x + k * d) / d == x / d + k,
{
    lemma_fundamental_div_mod(x, d);
    lemma_mod_pos_bound(x, d);
    assert(x + k * d == (x / d + k) * d + x % d) by (nonlinear_arith)
        requires
            x == d * (x / d) + x % d,
    ;
    lemma_fundamental_div_mod_converse(x + k * d, d, x / d + k, x % d);
}

/// Scrolling the view by whole blocks shifts every pixel's blocks by as many blocks: the
/// blocks a pixel covers depend on where the view starts, not only on its width.
pub proof fn law_pixel_blocks_follow_scroll(
    start_frame: nat,
    end_frame: nat,
    num_pixels: nat,
    block_size: nat,
    level_len: nat,
    px: nat,
    k: nat,
)
    requires
        num_pixels > 0,
        block_size > 0,
    ensures
        ({
            let b = pixel_blocks(start_frame, end_frame, num_pixels, block_size, level_len, px);
            let shifted = pixel_blocks(
                start_frame + k * block_size,
                end_frame + k * block_size,
                num_pixels,
                block_size,
                level_len + k,
                px,
            );
            shifted == (b.0 + k, b.1 + k)
        }),
{
    let span = (end_frame - start_frame) as nat;
    assert(((end_frame + k * block_size) - (start_frame + k * block_size)) as nat == span);
    let f0 = start_frame + (span * px) / num_pixels;
    let f1 = start_frame + (span * (px + 1)) / num_pixels;
    lemma_div_shift(f0 as int, k as int, block_size as int);
    lemma_div_shift((f1 + block_size - 1) as int, k as int, block_size as int);
    assert(((f1 + k * block_size) + block_size - 1) as int == (f1 + block_size - 1) + k * block_size);
}

/// The first pixel starts at the block that holds the first frame of the view, and the
/// last pixel ends at the block boundary at or after the view's end (both clamped to the
/// level): together the pixels cover exactly the view.
pub proof fn law_pixel_blocks_cover_view(
    start_frame: nat,
    end_frame: nat,
    num_pixels: nat,
    block_size: nat,
    level_len: nat,
)
    requires
        start_frame < end_frame,
        num_pixels > 0,
        block_size > 0,
    ensures
        ({
            let first = pixel_blocks(start_frame, end_frame, num_pixels, block_size, level_len, 0).0;
            let last = pixel_blocks(start_frame, end_frame, num_pixels, block_size, level_len, (num_pixels - 1) as nat).1;
            &&& first == if start_frame / block_size <= level_len { start_frame / block_size } else { level_len }
            &&& first < level_len ==> first * block_size <= start_frame < (first + 1) * block_size
            &&& last < level_len ==> (last - 1) * block_size < end_frame <= last * block_size
        }),
{
    let span = (end_frame - start_frame) as nat;
    assert(span * 0 == 0);
    assert((span * ((num_pixels - 1) as nat + 1)) == num_pixels * span) by (nonlinear_arith)
        requires
            num_pixels > 0,
    ;
    lemma_div_multiples_vanish(span as int, num_pixels as int);
    let q0 = start_frame / block_size;
    lemma_fundamental_div_mod(start_frame as int, block_size as int);
    lemma_mod_pos_bound(start_frame as int, block_size as int);
    assert(q0 * block_size <= start_frame < (q0 + 1) * block_size) by (nonlinear_arith)
        requires
            start_frame == block_size * q0 + start_frame % block_size,
            0 <= start_frame % block_size < block_size,
    ;
    let x = (end_frame + block_size - 1) as int;
    let q1 = x / (block_size as int);
    lemma_fundamental_div_mod(x, block_size as int);
    lemma_mod_pos_bound(x, block_size as int);
    assert((q1 - 1) * block_size < end_frame <= q1 * block_size) by (nonlinear_arith)
        requires
            x == block_size * q1 + x % (block_size as int),
            0 <= x % (block_size as int) < block_size,
            x == end_frame + block_size - 1,
    ;
}

} // verus!
