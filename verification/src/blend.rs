//! Mixing a tile into a waveform without a click at its edges.
//!
//! A tile is mixed in under a triangular window: the weight of the tile is
//! nothing at the tile's first sample, grows by one part in `span` with
//! every sample up to a half in the middle, and falls back in the same
//! way. What is mixed in is the difference to the tile, so a sample
//! never leaves the stretch between what it was and what the tile holds.

use vstd::prelude::*;

verus! {

/// The weight, in parts of `span`, of the tile at its sample `u`.
pub open spec fn tri(u: int, span: int) -> int {
    if u <= span - u {
        u
    } else {
        span - u
    }
}

/// `w` parts in `span` of the difference `d`, rounded towards zero.
pub open spec fn pull(d: int, w: int, span: int) -> int {
    if d >= 0 {
        (d * w) / span
    } else {
        -(((-d) * w) / span)
    }
}

/// The sample `a` with `w` parts in `span` of its difference to `v` added.
pub open spec fn blended(a: i32, v: i32, w: int, span: int) -> i32 {
    (a + pull(v - a, w, span)) as i32
}

/// The window is nothing at a tile's first sample, changes by one part
/// from each sample to the next, and never passes a half.
pub proof fn lemma_tri_shape(u: int, span: int)
    requires
        0 <= u < span,
    ensures
        0 <= tri(u, span),
        2 * tri(u, span) <= span,
        tri(0, span) == 0,
        u + 1 < span ==> -1 <= tri(u + 1, span) - tri(u, span) <= 1,
        u + 1 == span ==> tri(u, span) <= 1,
{
}

/// A part of a difference is no larger than the difference and has its
/// sign, and it is as many parts of it as the weight says, rounded towards
/// zero.
pub proof fn lemma_pull_bounds(d: int, w: int, span: int)
    requires
        0 <= w <= span,
        0 < span,
    ensures
        d >= 0 ==> 0 <= pull(d, w, span) <= d,
        d <= 0 ==> d <= pull(d, w, span) <= 0,
        w == 0 ==> pull(d, w, span) == 0,
        d >= 0 ==> pull(d, w, span) * span <= d * w,
        d <= 0 ==> pull(d, w, span) * span >= d * w,
{
    let m = if d >= 0 {
        d
    } else {
        -d
    };
    assert(0 <= (m * w) / span <= m && ((m * w) / span) * span <= m * w) by (nonlinear_arith)
        requires
            0 <= w <= span,
            0 < span,
            0 <= m,
    ;
    assert(w == 0 ==> (m * w) / span == 0) by (nonlinear_arith)
        requires
            0 < span,
    ;
    assert(d == 0 ==> d * w == 0) by (nonlinear_arith);
    if d < 0 {
        assert((-d) * w == -(d * w)) by (nonlinear_arith);
        assert((-(((-d) * w) / span)) * span == -((((-d) * w) / span) * span))
            by (nonlinear_arith);
    }
}

/// A blended sample lies between the sample it was and the tile's.
pub proof fn lemma_blended_between(a: i32, v: i32, w: int, span: int)
    requires
        0 <= w <= span,
        0 < span,
    ensures
        a <= v ==> a <= blended(a, v, w, span) <= v,
        v <= a ==> v <= blended(a, v, w, span) <= a,
        w == 0 ==> blended(a, v, w, span) == a,
{
    lemma_pull_bounds(v - a, w, span);
}

/// The sample `a` with `w` parts in `span` of its difference to `v` added.
pub fn blend(a: i32, v: i32, w: usize, span: usize) -> (r: i32)
    requires
        0 < span,
        w <= span,
    ensures
        r == blended(a, v, w as int, span as int),
{
    let d: i64 = v as i64 - a as i64;
    let size: u128 = if d >= 0 {
        d as u128
    } else {
        (-d) as u128
    };
    proof {
        lemma_pull_bounds(d as int, w as int, span as int);
        assert(size * w <= 0xFFFF_FFFF * 0xFFFF_FFFF_FFFF_FFFF) by (nonlinear_arith)
            requires
                0 <= size <= 0xFFFF_FFFF,
                0 <= w <= 0xFFFF_FFFF_FFFF_FFFF,
        ;
    }
    let step: u128 = (size * (w as u128)) / (span as u128);
    if d >= 0 {
        (a as i64 + step as i64) as i32
    } else {
        (a as i64 - step as i64) as i32
    }
}

} // verus!
