//! Tile composition: a small template waveform is worked into a large
//! reference waveform at several resolutions.
//!
//! The levels are taken from the coarsest to the finest, each on the
//! result of the one before. At level `n` both waveforms are looked at in
//! their coarse form of that level. The reference is cut into tiles, each
//! as long as half the template. For every tile the stretch of the
//! template that fits it best is found, and is mixed into the tile under a
//! triangular window. So the coarse levels bring in the template's broad
//! shape, and the fine ones its detail.
//!
//! What is left open elsewhere is settled as follows.
//! - A level at which the template has no sample left, or no tile fits
//!   into the reference, changes nothing. So a template more than twice
//!   as long as the reference changes nothing at all, and neither does an
//!   empty one.
//! - What is left of the reference behind its last whole tile stays as it
//!   is.
//! - The result is as long as the reference, and no sample of it lies
//!   outside the range that the samples of the two waveforms span.
//! - Tiles do not click. At a tile's first sample a level adds nothing,
//!   and at its last no more than the width of that range divided by the
//!   number of samples in the tile; in between what it adds follows the
//!   window.

use vstd::prelude::*;
use vstd::arithmetic::div_mod::lemma_fundamental_div_mod_converse;
use crate::blend::{blend, blended, lemma_blended_between, lemma_pull_bounds, pull, tri};
use crate::error::SoundError;
use crate::matching::{best_offset, find_best, lemma_best_is_first_least};
use crate::pyramid::{
    coarsen,
    copied,
    depth,
    lemma_pyramid_len,
    lemma_pyramid_within,
    lemma_stride_grows,
    pyramid,
    stride,
    stride_within,
    within,
};

verus! {

/// How many samples of a coarse template go into one tile: half of them,
/// rounded up.
pub open spec fn patch_len(m: nat) -> nat {
    (m + 1) / 2
}

/// How many whole tiles of `q` samples fit into `n` samples.
pub open spec fn tiles(n: nat, q: nat) -> nat {
    if q == 0 {
        0
    } else {
        n / q
    }
}

/// How many samples of the reference one tile of the given level covers.
pub open spec fn tile_span(small: Seq<i32>, level: nat) -> nat {
    patch_len(pyramid(small, level).len()) * stride(level)
}

/// Whether sample `i` of the reference lies in a tile of the given level.
pub open spec fn in_tile(cur: Seq<i32>, small: Seq<i32>, level: nat, i: int) -> bool {
    let q = patch_len(pyramid(small, level).len());
    q > 0 && i / (tile_span(small, level) as int) < tiles(pyramid(cur, level).len(), q)
}

/// What the template holds for sample `i` of the reference, which lies in
/// a tile of the given level: the sample of the coarse template that
/// stands at its place in the best fitting stretch.
pub open spec fn tile_sample(cur: Seq<i32>, small: Seq<i32>, level: nat, i: int) -> i32 {
    let t = pyramid(small, level);
    let q = patch_len(t.len());
    let span = tile_span(small, level) as int;
    let offset = best_offset(pyramid(cur, level), t, (i / span) * q, q);
    t[offset + (i % span) / (stride(level) as int)]
}

/// Sample `i` of the reference after the given level was worked in.
pub open spec fn level_value(cur: Seq<i32>, small: Seq<i32>, level: nat, i: int) -> i32 {
    if in_tile(cur, small, level, i) {
        let span = tile_span(small, level) as int;
        blended(cur[i], tile_sample(cur, small, level, i), tri(i % span, span), span)
    } else {
        cur[i]
    }
}

/// The reference after the given level was worked in.
pub open spec fn level_applied(cur: Seq<i32>, small: Seq<i32>, level: nat) -> Seq<i32> {
    Seq::new(cur.len(), |i: int| level_value(cur, small, level, i))
}

/// The reference after the given number of levels were worked in, from
/// the coarsest, which is one less than that number, down to level 0.
pub open spec fn composed(big: Seq<i32>, small: Seq<i32>, levels: nat) -> Seq<i32>
    decreases levels,
{
    if levels == 0 {
        big
    } else {
        composed(level_applied(big, small, (levels - 1) as nat), small, (levels - 1) as nat)
    }
}

/// How tiles lie in the reference: a tile is not empty and no longer than
/// the template, and the whole tiles end before the reference does.
proof fn lemma_tiling(big: int, small: int, s: int, n: int, m: int, q: int, span: int, count: int)
    requires
        s >= 1,
        big >= 0,
        small >= 0,
        n == big / s,
        m == small / s,
        m >= 1,
        q == m - m / 2,
        span == q * s,
        count == n / q,
    ensures
        1 <= q <= m,
        q == patch_len(m as nat),
        1 <= span <= small,
        0 <= count,
        count * q <= n,
        0 <= count * span <= big,
{
    assert(count * q <= n && 0 <= count) by (nonlinear_arith)
        requires
            count == n / q,
            q >= 1,
            n >= 0,
    ;
    assert(n * s <= big && n >= 0) by (nonlinear_arith)
        requires
            n == big / s,
            s >= 1,
            big >= 0,
    ;
    assert(m * s <= small) by (nonlinear_arith)
        requires
            m == small / s,
            s >= 1,
            small >= 0,
    ;
    assert(0 <= count * span <= big) by (nonlinear_arith)
        requires
            span == q * s,
            count * q <= n,
            n * s <= big,
            s >= 1,
            count >= 0,
            q >= 1,
    ;
    assert(1 <= span <= small) by (nonlinear_arith)
        requires
            span == q * s,
            1 <= q <= m,
            s >= 1,
            m * s <= small,
    ;
}

/// Where sample `u` of tile `j` lies: in the reference, and in the tile's
/// coarse form.
proof fn lemma_tile_place(j: int, u: int, q: int, s: int, span: int, count: int, n: int)
    requires
        q >= 1,
        s >= 1,
        span == q * s,
        0 <= u < span,
        0 <= j < count,
        count * q <= n,
    ensures
        (j * span + u) / span == j,
        (j * span + u) % span == u,
        0 <= u / s < q,
        j * q + q <= n,
        j * q >= 0,
        j * span >= 0,
        j * span + span <= count * span,
{
    lemma_fundamental_div_mod_converse(j * span + u, span, j, u);
    assert(0 <= u / s < q) by (nonlinear_arith)
        requires
            u < q * s,
            s >= 1,
            q >= 1,
            u >= 0,
    ;
    assert(j * q + q <= count * q && j * q >= 0) by (nonlinear_arith)
        requires
            j < count,
            q >= 1,
            j >= 0,
    ;
    assert(j * span + span <= count * span && j * span >= 0) by (nonlinear_arith)
        requires
            j < count,
            span >= 1,
            j >= 0,
    ;
}

/// A sample behind the last whole tile lies in no tile.
proof fn lemma_behind_tiles(i: int, span: int, count: int)
    requires
        span >= 1,
        count >= 0,
        i >= count * span,
    ensures
        i / span >= count,
{
    assert(i / span >= count) by (nonlinear_arith)
        requires
            span >= 1,
            i >= count * span,
            count >= 0,
    ;
}

/// Works one level of the template into the reference.
#[verifier::loop_isolation(false)]
pub fn apply_level(cur: &[i32], small: &[i32], level: u32) -> (out: Vec<i32>)
    ensures
        out@ == level_applied(cur@, small@, level as nat),
{
    proof {
        lemma_pyramid_len(small@, level as nat);
        lemma_pyramid_len(cur@, level as nat);
    }
    let s: usize = match stride_within(level, small.len()) {
        Some(s) => s,
        None => {
            let same = copied(cur);
            proof {
                let len = small@.len() as int;
                let big = stride(level as nat) as int;
                assert(len / big == 0) by (nonlinear_arith)
                    requires
                        0 <= len < big,
                ;
                assert(same@ =~= level_applied(cur@, small@, level as nat));
            }
            return same;
        },
    };
    let t = coarsen(small, level);
    let b = coarsen(cur, level);
    let m: usize = t.len();
    let n: usize = b.len();
    proof {
        let len = small@.len() as int;
        let st = s as int;
        assert(len / st >= 1) by (nonlinear_arith)
            requires
                1 <= st <= len,
        ;
    }
    let q: usize = m - m / 2;
    let count: usize = n / q;
    proof {
        lemma_tiling(
            cur@.len() as int,
            small@.len() as int,
            s as int,
            n as int,
            m as int,
            q as int,
            q * s,
            count as int,
        );
    }
    let span: usize = q * s;
    proof {
        lemma_tiling(
            cur@.len() as int,
            small@.len() as int,
            s as int,
            n as int,
            m as int,
            q as int,
            span as int,
            count as int,
        );
    }
    assert(span == tile_span(small@, level as nat));
    assert(count * span <= cur.len());
    let mut out: Vec<i32> = Vec::new();
    let mut j: usize = 0;
    while j < count
        invariant
            j <= count,
            out@.len() == j * span,
            forall|i: int|
                0 <= i < out@.len() ==> out@[i] == level_value(cur@, small@, level as nat, i),
        decreases count - j,
    {
        proof {
            lemma_tile_place(j as int, 0, q as int, s as int, span as int, count as int, n as int);
        }
        let start: usize = j * span;
        let offset: usize = find_best(b.as_slice(), t.as_slice(), j * q, q);
        let mut u: usize = 0;
        while u < span
            invariant
                u <= span,
                out@.len() == start + u,
                forall|i: int|
                    0 <= i < out@.len() ==> out@[i] == level_value(cur@, small@, level as nat, i),
            decreases span - u,
        {
            proof {
                lemma_tile_place(
                    j as int,
                    u as int,
                    q as int,
                    s as int,
                    span as int,
                    count as int,
                    n as int,
                );
            }
            let i: usize = start + u;
            let w: usize = if u <= span - u {
                u
            } else {
                span - u
            };
            let r: i32 = blend(cur[i], t[offset + u / s], w, span);
            assert(in_tile(cur@, small@, level as nat, i as int));
            assert(r == level_value(cur@, small@, level as nat, i as int));
            out.push(r);
            u += 1;
        }
        j += 1;
        assert(out@.len() == j * span) by (nonlinear_arith)
            requires
                out@.len() == start + span,
                start == (j - 1) * span,
        ;
    }
    let mut i: usize = count * span;
    while i < cur.len()
        invariant
            count * span <= i <= cur.len(),
            out@.len() == i,
            forall|k: int|
                0 <= k < out@.len() ==> out@[k] == level_value(cur@, small@, level as nat, k),
        decreases cur.len() - i,
    {
        proof {
            lemma_behind_tiles(i as int, span as int, count as int);
        }
        out.push(cur[i]);
        i += 1;
    }
    assert(out@ =~= level_applied(cur@, small@, level as nat));
    out
}

/// A level at which the template has no sample left changes nothing.
pub proof fn lemma_level_without_template(cur: Seq<i32>, small: Seq<i32>, level: nat)
    requires
        pyramid(small, level).len() == 0,
    ensures
        level_applied(cur, small, level) == cur,
{
    assert(level_applied(cur, small, level) =~= cur);
}

/// Levels at which the template has no sample left can be left out: the
/// result with more levels than the template has is the result with as
/// many as it has.
pub proof fn lemma_levels_beyond_template(big: Seq<i32>, small: Seq<i32>, levels: nat, top: nat)
    requires
        top <= levels,
        stride(top) > small.len(),
    ensures
        composed(big, small, levels) == composed(big, small, top),
    decreases levels,
{
    if levels > top {
        let level = (levels - 1) as nat;
        lemma_stride_grows(top, level);
        lemma_pyramid_len(small, level);
        let len = small.len() as int;
        let st = stride(level) as int;
        assert(len / st == 0) by (nonlinear_arith)
            requires
                0 <= len < st,
        ;
        lemma_level_without_template(big, small, level);
        lemma_levels_beyond_template(big, small, level, top);
    }
}

/// The result is as long as the reference, whatever the template and the
/// number of levels.
pub proof fn lemma_composed_len(big: Seq<i32>, small: Seq<i32>, levels: nat)
    ensures
        composed(big, small, levels).len() == big.len(),
    decreases levels,
{
    if levels > 0 {
        lemma_composed_len(level_applied(big, small, (levels - 1) as nat), small, (levels - 1) as nat);
    }
}

/// An empty template changes nothing: the result is the reference, at any
/// number of levels.
pub proof fn lemma_empty_template(big: Seq<i32>, small: Seq<i32>, levels: nat)
    requires
        small.len() == 0,
    ensures
        composed(big, small, levels) == big,
    decreases levels,
{
    if levels > 0 {
        let level = (levels - 1) as nat;
        lemma_pyramid_len(small, level);
        let st = stride(level) as int;
        assert(0int / st == 0) by (nonlinear_arith)
            requires
                st >= 1,
        ;
        lemma_level_without_template(big, small, level);
        lemma_empty_template(big, small, level);
    }
}

/// What holds of a sample that lies in a tile: the tile is not empty, the
/// window's weight there is between nothing and a half, and the template's
/// sample for it is a sample of the coarse template, so it lies in the
/// range of the template's own samples.
pub proof fn lemma_tile_sample(
    cur: Seq<i32>,
    small: Seq<i32>,
    level: nat,
    i: int,
    lo: int,
    hi: int,
)
    requires
        0 <= i,
        in_tile(cur, small, level, i),
        within(small, lo, hi),
    ensures
        tile_span(small, level) >= 1,
        0 <= i % (tile_span(small, level) as int) < tile_span(small, level),
        0 <= tri(i % (tile_span(small, level) as int), tile_span(small, level) as int),
        2 * tri(i % (tile_span(small, level) as int), tile_span(small, level) as int)
            <= tile_span(small, level),
        lo <= tile_sample(cur, small, level, i) <= hi,
{
    let t = pyramid(small, level);
    let b = pyramid(cur, level);
    let m = t.len();
    let q = patch_len(m);
    let s = stride(level) as int;
    let span = tile_span(small, level) as int;
    lemma_pyramid_len(small, level);
    lemma_pyramid_within(small, level, lo, hi);
    assert(span >= 1) by (nonlinear_arith)
        requires
            span == q * s,
            q >= 1,
            s >= 1,
    ;
    let u = i % span;
    assert(0 <= u / s < q) by (nonlinear_arith)
        requires
            0 <= u < q * s,
            s >= 1,
            q >= 1,
    ;
    let offset = best_offset(b, t, (i / span) * q, q);
    lemma_best_is_first_least(b, t, (i / span) * q, q, (m - q) as nat, 0);
    assert(0 <= offset + u / s < m);
    assert(lo <= t[offset + u / s] <= hi);
}

/// What a level adds to a sample is held down by the window. Where all
/// samples of the reference and of the template lie between `lo` and `hi`,
/// a sample moves by no more than the window's weight there times the
/// width of that range. At a tile's first sample the weight is nothing and
/// the sample stays as it is; at its last the weight is one part in as
/// many as the tile has samples. So across the border between two tiles
/// what is added changes by no more than the width of the range divided
/// by the length of a tile.
pub proof fn lemma_level_step(
    cur: Seq<i32>,
    small: Seq<i32>,
    level: nat,
    i: int,
    lo: int,
    hi: int,
)
    requires
        0 <= i < cur.len(),
        within(cur, lo, hi),
        within(small, lo, hi),
    ensures
        lo <= level_value(cur, small, level, i) <= hi,
        !in_tile(cur, small, level, i) ==> level_value(cur, small, level, i) == cur[i],
        in_tile(cur, small, level, i) ==> {
            let span = tile_span(small, level) as int;
            let moved = level_value(cur, small, level, i) - cur[i];
            &&& -(hi - lo) * tri(i % span, span) <= moved * span <= (hi - lo) * tri(i % span, span)
            &&& i % span == 0 ==> moved == 0
            &&& i % span == span - 1 ==> -(hi - lo) <= moved * span <= hi - lo
        },
{
    assert(lo <= cur[i] <= hi);
    if in_tile(cur, small, level, i) {
        lemma_tile_sample(cur, small, level, i, lo, hi);
        let span = tile_span(small, level) as int;
        let w = tri(i % span, span);
        let v = tile_sample(cur, small, level, i);
        let d = v - cur[i];
        lemma_blended_between(cur[i], v, w, span);
        lemma_pull_bounds(d, w, span);
        let moved = level_value(cur, small, level, i) - cur[i];
        assert(moved == pull(d, w, span));
        let width = hi - lo;
        assert(-(width * w) <= d * w <= width * w && 0 <= width * w && (-width) * w == -(width
            * w)) by (nonlinear_arith)
            requires
                -width <= d <= width,
                0 <= w,
        ;
        assert(d >= 0 ==> moved * span >= 0) by (nonlinear_arith)
            requires
                d >= 0 ==> moved >= 0,
                span >= 1,
        ;
        assert(d <= 0 ==> moved * span <= 0) by (nonlinear_arith)
            requires
                d <= 0 ==> moved <= 0,
                span >= 1,
        ;
        assert(0 * span == 0) by (nonlinear_arith);
        if i % span == span - 1 {
            assert(w <= 1);
            assert(width * w <= width) by (nonlinear_arith)
                requires
                    0 <= w <= 1,
                    0 <= width,
            ;
        }
    }
}

/// No level brings a sample outside the range that the samples of the
/// reference and of the template span, so neither does the whole.
pub proof fn lemma_composed_within(
    big: Seq<i32>,
    small: Seq<i32>,
    levels: nat,
    lo: int,
    hi: int,
)
    requires
        within(big, lo, hi),
        within(small, lo, hi),
    ensures
        within(composed(big, small, levels), lo, hi),
    decreases levels,
{
    if levels > 0 {
        let level = (levels - 1) as nat;
        let next = level_applied(big, small, level);
        assert forall|i: int| 0 <= i < next.len() implies lo <= #[trigger] next[i] <= hi by {
            lemma_level_step(big, small, level, i, lo, hi);
        }
        lemma_composed_within(next, small, level, lo, hi);
    }
}

/// Works the template `smalldata` into the reference `bigdata` at
/// `levels` resolutions, from the coarsest to the finest. The samples are
/// fixed-point numbers, of whatever scale the caller keeps them in.
///
/// A number of levels that is not positive is an
/// `InvalidParameterError`. Every other input has a result, which is as
/// long as the reference.
pub fn audiotar(bigdata: &[i32], smalldata: &[i32], levels: i32) -> (made: Result<
    Vec<i32>,
    SoundError,
>)
    ensures
        levels <= 0 ==> made == Err::<Vec<i32>, SoundError>(SoundError::InvalidParameterError),
        levels > 0 ==> (made matches Ok(out) && out@ == composed(
            bigdata@,
            smalldata@,
            levels as nat,
        )),
{
    if levels <= 0 {
        return Err(SoundError::InvalidParameterError);
    }
    let deepest: u32 = depth(smalldata.len());
    let top: u32 = if (levels as u32) < deepest {
        levels as u32
    } else {
        deepest
    };
    proof {
        if top < levels {
            assert(!(stride(top as nat) <= smalldata@.len()));
            lemma_levels_beyond_template(bigdata@, smalldata@, levels as nat, top as nat);
        }
    }
    let mut out: Vec<i32> = copied(bigdata);
    let mut level: u32 = top;
    while level > 0
        invariant
            level <= top,
            composed(out@, smalldata@, level as nat) == composed(
                bigdata@,
                smalldata@,
                top as nat,
            ),
        decreases level,
    {
        level -= 1;
        out = apply_level(out.as_slice(), smalldata, level);
    }
    Ok(out)
}

} // verus!
