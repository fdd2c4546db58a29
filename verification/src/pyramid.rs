//! Coarser versions of a waveform.
//!
//! One step halves the resolution: every two neighbouring samples become
//! their mean. Level 0 of a waveform is the waveform itself, and each level
//! is the one below it, halved. One sample of level `n` stands for
//! `stride(n)` samples of the waveform.

use vstd::prelude::*;
use vstd::arithmetic::div_mod::lemma_div_denominator;

verus! {

/// Half of `x`, rounded towards zero.
pub open spec fn half(x: int) -> int {
    if x >= 0 {
        x / 2
    } else {
        -((-x) / 2)
    }
}

/// The mean of two samples, rounded towards zero.
pub open spec fn mean2(a: i32, b: i32) -> i32 {
    half(a + b) as i32
}

/// A waveform at half its resolution. An odd sample at the end is left
/// out.
pub open spec fn halved(x: Seq<i32>) -> Seq<i32> {
    Seq::new(x.len() / 2, |k: int| mean2(x[2 * k], x[2 * k + 1]))
}

/// A waveform at the given level: halved that many times.
pub open spec fn pyramid(x: Seq<i32>, level: nat) -> Seq<i32>
    decreases level,
{
    if level == 0 {
        x
    } else {
        halved(pyramid(x, (level - 1) as nat))
    }
}

/// How many samples of a waveform one sample of the given level stands
/// for: two to the power of the level.
pub open spec fn stride(level: nat) -> nat
    decreases level,
{
    if level == 0 {
        1
    } else {
        2 * stride((level - 1) as nat)
    }
}

/// Whether every sample lies between `lo` and `hi`.
pub open spec fn within(x: Seq<i32>, lo: int, hi: int) -> bool {
    forall|i: int| 0 <= i < x.len() ==> lo <= #[trigger] x[i] <= hi
}

/// The mean of two samples lies between them.
pub proof fn lemma_mean2_between(a: i32, b: i32)
    ensures
        a <= b ==> a <= mean2(a, b) <= b,
        b <= a ==> b <= mean2(a, b) <= a,
{
}

/// A level has as many samples as there are whole strides in the waveform.
pub proof fn lemma_pyramid_len(x: Seq<i32>, level: nat)
    ensures
        stride(level) >= 1,
        pyramid(x, level).len() == x.len() / stride(level),
    decreases level,
{
    if level > 0 {
        let below = (level - 1) as nat;
        lemma_pyramid_len(x, below);
        let n = x.len() as int;
        let s = stride(below) as int;
        lemma_div_denominator(n, s, 2);
        assert(s * 2 == stride(level));
        assert(pyramid(x, level).len() == (n / s) / 2);
        assert(n / (s * 2) == n / (stride(level) as int));
    } else {
        assert(stride(level) == 1);
        assert(x.len() as int / 1 == x.len());
    }
}

/// The strides grow with the level.
pub proof fn lemma_stride_grows(lower: nat, upper: nat)
    requires
        lower <= upper,
    ensures
        1 <= stride(lower) <= stride(upper),
    decreases upper,
{
    if upper > 0 {
        if lower < upper {
            lemma_stride_grows(lower, (upper - 1) as nat);
        } else {
            lemma_stride_grows((lower - 1) as nat, (upper - 1) as nat);
        }
    }
}

/// Halving brings no sample outside the range of the samples it was made
/// from, so no level reaches beyond the waveform's own range.
pub proof fn lemma_pyramid_within(x: Seq<i32>, level: nat, lo: int, hi: int)
    requires
        within(x, lo, hi),
    ensures
        within(pyramid(x, level), lo, hi),
    decreases level,
{
    if level > 0 {
        let below = pyramid(x, (level - 1) as nat);
        lemma_pyramid_within(x, (level - 1) as nat, lo, hi);
        assert forall|i: int| 0 <= i < halved(below).len() implies lo <= #[trigger] halved(
            below,
        )[i] <= hi by {
            lemma_mean2_between(below[2 * i], below[2 * i + 1]);
            assert(lo <= below[2 * i] <= hi);
            assert(lo <= below[2 * i + 1] <= hi);
        }
    }
}

/// A copy of the samples.
pub fn copied(x: &[i32]) -> (c: Vec<i32>)
    ensures
        c@ == x@,
{
    let mut c: Vec<i32> = Vec::new();
    let mut i: usize = 0;
    while i < x.len()
        invariant
            i <= x.len(),
            c@ == x@.take(i as int),
        decreases x.len() - i,
    {
        c.push(x[i]);
        i += 1;
    }
    assert(x@.take(x.len() as int) == x@);
    c
}

/// The waveform at half its resolution.
pub fn halve(x: &[i32]) -> (h: Vec<i32>)
    ensures
        h@ == halved(x@),
{
    let n: usize = x.len() / 2;
    let mut h: Vec<i32> = Vec::new();
    let mut k: usize = 0;
    while k < n
        invariant
            k <= n,
            n == x.len() / 2,
            h@.len() == k,
            forall|j: int| 0 <= j < k ==> h@[j] == mean2(x@[2 * j], x@[2 * j + 1]),
        decreases n - k,
    {
        let a: i32 = x[2 * k];
        let b: i32 = x[2 * k + 1];
        let sum: i64 = a as i64 + b as i64;
        let mean: i64 = if sum >= 0 {
            sum / 2
        } else {
            -((-sum) / 2)
        };
        proof {
            lemma_mean2_between(a, b);
        }
        h.push(mean as i32);
        k += 1;
    }
    assert(h@ =~= halved(x@));
    h
}

/// The waveform at the given level.
pub fn coarsen(x: &[i32], level: u32) -> (c: Vec<i32>)
    ensures
        c@ == pyramid(x@, level as nat),
{
    let mut c: Vec<i32> = copied(x);
    let mut done: u32 = 0;
    while done < level && c.len() > 0
        invariant
            done <= level,
            c@ == pyramid(x@, done as nat),
        decreases level - done,
    {
        c = halve(c.as_slice());
        done += 1;
    }
    proof {
        if done < level {
            lemma_pyramid_len(x@, done as nat);
            lemma_pyramid_len(x@, level as nat);
            lemma_stride_grows(done as nat, level as nat);
            lemma_nothing_left(x@.len(), stride(done as nat), stride(level as nat));
            assert(c@ =~= pyramid(x@, level as nat));
        }
    }
    c
}

/// The number of levels at which a waveform of `len` samples has any
/// sample left: the levels below it do, and no other.
pub fn depth(len: usize) -> (levels: u32)
    ensures
        levels <= usize::BITS,
        forall|level: nat| level < levels <==> stride(level) <= len,
{
    let mut levels: u32 = 0;
    let mut left: usize = len;
    while left > 0
        invariant
            levels <= usize::BITS,
            stride(levels as nat) >= 1,
            left as int == (len as int) / (stride(levels as nat) as int),
            forall|level: nat| level < levels ==> stride(level) <= len,
        decreases left,
    {
        proof {
            let s = stride(levels as nat) as int;
            let n = len as int;
            assert(s <= n) by (nonlinear_arith)
                requires
                    n / s >= 1,
                    s >= 1,
                    n >= 0,
            ;
            if levels >= usize::BITS {
                lemma_stride_of_word();
            }
            lemma_div_denominator(n, s, 2);
            assert(s * 2 == stride((levels + 1) as nat));
        }
        left = left / 2;
        levels += 1;
    }
    proof {
        let s = stride(levels as nat) as int;
        let n = len as int;
        assert(n < s) by (nonlinear_arith)
            requires
                n / s == 0,
                s >= 1,
                n >= 0,
        ;
        assert forall|level: nat| stride(level) <= len implies level < levels by {
            if level >= levels {
                lemma_stride_grows(levels as nat, level);
            }
        }
    }
    levels
}

/// The stride of the given level, where it is no more than `limit`.
pub fn stride_within(level: u32, limit: usize) -> (found: Option<usize>)
    ensures
        match found {
            Some(s) => s == stride(level as nat) && s <= limit,
            None => stride(level as nat) > limit,
        },
{
    if level >= depth(limit) {
        return None;
    }
    let mut s: usize = 1;
    let mut k: u32 = 0;
    while k < level
        invariant
            k <= level,
            s == stride(k as nat),
            stride(level as nat) <= limit,
        decreases level - k,
    {
        proof {
            lemma_stride_grows((k + 1) as nat, level as nat);
        }
        s = s * 2;
        k += 1;
    }
    Some(s)
}

/// A waveform shorter than a stride has nothing left at any larger stride.
proof fn lemma_nothing_left(len: nat, small: nat, large: nat)
    requires
        1 <= small <= large,
        len / small == 0,
    ensures
        len / large == 0,
{
    assert(len < small) by (nonlinear_arith)
        requires
            len / small == 0,
            small >= 1,
    ;
    assert(len / large == 0) by (nonlinear_arith)
        requires
            len < large,
            large >= 1,
    ;
}

/// The stride of the level that is as high as a machine word is wide does
/// not fit in a machine word.
proof fn lemma_stride_of_word()
    ensures
        stride(usize::BITS as nat) > usize::MAX,
{
    assert(stride(32) == 0x1_0000_0000) by {
        reveal_with_fuel(stride, 33);
    }
    if usize::BITS != 32 {
        lemma_stride_adds(32, 32);
        assert(0x1_0000_0000 * 0x1_0000_0000 == 0x1_0000_0000_0000_0000) by (nonlinear_arith);
    }
}

/// The stride of a sum of levels is the product of their strides.
proof fn lemma_stride_adds(a: nat, b: nat)
    ensures
        stride(a + b) == stride(a) * stride(b),
    decreases b,
{
    if b > 0 {
        lemma_stride_adds(a, (b - 1) as nat);
        assert(stride(a + b) == 2 * stride((a + b - 1) as nat));
        assert(2 * (stride(a) * stride((b - 1) as nat)) == stride(a) * (2 * stride(
            (b - 1) as nat,
        ))) by (nonlinear_arith);
    } else {
        assert(stride(a) * 1 == stride(a)) by (nonlinear_arith);
    }
}

} // verus!
