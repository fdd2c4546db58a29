//! Finding the stretch of a template that fits a stretch of a waveform
//! best.
//!
//! How badly two stretches fit is the sum of the distances between their
//! samples, one by one. The best offset into the template is the one with
//! the least such sum; where several have it, the first of them.

use vstd::prelude::*;

verus! {

/// How far two samples are apart.
pub open spec fn distance(a: i32, b: i32) -> nat {
    if a >= b {
        (a - b) as nat
    } else {
        (b - a) as nat
    }
}

/// How badly `len` samples of `t` from `offset` on fit `len` samples of
/// `b` from `base` on: the sum of their distances.
pub open spec fn cost(b: Seq<i32>, t: Seq<i32>, base: int, offset: int, len: nat) -> nat
    decreases len,
{
    if len == 0 {
        0
    } else {
        cost(b, t, base, offset, (len - 1) as nat) + distance(
            b[base + len - 1],
            t[offset + len - 1],
        )
    }
}

/// The best of the offsets from 0 to `last`: the first one of least cost.
pub open spec fn best_upto(b: Seq<i32>, t: Seq<i32>, base: int, len: nat, last: nat) -> nat
    decreases last,
{
    if last == 0 {
        0
    } else {
        let before = best_upto(b, t, base, len, (last - 1) as nat);
        if cost(b, t, base, last as int, len) < cost(b, t, base, before as int, len) {
            last
        } else {
            before
        }
    }
}

/// The best of all offsets at which `len` samples of `t` can be taken.
pub open spec fn best_offset(b: Seq<i32>, t: Seq<i32>, base: int, len: nat) -> nat {
    best_upto(b, t, base, len, (t.len() - len) as nat)
}

/// The best offset is one of those looked at, none of them costs less, and
/// every earlier one costs more.
pub proof fn lemma_best_is_first_least(
    b: Seq<i32>,
    t: Seq<i32>,
    base: int,
    len: nat,
    last: nat,
    other: nat,
)
    requires
        other <= last,
    ensures
        best_upto(b, t, base, len, last) <= last,
        cost(b, t, base, best_upto(b, t, base, len, last) as int, len) <= cost(
            b,
            t,
            base,
            other as int,
            len,
        ),
        other < best_upto(b, t, base, len, last) ==> cost(
            b,
            t,
            base,
            best_upto(b, t, base, len, last) as int,
            len,
        ) < cost(b, t, base, other as int, len),
    decreases last,
{
    if last > 0 {
        let before = (last - 1) as nat;
        if other <= before {
            lemma_best_is_first_least(b, t, base, len, before, other);
        } else {
            lemma_best_is_first_least(b, t, base, len, before, before);
        }
    }
}

/// The sum of the distances between `len` samples of `b` from `base` on
/// and `len` samples of `t` from `offset` on.
pub fn patch_cost(b: &[i32], t: &[i32], base: usize, offset: usize, len: usize) -> (c: u128)
    requires
        base + len <= b.len(),
        offset + len <= t.len(),
    ensures
        c == cost(b@, t@, base as int, offset as int, len as nat),
{
    let mut c: u128 = 0;
    let mut k: usize = 0;
    while k < len
        invariant
            k <= len,
            base + len <= b.len(),
            offset + len <= t.len(),
            c == cost(b@, t@, base as int, offset as int, k as nat),
            c <= k * 0xFFFF_FFFF,
        decreases len - k,
    {
        let x: i64 = b[base + k] as i64;
        let y: i64 = t[offset + k] as i64;
        let d: i64 = if x >= y {
            x - y
        } else {
            y - x
        };
        c = c + d as u128;
        k += 1;
    }
    c
}

/// The offset into `t` at which `len` of its samples fit the `len`
/// samples of `b` from `base` on best.
pub fn find_best(b: &[i32], t: &[i32], base: usize, len: usize) -> (best: usize)
    requires
        base + len <= b.len(),
        len <= t.len(),
    ensures
        best == best_offset(b@, t@, base as int, len as nat),
        best + len <= t.len(),
{
    let last: usize = t.len() - len;
    let mut best: usize = 0;
    let mut least: u128 = patch_cost(b, t, base, 0, len);
    let mut at: usize = 0;
    while at < last
        invariant
            at <= last,
            last == t.len() - len,
            base + len <= b.len(),
            best <= at,
            best == best_upto(b@, t@, base as int, len as nat, at as nat),
            least == cost(b@, t@, base as int, best as int, len as nat),
        decreases last - at,
    {
        at += 1;
        let c: u128 = patch_cost(b, t, base, at, len);
        if c < least {
            best = at;
            least = c;
        }
    }
    best
}

} // verus!
