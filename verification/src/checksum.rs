//! The weighted modulo-11 check-digit rule shared by the two tax-ID kinds:
//! a weighted sum of a digit window, and a check digit that is 0 when
//! `sum % 11 < 2` and `11 - sum % 11` otherwise.

use vstd::prelude::*;
use crate::text::{digit_val, is_digit, digits_in, digit_value};

verus! {

/// Sum of `digit_val(d[i]) * w[i]` over `i` in `[0, n)`.
pub open spec fn weighted_sum(d: Seq<char>, w: Seq<int>, n: int) -> int
    decreases n,
{
    if n <= 0 {
        0
    } else {
        weighted_sum(d, w, n - 1) + digit_val(d[n - 1]) * w[n - 1]
    }
}

/// The modulo-11 rule: 0 when the remainder is below 2, else its complement to 11.
pub open spec fn mod11_check_digit(sum: int) -> int {
    if sum % 11 < 2 {
        0
    } else {
        11 - sum % 11
    }
}

/// A weighted sum looks only at the first `n` positions of the digit window.
pub proof fn lemma_weighted_sum_prefix(d1: Seq<char>, d2: Seq<char>, w: Seq<int>, n: int)
    requires
        forall|i: int| 0 <= i < n ==> d1[i] == d2[i],
    ensures
        weighted_sum(d1, w, n) == weighted_sum(d2, w, n),
    decreases n,
{
    if n > 0 {
        lemma_weighted_sum_prefix(d1, d2, w, n - 1);
    }
}

/// The weighted sum of `n` digits with weights bounded by `b` is at most `9 * b * n`.
proof fn lemma_weighted_sum_bound(d: Seq<char>, w: Seq<int>, n: int, b: int)
    requires
        0 <= n,
        forall|i: int| 0 <= i < n ==> is_digit(#[trigger] d[i]),
        forall|i: int| 0 <= i < n ==> 0 <= #[trigger] w[i] <= b,
        0 <= b,
    ensures
        0 <= weighted_sum(d, w, n) <= 9 * b * n,
    decreases n,
{
    if n > 0 {
        lemma_weighted_sum_bound(d, w, n - 1, b);
        assert(0 <= digit_val(d[n - 1]) * w[n - 1] <= 9 * b) by (nonlinear_arith)
            requires
                0 <= digit_val(d[n - 1]) <= 9,
                0 <= w[n - 1] <= b,
        ;
        assert(9 * b * n == 9 * b * (n - 1) + 9 * b) by (nonlinear_arith);
    }
}

/// Computes the weighted sum of the first `n` digits of `d`, with the weight
/// of position `i` given as `base - i` for `i < split` and `top - i` after.
///
/// Both tax-ID weight tables have this two-ramp form.
pub fn two_ramp_sum(d: &Vec<char>, w: Ghost<Seq<int>>, n: usize, split: usize, base: u32, top: u32) -> (r: u32)
    requires
        n <= d@.len(),
        digits_in(d@, 0, n as int),
        split <= n,
        base <= 11,
        top <= 14,
        n <= top,
        split < base,
        forall|i: int| 0 <= i < split ==> w@[i] == base - i,
        forall|i: int| split <= i < n ==> w@[i] == top - i,
    ensures
        r == weighted_sum(d@, w@, n as int),
{
    let mut sum: u32 = 0;
    let mut i: usize = 0;
    while i < n
        invariant
            i <= n,
            sum == weighted_sum(d@, w@, i as int),
            sum <= 9 * 14 * i,
        decreases n - i,
    {
        proof {
            lemma_weighted_sum_bound(d@, w@, i + 1, 14);
        }
        let dv = digit_value(d[i]);
        let weight: u32 = if i < split {
            base - i as u32
        } else {
            top - i as u32
        };
        sum = sum + dv * weight;
        i = i + 1;
    }
    sum
}

/// The check digit for a weighted sum, by the shared modulo-11 rule.
pub fn mod11_of(sum: u32) -> (r: u32)
    ensures
        r == mod11_check_digit(sum as int),
        r <= 10,
{
    if sum % 11 < 2 {
        0
    } else {
        11 - sum % 11
    }
}

} // verus!
