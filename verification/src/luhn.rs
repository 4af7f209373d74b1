//! Luhn checksum computation and check-digit completion.

use crate::digits::{append_digit, digit_value, digit_values, is_digit_char};
use vstd::arithmetic::div_mod::{
    lemma_fundamental_div_mod, lemma_mod_bound, lemma_mod_multiples_vanish, lemma_small_mod,
};
use vstd::prelude::*;
use vstd::string::StrSliceExecFns;

verus! {

/// The contribution of the digit at position `i`: doubled when its distance
/// from the right end is even, with 9 subtracted when the double exceeds 9.
pub open spec fn luhn_term(digits: Seq<u32>, i: int) -> int {
    let d = digits[i] as int;
    if (digits.len() - i) % 2 == 0 {
        if 2 * d > 9 {
            2 * d - 9
        } else {
            2 * d
        }
    } else {
        d
    }
}

/// The sum of the Luhn contributions of the first `n` digits.
pub open spec fn luhn_sum_prefix(digits: Seq<u32>, n: int) -> int
    decreases n,
{
    if n <= 0 {
        0
    } else {
        luhn_sum_prefix(digits, n - 1) + luhn_term(digits, n - 1)
    }
}

/// The Luhn checksum of a digit sequence: every second digit counted from the
/// rightmost position is doubled (the last digit never is), doubles above 9
/// have 9 subtracted, and the results are summed.
pub open spec fn luhn_sum(digits: Seq<u32>) -> int {
    luhn_sum_prefix(digits, digits.len() as int)
}

/// The digit that, appended to `digits`, makes the Luhn checksum of the
/// whole sequence a multiple of 10. Appending moves every digit one place
/// further from the right end, so the sum is anchored at the final length:
/// it is taken over `digits` with the appended position already in place.
pub open spec fn check_digit_of(digits: Seq<u32>) -> int {
    (10 - luhn_sum(digits.push(0)) % 10) % 10
}

/// Sequences that agree on their first `n` digits and have equal length
/// have equal Luhn sums over those digits.
proof fn lemma_luhn_sum_prefix_agree(a: Seq<u32>, b: Seq<u32>, n: int)
    requires
        a.len() == b.len(),
        0 <= n <= a.len(),
        forall|i: int| 0 <= i < n ==> a[i] == b[i],
    ensures
        luhn_sum_prefix(a, n) == luhn_sum_prefix(b, n),
    decreases n,
{
    if n > 0 {
        lemma_luhn_sum_prefix_agree(a, b, n - 1);
    }
}

/// The last position of a sequence is never doubled, so the appended digit
/// enters the Luhn sum as it is.
proof fn lemma_luhn_sum_last(s: Seq<u32>, c: u32)
    ensures
        luhn_sum(s.push(c)) == luhn_sum(s.push(0)) + c,
{
    let a = s.push(c);
    let b = s.push(0);
    lemma_luhn_sum_prefix_agree(a, b, s.len() as int);
    assert(luhn_term(a, s.len() as int) == c as int);
    assert(luhn_term(b, s.len() as int) == 0);
}

/// Returns the Luhn checksum of `digits` (the check digit is not among them).
pub fn luhn_checksum(digits: &[u32]) -> (sum: u32)
    requires
        forall|i: int| 0 <= i < digits@.len() ==> digits@[i] <= 9,
        digits@.len() <= 100_000_000,
    ensures
        sum == luhn_sum(digits@),
{
    let mut sum: u32 = 0;
    let len: usize = digits.len();
    let mut i: usize = 0;
    while i < len
        invariant
            i <= len,
            len == digits@.len(),
            len <= 100_000_000,
            forall|j: int| 0 <= j < digits@.len() ==> digits@[j] <= 9,
            sum == luhn_sum_prefix(digits@, i as int),
            sum <= 9 * i,
        decreases len - i,
    {
        let mut val: u32 = digits[i];
        if (len - i) % 2 == 0 {
            val = val * 2;
            if val > 9 {
                val = val - 9;
            }
        }
        proof {
            assert(val == luhn_term(digits@, i as int));
        }
        sum = sum + val;
        i = i + 1;
    }
    sum
}

/// Given 15 digit characters, appends the check digit that makes the Luhn
/// checksum of the resulting 16 digit characters a multiple of 10.
pub fn complete_luhn(partial: &str) -> (r: String)
    requires
        partial@.len() == 15,
        forall|i: int| 0 <= i < 15 ==> is_digit_char(#[trigger] partial@[i]),
    ensures
        r@.len() == 16,
        forall|i: int| 0 <= i < 16 ==> is_digit_char(#[trigger] r@[i]),
        r@.subrange(0, 15) == partial@,
        digit_value(r@[15]) == check_digit_of(digit_values(partial@)),
        luhn_sum(digit_values(r@)) % 10 == 0,
{
    let mut digits: Vec<u32> = Vec::new();
    let mut i: usize = 0;
    while i < 15
        invariant
            i <= 15,
            partial@.len() == 15,
            forall|j: int| 0 <= j < 15 ==> is_digit_char(#[trigger] partial@[j]),
            digits@.len() == i,
            forall|j: int| 0 <= j < i ==> digits@[j] == digit_value(partial@[j]),
        decreases 15 - i,
    {
        let c: char = partial.get_char(i);
        let d: u32 = (c as u32) - 48;
        digits.push(d);
        i = i + 1;
    }
    // the checksum is taken with the check digit's position already in
    // place, held by 0, so that each digit keeps its final doubling parity
    digits.push(0);
    proof {
        assert(digits@ =~= digit_values(partial@).push(0));
    }
    let sum: u32 = luhn_checksum(digits.as_slice());
    let check: u32 = (10 - sum % 10) % 10;
    let mut r: String = partial.to_owned();
    append_digit(&mut r, check as u8);
    proof {
        assert(r@.subrange(0, 15) =~= partial@);
        assert(digit_values(r@) =~= digit_values(partial@).push(check));
        lemma_luhn_sum_last(digit_values(partial@), check);
        lemma_check_digit_balances(sum as int);
    }
    r
}

/// Adding the check digit `(10 - sum % 10) % 10` to a nonnegative sum yields
/// a multiple of 10.
pub proof fn lemma_check_digit_balances(sum: int)
    requires
        sum >= 0,
    ensures
        (sum + (10 - sum % 10) % 10) % 10 == 0,
{
    lemma_mod_bound(sum, 10);
    lemma_fundamental_div_mod(sum, 10);
    let m = sum % 10;
    if m == 0 {
        lemma_small_mod(0nat, 10nat);
        assert(sum % 10 == 0);
        assert((10 - m) % 10 == 0) by {
            lemma_mod_multiples_vanish(1, 0, 10);
        }
    } else {
        lemma_small_mod((10 - m) as nat, 10nat);
        assert((10 - m) % 10 == 10 - m);
        assert(sum + 10 - m == 10 * (sum / 10) + 10);
        assert((10 * (sum / 10) + 10) % 10 == 0) by {
            lemma_mod_multiples_vanish(sum / 10 + 1, 0, 10);
            lemma_small_mod(0nat, 10nat);
        }
    }
}

} // verus!
