//! Request validation, wildcard filling, field synthesis, and the
//! batch-producing entry point.

use crate::card::{CardInfo, GeneratorOptions};
use crate::digits::{
    append_digit, digit_char, digit_value, digit_values, format_fixed, is_digit_char,
    padded_decimal, pow10,
};
use crate::luhn::{check_digit_of, complete_luhn, luhn_sum};
use crate::pattern::{normalize_bin_pattern, padded_pattern};
use crate::rng::{fresh_rng, random_in_range};
use vstd::prelude::*;
use vstd::string::{StrSliceExecFns, StringExecFns};

verus! {

/// A pattern character is a literal digit or the wildcard marker.
pub open spec fn pattern_char_ok(c: char) -> bool {
    is_digit_char(c) || c == 'x'
}

/// An acceptable request pattern: at most 16 characters, each a digit or
/// the wildcard marker.
pub open spec fn pattern_ok(s: Seq<char>) -> bool {
    s.len() <= 16 && (forall|i: int| 0 <= i < s.len() ==> pattern_char_ok(#[trigger] s[i]))
}

/// The validation gate over a whole request.
pub open spec fn valid_options(o: GeneratorOptions) -> bool {
    &&& pattern_ok(o.bin_pattern@)
    &&& (o.month matches Some(m) ==> 1 <= m <= 12)
    &&& (o.year matches Some(y) ==> 2025 <= y <= 2050)
    &&& (o.cvv matches Some(c) ==> c <= 999)
}

/// The 15 positions that drive a number: the request pattern, padded with
/// wildcards and cut to the working length.
pub open spec fn base_pattern(o: GeneratorOptions) -> Seq<char> {
    padded_pattern(o.bin_pattern@).subrange(0, 15)
}

/// How many records a request asks for; an absent amount means one.
pub open spec fn requested_amount(o: GeneratorOptions) -> int {
    match o.amount {
        Some(n) => n as int,
        None => 1,
    }
}

/// The number of a record generated for `o`: 16 digits, of which the
/// positions where the pattern fixes a digit carry that digit, and the last
/// makes the whole number's Luhn checksum a multiple of 10.
pub open spec fn number_matches(o: GeneratorOptions, num: Seq<char>) -> bool {
    &&& num.len() == 16
    &&& (forall|i: int| 0 <= i < 16 ==> is_digit_char(#[trigger] num[i]))
    &&& (forall|i: int|
        0 <= i < 15 && is_digit_char(#[trigger] base_pattern(o)[i]) ==> num[i] == base_pattern(
            o,
        )[i])
    &&& digit_value(num[15]) == check_digit_of(digit_values(num.subrange(0, 15)))
    &&& luhn_sum(digit_values(num)) % 10 == 0
}

/// A field as it may stand in a record: the supplied value when one was
/// given, else some value of the field's range, zero-padded to the field's
/// width either way.
pub open spec fn field_matches(
    given: Option<usize>,
    lo: int,
    hi: int,
    width: nat,
    s: Seq<char>,
) -> bool {
    match given {
        Some(v) => s == padded_decimal(v as int, width),
        None => exists|v: int| lo <= v <= hi && s == padded_decimal(v, width),
    }
}

/// A record as generated for the request `o`.
pub open spec fn record_matches(o: GeneratorOptions, card: CardInfo) -> bool {
    &&& number_matches(o, card.number@)
    &&& field_matches(o.month, 1, 12, 2, card.month@)
    &&& field_matches(o.year, 2025, 2050, 4, card.year@)
    &&& field_matches(o.cvv, 0, 999, 3, card.cvv@)
}

/// Decides the pattern rules of the validation gate.
fn pattern_is_acceptable(p: &str) -> (ok: bool)
    ensures
        ok == pattern_ok(p@),
{
    let len: usize = p.unicode_len();
    if len > 16 {
        return false;
    }
    let mut i: usize = 0;
    while i < len
        invariant
            i <= len,
            len == p@.len(),
            forall|j: int| 0 <= j < i ==> pattern_char_ok(#[trigger] p@[j]),
        decreases len - i,
    {
        let c: char = p.get_char(i);
        let u: u32 = c as u32;
        if !(u >= 48 && u <= 57 || c == 'x') {
            proof {
                assert(!pattern_char_ok(p@[i as int]));
            }
            return false;
        }
        i = i + 1;
    }
    true
}

/// Replaces each wildcard of the 15-character base with a random digit and
/// keeps each literal digit in place.
fn fill_pattern(base: &str, rng: &mut rand::rngs::ThreadRng) -> (r: String)
    requires
        base@.len() == 15,
        forall|i: int| 0 <= i < 15 ==> pattern_char_ok(#[trigger] base@[i]),
    ensures
        r@.len() == 15,
        forall|i: int| 0 <= i < 15 ==> is_digit_char(#[trigger] r@[i]),
        forall|i: int| 0 <= i < 15 && is_digit_char(#[trigger] base@[i]) ==> r@[i] == base@[i],
{
    let mut s = String::new();
    let mut i: usize = 0;
    while i < 15
        invariant
            i <= 15,
            base@.len() == 15,
            forall|j: int| 0 <= j < 15 ==> pattern_char_ok(#[trigger] base@[j]),
            s@.len() == i,
            forall|j: int| 0 <= j < i ==> is_digit_char(#[trigger] s@[j]),
            forall|j: int| 0 <= j < i && is_digit_char(#[trigger] base@[j]) ==> s@[j] == base@[j],
        decreases 15 - i,
    {
        let c: char = base.get_char(i);
        let u: u32 = c as u32;
        if u >= 48 && u <= 57 {
            append_digit(&mut s, (u - 48) as u8);
            proof {
                assert(digit_char(digit_value(c)) == c);
            }
        } else {
            let d: u64 = random_in_range(rng, 0, 9);
            append_digit(&mut s, d as u8);
        }
        i = i + 1;
    }
    s
}

/// Formats the supplied field value, or draws one from the field's range
/// when none was given, zero-padded to the field's width.
fn synthesize_field(
    given: Option<usize>,
    lo: u64,
    hi: u64,
    width: u32,
    rng: &mut rand::rngs::ThreadRng,
) -> (r: String)
    requires
        lo <= hi,
        width <= 19,
        hi < pow10(width as nat),
        given matches Some(v) ==> lo as int <= v as int <= hi as int,
    ensures
        field_matches(given, lo as int, hi as int, width as nat, r@),
{
    let v: u64 = match given {
        Some(g) => g as u64,
        None => random_in_range(rng, lo, hi),
    };
    let r = format_fixed(v, width);
    proof {
        if given is None {
            assert(lo as int <= v as int <= hi as int && r@ == padded_decimal(
                v as int,
                width as nat,
            ));
        }
    }
    r
}

/// Validates the request and, when it passes, produces the requested number
/// of card records; a request that fails any validation rule yields an
/// empty batch, and so does a passing request that asks for zero records.
#[allow(non_snake_case)]
pub fn Generate_Cards(opts: &GeneratorOptions) -> (cards: Vec<CardInfo>)
    ensures
        valid_options(*opts) ==> cards@.len() == requested_amount(*opts),
        !valid_options(*opts) ==> cards@.len() == 0,
        forall|k: int| 0 <= k < cards@.len() ==> record_matches(*opts, #[trigger] cards@[k]),
{
    if !pattern_is_acceptable(opts.bin_pattern) {
        return Vec::new();
    }
    if let Some(m) = opts.month {
        if m < 1 || m > 12 {
            return Vec::new();
        }
    }
    if let Some(y) = opts.year {
        if y < 2025 || y > 2050 {
            return Vec::new();
        }
    }
    if let Some(c) = opts.cvv {
        if c > 999 {
            return Vec::new();
        }
    }
    let mut cards: Vec<CardInfo> = Vec::new();
    let mut rng = fresh_rng();
    let amount: usize = match opts.amount {
        Some(n) => n,
        None => 1,
    };
    let padded: String = normalize_bin_pattern(opts.bin_pattern.to_owned());
    let base: &str = padded.as_str().substring_char(0, 15);
    proof {
        assert(base@ == base_pattern(*opts));
        assert forall|i: int| 0 <= i < 15 implies pattern_char_ok(#[trigger] base@[i]) by {
            if opts.bin_pattern@.len() < 15 && i >= opts.bin_pattern@.len() {
                assert(base@[i] == 'x');
            }
        }
        reveal_with_fuel(pow10, 6);
        assert(pow10(2) == 100 && pow10(3) == 1000 && pow10(4) == 10000);
    }
    let mut i: usize = 0;
    while i < amount
        invariant
            i <= amount,
            cards@.len() == i,
            valid_options(*opts),
            base@ == base_pattern(*opts),
            base@.len() == 15,
            forall|j: int| 0 <= j < 15 ==> pattern_char_ok(#[trigger] base@[j]),
            pow10(2) == 100 && pow10(3) == 1000 && pow10(4) == 10000,
            forall|k: int| 0 <= k < i ==> record_matches(*opts, #[trigger] cards@[k]),
        decreases amount - i,
    {
        let generated: String = fill_pattern(base, &mut rng);
        let number: String = complete_luhn(generated.as_str());
        let month: String = synthesize_field(opts.month, 1, 12, 2, &mut rng);
        let year: String = synthesize_field(opts.year, 2025, 2050, 4, &mut rng);
        let cvv: String = synthesize_field(opts.cvv, 0, 999, 3, &mut rng);
        proof {
            assert(number@.subrange(0, 15) == generated@);
            assert(number_matches(*opts, number@));
        }
        cards.push(CardInfo { number, month, year, cvv });
        i = i + 1;
    }
    cards
}

} // verus!
