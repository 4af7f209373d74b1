//! ASCII digit characters and fixed-width decimal formatting.

use vstd::arithmetic::div_mod::{lemma_div_basics, lemma_div_denominator};
use vstd::prelude::*;
use vstd::string::StringExecFns;

verus! {

/// True of the ten ASCII digit characters '0' through '9'.
pub open spec fn is_digit_char(c: char) -> bool {
    48 <= c as int && c as int <= 57
}

/// The numeric value of an ASCII digit character.
pub open spec fn digit_value(c: char) -> int {
    c as int - 48
}

/// The ASCII digit character for a value between 0 and 9.
pub open spec fn digit_char(d: int) -> char {
    (d + 48) as char
}

/// The numeric values of a sequence of ASCII digit characters.
pub open spec fn digit_values(s: Seq<char>) -> Seq<u32> {
    Seq::new(s.len(), |i: int| digit_value(s[i]) as u32)
}

/// Appends the ASCII digit character for `d` to `s`.
pub fn append_digit(s: &mut String, d: u8)
    requires
        d <= 9,
    ensures
        final(s)@ == old(s)@.push(digit_char(d as int)),
{
    let lit: &str = match d {
        0 => "0",
        1 => "1",
        2 => "2",
        3 => "3",
        4 => "4",
        5 => "5",
        6 => "6",
        7 => "7",
        8 => "8",
        _ => "9",
    };
    proof {
        reveal_strlit("0");
        reveal_strlit("1");
        reveal_strlit("2");
        reveal_strlit("3");
        reveal_strlit("4");
        reveal_strlit("5");
        reveal_strlit("6");
        reveal_strlit("7");
        reveal_strlit("8");
        reveal_strlit("9");
        assert(lit@ =~= seq![digit_char(d as int)]);
    }
    s.append(lit);
    proof {
        assert(s@ =~= old(s)@.push(digit_char(d as int)));
    }
}

/// Ten to the power `n`.
pub open spec fn pow10(n: nat) -> int
    decreases n,
{
    if n == 0 {
        1
    } else {
        10 * pow10((n - 1) as nat)
    }
}

/// Powers of ten are positive.
pub proof fn lemma_pow10_pos(n: nat)
    ensures
        pow10(n) >= 1,
    decreases n,
{
    if n > 0 {
        lemma_pow10_pos((n - 1) as nat);
    }
}

/// Powers of ten grow with the exponent.
pub proof fn lemma_pow10_mono(a: nat, b: nat)
    requires
        a <= b,
    ensures
        pow10(a) <= pow10(b),
    decreases b,
{
    if a < b {
        lemma_pow10_mono(a, (b - 1) as nat);
        lemma_pow10_pos((b - 1) as nat);
    }
}

fn pow10_exec(n: u32) -> (r: u64)
    requires
        n <= 19,
    ensures
        r == pow10(n as nat),
{
    let mut r: u64 = 1;
    let mut i: u32 = 0;
    while i < n
        invariant
            i <= n,
            n <= 19,
            r == pow10(i as nat),
        decreases n - i,
    {
        proof {
            lemma_pow10_mono(i as nat, 18);
            reveal_with_fuel(pow10, 20);
            assert(pow10(18) == 1_000_000_000_000_000_000);
        }
        r = r * 10;
        i = i + 1;
    }
    r
}

/// The decimal digits of `v`, zero-padded on the left to exactly `width`
/// characters; digits beyond `width` are cut off.
pub open spec fn padded_decimal(v: int, width: nat) -> Seq<char>
    decreases width,
{
    if width == 0 {
        Seq::empty()
    } else {
        padded_decimal(v / 10, (width - 1) as nat).push(digit_char(v % 10))
    }
}

/// Writes `v` in decimal, zero-padded on the left to exactly `width` characters.
pub fn format_fixed(v: u64, width: u32) -> (r: String)
    requires
        width <= 19,
        v < pow10(width as nat),
    ensures
        r@ == padded_decimal(v as int, width as nat),
{
    let mut s = String::new();
    let mut i: u32 = width;
    proof {
        lemma_pow10_pos(width as nat);
    }
    while i > 0
        invariant
            i <= width,
            width <= 19,
            v < pow10(width as nat),
            s@ == padded_decimal(v as int / pow10(i as nat), (width - i) as nat),
        decreases i,
    {
        i = i - 1;
        let div: u64 = pow10_exec(i);
        proof {
            lemma_pow10_pos(i as nat);
        }
        let d: u8 = ((v / div) % 10) as u8;
        proof {
            let q = v as int / pow10(i as nat);
            lemma_div_denominator(v as int, pow10(i as nat), 10);
            assert(q / 10 == v as int / pow10((i + 1) as nat));
            assert(padded_decimal(q, (width - i) as nat) == padded_decimal(
                q / 10,
                (width - i - 1) as nat,
            ).push(digit_char(q % 10)));
        }
        append_digit(&mut s, d);
    }
    proof {
        lemma_div_basics(v as int);
    }
    s
}

} // verus!
