//! Padding of a card-number pattern to the fixed working length.

use vstd::prelude::*;
use vstd::string::{StrSliceExecFns, StringExecFns};

verus! {

/// A run of `n` wildcard markers.
pub open spec fn wildcard_run(n: nat) -> Seq<char> {
    Seq::new(n, |i: int| 'x')
}

/// A pattern extended with wildcard markers until it is at least 15
/// characters long; an already long enough pattern is left as it is.
pub open spec fn padded_pattern(s: Seq<char>) -> Seq<char> {
    if s.len() >= 15 {
        s
    } else {
        s + wildcard_run((15 - s.len()) as nat)
    }
}

/// Padding settles after one application: a padded pattern is at least 15
/// characters long, so padding it again changes nothing.
pub proof fn lemma_padded_pattern_idempotent(s: Seq<char>)
    ensures
        padded_pattern(padded_pattern(s)) == padded_pattern(s),
{
    assert(padded_pattern(s).len() >= 15);
}

/// Appends wildcard markers to `pattern` until it is at least 15 characters
/// long.
pub fn normalize_bin_pattern(pattern: String) -> (r: String)
    ensures
        r@ == padded_pattern(pattern@),
{
    let mut pattern = pattern;
    let ghost orig = pattern@;
    proof {
        assert(orig + wildcard_run(0) =~= orig);
    }
    while pattern.as_str().unicode_len() < 15
        invariant
            orig.len() >= 15 ==> pattern@ == orig,
            orig.len() < 15 ==> orig.len() <= pattern@.len() <= 15 && pattern@ == orig
                + wildcard_run((pattern@.len() - orig.len()) as nat),
        decreases 15 - pattern@.len(),
    {
        proof {
            reveal_strlit("x");
        }
        pattern.append("x");
        proof {
            assert(pattern@ =~= orig + wildcard_run((pattern@.len() - orig.len()) as nat));
        }
    }
    proof {
        assert(pattern@ == padded_pattern(orig));
    }
    pattern
}

} // verus!
