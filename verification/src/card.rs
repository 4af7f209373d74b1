//! The generation request and the produced card record.

use vstd::prelude::*;

verus! {

/// One request for a batch of card records. Absent optional fields are
/// drawn at random; an absent amount means one record.
pub struct GeneratorOptions<'a> {
    pub bin_pattern: &'a str,
    pub month: Option<usize>,
    pub year: Option<usize>,
    pub cvv: Option<usize>,
    pub amount: Option<usize>,
}

/// One generated card: a 16-digit number and zero-padded expiry and CVV
/// fields.
pub struct CardInfo {
    pub number: String,
    pub month: String,
    pub year: String,
    pub cvv: String,
}

} // verus!
