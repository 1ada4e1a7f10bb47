//! Floating-point numbers, held as text.
//!
//! A finite number is held as JSON writes it, with the fewest digits that tell it from every other
//! number, so that the text and the number say the same. An infinite one is held as `inf` or `-inf`;
//! no database and no JSON holds a value that is no number.

use crate::text::same;
use vstd::prelude::*;

verus! {

/// What a number is worth, as text: both zeros are the same number.
pub open spec fn real_value(text: Seq<char>) -> Seq<char> {
    if text == "-0.0"@ {
        "0.0"@
    } else {
        text
    }
}

/// The text of a number with the plain zero for both zeros.
pub fn plain_real(text: &str) -> (r: String)
    ensures
        r@ == real_value(text@),
{
    if same(text, "-0.0") {
        "0.0".to_owned()
    } else {
        text.to_owned()
    }
}

/// Whether two numbers are the same.
pub fn same_real(one: &str, other: &str) -> (r: bool)
    ensures
        r == (real_value(one@) == real_value(other@)),
{
    same(plain_real(one).as_str(), plain_real(other).as_str())
}

/// The number is finite.
pub open spec fn finite(text: Seq<char>) -> bool {
    text != "inf"@ && text != "-inf"@
}

/// Whether a number is finite.
pub fn is_finite(text: &str) -> (r: bool)
    ensures
        r == finite(text@),
{
    !same(text, "inf") && !same(text, "-inf")
}

} // verus!
