//! Small helpers for the presentation layer.

use vstd::prelude::*;

verus! {

/// The Roman numeral (with "0" for zero) of a tier number.
pub open spec fn roman_numeral(num: int) -> Seq<char> {
    if num == 0 {
        "0"@
    } else if num == 1 {
        "I"@
    } else if num == 2 {
        "II"@
    } else if num == 3 {
        "III"@
    } else if num == 4 {
        "IV"@
    } else if num == 5 {
        "V"@
    } else if num == 6 {
        "VI"@
    } else if num == 7 {
        "VII"@
    } else if num == 8 {
        "VIII"@
    } else if num == 9 {
        "IX"@
    } else {
        "X"@
    }
}

/// Render a tier number, 0 through 10, as a Roman numeral for display.
pub fn num_to_roman(num: u8) -> (r: &'static str)
    requires
        num <= 10,
    ensures
        r@ == roman_numeral(num as int),
{
    match num {
        0 => "0",
        1 => "I",
        2 => "II",
        3 => "III",
        4 => "IV",
        5 => "V",
        6 => "VI",
        7 => "VII",
        8 => "VIII",
        9 => "IX",
        _ => "X",
    }
}

} // verus!
