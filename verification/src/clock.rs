//! Durations and times of day as clock text.

use crate::text::decimal;
use crate::text::decimal_text;
use crate::text::two_digit_text;
use crate::text::two_digits;
use vstd::prelude::*;

verus! {

/// The minutes of a whole day.
pub const DAY_MINUTES: u32 = 1440;

/// Minutes as hours and minutes, `H:MM`.
pub open spec fn clock_text(minutes: nat) -> Seq<char> {
    decimal(minutes / 60) + ":"@ + two_digits((minutes % 60) as int)
}

/// A number of minutes as `H:MM`.
pub fn format_hhmm(minutes: u64) -> (text: String)
    ensures
        text@ == clock_text(minutes as nat),
{
    let mut text = decimal_text((minutes / 60) as u128);
    text.append(":");
    text.append(two_digit_text((minutes % 60) as u32).as_str());
    text
}

} // verus!
