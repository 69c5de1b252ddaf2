//! The clock button's label.

use vstd::prelude::*;
use crate::numbers::digit_char;

verus! {

/// A number below 100 in two digits, zero-padded.
pub open spec fn two_digits(n: nat) -> Seq<char> {
    seq![digit_char(n / 10), digit_char(n % 10)]
}

/// The hour on a 12-hour clock (1 to 12).
pub open spec fn hour12(hour: nat) -> nat {
    if hour % 12 == 0 {
        12
    } else {
        hour % 12
    }
}

/// A time of day as `%I:%M %p` shows it: the 12-hour hour and the minute in
/// two digits each, then `AM` before noon and `PM` from noon on.
pub open spec fn clock_text(hour: nat, minute: nat) -> Seq<char> {
    two_digits(hour12(hour)) + seq![':'] + two_digits(minute) + seq![' '] + if hour < 12 {
        "AM"@
    } else {
        "PM"@
    }
}

/// Formats the time `hour:minute` with chrono
/// (`NaiveTime::from_hms_opt(hour, minute, 0)` then `format("%I:%M %p")`).
/// chrono documents `%I` as the hour on a 12-hour clock (01 to 12), `%M` as
/// the minute (00 to 59), both zero-padded to two digits, and `%p` as `AM` or
/// `PM`; the contract states that text. Valid hours and minutes make the
/// time exist.
#[verifier::external_body]
fn format_time_12h(hour: u32, minute: u32) -> (s: String)
    requires
        hour < 24,
        minute < 60,
    ensures
        s@ == clock_text(hour as nat, minute as nat),
{
    match chrono::NaiveTime::from_hms_opt(hour, minute, 0) {
        Some(t) => t.format("%I:%M %p").to_string(),
        None => String::new(),
    }
}

/// The clock label for the local time `hour:minute`.
pub fn clock_label(hour: u32, minute: u32) -> (s: String)
    requires
        hour < 24,
        minute < 60,
    ensures
        s@ == clock_text(hour as nat, minute as nat),
{
    format_time_12h(hour, minute)
}

} // verus!
