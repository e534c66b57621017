//! The local clock, read through `chrono`.

use crate::text::{all_digits, chars_of, is_digit, maybe_text};
use vstd::prelude::*;

verus! {

/// The local time `days_back` days before now, written in `layout`, a format
/// string of `chrono`.
///
/// Calls `chrono::TimeDelta::try_days`, `chrono::Local::now`,
/// `DateTime::checked_sub_signed`, `DateTime::format` and
/// `DelayedFormat::write_to`. The result is `None` where the span or the
/// resulting date is out of `chrono`'s range, or `layout` is no format string.
/// Nothing is claimed of the text, which depends on the machine's clock and time zone.
#[verifier::external_body]
pub(crate) fn local_time_text(days_back: i64, layout: &str) -> (out: Option<String>) {
    let span = chrono::TimeDelta::try_days(days_back)?;
    let at = chrono::Local::now().checked_sub_signed(span)?;
    let mut text = String::new();
    at.format(layout).write_to(&mut text).ok()?;
    Some(text)
}

/// How the coordinator writes a point in time: fourteen digits, from the year
/// down to the second, so that texts compare as the times do.
pub const STAMP_LAYOUT: &'static str = "%Y%m%d%H%M%S";

/// The local time `days_back` days before now, as a stamp; `None` where the
/// clock cannot give that time.
pub fn local_stamp(days_back: i64) -> (out: Option<String>)
    ensures
        out matches Some(stamp) ==> is_stamp(stamp@),
{
    stamp_from(local_time_text(days_back, STAMP_LAYOUT))
}

/// Whether `text` is a stamp: fourteen decimal digits of ASCII.
pub open spec fn is_stamp(text: Seq<char>) -> bool {
    text.len() == 14 && all_digits(text)
}

/// Whether `text` is a stamp.
pub fn holds_stamp(text: &str) -> (out: bool)
    ensures
        out == is_stamp(text@),
{
    let chars = chars_of(text);
    if chars.len() != 14 {
        return false;
    }
    let mut i: usize = 0;
    while i < chars.len()
        invariant
            i <= chars.len(),
            chars@ == text@,
            forall|j: int| 0 <= j < i ==> is_digit(#[trigger] chars@[j]),
        decreases chars.len() - i,
    {
        let code: u32 = chars[i] as u32;
        if code < 0x30 || code > 0x39 {
            assert(!is_digit(text@[i as int]));
            return false;
        }
        i += 1;
    }
    true
}

/// The stamp in what the clock gave: `text` itself where it is a stamp. A
/// time of which the year does not take four digits is written otherwise,
/// and is no stamp; neither is a time that the clock could not give.
pub fn stamp_from(text: Option<String>) -> (out: Option<String>)
    ensures
        maybe_text(out) == match maybe_text(text) {
            Some(given) => if is_stamp(given) {
                Some(given)
            } else {
                None
            },
            None => None,
        },
{
    match text {
        Some(given) => {
            if holds_stamp(given.as_str()) {
                Some(given)
            } else {
                None
            }
        },
        None => None,
    }
}

} // verus!
