//! Timestamps shown as UTC date and time.

use chrono::TimeZone;
use std::fmt::Write;
use vstd::prelude::*;

verus! {

/// The text that chrono gives for the UTC instant `secs` seconds and `nsecs`
/// nanoseconds after the Unix epoch, formatted with the strftime `pattern`;
/// `None` where chrono has no such instant or cannot format it so.
pub uninterp spec fn utc_timestamp_text(secs: int, nsecs: int, pattern: Seq<char>) -> Option<
    Seq<char>,
>;

/// The strftime fields of a date and time with which chrono always formats:
/// year, month, day, hour, minute and second.
pub open spec fn is_basic_field(c: char) -> bool {
    c == 'Y' || c == 'm' || c == 'd' || c == 'H' || c == 'M' || c == 'S'
}

/// A strftime pattern whose every `%` introduces a basic field.
pub open spec fn is_basic_pattern(p: Seq<char>) -> bool {
    forall|i: int| 0 <= i < p.len() && #[trigger] p[i] == '%' ==> i + 1 < p.len() && is_basic_field(p[i + 1])
}

/// Formats an instant through chrono: `Utc.timestamp_opt(secs, nsecs)`, taken
/// when it is a single instant, then written with `DateTime::format(pattern)`
/// (a formatting error gives `None`). The contract names the text
/// `utc_timestamp_text` and claims what chrono's source shows of when there
/// is one: for a nanosecond part below a second, seconds within about
/// 250,000 years of the epoch (well inside chrono's range of dates), and a
/// pattern made of literal text and the fields `%Y %m %d %H %M %S`, the
/// instant exists and formats. The calendar arithmetic and the text of each
/// field are left unsaid.
#[verifier::external_body]
fn format_utc(secs: i64, nsecs: u32, pattern: &str) -> (res: Option<String>)
    ensures
        match res {
            Some(s) => utc_timestamp_text(secs as int, nsecs as int, pattern@) == Some(s@),
            None => utc_timestamp_text(secs as int, nsecs as int, pattern@) is None,
        },
        nsecs < 1_000_000_000 && -8_000_000_000_000 <= secs <= 8_000_000_000_000
            && is_basic_pattern(pattern@) ==> res is Some,
{
    match chrono::Utc.timestamp_opt(secs, nsecs).single() {
        Some(dt) => {
            let mut text = String::new();
            match write!(text, "{}", dt.format(pattern)) {
                Ok(()) => Some(text),
                Err(_) => None,
            }
        },
        None => None,
    }
}

/// The whole seconds of a nanosecond timestamp, rounded toward zero.
pub open spec fn timestamp_secs(nanos: int) -> int {
    if nanos >= 0 {
        nanos / 1_000_000_000
    } else {
        -((-nanos) / 1_000_000_000)
    }
}

/// The nanoseconds of a timestamp beyond its whole seconds, without sign.
pub open spec fn timestamp_subsec_nanos(nanos: int) -> int {
    if nanos >= 0 {
        nanos % 1_000_000_000
    } else {
        (-nanos) % 1_000_000_000
    }
}

/// What a formatted timestamp shows: the formatted text, or "Unknown".
pub open spec fn text_or_unknown(formatted: Option<Seq<char>>) -> Seq<char> {
    match formatted {
        Some(t) => t,
        None => "Unknown"@,
    }
}

/// The pattern that timestamps are shown with: date and time, then "UTC".
pub open spec fn timestamp_pattern() -> Seq<char> {
    "%Y-%m-%d %H:%M:%S UTC"@
}

/// How a Unix nanosecond timestamp is shown.
pub open spec fn timestamp_text(nanos: int) -> Seq<char> {
    text_or_unknown(
        utc_timestamp_text(timestamp_secs(nanos), timestamp_subsec_nanos(nanos), timestamp_pattern()),
    )
}

/// Shows a formatted timestamp, or "Unknown" where there is none.
pub fn timestamp_text_or_unknown(formatted: Option<String>) -> (s: String)
    ensures
        s@ == text_or_unknown(match formatted {
            Some(t) => Some(t@),
            None => None,
        }),
{
    match formatted {
        Some(t) => t,
        None => String::from_str("Unknown"),
    }
}

/// Formats a Unix nanosecond timestamp into a human-readable string.
///
/// Every `i64` timestamp lies within the range of dates that chrono handles,
/// so the result is never "Unknown".
pub fn format_timestamp(nanos: i64) -> (s: String)
    ensures
        s@ == timestamp_text(nanos as int),
        utc_timestamp_text(
            timestamp_secs(nanos as int),
            timestamp_subsec_nanos(nanos as int),
            timestamp_pattern(),
        ) is Some,
{
    let (secs, nsecs): (i64, u32) = if nanos >= 0 {
        (nanos / 1_000_000_000, (nanos % 1_000_000_000) as u32)
    } else {
        let magnitude: u64 = if nanos == i64::MIN {
            9223372036854775808u64
        } else {
            (-nanos) as u64
        };
        (-((magnitude / 1_000_000_000) as i64), (magnitude % 1_000_000_000) as u32)
    };
    let pattern = "%Y-%m-%d %H:%M:%S UTC";
    proof {
        reveal_strlit("%Y-%m-%d %H:%M:%S UTC");
        assert(is_basic_pattern(pattern@));
    }
    timestamp_text_or_unknown(format_utc(secs, nsecs, pattern))
}

} // verus!
