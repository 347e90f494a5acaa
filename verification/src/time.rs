//! Clock readings and the millisecond-precision UTC timestamp notation the
//! start-tracking endpoint expects. Reading the clock is entrusted to
//! chrono; everything computed from the reading is verified.

use vstd::prelude::*;

use chrono::{Datelike, Timelike};

use crate::digits::{append_four_digit, append_three_digit, append_two_digit, four_digit,
    three_digit, two_digit};

verus! {

/// A civil UTC date and time, split into plain fields.
pub struct DateTimeParts {
    pub year: i64,
    pub month: u32,
    pub day: u32,
    pub hour: u32,
    pub minute: u32,
    pub second: u32,
    pub milli: u32,
}

impl DateTimeParts {
    /// The ranges under which the timestamp notation is defined.
    pub open spec fn wf(&self) -> bool {
        &&& 0 <= self.year <= 9999
        &&& 1 <= self.month <= 12
        &&& 1 <= self.day <= 31
        &&& self.hour < 24
        &&& self.minute < 60
        &&& self.second < 60
        &&& self.milli <= 999
    }
}

/// The `%Y-%m-%dT%H:%M:%S.%3f` notation of a date and time: every field
/// zero-padded, milliseconds exactly three digits, no timezone offset.
pub open spec fn timestamp_chars(p: DateTimeParts) -> Seq<char> {
    four_digit(p.year as nat) + "-"@ + two_digit(p.month as nat) + "-"@ + two_digit(p.day as nat)
        + "T"@ + two_digit(p.hour as nat) + ":"@ + two_digit(p.minute as nat) + ":"@ + two_digit(
        p.second as nat,
    ) + "."@ + three_digit(p.milli as nat)
}

/// Relies on chrono's `Utc::now` and its accessors: `month` is 1..=12,
/// `day` 1..=31, `hour` below 24, `minute` and `second` below 60, and
/// `timestamp_subsec_millis` below 2000 (it may exceed 999 only in the
/// event of a leap second). Nothing is promised of the year. On a system
/// clock set before the Unix epoch, `Utc::now` itself aborts the process,
/// so this wrapper never returns a reading from such a clock.
#[verifier::external_body]
fn now_utc_parts() -> (r: DateTimeParts)
    ensures
        1 <= r.month <= 12,
        1 <= r.day <= 31,
        r.hour < 24,
        r.minute < 60,
        r.second < 60,
        r.milli < 2000,
{
    let t = chrono::Utc::now();
    DateTimeParts {
        year: t.year() as i64,
        month: t.month(),
        day: t.day(),
        hour: t.hour(),
        minute: t.minute(),
        second: t.second(),
        milli: t.timestamp_subsec_millis(),
    }
}

/// Relies on chrono's `DateTime::timestamp`: the clock reading as seconds
/// since the Unix epoch. Nothing is promised of the value. On a system
/// clock set before the Unix epoch, `Utc::now` itself aborts the process.
#[verifier::external_body]
fn now_unix_i64() -> (r: i64) {
    chrono::Utc::now().timestamp()
}

/// An epoch-seconds reading as the unsigned value the summary computes
/// with: negative readings collapse to zero, the rest are unchanged.
pub fn epoch_secs_of(t: i64) -> (r: u64)
    ensures
        r == (if t < 0 {
            0u64
        } else {
            t as u64
        }),
{
    if t < 0 {
        0
    } else {
        t as u64
    }
}

/// The clock, read once, as seconds since the Unix epoch, normalized by
/// `epoch_secs_of`. The negative arm of that normalization is defensive:
/// chrono aborts on a pre-epoch clock before a negative reading could
/// reach it. Nothing can be promised of a clock value itself: the summary
/// takes it as an argument and is verified for every value.
pub fn now_unix_secs() -> u64 {
    epoch_secs_of(now_unix_i64())
}

/// Normalize a raw civil-field reading to the domain of the timestamp
/// notation: a leap-second millisecond count is truncated to 999, the
/// other fields are kept as they are, and a reading is returned exactly
/// when its year lies in 0..=9999.
pub fn normalize_parts(p: DateTimeParts) -> (r: Option<DateTimeParts>)
    requires
        1 <= p.month <= 12,
        1 <= p.day <= 31,
        p.hour < 24,
        p.minute < 60,
        p.second < 60,
        p.milli < 2000,
    ensures
        r is Some <==> 0 <= p.year <= 9999,
        r matches Some(q) ==> {
            &&& q.wf()
            &&& q.year == p.year
            &&& q.month == p.month
            &&& q.day == p.day
            &&& q.hour == p.hour
            &&& q.minute == p.minute
            &&& q.second == p.second
            &&& q.milli == (if p.milli > 999 {
                999u32
            } else {
                p.milli
            })
        },
{
    let mut q = p;
    if q.milli > 999 {
        q.milli = 999;
    }
    if q.year < 0 || q.year > 9999 {
        None
    } else {
        Some(q)
    }
}

/// The clock, read once, split into civil UTC fields and normalized by
/// `normalize_parts`; absent exactly when the clock's year lies outside
/// 0..=9999 (no such clock is expected).
pub fn now_parts() -> (r: Option<DateTimeParts>)
    ensures
        r matches Some(p) ==> p.wf(),
{
    normalize_parts(now_utc_parts())
}

/// Render a date and time in the notation the service expects.
pub fn format_timestamp(p: &DateTimeParts) -> (r: String)
    requires
        p.wf(),
    ensures
        r@ == timestamp_chars(*p),
{
    let mut out = String::new();
    append_four_digit(&mut out, p.year as u64);
    out.append("-");
    append_two_digit(&mut out, p.month as u64);
    out.append("-");
    append_two_digit(&mut out, p.day as u64);
    out.append("T");
    append_two_digit(&mut out, p.hour as u64);
    out.append(":");
    append_two_digit(&mut out, p.minute as u64);
    out.append(":");
    append_two_digit(&mut out, p.second as u64);
    out.append(".");
    append_three_digit(&mut out, p.milli as u64);
    proof {
        assert(out@ =~= timestamp_chars(*p));
    }
    out
}

} // verus!
