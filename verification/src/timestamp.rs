//! ISO-8601 timestamps in UTC with second precision: `YYYY-MM-DDTHH:MM:SSZ`.
//!
//! [`format_timestamp`] writes the timestamp of an instant given in seconds
//! since the epoch. [`parse_timestamp`] is the reading of such a text, and
//! [`lemma_timestamp_round_trip`] shows that reading what was written gives
//! the instant back.

use vstd::prelude::*;
use crate::calendar::{civil_of_seconds, lemma_civil_time_exists, CivilTime, DateTime};
use crate::decimal::{
    all_digits, decimal_value, lemma_pow10_values, lemma_zero_padded_value, push_zero_padded,
    zero_padded,
};

verus! {

/// The text of a calendar reading: the year in at least four digits, then
/// month, day, hour, minute and second in two digits each.
pub open spec fn iso8601_text(c: CivilTime) -> Seq<char> {
    zero_padded(c.year as nat, 4) + seq!['-'] + zero_padded(c.month as nat, 2) + seq!['-']
        + zero_padded(c.day as nat, 2) + seq!['T'] + zero_padded(c.hour as nat, 2) + seq![':']
        + zero_padded(c.minute as nat, 2) + seq![':'] + zero_padded(c.second as nat, 2)
        + seq!['Z']
}

/// The timestamp of the instant `t` seconds after the epoch.
pub open spec fn timestamp_text(t: int) -> Seq<char> {
    iso8601_text(civil_of_seconds(t))
}

/// The calendar reading that a text of the form `YYYY-MM-DDTHH:MM:SSZ`
/// spells out, if it has that form and names a real instant at or after the
/// epoch. Everything before the last sixteen characters is the year.
pub open spec fn parse_iso8601(s: Seq<char>) -> Option<CivilTime> {
    let n = s.len() - 16;
    if n < 4 {
        None
    } else {
        let year = s.subrange(0, n);
        let month = s.subrange(n + 1, n + 3);
        let day = s.subrange(n + 4, n + 6);
        let hour = s.subrange(n + 7, n + 9);
        let minute = s.subrange(n + 10, n + 12);
        let second = s.subrange(n + 13, n + 15);
        let c = CivilTime {
            year: decimal_value(year),
            month: decimal_value(month),
            day: decimal_value(day),
            hour: decimal_value(hour),
            minute: decimal_value(minute),
            second: decimal_value(second),
        };
        let digits = all_digits(year) && all_digits(month) && all_digits(day) && all_digits(hour)
            && all_digits(minute) && all_digits(second);
        let separators = s[n] == '-' && s[n + 3] == '-' && s[n + 6] == 'T' && s[n + 9] == ':'
            && s[n + 12] == ':' && s[n + 15] == 'Z';
        if digits && separators && c.wf() {
            Some(c)
        } else {
            None
        }
    }
}

/// The instant, in seconds since the epoch, that a timestamp names.
pub open spec fn parse_timestamp(s: Seq<char>) -> Option<int> {
    match parse_iso8601(s) {
        Some(c) => Some(c.unix_seconds()),
        None => None,
    }
}

/// Reading the text of a well-formed calendar reading gives it back. The
/// text has twenty characters while the year has at most four digits, and
/// never fewer.
pub proof fn lemma_iso8601_round_trip(c: CivilTime)
    requires
        c.wf(),
    ensures
        parse_iso8601(iso8601_text(c)) == Some(c),
        iso8601_text(c).len() >= 20,
        c.year < 10000 ==> iso8601_text(c).len() == 20,
{
    lemma_pow10_values();
    let s = iso8601_text(c);
    let y = zero_padded(c.year as nat, 4);
    lemma_zero_padded_value(c.year as nat, 4);
    lemma_zero_padded_value(c.month as nat, 2);
    lemma_zero_padded_value(c.day as nat, 2);
    lemma_zero_padded_value(c.hour as nat, 2);
    lemma_zero_padded_value(c.minute as nat, 2);
    lemma_zero_padded_value(c.second as nat, 2);
    let n = s.len() - 16;
    assert(n == y.len());
    assert(s.subrange(0, n) =~= y);
    assert(s.subrange(n + 1, n + 3) =~= zero_padded(c.month as nat, 2));
    assert(s.subrange(n + 4, n + 6) =~= zero_padded(c.day as nat, 2));
    assert(s.subrange(n + 7, n + 9) =~= zero_padded(c.hour as nat, 2));
    assert(s.subrange(n + 10, n + 12) =~= zero_padded(c.minute as nat, 2));
    assert(s.subrange(n + 13, n + 15) =~= zero_padded(c.second as nat, 2));
    let parsed = parse_iso8601(s);
    assert(parsed is Some);
    assert(parsed->0 == c);
}

/// Writing an instant as a timestamp and reading the timestamp back gives
/// the same instant, to the second.
pub proof fn lemma_timestamp_round_trip(t: int)
    requires
        0 <= t,
    ensures
        parse_timestamp(timestamp_text(t)) == Some(t),
{
    let c = lemma_civil_time_exists(t);
    lemma_iso8601_round_trip(c);
}

/// Timestamps keep the order of the instants they were written for.
pub proof fn lemma_timestamp_order(earlier: int, later: int)
    requires
        0 <= earlier <= later,
    ensures
        parse_timestamp(timestamp_text(earlier)) is Some,
        parse_timestamp(timestamp_text(later)) is Some,
        parse_timestamp(timestamp_text(earlier))->0 <= parse_timestamp(timestamp_text(later))->0,
{
    lemma_timestamp_round_trip(earlier);
    lemma_timestamp_round_trip(later);
}

impl DateTime {
    /// Writes this date and time as `YYYY-MM-DDTHH:MM:SSZ`.
    pub fn to_iso8601(&self) -> (text: String)
        requires
            self@.wf(),
        ensures
            text@ == iso8601_text(self@),
    {
        let mut out = String::new();
        push_zero_padded(&mut out, self.year as u64, 4);
        out.push('-');
        push_zero_padded(&mut out, self.month as u64, 2);
        out.push('-');
        push_zero_padded(&mut out, self.day as u64, 2);
        out.push('T');
        push_zero_padded(&mut out, self.hour as u64, 2);
        out.push(':');
        push_zero_padded(&mut out, self.minute as u64, 2);
        out.push(':');
        push_zero_padded(&mut out, self.second as u64, 2);
        out.push('Z');
        assert(out@ =~= iso8601_text(self@));
        out
    }
}

/// The timestamp of the instant `now` seconds after the epoch, in UTC.
pub fn format_timestamp(now: u64) -> (text: String)
    ensures
        text@ == timestamp_text(now as int),
{
    DateTime::from_unix_seconds(now).to_iso8601()
}

/// Reads the system clock with `std::time::SystemTime::now` and converts the
/// reading with `SystemTime::duration_since(UNIX_EPOCH)` and
/// `Duration::as_secs` to whole seconds since the epoch. `None` stands for
/// the error of `duration_since`: a clock set before the epoch. Nothing is
/// claimed of the reading itself.
#[verifier::external_body]
pub(crate) fn unix_clock() -> (reading: Option<u64>) {
    match std::time::SystemTime::now().duration_since(std::time::UNIX_EPOCH) {
        Ok(elapsed) => Some(elapsed.as_secs()),
        Err(_) => None,
    }
}

/// What [`chrono_now`] returns for a clock reading: the timestamp of the
/// reading, and nothing where the clock gave none.
pub fn timestamp_of_reading(reading: Option<u64>) -> (stamp: Option<String>)
    ensures
        reading matches Some(now) ==> stamp matches Some(text) && text@ == timestamp_text(
            now as int,
        ),
        reading is None ==> stamp is None,
{
    match reading {
        Some(now) => Some(format_timestamp(now)),
        None => None,
    }
}

/// Whether `text` is the timestamp of some instant a 64-bit clock can give.
pub open spec fn is_timestamp(text: Seq<char>) -> bool {
    exists|now: u64| text == #[trigger] timestamp_text(now as int)
}

/// The timestamp of the current wall-clock time, or `None` when the system
/// clock is set before the epoch.
pub fn chrono_now() -> (stamp: Option<String>)
    ensures
        stamp matches Some(text) ==> is_timestamp(text@),
{
    timestamp_of_reading(unix_clock())
}

} // verus!
