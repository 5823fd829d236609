//! The present moment, and how a moment is written.

use crate::text::{decimal, to_decimal};
use chrono::{Datelike, Timelike};
use vstd::prelude::*;

verus! {

/// A moment in UTC, as the calendar and the clock show it.
#[derive(Clone, Copy, Debug, PartialEq, Eq, Structural)]
pub struct Moment {
    pub year: i32,
    pub month: u32,
    pub day: u32,
    pub hour: u32,
    pub minute: u32,
    pub second: u32,
    /// The billionths of the second. During a leap second they count on
    /// from one billion.
    pub nanosecond: u32,
}

impl Moment {
    /// Whether every field lies where the calendar and the clock keep it:
    /// the month from 1 to 12, the day from 1 to 31, the hour below 24, the
    /// minute and the second below 60, and the billionths below two billion.
    pub open spec fn in_range(self) -> bool {
        &&& 1 <= self.month <= 12
        &&& 1 <= self.day <= 31
        &&& self.hour <= 23
        &&& self.minute <= 59
        &&& self.second <= 59
        &&& self.nanosecond <= 1_999_999_999
    }
}

/// The present moment.
///
/// Calls `chrono::Utc::now` and reads the fields of the result with
/// `Datelike::year`, `month`, `day` and `Timelike::hour`, `minute`,
/// `second`, `nanosecond`. The result depends on the clock, so of its value
/// only the ranges are claimed that `chrono` documents for these fields.
/// The call does not return where the clock stands before 1970 or beyond
/// what `chrono` can hold.
#[verifier::external_body]
pub(crate) fn utc_now() -> (m: Moment)
    ensures
        m.in_range(),
{
    let now = chrono::Utc::now();
    Moment {
        year: now.year(),
        month: now.month(),
        day: now.day(),
        hour: now.hour(),
        minute: now.minute(),
        second: now.second(),
        nanosecond: now.nanosecond(),
    }
}

/// `count` zeros.
pub open spec fn zeros(count: int) -> Seq<char> {
    Seq::new(
        if count > 0 {
            count as nat
        } else {
            0
        },
        |i: int| '0',
    )
}

/// The decimal form of `n`, with zeros in front of it where it has fewer
/// than `width` digits.
pub open spec fn spec_padded(n: nat, width: nat) -> Seq<char> {
    zeros(width - decimal(n).len()) + decimal(n)
}

/// How a year is written: with four digits from 0 to 9999, and else with
/// its sign and at least four digits.
pub open spec fn year_text(year: int) -> Seq<char> {
    if 0 <= year <= 9999 {
        spec_padded(year as nat, 4)
    } else if year > 9999 {
        seq!['+'] + decimal(year as nat)
    } else {
        seq!['-'] + spec_padded((-year) as nat, 4)
    }
}

/// The second that is shown for a moment: 60 during a leap second.
pub open spec fn shown_second(m: Moment) -> nat {
    (m.second + m.nanosecond / 1_000_000_000) as nat
}

/// How the date of a moment is written: year, month and day, joined by `-`.
pub open spec fn spec_date_text(m: Moment) -> Seq<char> {
    year_text(m.year as int) + seq!['-'] + spec_padded(m.month as nat, 2) + seq!['-']
        + spec_padded(m.day as nat, 2)
}

/// How the time of day of a moment is written, without an offset: hour,
/// minute and second, joined by `:`.
pub open spec fn clock_text(m: Moment) -> Seq<char> {
    spec_padded(m.hour as nat, 2) + seq![':'] + spec_padded(m.minute as nat, 2) + seq![':']
        + spec_padded(shown_second(m), 2)
}

/// How the time of day of a moment is written: hour, minute and second,
/// joined by `:`, and the offset from UTC, which is none.
pub open spec fn spec_time_text(m: Moment) -> Seq<char> {
    clock_text(m) + "+00:00"@
}

/// How a moment is written as a whole: the date, `T`, the time of day to
/// the billionth of a second, and `Z` for UTC.
pub open spec fn spec_timestamp_text(m: Moment) -> Seq<char> {
    spec_date_text(m) + seq!['T'] + clock_text(m) + seq!['.'] + spec_padded(
        (m.nanosecond % 1_000_000_000) as nat,
        9,
    ) + seq!['Z']
}

/// Ten to the power of `digits`.
pub open spec fn pow10(digits: nat) -> nat
    decreases digits,
{
    if digits == 0 {
        1
    } else {
        10 * pow10((digits - 1) as nat)
    }
}

/// A number below ten to the power of `digits` has at most `digits` digits.
pub proof fn lemma_decimal_len(n: nat, digits: nat)
    requires
        digits >= 1,
        n < pow10(digits),
    ensures
        1 <= decimal(n).len() <= digits,
    decreases digits,
{
    if n >= 10 {
        assert(pow10(1) == 10) by {
            reveal_with_fuel(pow10, 2);
        }
        assert(digits >= 2);
        lemma_decimal_len(n / 10, (digits - 1) as nat);
    }
}

/// A number that fits in `width` digits is written with exactly `width`
/// digits.
pub proof fn lemma_padded_len(n: nat, width: nat)
    requires
        width >= 1,
        n < pow10(width),
    ensures
        spec_padded(n, width).len() == width,
{
    lemma_decimal_len(n, width);
}

/// A moment in a year of four digits is written in a fixed shape: the date
/// in ten characters, the time of day in fourteen, and the whole in thirty,
/// with `-`, `T`, `:`, `.` and `Z` at their places.
pub proof fn lemma_timestamp_shape(m: Moment)
    requires
        m.in_range(),
        0 <= m.year <= 9999,
    ensures
        spec_date_text(m).len() == 10,
        spec_time_text(m).len() == 14,
        spec_timestamp_text(m).len() == 30,
        spec_timestamp_text(m)[4] == '-',
        spec_timestamp_text(m)[7] == '-',
        spec_timestamp_text(m)[10] == 'T',
        spec_timestamp_text(m)[13] == ':',
        spec_timestamp_text(m)[16] == ':',
        spec_timestamp_text(m)[19] == '.',
        spec_timestamp_text(m)[29] == 'Z',
{
    reveal_with_fuel(pow10, 10);
    reveal_strlit("+00:00");
    lemma_padded_len(m.year as nat, 4);
    lemma_padded_len(m.month as nat, 2);
    lemma_padded_len(m.day as nat, 2);
    lemma_padded_len(m.hour as nat, 2);
    lemma_padded_len(m.minute as nat, 2);
    lemma_padded_len(shown_second(m), 2);
    lemma_padded_len((m.nanosecond % 1_000_000_000) as nat, 9);
}

/// Writes `n` in decimal with at least `width` digits.
pub fn padded(n: u64, width: usize) -> (s: String)
    ensures
        s@ == spec_padded(n as nat, width as nat),
{
    let digits = to_decimal(n);
    let len = digits.as_str().unicode_len();
    let mut s = String::new();
    let mut i: usize = len;
    assert(s@ =~= zeros(0));
    while i < width
        invariant
            len <= i,
            i <= width || i == len,
            s@ == zeros(i - len),
        decreases width - i,
    {
        proof {
            reveal_strlit("0");
        }
        s.append("0");
        i += 1;
        assert(s@ =~= zeros(i - len));
    }
    assert(s@ =~= zeros(width - len));
    s.append(digits.as_str());
    s
}

/// Writes a year.
fn write_year(year: i32) -> (s: String)
    ensures
        s@ == year_text(year as int),
{
    proof {
        reveal_strlit("+");
        reveal_strlit("-");
    }
    if 0 <= year && year <= 9999 {
        padded(year as u64, 4)
    } else if year > 9999 {
        let mut s = "+".to_owned();
        s.append(to_decimal(year as u64).as_str());
        assert(s@ =~= seq!['+'] + decimal(year as nat));
        s
    } else {
        let mut s = "-".to_owned();
        s.append(padded((-(year as i64)) as u64, 4).as_str());
        assert(s@ =~= seq!['-'] + spec_padded((-year) as nat, 4));
        s
    }
}

/// Writes the time of day of `m` without an offset.
fn write_clock(m: &Moment) -> (s: String)
    ensures
        s@ == clock_text(*m),
{
    proof {
        reveal_strlit(":");
    }
    let mut s = padded(m.hour as u64, 2);
    s.append(":");
    s.append(padded(m.minute as u64, 2).as_str());
    s.append(":");
    s.append(padded(m.second as u64 + (m.nanosecond / 1_000_000_000) as u64, 2).as_str());
    assert(s@ =~= clock_text(*m));
    s
}

/// Writes the date of `m`.
pub fn date_text(m: &Moment) -> (s: String)
    ensures
        s@ == spec_date_text(*m),
{
    proof {
        reveal_strlit("-");
    }
    let mut s = write_year(m.year);
    s.append("-");
    s.append(padded(m.month as u64, 2).as_str());
    s.append("-");
    s.append(padded(m.day as u64, 2).as_str());
    assert(s@ =~= spec_date_text(*m));
    s
}

/// Writes the time of day of `m`.
pub fn time_text(m: &Moment) -> (s: String)
    ensures
        s@ == spec_time_text(*m),
{
    let mut s = write_clock(m);
    s.append("+00:00");
    s
}

/// Writes `m` as a whole.
pub fn timestamp_text(m: &Moment) -> (s: String)
    ensures
        s@ == spec_timestamp_text(*m),
{
    proof {
        reveal_strlit("T");
        reveal_strlit(".");
        reveal_strlit("Z");
    }
    let mut s = date_text(m);
    s.append("T");
    s.append(write_clock(m).as_str());
    s.append(".");
    s.append(padded((m.nanosecond % 1_000_000_000) as u64, 9).as_str());
    s.append("Z");
    assert(s@ =~= spec_timestamp_text(*m));
    s
}

} // verus!
