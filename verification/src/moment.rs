//! Calendar moments and times of day as plain values, with the
//! canonical formatting rules of the submission protocol.

use vstd::prelude::*;

use crate::num::padded_digits;
use crate::num::u64_padded_digits;

verus! {

/// A parsed date-time value: the plain fields a fill reads and formats.
#[derive(Clone, Copy, Debug, PartialEq, Eq, Structural)]
pub struct Moment {
    /// Year, rendered as four zero-padded digits.
    pub year: u16,
    /// Month of the year, starting from 1.
    pub month: u8,
    /// Day of the month, starting from 1.
    pub day: u8,
    /// Hour of the day.
    pub hour: u8,
    /// Minute of the hour.
    pub minute: u8,
    /// Second of the minute.
    pub second: u8,
}

/// A time of day, also used to carry a duration of up to 23:59:59.
#[derive(Clone, Copy, Debug, PartialEq, Eq, Structural)]
pub struct TimeOfDay {
    /// Hour of the day.
    pub hour: u8,
    /// Minute of the hour.
    pub minute: u8,
    /// Second of the minute.
    pub second: u8,
}

impl TimeOfDay {
    /// Well-formed: each field is in its calendar range.
    pub open spec fn wf(self) -> bool {
        self.hour <= 23 && self.minute <= 59 && self.second <= 59
    }
}

impl Moment {
    /// Well-formed: each field is in its calendar range.
    pub open spec fn wf(self) -> bool {
        &&& self.year <= 9999
        &&& 1 <= self.month <= 12
        &&& 1 <= self.day <= 31
        &&& self.hour <= 23
        &&& self.minute <= 59
        &&& self.second <= 59
    }

    /// Build a moment, checking every calendar range.
    pub fn new(year: u16, month: u8, day: u8, hour: u8, minute: u8, second: u8) -> (r: Option<
        Moment,
    >)
        ensures
            match r {
                Some(m) => m.wf() && m == (Moment { year, month, day, hour, minute, second }),
                None => !(Moment { year, month, day, hour, minute, second }).wf(),
            },
    {
        if year <= 9999 && 1 <= month && month <= 12 && 1 <= day && day <= 31 && hour <= 23
            && minute <= 59 && second <= 59 {
            Some(Moment { year, month, day, hour, minute, second })
        } else {
            None
        }
    }
}

/// A value as two zero-padded decimal digits.
pub open spec fn two_digits(v: nat) -> Seq<char> {
    padded_digits(v, 2)
}

/// A value as four zero-padded decimal digits.
pub open spec fn four_digits(v: nat) -> Seq<char> {
    padded_digits(v, 4)
}

/// The canonical year-month-day form of a moment.
pub open spec fn ymd_chars(m: Moment) -> Seq<char> {
    four_digits(m.year as nat) + seq!['-'] + two_digits(m.month as nat) + seq!['-'] + two_digits(
        m.day as nat,
    )
}

/// The canonical year-month-day hour:minute form, seconds forced to
/// zero.
pub open spec fn ymd_hm_chars(m: Moment) -> Seq<char> {
    ymd_chars(m) + seq![' '] + two_digits(m.hour as nat) + seq![':'] + two_digits(m.minute as nat)
        + seq![':', '0', '0']
}

/// The canonical hour:minute form of a time, seconds forced to zero.
pub open spec fn hm_chars(t: TimeOfDay) -> Seq<char> {
    two_digits(t.hour as nat) + seq![':'] + two_digits(t.minute as nat) + seq![':', '0', '0']
}

/// The canonical hour:minute:second form of a time, full precision.
pub open spec fn hms_chars(t: TimeOfDay) -> Seq<char> {
    two_digits(t.hour as nat) + seq![':'] + two_digits(t.minute as nat) + seq![':'] + two_digits(
        t.second as nat,
    )
}

/// Format the year-month-day form of a moment.
pub fn format_ymd(m: &Moment) -> (s: String)
    requires
        m.wf(),
    ensures
        s@ == ymd_chars(*m),
{
    proof {
        reveal_strlit("-");
    }
    let mut s = u64_padded_digits(m.year as u64, 4);
    s.append("-");
    let mo = u64_padded_digits(m.month as u64, 2);
    s.append(mo.as_str());
    s.append("-");
    let d = u64_padded_digits(m.day as u64, 2);
    s.append(d.as_str());
    assert(s@ =~= ymd_chars(*m));
    s
}

/// Format the year-month-day hour:minute form of a moment, seconds
/// forced to zero.
pub fn format_ymd_hm(m: &Moment) -> (s: String)
    requires
        m.wf(),
    ensures
        s@ == ymd_hm_chars(*m),
{
    proof {
        reveal_strlit(" ");
        reveal_strlit(":");
        reveal_strlit(":00");
    }
    let mut s = format_ymd(m);
    s.append(" ");
    let h = u64_padded_digits(m.hour as u64, 2);
    s.append(h.as_str());
    s.append(":");
    let mi = u64_padded_digits(m.minute as u64, 2);
    s.append(mi.as_str());
    s.append(":00");
    assert(s@ =~= ymd_hm_chars(*m));
    s
}

/// Format the hour:minute form of a time, seconds forced to zero.
pub fn format_hm(t: &TimeOfDay) -> (s: String)
    requires
        t.wf(),
    ensures
        s@ == hm_chars(*t),
{
    proof {
        reveal_strlit(":");
        reveal_strlit(":00");
    }
    let mut s = u64_padded_digits(t.hour as u64, 2);
    s.append(":");
    let mi = u64_padded_digits(t.minute as u64, 2);
    s.append(mi.as_str());
    s.append(":00");
    assert(s@ =~= hm_chars(*t));
    s
}

/// Format the hour:minute:second form of a time, full precision.
pub fn format_hms(t: &TimeOfDay) -> (s: String)
    requires
        t.wf(),
    ensures
        s@ == hms_chars(*t),
{
    proof {
        reveal_strlit(":");
    }
    let mut s = u64_padded_digits(t.hour as u64, 2);
    s.append(":");
    let mi = u64_padded_digits(t.minute as u64, 2);
    s.append(mi.as_str());
    s.append(":");
    let sec = u64_padded_digits(t.second as u64, 2);
    s.append(sec.as_str());
    assert(s@ =~= hms_chars(*t));
    s
}

/// Relies on `chrono::Local::now` and `chrono::NaiveDate`'s accessors:
/// the month is documented to lie in 1..=12 and the day of month in
/// 1..=31. Nothing else can be promised of the machine's current date.
#[verifier::external_body]
fn today_local_raw() -> (r: (i32, u32, u32))
    ensures
        1 <= r.1 <= 12,
        1 <= r.2 <= 31,
{
    let d = chrono::Local::now().date_naive();
    (chrono::Datelike::year(&d), chrono::Datelike::month(&d), chrono::Datelike::day(&d))
}

/// Combine a time of day with the machine's current local calendar
/// date. Only the time fields are specified; the date fields are
/// whatever the machine's clock said, clamped to the representable
/// year range.
pub fn today_with_time(t: &TimeOfDay) -> (m: Moment)
    requires
        t.wf(),
    ensures
        m.wf(),
        m.hour == t.hour,
        m.minute == t.minute,
        m.second == t.second,
{
    let (y, mo, d) = today_local_raw();
    let year: u16 = if y < 0 {
        0
    } else if y > 9999 {
        9999
    } else {
        y as u16
    };
    Moment {
        year,
        month: mo as u8,
        day: d as u8,
        hour: t.hour,
        minute: t.minute,
        second: t.second,
    }
}

} // verus!
