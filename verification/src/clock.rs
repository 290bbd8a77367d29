//! Calendar time as plain numbers, and the two ways the journal writes it:
//! in the session header and in the file's name. The caller reads the clock;
//! the crate `time` says what the instant is in UTC.

use vstd::prelude::*;

verus! {

/// A date and a time of day, to the millisecond.
#[derive(Clone, Copy, Debug, PartialEq, Eq)]
pub struct DateTime {
    pub year: i32,
    pub month: u8,
    pub day: u8,
    pub hour: u8,
    pub minute: u8,
    pub second: u8,
    pub millisecond: u16,
}

/// `time::OffsetDateTime`, an instant with the offset it is seen at. Nothing
/// of its inside is seen here.
#[verifier::external_type_specification]
#[verifier::external_body]
pub struct ExOffsetDateTime(time::OffsetDateTime);

/// The calendar fields of an instant at its own offset, as the getters of
/// `OffsetDateTime` give them.
pub uninterp spec fn instant_fields(instant: time::OffsetDateTime) -> DateTime;

/// The same instant seen in UTC, as `time` computes it, or `None` where that
/// is out of the range of `time`.
pub uninterp spec fn instant_utc(instant: time::OffsetDateTime) -> Option<time::OffsetDateTime>;

/// `OffsetDateTime::checked_to_offset` with `UtcOffset::UTC`: the same
/// instant in UTC, or `None` where that is out of the range of `time`.
#[verifier::external_body]
pub(crate) fn to_utc(instant: &time::OffsetDateTime) -> (utc: Option<time::OffsetDateTime>)
    ensures
        utc == instant_utc(*instant),
{
    instant.checked_to_offset(time::UtcOffset::UTC)
}

/// The calendar fields of an instant at its own offset, each from its getter
/// of `OffsetDateTime`, and each in the range that the getter documents.
/// Nothing is claimed of the year, nor that the day is one of the month.
#[verifier::external_body]
pub(crate) fn fields_of(instant: &time::OffsetDateTime) -> (fields: DateTime)
    ensures
        fields.in_range(),
        fields == instant_fields(*instant),
{
    DateTime {
        year: instant.year(),
        month: instant.month().into(),
        day: instant.day(),
        hour: instant.hour(),
        minute: instant.minute(),
        second: instant.second(),
        millisecond: instant.millisecond(),
    }
}

/// Whether a year of the Gregorian calendar has a 29th of February.
pub open spec fn is_leap_year(year: int) -> bool {
    year % 4 == 0 && (year % 100 != 0 || year % 400 == 0)
}

/// The number of days of a month; 0 where there is no such month.
pub open spec fn days_in_month(year: int, month: int) -> int {
    if month == 2 {
        if is_leap_year(year) {
            29
        } else {
            28
        }
    } else if month == 4 || month == 6 || month == 9 || month == 11 {
        30
    } else if 1 <= month <= 12 {
        31
    } else {
        0
    }
}

/// The character of a decimal digit.
pub open spec fn digit(d: int) -> char {
    if d == 0 {
        '0'
    } else if d == 1 {
        '1'
    } else if d == 2 {
        '2'
    } else if d == 3 {
        '3'
    } else if d == 4 {
        '4'
    } else if d == 5 {
        '5'
    } else if d == 6 {
        '6'
    } else if d == 7 {
        '7'
    } else if d == 8 {
        '8'
    } else {
        '9'
    }
}

/// A number below 100 in two digits.
pub open spec fn two_digits(n: int) -> Seq<char> {
    seq![digit(n / 10), digit(n % 10)]
}

/// A number below 1000 in three digits.
pub open spec fn three_digits(n: int) -> Seq<char> {
    seq![digit(n / 100), digit(n / 10 % 10), digit(n % 10)]
}

/// A number below 10000 in four digits.
pub open spec fn four_digits(n: int) -> Seq<char> {
    seq![digit(n / 1000), digit(n / 100 % 10), digit(n / 10 % 10), digit(n % 10)]
}

impl DateTime {
    /// Whether each field but the year is in the range of its kind: a month
    /// of the year, a day of some month, a time of the day.
    pub open spec fn in_range(&self) -> bool {
        &&& 1 <= self.month <= 12
        &&& 1 <= self.day <= 31
        &&& self.hour < 24
        &&& self.minute < 60
        &&& self.second < 60
        &&& self.millisecond < 1000
    }

    /// Whether this is a date of the calendar, in a year of four digits, and
    /// a time of the day.
    pub open spec fn valid(&self) -> bool {
        &&& 0 <= self.year <= 9999
        &&& 1 <= self.month <= 12
        &&& 1 <= self.day <= days_in_month(self.year as int, self.month as int)
        &&& self.hour < 24
        &&& self.minute < 60
        &&& self.second < 60
        &&& self.millisecond < 1000
    }

    /// The date as `YYYY-MM-DD`.
    pub open spec fn date_text(&self) -> Seq<char> {
        four_digits(self.year as int) + seq!['-'] + two_digits(self.month as int) + seq!['-']
            + two_digits(self.day as int)
    }

    /// The time as the session header holds it: `YYYY-MM-DDThh:mm:ss.sssZ`.
    pub open spec fn timestamp_text(&self) -> Seq<char> {
        self.date_text() + seq!['T'] + two_digits(self.hour as int) + seq![':'] + two_digits(
            self.minute as int,
        ) + seq![':'] + two_digits(self.second as int) + seq!['.'] + three_digits(
            self.millisecond as int,
        ) + seq!['Z']
    }

    /// The time as the file's name holds it: `YYYY-MM-DDThh-mm-ss`.
    pub open spec fn file_stamp_text(&self) -> Seq<char> {
        self.date_text() + seq!['T'] + two_digits(self.hour as int) + seq!['-'] + two_digits(
            self.minute as int,
        ) + seq!['-'] + two_digits(self.second as int)
    }

    /// Whether this is a date of the calendar, in a year of four digits, and
    /// a time of the day.
    pub fn is_valid(&self) -> (ok: bool)
        ensures
            ok == self.valid(),
    {
        if self.year < 0 || self.year > 9999 || self.month < 1 || self.month > 12 {
            return false;
        }
        let leap = self.year % 4 == 0 && (self.year % 100 != 0 || self.year % 400 == 0);
        let days: u8 = if self.month == 2 {
            if leap {
                29
            } else {
                28
            }
        } else if self.month == 4 || self.month == 6 || self.month == 9 || self.month == 11 {
            30
        } else {
            31
        };
        1 <= self.day && self.day <= days && self.hour < 24 && self.minute < 60 && self.second
            < 60 && self.millisecond < 1000
    }

    /// Appends the date as `YYYY-MM-DD`.
    fn push_date(&self, out: &mut String)
        requires
            self.valid(),
        ensures
            final(out)@ == old(out)@ + self.date_text(),
    {
        let ghost before = out@;
        push_four(out, self.year as u32);
        out.push('-');
        push_two(out, self.month as u32);
        out.push('-');
        push_two(out, self.day as u32);
        proof {
            assert(out@ =~= before + self.date_text());
        }
    }

    /// Formats the time for the session header; `None` where it is not
    /// valid.
    pub fn format_timestamp(&self) -> (text: Option<String>)
        ensures
            match text {
                Some(text) => self.valid() && text@ == self.timestamp_text(),
                None => !self.valid(),
            },
    {
        if !self.is_valid() {
            return None;
        }
        let mut out = String::new();
        self.push_date(&mut out);
        out.push('T');
        push_two(&mut out, self.hour as u32);
        out.push(':');
        push_two(&mut out, self.minute as u32);
        out.push(':');
        push_two(&mut out, self.second as u32);
        out.push('.');
        push_three(&mut out, self.millisecond as u32);
        out.push('Z');
        proof {
            assert(out@ =~= self.timestamp_text());
        }
        Some(out)
    }

    /// Formats the time for the file's name; `None` where it is not valid.
    pub fn format_file_stamp(&self) -> (text: Option<String>)
        ensures
            match text {
                Some(text) => self.valid() && text@ == self.file_stamp_text(),
                None => !self.valid(),
            },
    {
        if !self.is_valid() {
            return None;
        }
        let mut out = String::new();
        self.push_date(&mut out);
        out.push('T');
        push_two(&mut out, self.hour as u32);
        out.push('-');
        push_two(&mut out, self.minute as u32);
        out.push('-');
        push_two(&mut out, self.second as u32);
        proof {
            assert(out@ =~= self.file_stamp_text());
        }
        Some(out)
    }
}

/// The character of a decimal digit.
fn digit_char(d: u32) -> (c: char)
    requires
        d < 10,
    ensures
        c == digit(d as int),
{
    if d == 0 {
        '0'
    } else if d == 1 {
        '1'
    } else if d == 2 {
        '2'
    } else if d == 3 {
        '3'
    } else if d == 4 {
        '4'
    } else if d == 5 {
        '5'
    } else if d == 6 {
        '6'
    } else if d == 7 {
        '7'
    } else if d == 8 {
        '8'
    } else {
        '9'
    }
}

/// Appends a number below 100 in two digits.
pub(crate) fn push_two(out: &mut String, n: u32)
    requires
        n < 100,
    ensures
        final(out)@ == old(out)@ + two_digits(n as int),
{
    let ghost before = out@;
    out.push(digit_char(n / 10));
    out.push(digit_char(n % 10));
    proof {
        assert(out@ =~= before + two_digits(n as int));
    }
}

/// Appends a number below 1000 in three digits.
fn push_three(out: &mut String, n: u32)
    requires
        n < 1000,
    ensures
        final(out)@ == old(out)@ + three_digits(n as int),
{
    let ghost before = out@;
    out.push(digit_char(n / 100));
    out.push(digit_char(n / 10 % 10));
    out.push(digit_char(n % 10));
    proof {
        assert(out@ =~= before + three_digits(n as int));
    }
}

/// Appends a number below 10000 in four digits.
pub(crate) fn push_four(out: &mut String, n: u32)
    requires
        n < 10000,
    ensures
        final(out)@ == old(out)@ + four_digits(n as int),
{
    let ghost before = out@;
    out.push(digit_char(n / 1000));
    out.push(digit_char(n / 100 % 10));
    out.push(digit_char(n / 10 % 10));
    out.push(digit_char(n % 10));
    proof {
        assert(out@ =~= before + four_digits(n as int));
    }
}

} // verus!
