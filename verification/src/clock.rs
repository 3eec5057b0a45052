//! The wall-clock time as the status line and the logs write it.

use crate::text::{
    decimal, denoted, digit, law_decimal_reads_back, law_digits_denote_numbers,
};
use vstd::prelude::*;

verus! {

/// How a time is written, in the notation of the `chrono` crate: year, month
/// and day, then hour, minute and second.
pub const TIME_FORMAT: &'static str = "%Y-%m-%d %H:%M:%S";

/// A local time, to the second.
#[derive(Clone, Copy, Debug, PartialEq, Eq, Structural)]
pub struct CivilTime {
    pub year: i32,
    pub month: u32,
    pub day: u32,
    pub hour: u32,
    pub minute: u32,
    pub second: u32,
}

/// The Gregorian leap year rule.
pub open spec fn is_leap_year(year: int) -> bool {
    year % 4 == 0 && (year % 100 != 0 || year % 400 == 0)
}

/// The days of a month, the first month being 1.
pub open spec fn days_in_month(year: int, month: int) -> int {
    if month == 2 {
        if is_leap_year(year) {
            29
        } else {
            28
        }
    } else if month == 4 || month == 6 || month == 9 || month == 11 {
        30
    } else {
        31
    }
}

impl CivilTime {
    /// The time exists, in a year that `chrono` can represent.
    pub open spec fn valid(self) -> bool {
        &&& -262143 <= self.year <= 262142
        &&& 1 <= self.month <= 12
        &&& 1 <= self.day <= days_in_month(self.year as int, self.month as int)
        &&& self.hour < 24
        &&& self.minute < 60
        &&& self.second < 60
    }

    /// The written form.
    pub open spec fn written(self) -> Seq<char> {
        year_text(self.year as int) + seq!['-'] + two_digits(self.month as nat) + seq!['-']
            + two_digits(self.day as nat) + seq![' '] + two_digits(self.hour as nat) + seq![':']
            + two_digits(self.minute as nat) + seq![':'] + two_digits(self.second as nat)
    }
}

/// A number below one hundred in two digits.
pub open spec fn two_digits(value: nat) -> Seq<char> {
    seq![digit(value / 10), digit(value % 10)]
}

/// A number in at least four digits.
pub open spec fn four_digits(value: nat) -> Seq<char> {
    if value < 10000 {
        seq![digit(value / 1000), digit(value / 100 % 10), digit(value / 10 % 10), digit(value % 10)]
    } else {
        decimal(value)
    }
}

/// A year in at least four digits, with a sign where it is negative or has
/// more than four.
pub open spec fn year_text(year: int) -> Seq<char> {
    if 0 <= year < 10000 {
        four_digits(year as nat)
    } else if year < 0 {
        seq!['-'] + four_digits((-year) as nat)
    } else {
        seq!['+'] + four_digits(year as nat)
    }
}

/// A time exists when its year can be represented, its hour, minute and second
/// are on the clock and its month has that day: every month has 28, all but
/// February have 30, the long ones have 31, and February has 29 in years
/// that four divides, except centuries that four hundred does not divide.
pub proof fn law_times_that_exist(time: CivilTime)
    ensures
        ({
            let on_the_clock = time.hour <= 23 && time.minute <= 59 && time.second <= 59;
            let in_range = -262143 <= time.year <= 262142 && 1 <= time.month <= 12 && time.day >= 1;
            let leap = time.year % 400 == 0 || time.year % 4 == 0 && time.year % 100 != 0;
            let long = time.month == 1 || time.month == 3 || time.month == 5 || time.month == 7
                || time.month == 8 || time.month == 10 || time.month == 12;
            &&& time.valid() ==> on_the_clock && in_range && time.day <= 31
            &&& on_the_clock && in_range && time.day <= 28 ==> time.valid()
            &&& on_the_clock && in_range && time.day == 29 ==> (time.valid() <==> time.month != 2
                || leap)
            &&& on_the_clock && in_range && time.day == 30 ==> (time.valid() <==> time.month != 2)
            &&& on_the_clock && in_range && time.day == 31 ==> (time.valid() <==> long)
        }),
{
}

proof fn lemma_two_digits(value: nat)
    requires
        value < 100,
    ensures
        two_digits(value).len() == 2,
        '0' as int <= two_digits(value)[0] as int <= '9' as int,
        '0' as int <= two_digits(value)[1] as int <= '9' as int,
        (two_digits(value)[0] as int - '0' as int) * 10 + (two_digits(value)[1] as int - '0' as int)
            == value,
{
}

proof fn lemma_four_digits(value: nat)
    ensures
        four_digits(value).len() >= 4,
        value < 10000 ==> four_digits(value).len() == 4,
        value >= 10000 ==> four_digits(value) == decimal(value),
        denoted(four_digits(value)) == value,
        forall|i: int|
            0 <= i < four_digits(value).len() ==> '0' as int <= #[trigger] four_digits(
                value,
            )[i] as int <= '9' as int,
{
    if value < 10000 {
        let d0 = digit(value / 1000);
        let d1 = digit(value / 100 % 10);
        let d2 = digit(value / 10 % 10);
        let d3 = digit(value % 10);
        law_digits_denote_numbers(Seq::empty(), d0);
        law_digits_denote_numbers(Seq::empty().push(d0), d1);
        law_digits_denote_numbers(Seq::empty().push(d0).push(d1), d2);
        law_digits_denote_numbers(Seq::empty().push(d0).push(d1).push(d2), d3);
        assert(four_digits(value) =~= Seq::empty().push(d0).push(d1).push(d2).push(d3));
    } else {
        law_decimal_reads_back(value);
        lemma_at_least_four(value);
    }
}

/// A written time can be read back: it ends in `-MM-DD hh:mm:ss`, two digits
/// for each field, and begins with the year in at least four digits, behind a
/// `-` before year zero and a `+` after year 9999.
pub proof fn law_written_time_reads_back(time: CivilTime)
    requires
        time.month < 100,
        time.day < 100,
        time.hour < 100,
        time.minute < 100,
        time.second < 100,
    ensures
        ({
            let text = time.written();
            let n = text.len() - 15;
            let digits = if 0 <= time.year <= 9999 {
                text.take(n)
            } else {
                text.subrange(1, n)
            };
            &&& text[n] == '-' && text[n + 3] == '-' && text[n + 6] == ' ' && text[n + 9] == ':'
                && text[n + 12] == ':'
            &&& forall|i: int|
                n <= i < n + 15 && i != n && i != n + 3 && i != n + 6 && i != n + 9 && i != n + 12
                    ==> '0' as int <= #[trigger] text[i] as int <= '9' as int
            &&& (text[n + 1] as int - '0' as int) * 10 + (text[n + 2] as int - '0' as int)
                == time.month
            &&& (text[n + 4] as int - '0' as int) * 10 + (text[n + 5] as int - '0' as int)
                == time.day
            &&& (text[n + 7] as int - '0' as int) * 10 + (text[n + 8] as int - '0' as int)
                == time.hour
            &&& (text[n + 10] as int - '0' as int) * 10 + (text[n + 11] as int - '0' as int)
                == time.minute
            &&& (text[n + 13] as int - '0' as int) * 10 + (text[n + 14] as int - '0' as int)
                == time.second
            &&& 0 <= time.year <= 9999 ==> n == 4
            &&& time.year < 0 ==> n >= 5 && text[0] == '-'
            &&& time.year > 9999 ==> n >= 6 && text[0] == '+'
            &&& forall|i: int|
                0 <= i < digits.len() ==> '0' as int <= #[trigger] digits[i] as int <= '9' as int
            &&& denoted(digits) == if time.year < 0 {
                -time.year
            } else {
                time.year as int
            }
        }),
{
    let year = year_text(time.year as int);
    let value = (if time.year < 0 {
        -time.year
    } else {
        time.year as int
    }) as nat;
    lemma_four_digits(value);
    lemma_two_digits(time.month as nat);
    lemma_two_digits(time.day as nat);
    lemma_two_digits(time.hour as nat);
    lemma_two_digits(time.minute as nat);
    lemma_two_digits(time.second as nat);
    let text = time.written();
    let n = text.len() - 15;
    assert(n == year.len());
    if 0 <= time.year <= 9999 {
        assert(text.take(n) =~= four_digits(value));
    } else {
        assert(text.subrange(1, n) =~= four_digits(value));
        if time.year > 9999 {
            assert(decimal(value).len() >= 5) by {
                assert(decimal(value) == decimal(value / 10).push(digit(value % 10)));
                lemma_at_least_four(value / 10);
            }
        }
    }
}

/// A number from a thousand on has at least four digits.
proof fn lemma_at_least_four(value: nat)
    requires
        value >= 1000,
    ensures
        decimal(value).len() >= 4,
{
    assert(decimal(value) == decimal(value / 10).push(digit(value % 10)));
    assert(decimal(value / 10) == decimal(value / 10 / 10).push(digit(value / 10 % 10)));
    assert(decimal(value / 10 / 10) == decimal(value / 10 / 10 / 10).push(
        digit(value / 10 / 10 % 10),
    ));
    law_decimal_reads_back(value / 10 / 10 / 10);
}

/// `chrono::NaiveDate::from_ymd_opt`, `and_hms_opt` and `format` with
/// [`TIME_FORMAT`]: nothing for a time that does not exist, else its fields
/// padded with zeros, four digits for the year and two for the others.
#[verifier::external_body]
fn format_time(time: &CivilTime, format: &str) -> (text: Option<String>)
    requires
        format@ == TIME_FORMAT@,
    ensures
        match text {
            Some(text) => time.valid() && text@ == time.written(),
            None => !time.valid(),
        },
{
    let date = chrono::NaiveDate::from_ymd_opt(time.year, time.month, time.day)?;
    let moment = date.and_hms_opt(time.hour, time.minute, time.second)?;
    Some(moment.format(format).to_string())
}

/// The written form of a time, or `None` for one that does not exist.
pub fn time_label(time: &CivilTime) -> (label: Option<String>)
    ensures
        match label {
            Some(label) => time.valid() && label@ == time.written(),
            None => !time.valid(),
        },
{
    format_time(time, TIME_FORMAT)
}

} // verus!
