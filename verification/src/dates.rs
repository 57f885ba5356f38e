//! Dates of the Gregorian calendar, and the time of day.
use vstd::prelude::*;
use crate::strs::{
    dec, digit, law_decimal_stands_for_its_number, law_filling_keeps_the_text, number_of, pad_left,
};

verus! {

/// The first year that can be counted.
pub const MIN_YEAR: i32 = -262143;

/// The last year that can be counted.
pub const MAX_YEAR: i32 = 262142;

#[derive(Clone, Copy, Debug, PartialEq, Eq, Structural)]
pub struct Date {
    pub year: i32,
    pub month: u32,
    pub day: u32,
}

/// Whether a year has a leap day.
pub open spec fn is_leap(year: int) -> bool {
    year % 4 == 0 && (year % 100 != 0 || year % 400 == 0)
}

/// The number of days of a month.
pub open spec fn days_in(year: int, month: int) -> int {
    if month == 2 {
        if is_leap(year) {
            29
        } else {
            28
        }
    } else if month == 4 || month == 6 || month == 9 || month == 11 {
        30
    } else {
        31
    }
}

/// The number of days of a year before a month.
pub open spec fn days_before_month(year: int, month: int) -> int
    decreases month,
{
    if month <= 1 {
        0
    } else {
        days_before_month(year, month - 1) + days_in(year, month - 1)
    }
}

/// The number of days before a year, counted from the beginning of year 1.
#[verifier::opaque]
pub open spec fn days_before_year(year: int) -> int {
    365 * (year - 1) + (year - 1) / 4 - (year - 1) / 100 + (year - 1) / 400
}

/// The number of days from the first day of year 1 to a date.
pub open spec fn day_number(year: int, month: int, day: int) -> int {
    days_before_year(year) + days_before_month(year, month) + day - 1
}

/// The day of the week, from 0 for Monday to 6 for Sunday. The first day of
/// year 1 was a Monday.
pub open spec fn weekday_of(year: int, month: int, day: int) -> int {
    day_number(year, month, day) % 7
}

impl Date {
    /// Whether there is such a day.
    pub open spec fn wf(self) -> bool {
        &&& MIN_YEAR <= self.year <= MAX_YEAR
        &&& 1 <= self.month <= 12
        &&& 1 <= self.day <= days_in(self.year as int, self.month as int)
    }
}

/// `chrono::NaiveDate::weekday` of the date, as its number of days from Monday:
/// the day of the week in the proleptic Gregorian calendar.
#[verifier::external_body]
pub(crate) fn weekday(year: i32, month: u32, day: u32) -> (r: u32)
    requires
        (Date { year, month, day }).wf(),
    ensures
        r == weekday_of(year as int, month as int, day as int),
{
    let date = chrono::NaiveDate::from_ymd_opt(year, month, day).unwrap_or_default();
    chrono::Datelike::weekday(&date).num_days_from_monday()
}

/// `chrono::Datelike::num_days_in_month` of a date of the month: its number of
/// days in the proleptic Gregorian calendar.
#[verifier::external_body]
pub(crate) fn num_days_in_month(year: i32, month: u32) -> (r: u8)
    requires
        MIN_YEAR <= year <= MAX_YEAR,
        1 <= month <= 12,
    ensures
        r == days_in(year as int, month as int),
{
    let date = chrono::NaiveDate::from_ymd_opt(year, month, 1).unwrap_or_default();
    chrono::Datelike::num_days_in_month(&date)
}

/// The name of a month.
pub open spec fn month_name(month: int) -> Seq<char> {
    if month == 1 {
        "January"@
    } else if month == 2 {
        "February"@
    } else if month == 3 {
        "March"@
    } else if month == 4 {
        "April"@
    } else if month == 5 {
        "May"@
    } else if month == 6 {
        "June"@
    } else if month == 7 {
        "July"@
    } else if month == 8 {
        "August"@
    } else if month == 9 {
        "September"@
    } else if month == 10 {
        "October"@
    } else if month == 11 {
        "November"@
    } else {
        "December"@
    }
}

/// A year with at least four digits, and with a sign where it has more or is
/// before year 0.
pub open spec fn year_text(year: int) -> Seq<char> {
    if year < 0 {
        "-"@ + pad_left(dec((-year) as nat), 4, '0')
    } else if year <= 9999 {
        pad_left(dec(year as nat), 4, '0')
    } else {
        "+"@ + dec(year as nat)
    }
}

/// The title of a month: its name and its year.
pub open spec fn month_text(year: int, month: int) -> Seq<char> {
    month_name(month) + " "@ + year_text(year)
}

/// `chrono::NaiveDate::format` with `%B %Y`, of a date of the month: the name of
/// the month and the year, which has a sign outside 0 to 9999.
#[verifier::external_body]
pub(crate) fn month_title(year: i32, month: u32) -> (r: String)
    requires
        MIN_YEAR <= year <= MAX_YEAR,
        1 <= month <= 12,
    ensures
        r@ == month_text(year as int, month as int),
{
    let date = chrono::NaiveDate::from_ymd_opt(year, month, 1).unwrap_or_default();
    date.format("%B %Y").to_string()
}

/// A number of two digits.
pub open spec fn two_digits(n: int) -> Seq<char> {
    pad_left(dec(n as nat), 2, '0')
}

/// A time of a day, as the bar shows it.
pub open spec fn clock_text(month: int, day: int, hour: int, minute: int) -> Seq<char> {
    two_digits(hour) + ":"@ + two_digits(minute) + " "@ + two_digits(day) + "/"@ + two_digits(month)
}

/// `chrono::NaiveDateTime::format` with `%H:%M %d/%m`: hour, minute, day and
/// month, with two digits each.
#[verifier::external_body]
fn format_clock(date: Date, hour: u32, minute: u32) -> (r: String)
    requires
        date.wf(),
        hour < 24,
        minute < 60,
    ensures
        r@ == clock_text(date.month as int, date.day as int, hour as int, minute as int),
{
    let date = chrono::NaiveDate::from_ymd_opt(date.year, date.month, date.day).unwrap_or_default();
    date.and_hms_opt(hour, minute, 0).unwrap_or_default().format("%H:%M %d/%m").to_string()
}

/// What the clock in the bar says.
pub fn mk_clock_text(date: Date, hour: u32, minute: u32) -> (r: String)
    requires
        date.wf(),
        hour < 24,
        minute < 60,
    ensures
        r@ == clock_text(date.month as int, date.day as int, hour as int, minute as int),
{
    format_clock(date, hour, minute)
}

/// The clock shows hour and minute, day and month, in this order and with two digits
/// each.
pub proof fn law_clock_shows_the_time(month: int, day: int, hour: int, minute: int)
    requires
        1 <= month <= 12,
        1 <= day <= 31,
        0 <= hour < 24,
        0 <= minute < 60,
    ensures
        ({
            let text = clock_text(month, day, hour, minute);
            &&& text.len() == 11
            &&& number_of(text.subrange(0, 2)) == hour
            &&& text[2] == ':'
            &&& number_of(text.subrange(3, 5)) == minute
            &&& text[5] == ' '
            &&& number_of(text.subrange(6, 8)) == day
            &&& text[8] == '/'
            &&& number_of(text.subrange(9, 11)) == month
        }),
{
    lemma_two_digits(hour);
    lemma_two_digits(minute);
    lemma_two_digits(day);
    lemma_two_digits(month);
    reveal_strlit(":");
    reveal_strlit(" ");
    reveal_strlit("/");
    let text = clock_text(month, day, hour, minute);
    assert(text.subrange(0, 2) =~= two_digits(hour));
    assert(text.subrange(3, 5) =~= two_digits(minute));
    assert(text.subrange(6, 8) =~= two_digits(day));
    assert(text.subrange(9, 11) =~= two_digits(month));
}

proof fn lemma_two_digits(n: int)
    requires
        0 <= n < 100,
    ensures
        two_digits(n).len() == 2,
        number_of(two_digits(n)) == n,
{
    let text = two_digits(n);
    let m = n as nat;
    law_decimal_stands_for_its_number(m);
    law_filling_keeps_the_text(dec(m), 2, '0');
    if n >= 10 {
        assert(dec(m) == dec(m / 10).push(digit(m % 10)));
        law_decimal_stands_for_its_number(m / 10);
    } else {
        assert(text =~= seq!['0'] + dec(m));
        assert(text.drop_last() =~= seq!['0']);
        assert(seq!['0'].drop_last() =~= Seq::<char>::empty());
        assert(number_of(Seq::<char>::empty()) == 0);
        assert(number_of(seq!['0']) == 0);
        assert(dec(m).drop_last() =~= Seq::<char>::empty());
        assert(text.last() == dec(m).last());
    }
}

/// A month and a year, some months later or earlier.
pub open spec fn month_shifted(year: int, month: int, months: int) -> (int, int) {
    let count = 12 * year + (month - 1) + months;
    (count / 12, count % 12 + 1)
}

/// A date some months later or earlier. A day that the month does not have
/// becomes its last one. There is none outside the years that can be counted.
pub open spec fn date_shifted(date: Date, months: int) -> Option<Date> {
    let (year, month) = month_shifted(date.year as int, date.month as int, months);
    if MIN_YEAR <= year <= MAX_YEAR {
        Some(
            Date {
                year: year as i32,
                month: month as u32,
                day: if date.day > days_in(year, month) {
                    days_in(year, month) as u32
                } else {
                    date.day
                },
            },
        )
    } else {
        None
    }
}

/// `chrono::NaiveDate::checked_add_months` by one month.
#[verifier::external_body]
fn add_month(date: Date) -> (r: Option<Date>)
    requires
        date.wf(),
    ensures
        r == date_shifted(date, 1),
{
    let day = chrono::NaiveDate::from_ymd_opt(date.year, date.month, date.day)?;
    let day = day.checked_add_months(chrono::Months::new(1))?;
    let (year, month) = (chrono::Datelike::year(&day), chrono::Datelike::month(&day));
    Some(Date { year, month, day: chrono::Datelike::day(&day) })
}

/// `chrono::NaiveDate::checked_sub_months` by one month.
#[verifier::external_body]
fn sub_month(date: Date) -> (r: Option<Date>)
    requires
        date.wf(),
    ensures
        r == date_shifted(date, -1),
{
    let day = chrono::NaiveDate::from_ymd_opt(date.year, date.month, date.day)?;
    let day = day.checked_sub_months(chrono::Months::new(1))?;
    let (year, month) = (chrono::Datelike::year(&day), chrono::Datelike::month(&day));
    Some(Date { year, month, day: chrono::Datelike::day(&day) })
}

/// What the user can do with the calendar.
#[derive(Clone, Copy, Debug, PartialEq, Eq, Structural)]
pub enum MonthStep {
    Prev,
    Next,
    /// Back to the month of today.
    Reset,
}

/// The month that the calendar shows after a step.
pub open spec fn month_after(shown: Date, step: MonthStep, today: Date) -> Date {
    match step {
        MonthStep::Prev => match date_shifted(shown, -1) {
            Some(date) => date,
            None => shown,
        },
        MonthStep::Next => match date_shifted(shown, 1) {
            Some(date) => date,
            None => shown,
        },
        MonthStep::Reset => Date { day: 1, ..today },
    }
}

/// The month that the calendar shows after a step, by its first day: the one
/// before where there is no other.
pub fn step_month(shown: Date, step: MonthStep, today: Date) -> (r: Date)
    requires
        shown.wf(),
        today.wf(),
    ensures
        r.wf(),
        r == month_after(shown, step, today),
{
    let stepped = match step {
        MonthStep::Prev => sub_month(shown),
        MonthStep::Next => add_month(shown),
        MonthStep::Reset => Some(Date { year: today.year, month: today.month, day: 1 }),
    };
    match stepped {
        Some(date) => date,
        None => shown,
    }
}

/// Going on by a month and back again leads to the same month, as long as it
/// is shown by its first day and there is a month after it.
pub proof fn law_next_and_prev_cancel(shown: Date)
    requires
        shown.wf(),
        shown.day == 1,
        date_shifted(shown, 1) is Some,
    ensures
        date_shifted(date_shifted(shown, 1)->0, -1) == Some(shown),
{
    let (y, m) = month_shifted(shown.year as int, shown.month as int, 1);
    assert(12 * y + (m - 1) == 12 * shown.year + (shown.month - 1) + 1);
}

/// The next month is the following one of the year, or the first of the next year;
/// the month before is the one that leads to it. The day stays, or becomes the last
/// one of a month that is too short for it.
pub proof fn law_months_lead_to_each_other(date: Date)
    requires
        date.wf(),
    ensures
        date.month < 12 ==> (date_shifted(date, 1) matches Some(next) && next.year == date.year
            && next.month == date.month + 1),
        date.month == 12 && date.year < MAX_YEAR ==> (date_shifted(date, 1) matches Some(next)
            && next.year == date.year + 1 && next.month == 1),
        date.month > 1 ==> (date_shifted(date, -1) matches Some(last) && last.year == date.year
            && last.month == date.month - 1),
        date.month == 1 && date.year > MIN_YEAR ==> (date_shifted(date, -1) matches Some(last)
            && last.year == date.year - 1 && last.month == 12),
        date.month == 12 && date.year == MAX_YEAR ==> date_shifted(date, 1) is None,
        date.month == 1 && date.year == MIN_YEAR ==> date_shifted(date, -1) is None,
        forall|months: int|
            (#[trigger] date_shifted(date, months)) matches Some(there) ==> {
                let most = days_in(there.year as int, there.month as int);
                &&& date.day <= most ==> there.day == date.day
                &&& date.day > most ==> there.day == most
            },
{
    let count = 12 * date.year + (date.month - 1);
    assert(count / 12 == date.year);
    assert((count + 1) / 12 == if date.month == 12 {
        date.year + 1
    } else {
        date.year as int
    });
    assert((count - 1) / 12 == if date.month == 1 {
        date.year - 1
    } else {
        date.year as int
    });
}

/// No month has fewer than 28 days or more than 31; two in a row have 31 only
/// in the middle of the year and around its end, and only the second month depends
/// on the year.
pub proof fn law_month_lengths(year: int, month: int)
    requires
        1 <= month <= 12,
    ensures
        28 <= days_in(year, month) <= 31,
        days_in(year, month) < 30 <==> month == 2,
        days_in(year, 2) == 29 <==> year % 400 == 0 || (year % 4 == 0 && year % 100 != 0),
        month != 2 && month <= 7 ==> (days_in(year, month) == 31 <==> month % 2 == 1),
        month >= 8 ==> (days_in(year, month) == 31 <==> month % 2 == 0),
{
}

/// A step back or on leads to the month before or after, and to no other where there
/// is none; the third leads to the month of today, by its first day.
pub proof fn law_steps_lead_through_the_months(shown: Date, today: Date)
    requires
        shown.wf(),
        today.wf(),
    ensures
        ({
            let next = month_after(shown, MonthStep::Next, today);
            let last = month_after(shown, MonthStep::Prev, today);
            let reset = month_after(shown, MonthStep::Reset, today);
            &&& shown.month < 12 ==> next.year == shown.year && next.month == shown.month + 1
            &&& shown.month == 12 && shown.year < MAX_YEAR ==> next.year == shown.year + 1
                && next.month == 1
            &&& shown.month == 12 && shown.year == MAX_YEAR ==> next == shown
            &&& shown.month > 1 ==> last.year == shown.year && last.month == shown.month - 1
            &&& shown.month == 1 && shown.year > MIN_YEAR ==> last.year == shown.year - 1
                && last.month == 12
            &&& shown.month == 1 && shown.year == MIN_YEAR ==> last == shown
            &&& shown.day == 1 ==> next.day == 1 && last.day == 1
            &&& reset.year == today.year && reset.month == today.month && reset.day == 1
        }),
{
    law_months_lead_to_each_other(shown);
}

/// Each day of a month is one weekday after the day before.
pub proof fn law_weekdays_follow(year: int, month: int, day: int)
    ensures
        weekday_of(year, month, day + 1) == (weekday_of(year, month, day) + 1) % 7,
{
    let n = day_number(year, month, day);
    assert((n + 1) % 7 == (n % 7 + 1) % 7);
}

/// The first day of year 1 was a Monday, and a week has seven days. With the days that
/// follow each other this fixes the weekday of every date.
pub proof fn law_weeks_begin_with_monday(year: int, month: int, day: int)
    ensures
        weekday_of(1, 1, 1) == 0,
        0 <= weekday_of(year, month, day) < 7,
        weekday_of(year, month, day + 7) == weekday_of(year, month, day),
        days_before_month(year, 1) == 0,
        days_before_year(1) == 0,
{
    reveal(days_before_year);
    let n = day_number(year, month, day);
    assert((n + 7) % 7 == n % 7);
}

/// The title of a month is its name, a blank and its year, which has at least four
/// digits.
pub proof fn law_title_names_month_and_year(year: int, month: int)
    ensures
        month_text(year, month) == month_name(month) + seq![' '] + year_text(year),
        0 <= year ==> year_text(year).len() >= 4,
        0 <= year < 1000 ==> year_text(year).skip(4 - dec(year as nat).len()) == dec(year as nat),
        0 <= year < 1000 ==> year_text(year).len() == 4,
        1000 <= year <= 9999 ==> year_text(year) == dec(year as nat),
        year < 0 ==> year_text(year) == seq!['-'] + pad_left(dec((-year) as nat), 4, '0'),
        year > 9999 ==> year_text(year) == seq!['+'] + dec(year as nat),
{
    reveal_strlit(" ");
    reveal_strlit("+");
    reveal_strlit("-");
    assert("-"@ =~= seq!['-']);
    assert(" "@ =~= seq![' ']);
    assert("+"@ =~= seq!['+']);
    if year >= 0 {
        let n = year as nat;
        law_filling_keeps_the_text(dec(n), 4, '0');
        law_decimal_stands_for_its_number(n);
        if n < 1000 {
            lemma_up_to_three_digits(n);
        } else {
            assert(dec(n).len() == dec(n / 10).len() + 1);
            assert(dec(n / 10).len() == dec(n / 10 / 10).len() + 1);
            assert(dec(n / 10 / 10).len() == dec(n / 10 / 10 / 10).len() + 1);
            law_decimal_stands_for_its_number(n / 10 / 10 / 10);
        }
    }
}

proof fn lemma_up_to_three_digits(n: nat)
    requires
        n < 1000,
    ensures
        dec(n).len() <= 3,
{
    if n >= 100 {
        assert(dec(n).len() == dec(n / 10).len() + 1);
        assert(dec(n / 10).len() == dec(n / 10 / 10).len() + 1);
        law_decimal_stands_for_its_number(n / 10 / 10);
    } else if n >= 10 {
        assert(dec(n).len() == dec(n / 10).len() + 1);
        law_decimal_stands_for_its_number(n / 10);
    }
}

/// The number of days of a year.
pub open spec fn days_in_year(year: int) -> int {
    if is_leap(year) {
        366
    } else {
        365
    }
}

proof fn lemma_months_sum(year: int)
    ensures
        days_before_month(year, 12) + days_in(year, 12) == days_in_year(year),
{
    let feb = days_in(year, 2);
    assert(days_before_month(year, 1) == 0);
    assert(days_before_month(year, 2) == 31);
    assert(days_before_month(year, 3) == 31 + feb);
    assert(days_before_month(year, 4) == 62 + feb);
    assert(days_before_month(year, 5) == 92 + feb);
    assert(days_before_month(year, 6) == 123 + feb);
    assert(days_before_month(year, 7) == 153 + feb);
    assert(days_before_month(year, 8) == 184 + feb);
    assert(days_before_month(year, 9) == 215 + feb);
    assert(days_before_month(year, 10) == 245 + feb);
    assert(days_before_month(year, 11) == 276 + feb);
    assert(days_before_month(year, 12) == 306 + feb);
}

proof fn lemma_step_count(y: int, d: int)
    requires
        d > 0,
    ensures
        y / d - (y - 1) / d == (if y % d == 0 {
            1int
        } else {
            0
        }),
{
    let q = y / d;
    let r = y % d;
    vstd::arithmetic::div_mod::lemma_fundamental_div_mod(y, d);
    vstd::arithmetic::div_mod::lemma_mod_bound(y, d);
    if r == 0 {
        assert(y - 1 == d * (q - 1) + (d - 1)) by (nonlinear_arith)
            requires
                y == d * q,
        ;
        vstd::arithmetic::div_mod::lemma_fundamental_div_mod_converse(y - 1, d, q - 1, d - 1);
    } else {
        vstd::arithmetic::div_mod::lemma_fundamental_div_mod_converse(y - 1, d, q, r - 1);
    }
}

proof fn lemma_multiple(y: int, d: int, e: int, k: int)
    requires
        d > 0,
        e > 0,
        d == e * k,
        y % d == 0,
    ensures
        y % e == 0,
{
    let q = y / d;
    vstd::arithmetic::div_mod::lemma_fundamental_div_mod(y, d);
    assert(y == e * (k * q)) by (nonlinear_arith)
        requires
            y == d * q,
            d == e * k,
    ;
    vstd::arithmetic::div_mod::lemma_fundamental_div_mod_converse(y, e, k * q, 0);
}

/// The number of leap days that a year adds to the count of days.
proof fn lemma_leap_days(y: int, q4: int, q100: int, q400: int)
    requires
        q4 == (if y % 4 == 0 {
            1int
        } else {
            0
        }),
        q100 == (if y % 100 == 0 {
            1int
        } else {
            0
        }),
        q400 == (if y % 400 == 0 {
            1int
        } else {
            0
        }),
    ensures
        365 + q4 - q100 + q400 == days_in_year(y),
{
    if y % 100 == 0 {
        lemma_multiple(y, 100, 4, 25);
    }
    if y % 400 == 0 {
        lemma_multiple(y, 400, 100, 4);
    }
}

/// A year has 365 days, or 366 with a leap day; so say both the count of years
/// and the count of months.
pub proof fn law_year_length(year: int)
    ensures
        days_before_year(year + 1) - days_before_year(year) == days_in_year(year),
        days_before_month(year, 12) + days_in(year, 12) == days_in_year(year),
{
    reveal(days_before_year);
    lemma_months_sum(year);
    lemma_step_count(year, 4);
    lemma_step_count(year, 100);
    lemma_step_count(year, 400);
    lemma_leap_days(
        year,
        year / 4 - (year - 1) / 4,
        year / 100 - (year - 1) / 100,
        year / 400 - (year - 1) / 400,
    );
}

/// The first day of a year is one weekday after the last day of the year before.
pub proof fn law_years_follow(year: int)
    ensures
        weekday_of(year + 1, 1, 1) == (weekday_of(year, 12, days_in(year, 12)) + 1) % 7,
{
    law_year_length(year);
    let n = day_number(year, 12, days_in(year, 12));
    assert(day_number(year + 1, 1, 1) == n + 1);
    assert((n + 1) % 7 == (n % 7 + 1) % 7);
}

/// The first day of a month is one weekday after the last day of the month
/// before.
pub proof fn law_months_follow(year: int, month: int)
    requires
        1 <= month < 12,
    ensures
        weekday_of(year, month + 1, 1) == (weekday_of(year, month, days_in(year, month)) + 1) % 7,
{
    let n = day_number(year, month, days_in(year, month));
    assert(days_before_month(year, month + 1) == days_before_month(year, month) + days_in(
        year,
        month,
    ));
    assert((n + 1) % 7 == (n % 7 + 1) % 7);
}

} // verus!
