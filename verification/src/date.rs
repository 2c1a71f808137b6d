use crate::grade::{digit_char, is_digit};
use vstd::prelude::*;

verus! {

pub open spec fn is_leap_year(year: int) -> bool {
    year % 4 == 0 && (year % 100 != 0 || year % 400 == 0)
}

pub open spec fn days_in_month(year: int, month: int) -> int {
    if month == 2 {
        if is_leap_year(year) {
            29
        } else {
            28
        }
    } else if month == 4 || month == 6 || month == 9 || month == 11 {
        30
    } else {
        31
    }
}

/// A day of the proleptic Gregorian calendar, in the years from -9999 to 9999.
pub open spec fn is_calendar_date(year: int, month: int, day: int) -> bool {
    &&& -9999 <= year <= 9999
    &&& 1 <= month <= 12
    &&& 1 <= day <= days_in_month(year, month)
}

/// Ten characters: the year's magnitude in four digits, the month and the day in two
/// digits each, with hyphens between them.
pub open spec fn date_digits(magnitude: int, month: int, day: int) -> Seq<char>
    recommends
        0 <= magnitude <= 9999,
        0 <= month <= 99,
        0 <= day <= 99,
{
    seq![
        digit_char(magnitude / 1000),
        digit_char((magnitude / 100) % 10),
        digit_char((magnitude / 10) % 10),
        digit_char(magnitude % 10),
        '-',
        digit_char(month / 10),
        digit_char(month % 10),
        '-',
        digit_char(day / 10),
        digit_char(day % 10),
    ]
}

/// The text of a date: the year in four digits, behind a minus where it is negative,
/// then the month and the day in two digits each, with hyphens between them.
pub open spec fn date_text(year: int, month: int, day: int) -> Seq<char>
    recommends
        is_calendar_date(year, month, day),
{
    if year < 0 {
        seq!['-'] + date_digits(-year, month, day)
    } else {
        date_digits(year, month, day)
    }
}

pub open spec fn digit_value(c: char) -> int {
    c as int - '0' as int
}

/// The date that a text writes, if it writes one: an optional sign, four digits of the
/// year, a hyphen, two digits of the month, a hyphen, two digits of the day, and nothing
/// else; the three numbers must name a day of the calendar.
pub open spec fn parsed_date(s: Seq<char>) -> Option<(int, int, int)> {
    let signed = s.len() > 0 && (s[0] == '-' || s[0] == '+');
    let negative = s.len() > 0 && s[0] == '-';
    let body = if signed {
        s.skip(1)
    } else {
        s
    };
    if body.len() == 10 && is_digit(body[0]) && is_digit(body[1]) && is_digit(body[2])
        && is_digit(body[3]) && body[4] == '-' && is_digit(body[5]) && is_digit(body[6])
        && body[7] == '-' && is_digit(body[8]) && is_digit(body[9]) {
        let magnitude = 1000 * digit_value(body[0]) + 100 * digit_value(body[1]) + 10
            * digit_value(body[2]) + digit_value(body[3]);
        let year = if negative {
            -magnitude
        } else {
            magnitude
        };
        let month = 10 * digit_value(body[5]) + digit_value(body[6]);
        let day = 10 * digit_value(body[8]) + digit_value(body[9]);
        if is_calendar_date(year, month, day) {
            Some((year, month, day))
        } else {
            None
        }
    } else {
        None
    }
}

/// Writes a date by `time::Date::format`, with the description `[year]-[month]-[day]`.
/// Believed of it: the text is the year in four digits with a minus before a negative
/// one, the month and the day in two digits each, joined by hyphens.
#[verifier::external_body]
fn format_with_time(year: i32, month: u8, day: u8) -> (text: String)
    requires
        is_calendar_date(year as int, month as int, day as int),
    ensures
        text@ == date_text(year as int, month as int, day as int),
{
    let format = time::format_description::parse_borrowed::<2>("[year]-[month]-[day]").unwrap();
    let month = time::Month::try_from(month).unwrap();
    let date = time::Date::from_calendar_date(year, month, day).unwrap();
    date.format(&format).unwrap()
}

/// Reads a date by `time::Date::parse`, with the description `[year]-[month]-[day]`.
/// Believed of it: it accepts an optional sign, exactly four digits, a hyphen, exactly two
/// digits, a hyphen and exactly two digits, with nothing before or after, and only where
/// these name a day of the calendar; it hands back that year, month and day.
#[verifier::external_body]
fn parse_with_time(text: &str) -> (date: Option<(i32, u8, u8)>)
    ensures
        match date {
            Some((year, month, day)) => parsed_date(text@) == Some(
                (year as int, month as int, day as int),
            ),
            None => parsed_date(text@) is None,
        },
{
    let format = time::format_description::parse_borrowed::<2>("[year]-[month]-[day]").unwrap();
    match time::Date::parse(text, &format) {
        Ok(date) => Some((date.year(), u8::from(date.month()), date.day())),
        Err(_) => None,
    }
}

/// A calendar date: year, month and day that name a day of the calendar.
#[derive(Debug, Clone, Copy, PartialEq, Eq)]
pub struct CalendarDate {
    pub(crate) year: i32,
    pub(crate) month: u8,
    pub(crate) day: u8,
}

impl CalendarDate {
    /// Year, month and day as numbers.
    pub open(crate) spec fn ymd(&self) -> (int, int, int) {
        (self.year as int, self.month as int, self.day as int)
    }

    #[verifier::type_invariant]
    pub open(crate) spec fn wf(&self) -> bool {
        is_calendar_date(self.year as int, self.month as int, self.day as int)
    }

    /// The text under which the date is stored and shown.
    pub open spec fn text(&self) -> Seq<char> {
        date_text(self.ymd().0, self.ymd().1, self.ymd().2)
    }

    /// The date of the given year, month and day, where they name a day of the calendar.
    pub fn new(year: i32, month: u8, day: u8) -> (date: Option<CalendarDate>)
        ensures
            date is Some <==> is_calendar_date(year as int, month as int, day as int),
            date is Some ==> date->Some_0.ymd() == (year as int, month as int, day as int)
                && date->Some_0.wf(),
    {
        if year < -9999 || year > 9999 || month < 1 || month > 12 || day < 1 {
            return None;
        }
        let shifted: u32 = (year + 10000) as u32;
        let leap = shifted % 4 == 0 && (shifted % 100 != 0 || shifted % 400 == 0);
        assert(leap == is_leap_year(year as int));
        let last: u8 = if month == 2 {
            if leap {
                29
            } else {
                28
            }
        } else if month == 4 || month == 6 || month == 9 || month == 11 {
            30
        } else {
            31
        };
        if day > last {
            return None;
        }
        Some(CalendarDate { year, month, day })
    }

    pub fn year(&self) -> (year: i32)
        ensures
            year == self.ymd().0,
    {
        self.year
    }

    pub fn month(&self) -> (month: u8)
        ensures
            month == self.ymd().1,
    {
        self.month
    }

    pub fn day(&self) -> (day: u8)
        ensures
            day == self.ymd().2,
    {
        self.day
    }

    /// The date as text, in the form `YYYY-MM-DD`.
    pub fn to_text(&self) -> (text: String)
        ensures
            text@ == self.text(),
            self.wf(),
    {
        proof {
            use_type_invariant(self);
        }
        format_with_time(self.year, self.month, self.day)
    }

    /// The date that `text` writes, or nothing where it writes none.
    pub fn from_text(text: &str) -> (date: Option<CalendarDate>)
        ensures
            match date {
                Some(d) => d.wf() && parsed_date(text@) == Some(d.ymd()),
                None => parsed_date(text@) is None,
            },
    {
        match parse_with_time(text) {
            Some((year, month, day)) => Some(CalendarDate { year, month, day }),
            None => None,
        }
    }
}

proof fn lemma_digit_char(d: int)
    requires
        0 <= d <= 9,
    ensures
        is_digit(digit_char(d)),
        digit_value(digit_char(d)) == d,
        digit_char(d) != '-',
        digit_char(d) != '+',
{
}

proof fn lemma_four_digits(n: int)
    requires
        0 <= n <= 9999,
    ensures
        0 <= n / 1000 <= 9,
        0 <= (n / 100) % 10 <= 9,
        0 <= (n / 10) % 10 <= 9,
        0 <= n % 10 <= 9,
        1000 * (n / 1000) + 100 * ((n / 100) % 10) + 10 * ((n / 10) % 10) + n % 10 == n,
{
    let h = n / 100;
    let t = n / 10;
    assert(h == 10 * (h / 10) + h % 10);
    assert(t == 10 * (t / 10) + t % 10);
    assert(n == 10 * t + n % 10);
    assert(t / 10 == h);
    assert(h / 10 == n / 1000);
}

proof fn lemma_two_digits(n: int)
    requires
        0 <= n <= 99,
    ensures
        0 <= n / 10 <= 9,
        0 <= n % 10 <= 9,
        10 * (n / 10) + n % 10 == n,
{
}

proof fn lemma_date_digits(magnitude: int, month: int, day: int)
    requires
        0 <= magnitude <= 9999,
        0 <= month <= 99,
        0 <= day <= 99,
    ensures
        ({
            let b = date_digits(magnitude, month, day);
            &&& b.len() == 10
            &&& is_digit(b[0]) && is_digit(b[1]) && is_digit(b[2]) && is_digit(b[3])
            &&& b[4] == '-' && b[7] == '-'
            &&& is_digit(b[5]) && is_digit(b[6]) && is_digit(b[8]) && is_digit(b[9])
            &&& 1000 * digit_value(b[0]) + 100 * digit_value(b[1]) + 10 * digit_value(b[2])
                + digit_value(b[3]) == magnitude
            &&& 10 * digit_value(b[5]) + digit_value(b[6]) == month
            &&& 10 * digit_value(b[8]) + digit_value(b[9]) == day
            &&& b[0] != '-' && b[0] != '+'
        }),
{
    lemma_four_digits(magnitude);
    lemma_two_digits(month);
    lemma_two_digits(day);
    let y0 = magnitude / 1000;
    let y1 = (magnitude / 100) % 10;
    let y2 = (magnitude / 10) % 10;
    let y3 = magnitude % 10;
    let m0 = month / 10;
    let m1 = month % 10;
    let d0 = day / 10;
    let d1 = day % 10;
    lemma_digit_char(y0);
    lemma_digit_char(y1);
    lemma_digit_char(y2);
    lemma_digit_char(y3);
    lemma_digit_char(m0);
    lemma_digit_char(m1);
    lemma_digit_char(d0);
    lemma_digit_char(d1);
    let b = date_digits(magnitude, month, day);
    assert(b =~= seq![
        digit_char(y0),
        digit_char(y1),
        digit_char(y2),
        digit_char(y3),
        '-',
        digit_char(m0),
        digit_char(m1),
        '-',
        digit_char(d0),
        digit_char(d1),
    ]);
}

/// The text of a date is read back as that date.
pub proof fn law_text_reads_back(year: int, month: int, day: int)
    requires
        is_calendar_date(year, month, day),
    ensures
        parsed_date(date_text(year, month, day)) == Some((year, month, day)),
{
    let s = date_text(year, month, day);
    if year < 0 {
        let body = date_digits(-year, month, day);
        lemma_date_digits(-year, month, day);
        assert(s[0] == '-');
        assert(s.skip(1) =~= body);
    } else {
        lemma_date_digits(year, month, day);
    }
}

} // verus!
