//! The proleptic Gregorian calendar, in dates and in milliseconds since the Unix epoch.
use crate::text::characters;
use vstd::prelude::*;

verus! {

/// Milliseconds in a day.
pub const DAY_MS: i64 = 86_400_000;

/// Milliseconds by which Asia/Shanghai is ahead of UTC.
pub const SHANGHAI_OFFSET_MS: i64 = 28_800_000;

/// The Julian day number of 1970-01-01.
pub const EPOCH_JULIAN_DAY: i64 = 2_440_588;

/// The Julian day number of the first supported date, -9999-01-01.
pub const MIN_JULIAN_DAY: i64 = -1_930_999;

/// The Julian day number of the last supported date, 9999-12-31.
pub const MAX_JULIAN_DAY: i64 = 5_373_484;

/// A calendar date.
#[derive(Clone, Copy, Debug, PartialEq, Eq, Structural)]
pub struct Date {
    pub year: i32,
    pub month: u8,
    pub day: u8,
}

pub open spec fn is_leap_year(year: int) -> bool {
    year % 4 == 0 && (year % 100 != 0 || year % 400 == 0)
}

pub open spec fn days_in_year(year: int) -> int {
    if is_leap_year(year) {
        366
    } else {
        365
    }
}

/// Days of the year `year` before its month `month`.
pub open spec fn days_before_month(year: int, month: int) -> int {
    let leap = if is_leap_year(year) {
        1int
    } else {
        0int
    };
    if month <= 1 {
        0
    } else if month == 2 {
        31
    } else if month == 3 {
        59 + leap
    } else if month == 4 {
        90 + leap
    } else if month == 5 {
        120 + leap
    } else if month == 6 {
        151 + leap
    } else if month == 7 {
        181 + leap
    } else if month == 8 {
        212 + leap
    } else if month == 9 {
        243 + leap
    } else if month == 10 {
        273 + leap
    } else if month == 11 {
        304 + leap
    } else if month == 12 {
        334 + leap
    } else {
        365 + leap
    }
}

/// Days from 0001-01-01 to January 1 of `year`; negative for earlier years.
pub open spec fn days_before_year(year: int) -> int {
    365 * (year - 1) + (year - 1) / 4 - (year - 1) / 100 + (year - 1) / 400
}

impl Date {
    /// Whether the date stands in the calendar, in the years -9999 to 9999.
    pub open spec fn valid(self) -> bool {
        &&& -9999 <= self.year <= 9999
        &&& 1 <= self.month <= 12
        &&& 1 <= self.day <= days_before_month(self.year as int, self.month + 1)
            - days_before_month(self.year as int, self.month as int)
    }

    /// The Julian day number of the date.
    pub open spec fn julian_day(self) -> int {
        days_before_year(self.year as int) + days_before_month(self.year as int, self.month as int)
            + self.day + 1_721_425
    }
}

/// The date whose Julian day number is `julian_day`.
pub open spec fn date_of(julian_day: int) -> Date {
    choose|date: Date| date.valid() && #[trigger] date.julian_day() == julian_day
}

proof fn lemma_year_step(year: int)
    ensures
        days_before_year(year + 1) == days_before_year(year) + days_in_year(year),
{
    let p = year - 1;
    assert(year / 4 == p / 4 + (if year % 4 == 0 { 1int } else { 0int }));
    assert(year / 100 == p / 100 + (if year % 100 == 0 { 1int } else { 0int }));
    assert(year / 400 == p / 400 + (if year % 400 == 0 { 1int } else { 0int }));
    assert(year % 400 == 0 ==> year % 100 == 0);
    assert(year % 100 == 0 ==> year % 4 == 0);
}

proof fn lemma_years_apart(first: int, second: int)
    requires
        first < second,
    ensures
        days_before_year(first) + days_in_year(first) <= days_before_year(second),
    decreases second - first,
{
    lemma_year_step(first);
    if first + 1 < second {
        lemma_years_apart(first + 1, second);
    }
}

/// A Julian day number belongs to one date.
pub proof fn lemma_julian_day_injective(a: Date, b: Date)
    requires
        a.valid(),
        b.valid(),
        a.julian_day() == b.julian_day(),
    ensures
        a == b,
{
    let (ya, yb) = (a.year as int, b.year as int);
    if ya < yb {
        lemma_years_apart(ya, yb);
    }
    if yb < ya {
        lemma_years_apart(yb, ya);
    }
}

/// A valid date is the date of its Julian day number.
pub proof fn lemma_date_of(date: Date)
    requires
        date.valid(),
    ensures
        date_of(date.julian_day()) == date,
{
    let found = date_of(date.julian_day());
    assert(found.valid() && found.julian_day() == date.julian_day());
    lemma_julian_day_injective(found, date);
}

/// Every number of the calendar is that of a valid date.
pub proof fn lemma_every_day_has_a_date(julian_day: int)
    requires
        MIN_JULIAN_DAY <= julian_day <= MAX_JULIAN_DAY,
    ensures
        date_of(julian_day).valid(),
        date_of(julian_day).julian_day() == julian_day,
    decreases julian_day - MIN_JULIAN_DAY,
{
    if julian_day == MIN_JULIAN_DAY {
        lemma_date_of(Date { year: (-9999) as i32, month: 1, day: 1 });
    } else {
        lemma_every_day_has_a_date(julian_day - 1);
        let before = date_of(julian_day - 1);
        let (year, month) = (before.year as int, before.month as int);
        let next = if before.day < days_before_month(year, month + 1) - days_before_month(
            year,
            month,
        ) {
            Date { day: (before.day + 1) as u8, ..before }
        } else if month < 12 {
            Date { month: (month + 1) as u8, day: 1, ..before }
        } else {
            Date { year: (year + 1) as i32, month: 1, day: 1 }
        };
        lemma_year_step(year);
        if year == 9999 && month == 12 && before.day == 31 {
            assert(before == (Date { year: 9999, month: 12, day: 31 }));
            assert(before.julian_day() == MAX_JULIAN_DAY);
        }
        assert(next.valid());
        assert(next.julian_day() == julian_day);
        lemma_date_of(next);
    }
}

/// `time::Date::from_calendar_date` accepts the valid dates and no others, and
/// `time::Date::to_julian_day` numbers them.
#[verifier::external_body]
fn julian_day_of(year: i32, month: u8, day: u8) -> (r: Option<i32>)
    ensures
        r is Some <==> (Date { year, month, day }).valid(),
        r is Some ==> r->0 == (Date { year, month, day }).julian_day(),
{
    let month = time::Month::try_from(month).ok()?;
    let date = time::Date::from_calendar_date(year, month, day).ok()?;
    Some(date.to_julian_day())
}

/// `time::Date::from_julian_day` accepts the numbers of the years -9999 to 9999 and gives the
/// valid date that has the number.
#[verifier::external_body]
fn date_of_julian_day(julian_day: i32) -> (r: Option<Date>)
    ensures
        r is Some <==> MIN_JULIAN_DAY <= julian_day <= MAX_JULIAN_DAY,
        r is Some ==> r->0.valid() && r->0.julian_day() == julian_day,
{
    let (year, month, day) = time::Date::from_julian_day(julian_day).ok()?.to_calendar_date();
    Some(Date { year, month: u8::from(month), day })
}

impl Date {
    /// The date, where there is one, of the year, month and day.
    pub fn new(year: i32, month: u8, day: u8) -> (r: Option<Date>)
        ensures
            r == (if (Date { year, month, day }).valid() {
                Some(Date { year, month, day })
            } else {
                None
            }),
    {
        match julian_day_of(year, month, day) {
            Some(_) => Some(Date { year, month, day }),
            None => None,
        }
    }
}

/// `a / b`, rounded down.
pub fn floor_div(a: i64, b: i64) -> (q: i64)
    requires
        b > 0,
    ensures
        q == a as int / b as int,
{
    proof {
        let (x, y) = (a as int, b as int);
        assert(x >= 0 ==> 0 <= x / y <= x) by (nonlinear_arith)
            requires
                y > 0,
        ;
        assert(x < 0 ==> x <= x / y <= 0) by (nonlinear_arith)
            requires
                y > 0,
        ;
    }
    match a.checked_div_euclid(b) {
        Some(q) => q,
        None => 0,
    }
}

/// The decimal digit of `n`, for `n` from 0 to 9.
pub open spec fn digit(n: int) -> char {
    (48 + n) as char
}

/// `n`, from 0 to 99, in two decimal digits.
pub open spec fn two_digits(n: int) -> Seq<char> {
    seq![digit(n / 10), digit(n % 10)]
}

impl Date {
    /// The date as `YYYY-MM-DD`, with a minus sign before a negative year.
    pub open spec fn text(self) -> Seq<char> {
        let year = if self.year < 0 {
            -(self.year as int)
        } else {
            self.year as int
        };
        let sign = if self.year < 0 {
            seq!['-']
        } else {
            Seq::<char>::empty()
        };
        sign + two_digits(year / 100) + two_digits(year % 100) + seq!['-'] + two_digits(
            self.month as int,
        ) + seq!['-'] + two_digits(self.day as int)
    }
}

/// Whether the characters of `s` from `from` to `to` are decimal digits.
pub open spec fn digits_between(s: Seq<char>, from: int, to: int) -> bool {
    forall|i: int| from <= i < to ==> '0' <= #[trigger] s[i] && s[i] <= '9'
}

/// The number that two decimal digits write.
pub open spec fn two_digit_value(s: Seq<char>, at: int) -> int {
    (s[at] as int - 48) * 10 + (s[at + 1] as int - 48)
}

/// The date that an unsigned `YYYY-MM-DD` writes, with its year negated where `negative` says so.
pub open spec fn parsed_unsigned_date(s: Seq<char>, negative: bool) -> Option<Date> {
    if s.len() == 10 && digits_between(s, 0, 4) && s[4] == '-' && digits_between(s, 5, 7)
        && s[7] == '-' && digits_between(s, 8, 10) {
        let year = two_digit_value(s, 0) * 100 + two_digit_value(s, 2);
        let date = Date {
            year: (if negative {
                -year
            } else {
                year
            }) as i32,
            month: two_digit_value(s, 5) as u8,
            day: two_digit_value(s, 8) as u8,
        };
        if date.valid() {
            Some(date)
        } else {
            None
        }
    } else {
        None
    }
}

/// The date that a text writes as `YYYY-MM-DD`, with or without a sign before the year.
pub open spec fn parsed_date(s: Seq<char>) -> Option<Date> {
    if s.len() > 0 && s[0] == '-' {
        parsed_unsigned_date(s.skip(1), true)
    } else if s.len() > 0 && s[0] == '+' {
        parsed_unsigned_date(s.skip(1), false)
    } else {
        parsed_unsigned_date(s, false)
    }
}

/// A written date reads back as the same date.
pub proof fn lemma_text_parses(date: Date)
    requires
        date.valid(),
    ensures
        parsed_date(date.text()) == Some(date),
{
    let year = if date.year < 0 {
        -(date.year as int)
    } else {
        date.year as int
    };
    let bare = two_digits(year / 100) + two_digits(year % 100) + seq!['-'] + two_digits(
        date.month as int,
    ) + seq!['-'] + two_digits(date.day as int);
    assert(bare[0] == digit(year / 1000)) by {
        assert(year / 100 / 10 == year / 1000);
    }
    assert(bare.len() == 10);
    if date.year < 0 {
        assert(date.text() =~= seq!['-'] + bare);
        assert(date.text().skip(1) =~= bare);
    } else {
        assert(date.text() =~= bare);
    }
    assert(two_digit_value(bare, 0) == year / 100);
    assert(two_digit_value(bare, 2) == year % 100);
    assert(two_digit_value(bare, 5) == date.month);
    assert(two_digit_value(bare, 8) == date.day);
}

fn push_two_digits(s: &mut String, n: u32)
    requires
        n < 100,
    ensures
        final(s)@ == old(s)@ + two_digits(n as int),
{
    s.push((48 + (n / 10) as u8) as char);
    s.push((48 + (n % 10) as u8) as char);
    assert(s@ =~= old(s)@ + two_digits(n as int));
}

impl Date {
    /// Writes the date.
    pub fn to_text(&self) -> (s: String)
        requires
            self.valid(),
        ensures
            s@ == self.text(),
    {
        let mut s = String::new();
        let year: u32 = if self.year < 0 {
            s.push('-');
            (-self.year) as u32
        } else {
            self.year as u32
        };
        push_two_digits(&mut s, year / 100);
        push_two_digits(&mut s, year % 100);
        s.push('-');
        push_two_digits(&mut s, self.month as u32);
        s.push('-');
        push_two_digits(&mut s, self.day as u32);
        assert(s@ =~= self.text());
        s
    }

    /// The Julian day number of the date.
    pub fn to_julian_day(&self) -> (n: i64)
        requires
            self.valid(),
        ensures
            n == self.julian_day(),
            MIN_JULIAN_DAY <= n <= MAX_JULIAN_DAY,
    {
        proof {
            let y = self.year as int;
            if y > -9999 {
                lemma_years_apart(-9999, y);
            }
            if y < 9999 {
                lemma_years_apart(y, 9999);
            }
        }
        match julian_day_of(self.year, self.month, self.day) {
            Some(n) => n as i64,
            None => 0,
        }
    }

    /// The date with the Julian day number, where the calendar reaches that far.
    pub fn from_julian_day(n: i64) -> (r: Option<Date>)
        ensures
            r == (if MIN_JULIAN_DAY <= n <= MAX_JULIAN_DAY {
                Some(date_of(n as int))
            } else {
                None
            }),
            r is Some ==> r->0.valid() && r->0.julian_day() == n,
    {
        if n < MIN_JULIAN_DAY || n > MAX_JULIAN_DAY {
            return None;
        }
        let r = date_of_julian_day(n as i32);
        proof {
            lemma_date_of(r->0);
        }
        r
    }
}

fn is_digit(c: char) -> (r: bool)
    ensures
        r == ('0' <= c && c <= '9'),
{
    '0' <= c && c <= '9'
}

fn digit_pair(v: &Vec<char>, at: usize) -> (r: Option<u32>)
    requires
        at + 1 < 10,
        v@.len() == 10,
    ensures
        r is Some <==> digits_between(v@, at as int, at + 2),
        r is Some ==> r->0 == two_digit_value(v@, at as int) && r->0 < 100,
{
    let (a, b) = (v[at], v[at + 1]);
    if is_digit(a) && is_digit(b) {
        Some((a as u32 - 48) * 10 + (b as u32 - 48))
    } else {
        assert(!('0' <= v@[at as int] && v@[at as int] <= '9') || !('0' <= v@[at + 1] && v@[at + 1]
            <= '9'));
        None
    }
}

fn parse_unsigned_date(v: &Vec<char>, negative: bool) -> (r: Option<Date>)
    ensures
        r == parsed_unsigned_date(v@, negative),
{
    if v.len() != 10 || v[4] != '-' || v[7] != '-' {
        return None;
    }
    let high = digit_pair(v, 0);
    let low = digit_pair(v, 2);
    let month = digit_pair(v, 5);
    let day = digit_pair(v, 8);
    match (high, low, month, day) {
        (Some(high), Some(low), Some(month), Some(day)) => {
            assert(digits_between(v@, 0, 4));
            let year = (high * 100 + low) as i32;
            Date::new(
                if negative {
                    -year
                } else {
                    year
                },
                month as u8,
                day as u8,
            )
        },
        _ => {
            assert(digits_between(v@, 0, 4) ==> digits_between(v@, 0, 2) && digits_between(
                v@,
                2,
                4,
            ));
            None
        },
    }
}

/// Reads a date as `YYYY-MM-DD`, with or without a sign before the year.
pub fn parse_iso_date(s: &str) -> (r: Option<Date>)
    ensures
        r == parsed_date(s@),
{
    let mut v = characters(s);
    if v.len() > 0 && (v[0] == '-' || v[0] == '+') {
        let negative = v[0] == '-';
        v.remove(0);
        assert(v@ =~= s@.skip(1));
        parse_unsigned_date(&v, negative)
    } else {
        parse_unsigned_date(&v, false)
    }
}

/// The Julian day number of the instant `ms` where clocks are `offset` milliseconds ahead of UTC.
pub open spec fn julian_day_at(ms: int, offset: int) -> int {
    (ms + offset) / (DAY_MS as int) + EPOCH_JULIAN_DAY
}

/// Whether the calendar reaches the instant `ms` where clocks are `offset` milliseconds ahead.
pub open spec fn in_calendar(ms: int, offset: int) -> bool {
    MIN_JULIAN_DAY <= julian_day_at(ms, offset) <= MAX_JULIAN_DAY
}

/// The date of an instant where clocks are `offset` milliseconds ahead of UTC.
pub open spec fn date_at(ms: int, offset: int) -> Date {
    date_of(julian_day_at(ms, offset))
}

/// What is said of an instant outside the calendar.
pub open spec fn out_of_range() -> Seq<char> {
    "timestamp was not in range"@
}

/// `time::OffsetDateTime::from_unix_timestamp_nanos` accepts the instants of the years -9999 to 9999
/// in UTC, and says of every other that the timestamp was not in range.
#[verifier::external_body]
fn check_nanos(nanos: i128) -> (r: Result<(), String>)
    ensures
        match r {
            Ok(_) => in_calendar(nanos as int / 1_000_000, 0),
            Err(reason) => !in_calendar(nanos as int / 1_000_000, 0) && reason@ == out_of_range(),
        },
{
    match time::OffsetDateTime::from_unix_timestamp_nanos(nanos) {
        Ok(_) => Ok(()),
        Err(error) => Err(error.to_string()),
    }
}

/// The date of the instant `ms` where clocks are `offset` milliseconds ahead of UTC, or why there is
/// none: the instant is outside the calendar in UTC.
pub fn date_of_instant(ms: i64, offset: i64) -> (r: Result<Date, String>)
    requires
        0 <= offset <= DAY_MS,
        in_calendar(ms as int, 0) ==> in_calendar(ms as int, offset as int),
    ensures
        match r {
            Ok(date) => {
                &&& in_calendar(ms as int, 0)
                &&& date == date_at(ms as int, offset as int)
                &&& date.valid()
                &&& date.julian_day() == julian_day_at(ms as int, offset as int)
            },
            Err(reason) => !in_calendar(ms as int, 0) && reason@ == out_of_range(),
        },
{
    let nanos: i128 = ms as i128 * 1_000_000;
    assert(nanos as int / 1_000_000 == ms);
    match check_nanos(nanos) {
        Ok(_) => Ok(
            Date::from_julian_day(floor_div(ms + offset, DAY_MS) + EPOCH_JULIAN_DAY).unwrap(),
        ),
        Err(reason) => Err(reason),
    }
}

} // verus!
