//! Dates of the Gregorian calendar and times of day, as numbers of seconds and as text.
use vstd::prelude::*;

verus! {

/// A date and a time of day. The calendar goes on in both directions from where it was in use.
pub struct Stamp {
    pub year: int,
    pub month: int,
    pub day: int,
    pub hour: int,
    pub minute: int,
    pub second: int,
}

/// Whether a year has a 29th of February.
pub open spec fn leap(year: int) -> bool {
    year % 4 == 0 && (year % 100 != 0 || year % 400 == 0)
}

/// The number of days of a month.
pub open spec fn month_days(year: int, month: int) -> int {
    if month == 2 {
        if leap(year) {
            29
        } else {
            28
        }
    } else if month == 4 || month == 6 || month == 9 || month == 11 {
        30
    } else {
        31
    }
}

/// Whether the calendar has such a date, and the day such a time.
pub open spec fn valid(s: Stamp) -> bool {
    &&& 1 <= s.month <= 12
    &&& 1 <= s.day <= month_days(s.year, s.month)
    &&& 0 <= s.hour < 24
    &&& 0 <= s.minute < 60
    &&& 0 <= s.second < 60
}

/// The days from a fixed day up to the start of a year: 365 for each year, and one more for each
/// leap year.
pub open spec fn days_to_year(year: int) -> int {
    365 * year + (year - 1) / 4 - (year - 1) / 100 + (year - 1) / 400
}

/// The days from the start of a year up to the start of a month.
pub open spec fn days_to_month(year: int, month: int) -> int
    decreases month,
{
    if month <= 1 {
        0
    } else {
        days_to_month(year, month - 1) + month_days(year, month - 1)
    }
}

/// The days from the start of 1970 up to a date.
pub open spec fn days(year: int, month: int, day: int) -> int {
    days_to_year(year) - days_to_year(1970) + days_to_month(year, month) + day - 1
}

/// The seconds from the start of 1970 up to a date and a time of day, in days of 86400 seconds.
pub open spec fn count(s: Stamp) -> int {
    86400 * days(s.year, s.month, s.day) + 3600 * s.hour + 60 * s.minute + s.second
}

/// The date and the time of day that lie so many seconds after the start of 1970.
pub open spec fn stamp(secs: int) -> Stamp {
    choose|s: Stamp| valid(s) && #[trigger] count(s) == secs
}

/// A decimal digit.
pub open spec fn digit(n: int) -> char {
    ('0' as int + n) as char
}

/// A number in decimal, with zeros before it up to that width.
pub open spec fn padded(n: int, width: int) -> Seq<char>
    decreases n, width,
{
    if n < 10 && width <= 1 {
        seq![digit(n)]
    } else if n < 0 {
        Seq::empty()
    } else {
        padded(n / 10, width - 1).push(digit(n % 10))
    }
}

/// A year, with a sign where it is negative or has more than four digits.
pub open spec fn year_text(year: int) -> Seq<char> {
    if year < 0 {
        seq!['-'] + padded(-year, 4)
    } else if year <= 9999 {
        padded(year, 4)
    } else {
        seq!['+'] + padded(year, 4)
    }
}

/// A date and a time of day, as ISO 8601 writes them for UTC.
pub open spec fn written(s: Stamp) -> Seq<char> {
    year_text(s.year) + seq!['-'] + padded(s.month, 2) + seq!['-'] + padded(s.day, 2) + seq!['T']
        + padded(s.hour, 2) + seq![':'] + padded(s.minute, 2) + seq![':'] + padded(s.second, 2)
        + seq!['Z']
}

/// Whether `a` comes before `b` in the order of strings.
pub open spec fn before(a: Seq<char>, b: Seq<char>) -> bool {
    exists|k: int| #[trigger] parts(a, b, k)
}

/// Whether `a` and `b` are the same up to `k`, and `a` is the lesser one there.
pub open spec fn parts(a: Seq<char>, b: Seq<char>, k: int) -> bool {
    &&& 0 <= k < b.len()
    &&& k <= a.len()
    &&& forall|i: int| 0 <= i < k ==> a[i] == b[i]
    &&& k < a.len() ==> (a[k] as int) < (b[k] as int)
}

/// Whether a text has the shape `YYYY-MM-DDTHH:MM:SSZ`, with a digit for each of the other letters.
pub open spec fn shaped(text: Seq<char>) -> bool {
    &&& text.len() == 20
    &&& text[4] == '-'
    &&& text[7] == '-'
    &&& text[10] == 'T'
    &&& text[13] == ':'
    &&& text[16] == ':'
    &&& text[19] == 'Z'
    &&& forall|i: int|
        0 <= i < 19 && i != 4 && i != 7 && i != 10 && i != 13 && i != 16 ==> '0' as int
            <= #[trigger] text[i] as int <= '9' as int
}

/// How long a year is.
proof fn lemma_year_days(year: int)
    ensures
        days_to_year(year + 1) == days_to_year(year) + days_to_month(year, 13),
        days_to_month(year, 13) == if leap(year) {
            366int
        } else {
            365
        },
{
    reveal_with_fuel(days_to_month, 14);
}

/// Years begin one after the other.
proof fn lemma_years(a: int, b: int)
    requires
        a <= b,
    ensures
        days_to_year(a) <= days_to_year(b),
    decreases b - a,
{
    if a < b {
        lemma_years(a, b - 1);
        lemma_year_days(b - 1);
    }
}

/// Months begin one after the other.
proof fn lemma_months(year: int, a: int, b: int)
    requires
        1 <= a <= b,
    ensures
        0 <= days_to_month(year, a) <= days_to_month(year, b),
    decreases b,
{
    if a < b {
        lemma_months(year, a, b - 1);
    } else if a > 1 {
        lemma_months(year, a - 1, a - 1);
    }
}

/// A date lies in its year.
proof fn lemma_in_year(s: Stamp)
    requires
        valid(s),
    ensures
        ({
            let n = days(s.year, s.month, s.day) + days_to_year(1970);
            days_to_year(s.year) <= n < days_to_year(s.year + 1)
        }),
{
    lemma_months(s.year, s.month, s.month);
    lemma_months(s.year, s.month + 1, 13);
    lemma_year_days(s.year);
}

/// Whether the date of `a` is an earlier one than that of `b`.
spec fn earlier_date(a: Stamp, b: Stamp) -> bool {
    a.year < b.year || (a.year == b.year && (a.month < b.month || (a.month == b.month && a.day
        < b.day)))
}

/// Whether `a` is earlier than `b`.
spec fn earlier(a: Stamp, b: Stamp) -> bool {
    earlier_date(a, b) || (a.year == b.year && a.month == b.month && a.day == b.day && (a.hour
        < b.hour || (a.hour == b.hour && (a.minute < b.minute || (a.minute == b.minute && a.second
        < b.second)))))
}

/// What is earlier has the lesser number.
proof fn lemma_earlier(a: Stamp, b: Stamp)
    requires
        valid(a),
        valid(b),
        earlier(a, b),
    ensures
        count(a) < count(b),
{
    if earlier_date(a, b) {
        assert(days(a.year, a.month, a.day) < days(b.year, b.month, b.day)) by {
            if a.year < b.year {
                lemma_in_year(a);
                lemma_in_year(b);
                lemma_years(a.year + 1, b.year);
            } else if a.month < b.month {
                lemma_months(a.year, a.month + 1, b.month);
            }
        }
    }
}

/// No two dates and times have the same number.
proof fn lemma_one_stamp(a: Stamp, b: Stamp)
    requires
        valid(a),
        valid(b),
        count(a) == count(b),
    ensures
        a == b,
{
    if earlier(a, b) {
        lemma_earlier(a, b);
    } else if earlier(b, a) {
        lemma_earlier(b, a);
    }
}

/// The day after a date.
spec fn next_day(s: Stamp) -> Stamp {
    if s.day < month_days(s.year, s.month) {
        Stamp { day: s.day + 1, ..s }
    } else if s.month < 12 {
        Stamp { month: s.month + 1, day: 1, ..s }
    } else {
        Stamp { year: s.year + 1, month: 1, day: 1, ..s }
    }
}

/// There is a date for each number of days from the start of a year on.
proof fn lemma_date(year: int, n: int) -> (s: Stamp)
    requires
        days(year, 1, 1) <= n,
    ensures
        valid(s),
        days(s.year, s.month, s.day) == n,
        s.hour == 0 && s.minute == 0 && s.second == 0,
    decreases n - days(year, 1, 1),
{
    if n == days(year, 1, 1) {
        Stamp { year, month: 1, day: 1, hour: 0, minute: 0, second: 0 }
    } else {
        let s = lemma_date(year, n - 1);
        lemma_year_days(s.year);
        next_day(s)
    }
}

/// A year lies at least as many days back as years.
proof fn lemma_back(years: int)
    requires
        0 <= years,
    ensures
        days(1970 - years, 1, 1) <= -years,
    decreases years,
{
    if years > 0 {
        lemma_back(years - 1);
        lemma_year_days(1970 - years);
    }
}

/// Each second has a date and a time of day, and no other.
pub proof fn law_stamps(secs: int)
    ensures
        valid(stamp(secs)),
        count(stamp(secs)) == secs,
        forall|s: Stamp| valid(s) && #[trigger] count(s) == secs ==> s == stamp(secs),
{
    let year = if secs < 0 {
        1970 + secs
    } else {
        1970
    };
    lemma_back(1970 - year);
    let date = lemma_date(year, secs / 86400);
    let rest = secs % 86400;
    let s = Stamp { hour: rest / 3600, minute: rest % 3600 / 60, second: rest % 60, ..date };
    assert(valid(s) && count(s) == secs);
    assert forall|t: Stamp| valid(t) && #[trigger] count(t) == secs implies t == stamp(secs) by {
        lemma_one_stamp(t, stamp(secs));
    }
}

/// A number of two digits.
proof fn lemma_two(n: int)
    requires
        0 <= n < 100,
    ensures
        padded(n, 2) == seq![digit(n / 10), digit(n % 10)],
{
    reveal_with_fuel(padded, 3);
}

/// A number of four digits.
proof fn lemma_four(n: int)
    requires
        0 <= n < 10000,
    ensures
        padded(n, 4) == seq![
            digit(n / 1000),
            digit(n / 100 % 10),
            digit(n / 10 % 10),
            digit(n % 10),
        ],
{
    reveal_with_fuel(padded, 5);
}

/// A date in a year of four digits, digit by digit.
proof fn lemma_written(s: Stamp)
    requires
        valid(s),
        0 <= s.year <= 9999,
    ensures
        written(s) == seq![
            digit(s.year / 1000),
            digit(s.year / 100 % 10),
            digit(s.year / 10 % 10),
            digit(s.year % 10),
            '-',
            digit(s.month / 10),
            digit(s.month % 10),
            '-',
            digit(s.day / 10),
            digit(s.day % 10),
            'T',
            digit(s.hour / 10),
            digit(s.hour % 10),
            ':',
            digit(s.minute / 10),
            digit(s.minute % 10),
            ':',
            digit(s.second / 10),
            digit(s.second % 10),
            'Z',
        ],
        shaped(written(s)),
{
    lemma_four(s.year);
    lemma_two(s.month);
    lemma_two(s.day);
    lemma_two(s.hour);
    lemma_two(s.minute);
    lemma_two(s.second);
}

/// The value of the digits of a text from `from` up to `to`.
pub open spec fn value(text: Seq<char>, from: int, to: int) -> int
    decreases to - from,
{
    if to <= from {
        0
    } else {
        10 * value(text, from, to - 1) + (text[to - 1] as int - '0' as int)
    }
}

/// The value of two digits.
proof fn lemma_value_two(text: Seq<char>, at: int, n: int)
    requires
        0 <= n < 100,
        text[at] == digit(n / 10),
        text[at + 1] == digit(n % 10),
    ensures
        value(text, at, at + 2) == n,
{
    reveal_with_fuel(value, 3);
}

/// The value of four digits.
proof fn lemma_value_four(text: Seq<char>, n: int)
    requires
        0 <= n < 10000,
        text[0] == digit(n / 1000),
        text[1] == digit(n / 100 % 10),
        text[2] == digit(n / 10 % 10),
        text[3] == digit(n % 10),
    ensures
        value(text, 0, 4) == n,
{
    reveal_with_fuel(value, 5);
}

/// Whether there is a digit at each place from `from` up to `to`.
spec fn digits(text: Seq<char>, from: int, to: int) -> bool {
    forall|i: int| from <= i < to ==> '0' as int <= #[trigger] text[i] as int <= '9' as int
}

/// Digits of the same value are the same.
proof fn lemma_same_digits(a: Seq<char>, b: Seq<char>, from: int, to: int)
    requires
        0 <= from <= to <= a.len(),
        a.len() == b.len(),
        digits(a, from, to),
        digits(b, from, to),
        value(a, from, to) == value(b, from, to),
    ensures
        forall|i: int| from <= i < to ==> a[i] == b[i],
    decreases to - from,
{
    if from < to {
        let (x, y) = (a[to - 1], b[to - 1]);
        assert('0' as int <= x as int <= '9' as int);
        assert('0' as int <= y as int <= '9' as int);
        lemma_same_digits(a, b, from, to - 1);
    }
}

/// Of two texts that are the same up to a number, that with the lesser number comes first.
proof fn lemma_first_of(a: Seq<char>, b: Seq<char>, from: int, to: int)
    requires
        0 <= from < to <= a.len(),
        a.len() == b.len(),
        forall|i: int| 0 <= i < from ==> a[i] == b[i],
        digits(a, from, to),
        digits(b, from, to),
        value(a, from, to) < value(b, from, to),
    ensures
        before(a, b),
    decreases to,
{
    let (x, y) = (a[to - 1], b[to - 1]);
    assert('0' as int <= x as int <= '9' as int);
    assert('0' as int <= y as int <= '9' as int);
    if value(a, from, to - 1) < value(b, from, to - 1) {
        lemma_first_of(a, b, from, to - 1);
    } else {
        lemma_same_digits(a, b, from, to - 1);
        assert(parts(a, b, to - 1));
    }
}

/// What is earlier, in years of four digits, comes first in the order of strings.
proof fn lemma_earlier_text(a: Stamp, b: Stamp)
    requires
        valid(a),
        valid(b),
        0 <= a.year <= 9999,
        0 <= b.year <= 9999,
        earlier(a, b),
    ensures
        before(written(a), written(b)),
{
    lemma_values(a);
    lemma_values(b);
    let (x, y) = (written(a), written(b));
    if a.year < b.year {
        lemma_first_of(x, y, 0, 4);
    } else {
        lemma_same_digits(x, y, 0, 4);
        if a.month < b.month {
            lemma_first_of(x, y, 5, 7);
        } else {
            lemma_same_digits(x, y, 5, 7);
            if a.day < b.day {
                lemma_first_of(x, y, 8, 10);
            } else {
                lemma_same_digits(x, y, 8, 10);
                if a.hour < b.hour {
                    lemma_first_of(x, y, 11, 13);
                } else {
                    lemma_same_digits(x, y, 11, 13);
                    if a.minute < b.minute {
                        lemma_first_of(x, y, 14, 16);
                    } else {
                        lemma_same_digits(x, y, 14, 16);
                        lemma_first_of(x, y, 17, 19);
                    }
                }
            }
        }
    }
}

/// The parts of a date in a year of four digits, as they are read back of the text.
proof fn lemma_values(s: Stamp)
    requires
        valid(s),
        0 <= s.year <= 9999,
    ensures
        ({
            let text = written(s);
            &&& shaped(text)
            &&& digits(text, 0, 4) && value(text, 0, 4) == s.year
            &&& digits(text, 5, 7) && value(text, 5, 7) == s.month
            &&& digits(text, 8, 10) && value(text, 8, 10) == s.day
            &&& digits(text, 11, 13) && value(text, 11, 13) == s.hour
            &&& digits(text, 14, 16) && value(text, 14, 16) == s.minute
            &&& digits(text, 17, 19) && value(text, 17, 19) == s.second
        }),
{
    let text = written(s);
    lemma_written(s);
    lemma_value_four(text, s.year);
    lemma_value_two(text, 5, s.month);
    lemma_value_two(text, 8, s.day);
    lemma_value_two(text, 11, s.hour);
    lemma_value_two(text, 14, s.minute);
    lemma_value_two(text, 17, s.second);
}

/// A string does not come before itself, nor two strings before each other.
proof fn lemma_before(a: Seq<char>, b: Seq<char>)
    requires
        before(a, b),
    ensures
        a != b,
        !before(b, a),
{
    let k = choose|k: int| #[trigger] parts(a, b, k);
    if before(b, a) {
        let j = choose|j: int| #[trigger] parts(b, a, j);
        if j < k {
            assert(a[j] == b[j]);
        } else if k < j {
            assert(b[k] == a[k]);
        }
    }
}

/// The last second of the year 9999, counted from the start of 1970.
pub const LAST_OF_FOUR_DIGITS: i64 = 253_402_300_799;

/// From 1970 up to the year 9999, each date and time of day is written in the same 20 places, and
/// the order of the texts is that of time: what is later comes later, and only the same second has
/// the same text.
pub proof fn law_texts_are_in_order(a: int, b: int)
    requires
        0 <= a <= LAST_OF_FOUR_DIGITS,
        0 <= b <= LAST_OF_FOUR_DIGITS,
    ensures
        shaped(written(stamp(a))),
        a == b <==> written(stamp(a)) == written(stamp(b)),
        a < b <==> before(written(stamp(a)), written(stamp(b))),
{
    let (s, t) = (stamp(a), stamp(b));
    law_stamps(a);
    law_stamps(b);
    lemma_four_digits(s);
    lemma_four_digits(t);
    lemma_values(s);
    if earlier(s, t) {
        lemma_earlier(s, t);
        lemma_earlier_text(s, t);
        lemma_before(written(s), written(t));
    } else if earlier(t, s) {
        lemma_earlier(t, s);
        lemma_earlier_text(t, s);
        lemma_before(written(t), written(s));
    } else if before(written(s), written(t)) {
        lemma_before(written(s), written(t));
    }
}

/// The years from 1970 up to the year 9999.
proof fn lemma_four_digits(s: Stamp)
    requires
        valid(s),
        0 <= count(s) <= LAST_OF_FOUR_DIGITS,
    ensures
        1970 <= s.year <= 9999,
{
    lemma_in_year(s);
    if s.year < 1970 {
        lemma_years(s.year + 1, 1970);
    } else if s.year > 9999 {
        lemma_years(10000, s.year);
    }
}

/// A date before 1970 has a negative number.
pub proof fn lemma_before_1970(s: Stamp)
    requires
        valid(s),
        s.year < 1970,
    ensures
        count(s) < 0,
{
    lemma_in_year(s);
    lemma_years(s.year + 1, 1970);
}

/// The parts of a date and a time of day in a year of four digits are read back of the text, each
/// at its place.
pub proof fn law_text_reads_back(s: Stamp)
    requires
        valid(s),
        0 <= s.year <= 9999,
    ensures
        shaped(written(s)),
        value(written(s), 0, 4) == s.year,
        value(written(s), 5, 7) == s.month,
        value(written(s), 8, 10) == s.day,
        value(written(s), 11, 13) == s.hour,
        value(written(s), 14, 16) == s.minute,
        value(written(s), 17, 19) == s.second,
{
    lemma_values(s);
}

/// The count of seconds goes up by one from each second to the next: within a minute, from minute
/// to minute, from hour to hour, from day to day, from month to month and from year to year.
pub proof fn law_count_goes_on(s: Stamp)
    requires
        valid(s),
    ensures
        count(Stamp { year: 1970, month: 1, day: 1, hour: 0, minute: 0, second: 0 }) == 0,
        s.second < 59 ==> count(Stamp { second: s.second + 1, ..s }) == count(s) + 1,
        s.second == 59 && s.minute < 59 ==> count(Stamp { minute: s.minute + 1, second: 0, ..s })
            == count(s) + 1,
        s.second == 59 && s.minute == 59 && s.hour < 23 ==> count(
            Stamp { hour: s.hour + 1, minute: 0, second: 0, ..s },
        ) == count(s) + 1,
        s.second == 59 && s.minute == 59 && s.hour == 23 ==> {
            let then = Stamp { hour: 0, minute: 0, second: 0, ..s };
            &&& s.day < month_days(s.year, s.month) ==> count(Stamp { day: s.day + 1, ..then })
                == count(s) + 1
            &&& s.day == month_days(s.year, s.month) && s.month < 12 ==> count(
                Stamp { month: s.month + 1, day: 1, ..then },
            ) == count(s) + 1
            &&& s.day == 31 && s.month == 12 ==> count(
                Stamp { year: s.year + 1, month: 1, day: 1, ..then },
            ) == count(s) + 1
        },
{
    lemma_year_days(s.year);
}

} // verus!
