//! When credentials expire.
use crate::calendar;
use vstd::prelude::*;
use vstd::string::*;

verus! {

/// A point in time, as far as it is told here.
#[derive(Clone, Copy)]
pub enum Moment {
    /// Before the start of 1970.
    BeforeEpoch,
    /// That many whole seconds after the start of 1970, in UTC.
    SinceEpoch(u64),
}

/// How an expiry is written: a date and a time of day in UTC.
pub const PATTERN: &'static str = "%Y-%m-%dT%H:%M:%SZ";

/// The earliest second that a calendar date is known for, counted from the start of 1970.
pub const FIRST_SECOND: i64 = -8_334_601_228_800;

/// The last second that a calendar date is known for, counted from the start of 1970.
pub const LAST_SECOND: i64 = 8_210_266_876_799;

/// chrono's `DateTime::from_timestamp`, and `DateTime::format` on the date it finds.
///
/// There is a text for each second from the first day of the year -262143 to the last day of the
/// year 262142, and for no other. It is the date and the time of day of that second in UTC, in the
/// Gregorian calendar, each part padded with zeros; the year has a sign where it is negative or
/// beyond 9999. (The pattern is a fixed one, because formatting panics where a pattern is not well
/// formed. The nanoseconds are less than a second: more of them stand for a leap second.)
#[verifier::external_body]
fn format_timestamp(secs: i64, nanos: u32, pattern: &str) -> (text: Option<String>)
    requires
        pattern@ == PATTERN@,
        nanos < 1_000_000_000,
    ensures
        text is Some <==> FIRST_SECOND <= secs <= LAST_SECOND,
        text matches Some(text) ==> text@ == calendar::written(calendar::stamp(secs as int)),
{
    match chrono::DateTime::from_timestamp(secs, nanos) {
        Some(moment) => Some(moment.format(pattern).to_string()),
        None => None,
    }
}

/// The number of seconds of a moment: none before the epoch; a number that is too large for an
/// `i64` wraps around.
pub open spec fn seconds(moment: Moment) -> int {
    match moment {
        Moment::BeforeEpoch => 0,
        Moment::SinceEpoch(secs) if secs <= i64::MAX => secs as int,
        Moment::SinceEpoch(secs) => secs - 0x1_0000_0000_0000_0000,
    }
}

/// An expiry as it is written; nothing where it lies beyond the calendar.
pub open spec fn expiry_text(moment: Moment) -> Seq<char> {
    if FIRST_SECOND <= seconds(moment) <= LAST_SECOND {
        calendar::written(calendar::stamp(seconds(moment)))
    } else {
        Seq::empty()
    }
}

/// The seconds of a moment.
pub fn seconds_of(moment: Moment) -> (secs: i64)
    ensures
        secs == seconds(moment),
{
    match moment {
        Moment::BeforeEpoch => 0,
        Moment::SinceEpoch(secs) => {
            assert(secs <= i64::MAX ==> secs as i64 == secs) by (bit_vector);
            assert(secs > i64::MAX ==> secs as i64 == secs - 0x1_0000_0000_0000_0000)
                by (bit_vector);
            secs as i64
        },
    }
}

/// A formatted time stamp, or the empty string where there is none.
pub fn or_empty(text: Option<String>) -> (s: String)
    ensures
        s@ == match text {
            Some(text) => text@,
            None => Seq::empty(),
        },
{
    match text {
        Some(text) => text,
        None => String::new(),
    }
}

/// An expiry, written as a date and a time of day in UTC.
pub fn format_expiry(moment: Moment) -> (s: String)
    ensures
        s@ == expiry_text(moment),
{
    or_empty(format_timestamp(seconds_of(moment), 0, PATTERN))
}

/// Up to the year 9999 an expiry has the shape `YYYY-MM-DDTHH:MM:SSZ`, and expiries as texts are in
/// the order of time: a later one comes later, and only those of the same second are the same.
pub proof fn law_later_expiries_come_later(a: Moment, b: Moment)
    requires
        0 <= seconds(a) <= calendar::LAST_OF_FOUR_DIGITS,
        0 <= seconds(b) <= calendar::LAST_OF_FOUR_DIGITS,
    ensures
        calendar::shaped(expiry_text(a)),
        seconds(a) == seconds(b) <==> expiry_text(a) == expiry_text(b),
        seconds(a) < seconds(b) <==> calendar::before(expiry_text(a), expiry_text(b)),
{
    calendar::law_texts_are_in_order(seconds(a), seconds(b));
}

/// The seconds of a moment are those since the epoch, as an `i64` holds them: all of them up to its
/// maximum, and beyond that the number that differs by a multiple of its range. Before the epoch
/// there are none.
pub proof fn law_seconds(secs: u64)
    ensures
        seconds(Moment::BeforeEpoch) == 0,
        secs <= i64::MAX ==> seconds(Moment::SinceEpoch(secs)) == secs,
        secs > i64::MAX ==> seconds(Moment::SinceEpoch(secs)) == secs - u64::MAX - 1,
{
}

/// The text of a moment is that of the date and the time of day that lie so many seconds after the
/// start of 1970, and is read back as these, up to the year 9999.
pub proof fn law_expiry_is_the_date(secs: u64, s: calendar::Stamp)
    requires
        secs <= i64::MAX,
        secs <= LAST_SECOND,
        calendar::valid(s),
        calendar::count(s) == secs,
    ensures
        expiry_text(Moment::SinceEpoch(secs)) == calendar::written(s),
        s.year <= 9999 ==> calendar::value(expiry_text(Moment::SinceEpoch(secs)), 0, 4) == s.year,
{
    calendar::law_stamps(secs as int);
    if s.year <= 9999 {
        if s.year < 1970 {
            calendar::lemma_before_1970(s);
        }
        calendar::law_text_reads_back(s);
    }
}

/// What lies before the epoch is written as the epoch; what lies beyond the calendar is written as
/// nothing at all, and everything else as something.
pub proof fn law_what_has_no_date(secs: u64)
    ensures
        expiry_text(Moment::BeforeEpoch) == expiry_text(Moment::SinceEpoch(0)),
        8_210_266_876_799 < secs <= i64::MAX ==> expiry_text(Moment::SinceEpoch(secs)).len() == 0,
        secs <= 8_210_266_876_799 ==> expiry_text(Moment::SinceEpoch(secs)).len() > 0,
{
}

/// Of two moments up to the year 9999, the later one comes later in the order of strings.
pub proof fn law_order_of_expiries(a: u64, b: u64)
    requires
        a <= 253_402_300_799,
        b <= 253_402_300_799,
    ensures
        ({
            let (x, y) = (expiry_text(Moment::SinceEpoch(a)), expiry_text(Moment::SinceEpoch(b)));
            &&& a == b <==> x == y
            &&& a < b <==> calendar::before(x, y)
        }),
{
    law_later_expiries_come_later(Moment::SinceEpoch(a), Moment::SinceEpoch(b));
}

} // verus!
