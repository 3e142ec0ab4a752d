//! The awake schedule: the hours of each weekday during which the frame
//! should be awake, in a named time zone.
//!
//! Instants are UTC `Timestamp`s; wall-clock readings are `LocalDateTime`s
//! counted in seconds from 1970-01-01 00:00 local time. What the IANA zone
//! data says (the local reading of an instant, and the instants of a local
//! reading across daylight-saving changes) comes from `chrono-tz`.
use vstd::prelude::*;
use crate::text::{chars_of, string_from_chars, trim_chars, trim_spec};
use chrono::{DateTime, LocalResult, NaiveTime, Offset, TimeZone, Timelike};
use chrono_tz::Tz;

verus! {

broadcast use vstd::seq_lib::to_multiset_insert;

/// A time of day: whole seconds since midnight, and the fraction in
/// nanoseconds (at or above one second only during a leap second).
#[derive(Debug, Clone, Copy, PartialEq, Eq, Structural)]
pub struct TimeOfDay {
    pub secs: u32,
    pub nanos: u32,
}

/// The order of times of day: by seconds, then by fraction.
pub open spec fn tod_value(t: TimeOfDay) -> int {
    t.secs as int * 0x1_0000_0000 + t.nanos as int
}

pub fn tod_lt(a: TimeOfDay, b: TimeOfDay) -> (r: bool)
    ensures
        r == (tod_value(a) < tod_value(b)),
{
    a.secs < b.secs || (a.secs == b.secs && a.nanos < b.nanos)
}

/// An instant: seconds since the UNIX epoch (UTC) and the fraction in nanoseconds.
#[derive(Debug, Clone, Copy, PartialEq, Eq, Structural)]
pub struct Timestamp {
    pub secs: i64,
    pub nanos: u32,
}

/// The order of instants: by seconds, then by fraction.
pub open spec fn ts_value(t: Timestamp) -> int {
    t.secs as int * 0x1_0000_0000 + t.nanos as int
}

pub fn ts_lt(a: Timestamp, b: Timestamp) -> (r: bool)
    ensures
        r == (ts_value(a) < ts_value(b)),
{
    a.secs < b.secs || (a.secs == b.secs && a.nanos < b.nanos)
}

/// A wall-clock reading: seconds since 1970-01-01 00:00 local time, and the
/// fraction in nanoseconds.
#[derive(Debug, Clone, Copy, PartialEq, Eq, Structural)]
pub struct LocalDateTime {
    pub secs: i64,
    pub nanos: u32,
}

/// The instants that a wall-clock reading denotes in a zone.
#[derive(Debug, Clone, Copy, PartialEq, Eq, Structural)]
pub enum LocalResolution {
    /// Exactly one instant.
    Single(Timestamp),
    /// Two instants (the clocks were set back): the earliest, then the latest.
    Ambiguous(Timestamp, Timestamp),
    /// None (the clocks were set forward over it).
    Gap,
}

/// The wall-clock reading of the instant (`secs`, `nanos`) in the zone named
/// `zone`, as `chrono-tz` computes it; `None` when the zone is unknown or the
/// instant out of `chrono`'s range.
pub uninterp spec fn zone_local_time(zone: Seq<char>, secs: i64, nanos: u32) -> Option<LocalDateTime>;

/// What the wall-clock reading (`secs`, `nanos`) denotes in the zone named
/// `zone`, as `chrono-tz` computes it; `None` when the zone is unknown or the
/// reading out of `chrono`'s range.
pub uninterp spec fn zone_from_local(zone: Seq<char>, secs: i64, nanos: u32) -> Option<LocalResolution>;

/// The time of day that `chrono`'s `NaiveTime::parse_from_str` reads from
/// `text` with the format `format`, if it reads one.
pub uninterp spec fn naive_time_parsed(text: Seq<char>, format: Seq<char>) -> Option<TimeOfDay>;

/// The wall-clock reading of `at` in the zone named `zone`.
///
/// Calls `str::parse::<chrono_tz::Tz>`, `DateTime::from_timestamp`,
/// `TimeZone::offset_from_utc_datetime` and `NaiveDateTime::checked_add_offset`
/// (which, unlike `naive_local`, gives `None` where the reading would pass the
/// end of `chrono`'s range); the reading is handed back as local seconds and
/// fraction.
#[verifier::external_body]
fn local_reading(zone: &str, at: Timestamp) -> (r: Option<LocalDateTime>)
    ensures
        r == zone_local_time(zone@, at.secs, at.nanos),
{
    let tz: Tz = zone.parse().ok()?;
    let utc = DateTime::from_timestamp(at.secs, at.nanos)?.naive_utc();
    let offset = tz.offset_from_utc_datetime(&utc).fix();
    let local = utc.checked_add_offset(offset)?.and_utc();
    Some(LocalDateTime { secs: local.timestamp(), nanos: local.timestamp_subsec_nanos() })
}

/// The instants that the wall-clock reading `local` denotes in the zone named
/// `zone`: `TimeZone::from_local_datetime` of `chrono-tz`.
#[verifier::external_body]
fn instants_of(zone: &str, local: LocalDateTime) -> (r: Option<LocalResolution>)
    ensures
        r == zone_from_local(zone@, local.secs, local.nanos),
{
    let tz: Tz = zone.parse().ok()?;
    let naive = DateTime::from_timestamp(local.secs, local.nanos)?.naive_utc();
    Some(match tz.from_local_datetime(&naive) {
        LocalResult::Single(t) => LocalResolution::Single(Timestamp { secs: t.timestamp(), nanos: t.timestamp_subsec_nanos() }),
        LocalResult::Ambiguous(a, b) => LocalResolution::Ambiguous(Timestamp { secs: a.timestamp(), nanos: a.timestamp_subsec_nanos() }, Timestamp { secs: b.timestamp(), nanos: b.timestamp_subsec_nanos() }),
        LocalResult::None => LocalResolution::Gap,
    })
}

/// `NaiveTime::parse_from_str(text, format)` of `chrono`, as seconds since
/// midnight and fraction. `chrono` documents that the seconds of a time of
/// day stay below 86 400.
#[verifier::external_body]
fn parse_naive_time(text: &str, format: &str) -> (r: Option<TimeOfDay>)
    ensures
        r == naive_time_parsed(text@, format@),
        r matches Some(t) ==> t.secs < 86400,
{
    let t = NaiveTime::parse_from_str(text, format).ok()?;
    Some(TimeOfDay { secs: t.num_seconds_from_midnight(), nanos: t.nanosecond() })
}

// ---------------------------------------------------------------------------
// Time ranges as configured
// ---------------------------------------------------------------------------

/// A configured awake range of a day, from `start` to `end` local time.
#[derive(Debug, Clone, Copy, PartialEq, Eq, Structural)]
pub struct AwakeTimeRange {
    pub start: TimeOfDay,
    pub end: TimeOfDay,
}

/// Why a configured range is refused.
#[derive(Debug, Clone, Copy, PartialEq, Eq, Structural)]
pub enum RangeError {
    /// The start is not a time literal.
    InvalidStart,
    /// The end is not a time literal.
    InvalidEnd,
    /// The range does not end after it starts.
    StartNotBeforeEnd,
}

/// The time of day written in `text`: `HH:MM:SS`, else `HH:MM`, around white space.
pub open spec fn time_literal(text: Seq<char>) -> Option<TimeOfDay> {
    match naive_time_parsed(trim_spec(text), "%H:%M:%S"@) {
        Some(t) => Some(t),
        None => naive_time_parsed(trim_spec(text), "%H:%M"@),
    }
}

fn parse_time_literal(text: &str) -> (r: Option<TimeOfDay>)
    ensures
        r == time_literal(text@),
        r matches Some(t) ==> t.secs < 86400,
{
    let chars = chars_of(text);
    let trimmed_chars = trim_chars(&chars);
    let trimmed = string_from_chars(trimmed_chars.as_slice());
    match parse_naive_time(trimmed.as_str(), "%H:%M:%S") {
        Some(t) => Some(t),
        None => parse_naive_time(trimmed.as_str(), "%H:%M"),
    }
}

impl AwakeTimeRange {
    /// The range written as the pair (`start_raw`, `end_raw`); the end must be
    /// after the start.
    pub fn parse(start_raw: &str, end_raw: &str) -> (r: Result<AwakeTimeRange, RangeError>)
        ensures
            time_literal(start_raw@) is None ==> r == Err::<AwakeTimeRange, RangeError>(
                RangeError::InvalidStart,
            ),
            time_literal(start_raw@) is Some && time_literal(end_raw@) is None ==> r == Err::<
                AwakeTimeRange,
                RangeError,
            >(RangeError::InvalidEnd),
            time_literal(start_raw@) matches Some(s) ==> (time_literal(end_raw@) matches Some(e)
                ==> r == (if tod_value(s) < tod_value(e) {
                Ok(AwakeTimeRange { start: s, end: e })
            } else {
                Err(RangeError::StartNotBeforeEnd)
            })),
    {
        let start = match parse_time_literal(start_raw) {
            Some(t) => t,
            None => {
                return Err(RangeError::InvalidStart);
            },
        };
        let end = match parse_time_literal(end_raw) {
            Some(t) => t,
            None => {
                return Err(RangeError::InvalidEnd);
            },
        };
        if tod_lt(start, end) {
            Ok(AwakeTimeRange { start, end })
        } else {
            Err(RangeError::StartNotBeforeEnd)
        }
    }

    pub fn start(&self) -> (t: TimeOfDay)
        ensures
            t == self.start,
    {
        self.start
    }

    pub fn end(&self) -> (t: TimeOfDay)
        ensures
            t == self.end,
    {
        self.end
    }
}

// ---------------------------------------------------------------------------
// Sorting and checking a day's ranges
// ---------------------------------------------------------------------------

/// The ranges come in order of their starts.
pub open spec fn sorted_by_start(s: Seq<AwakeTimeRange>) -> bool {
    forall|a: int, b: int| 0 <= a < b < s.len() ==> tod_value(s[a].start) <= tod_value(s[b].start)
}

/// Each range starts no earlier than the one before it ends.
pub open spec fn non_overlapping(s: Seq<AwakeTimeRange>) -> bool {
    forall|i: int| 0 < i < s.len() ==> tod_value(s[i - 1].end) <= tod_value(s[i].start)
}

/// Sorts `ranges` by their starts (ranges with equal starts keep their order).
fn sort_by_start(ranges: &mut Vec<AwakeTimeRange>)
    ensures
        sorted_by_start(final(ranges)@),
        final(ranges)@.to_multiset() == old(ranges)@.to_multiset(),
{
    let mut out: Vec<AwakeTimeRange> = Vec::new();
    let mut i: usize = 0;
    proof {
        assert(out@ =~= ranges@.subrange(0, 0));
    }
    while i < ranges.len()
        invariant
            0 <= i <= ranges@.len(),
            ranges@ == old(ranges)@,
            sorted_by_start(out@),
            out@.to_multiset() == ranges@.subrange(0, i as int).to_multiset(),
        decreases ranges.len() - i,
    {
        let x = ranges[i];
        let mut j: usize = 0;
        while j < out.len() && !tod_lt(x.start, out[j].start)
            invariant
                0 <= j <= out@.len(),
                forall|k: int| 0 <= k < j ==> tod_value(out@[k].start) <= tod_value(x.start),
            decreases out.len() - j,
        {
            j = j + 1;
        }
        proof {
            assert(j < out@.len() ==> tod_value(x.start) < tod_value(out@[j as int].start));
            vstd::seq_lib::to_multiset_build(ranges@.subrange(0, i as int), x);
            assert(ranges@.subrange(0, i + 1) == ranges@.subrange(0, i as int).push(x));
        }
        let ghost before = out@;
        out.insert(j, x);
        proof {
            assert(out@ == before.insert(j as int, x));
            assert forall|a: int, b: int| 0 <= a < b < out@.len() implies tod_value(out@[a].start)
                <= tod_value(out@[b].start) by {
                if b < j {
                } else if b == j {
                } else if a < j {
                    assert(tod_value(before[a].start) <= tod_value(x.start));
                    assert(tod_value(x.start) < tod_value(before[j as int].start));
                    assert(tod_value(before[j as int].start) <= tod_value(before[b - 1].start));
                } else if a == j {
                    assert(tod_value(x.start) < tod_value(before[j as int].start));
                    assert(tod_value(before[j as int].start) <= tod_value(before[b - 1].start));
                } else {
                    assert(tod_value(before[a - 1].start) <= tod_value(before[b - 1].start));
                }
            }
        }
        i = i + 1;
    }
    proof {
        assert(ranges@.subrange(0, ranges@.len() as int) == ranges@);
    }
    *ranges = out;
}

/// Sorts a day's ranges by start and checks that none overlaps the next.
pub fn validate_ranges(ranges: &mut Vec<AwakeTimeRange>) -> (r: Result<(), ()>)
    ensures
        sorted_by_start(final(ranges)@),
        final(ranges)@.to_multiset() == old(ranges)@.to_multiset(),
        r is Ok <==> non_overlapping(final(ranges)@),
{
    sort_by_start(ranges);
    let mut i: usize = 1;
    while i < ranges.len()
        invariant
            1 <= i,
            i <= ranges@.len() || ranges@.len() == 0,
            sorted_by_start(ranges@),
            ranges@.to_multiset() == old(ranges)@.to_multiset(),
            forall|k: int| 0 < k < i && k < ranges@.len() ==> tod_value(ranges@[k - 1].end)
                <= tod_value(ranges@[k].start),
        decreases ranges.len() - i,
    {
        if tod_lt(ranges[i].start, ranges[i - 1].end) {
            return Err(());
        }
        i = i + 1;
    }
    Ok(())
}

// ---------------------------------------------------------------------------
// Which ranges apply on which day
// ---------------------------------------------------------------------------

/// A day of the week.
#[derive(Debug, Clone, Copy, PartialEq, Eq, Structural)]
pub enum Weekday {
    Mon,
    Tue,
    Wed,
    Thu,
    Fri,
    Sat,
    Sun,
}

/// The weekday of the date `days` days after 1970-01-01, a Thursday.
pub open spec fn weekday_of(days: int) -> Weekday {
    let k = (days + 3) % 7;
    if k == 0 {
        Weekday::Mon
    } else if k == 1 {
        Weekday::Tue
    } else if k == 2 {
        Weekday::Wed
    } else if k == 3 {
        Weekday::Thu
    } else if k == 4 {
        Weekday::Fri
    } else if k == 5 {
        Weekday::Sat
    } else {
        Weekday::Sun
    }
}

/// `x` divided by `d`, rounding down, and the remainder (which is never negative).
pub fn floor_div_mod(x: i64, d: i64) -> (r: (i64, i64))
    requires
        0 < d <= 0x1_0000_0000,
    ensures
        r.0 == x as int / d as int,
        r.1 == x as int % d as int,
        0 <= r.1 < d,
{
    if x >= 0 {
        let q = x / d;
        let m = x % d;
        proof {
            vstd::arithmetic::div_mod::lemma_fundamental_div_mod(x as int, d as int);
        }
        (q, m)
    } else {
        let n: i64 = -(x + 1);
        let q = n / d;
        let m = n % d;
        proof {
            vstd::arithmetic::div_mod::lemma_fundamental_div_mod(n as int, d as int);
            assert(x == (-q - 1) * d + (d - 1 - m)) by (nonlinear_arith)
                requires
                    n == d * q + m,
                    x == -n - 1,
            ;
            vstd::arithmetic::div_mod::lemma_fundamental_div_mod_converse_mod(
                x as int,
                d as int,
                -q - 1,
                d - 1 - m,
            );
            vstd::arithmetic::div_mod::lemma_fundamental_div_mod_converse_div(
                x as int,
                d as int,
                -q - 1,
                d - 1 - m,
            );
        }
        (-q - 1, d - 1 - m)
    }
}

/// The weekday of the date `days` days after 1970-01-01.
pub fn weekday_from_days(days: i64) -> (w: Weekday)
    ensures
        w == weekday_of(days as int),
{
    let (_, m) = floor_div_mod(days, 7);
    let k = (m + 3) % 7;
    proof {
        vstd::arithmetic::div_mod::lemma_add_mod_noop(days as int, 3, 7);
        vstd::arithmetic::div_mod::lemma_add_mod_noop(m as int, 3, 7);
    }
    if k == 0 {
        Weekday::Mon
    } else if k == 1 {
        Weekday::Tue
    } else if k == 2 {
        Weekday::Wed
    } else if k == 3 {
        Weekday::Thu
    } else if k == 4 {
        Weekday::Fri
    } else if k == 5 {
        Weekday::Sat
    } else {
        Weekday::Sun
    }
}

/// The week repeats: a date and the date a week later share their weekday.
pub proof fn lemma_weekday_periodic(days: int)
    ensures
        weekday_of(days + 7) == weekday_of(days),
{
    vstd::arithmetic::div_mod::lemma_mod_add_multiples_vanish(days + 3, 7);
}

/// A copy of `ranges`.
fn copy_ranges(ranges: &Vec<AwakeTimeRange>) -> (r: Vec<AwakeTimeRange>)
    ensures
        r@ == ranges@,
{
    let mut r: Vec<AwakeTimeRange> = Vec::new();
    let mut i: usize = 0;
    while i < ranges.len()
        invariant
            0 <= i <= ranges@.len(),
            r@ == ranges@.subrange(0, i as int),
        decreases ranges.len() - i,
    {
        r.push(ranges[i]);
        i = i + 1;
    }
    r
}

/// The awake ranges of each kind of day. A weekday's own list, when given,
/// replaces the others; else Saturday and Sunday use `weekend` and the other
/// days `weekdays`, each falling back to `daily`.
#[derive(Debug, Clone)]
pub struct AwakeScheduleRules {
    pub daily: Vec<AwakeTimeRange>,
    pub weekdays: Option<Vec<AwakeTimeRange>>,
    pub weekend: Option<Vec<AwakeTimeRange>>,
    pub monday: Option<Vec<AwakeTimeRange>>,
    pub tuesday: Option<Vec<AwakeTimeRange>>,
    pub wednesday: Option<Vec<AwakeTimeRange>>,
    pub thursday: Option<Vec<AwakeTimeRange>>,
    pub friday: Option<Vec<AwakeTimeRange>>,
    pub saturday: Option<Vec<AwakeTimeRange>>,
    pub sunday: Option<Vec<AwakeTimeRange>>,
}

/// One of the lists of a schedule.
#[derive(Debug, Clone, Copy, PartialEq, Eq, Structural)]
pub enum RangeList {
    Daily,
    Weekdays,
    Weekend,
    Monday,
    Tuesday,
    Wednesday,
    Thursday,
    Friday,
    Saturday,
    Sunday,
}

pub open spec fn opt_view(v: Option<Vec<AwakeTimeRange>>) -> Option<Seq<AwakeTimeRange>> {
    match v {
        Some(v) => Some(v@),
        None => None,
    }
}

impl AwakeScheduleRules {
    /// No ranges at all: never awake.
    pub fn new() -> (r: Self)
        ensures
            r.daily@.len() == 0,
            r.weekdays is None && r.weekend is None,
            r.monday is None,
            r.tuesday is None,
            r.wednesday is None,
            r.thursday is None,
            r.friday is None,
            r.saturday is None,
            r.sunday is None,
    {
        AwakeScheduleRules {
            daily: Vec::new(),
            weekdays: None,
            weekend: None,
            monday: None,
            tuesday: None,
            wednesday: None,
            thursday: None,
            friday: None,
            saturday: None,
            sunday: None,
        }
    }

    /// The list configured for `weekday` alone, if any.
    pub open spec fn day_specific_spec(&self, weekday: Weekday) -> Option<Seq<AwakeTimeRange>> {
        match weekday {
            Weekday::Mon => opt_view(self.monday),
            Weekday::Tue => opt_view(self.tuesday),
            Weekday::Wed => opt_view(self.wednesday),
            Weekday::Thu => opt_view(self.thursday),
            Weekday::Fri => opt_view(self.friday),
            Weekday::Sat => opt_view(self.saturday),
            Weekday::Sun => opt_view(self.sunday),
        }
    }

    /// The ranges in force on `weekday`.
    pub open spec fn ranges_for_spec(&self, weekday: Weekday) -> Seq<AwakeTimeRange> {
        match self.day_specific_spec(weekday) {
            Some(v) => v,
            None => if weekday == Weekday::Sat || weekday == Weekday::Sun {
                match opt_view(self.weekend) {
                    Some(v) => v,
                    None => self.daily@,
                }
            } else {
                match opt_view(self.weekdays) {
                    Some(v) => v,
                    None => self.daily@,
                }
            },
        }
    }

    fn day_specific(&self, weekday: Weekday) -> (r: Option<&Vec<AwakeTimeRange>>)
        ensures
            match r {
                Some(v) => self.day_specific_spec(weekday) == Some(v@),
                None => self.day_specific_spec(weekday) is None,
            },
    {
        match weekday {
            Weekday::Mon => self.monday.as_ref(),
            Weekday::Tue => self.tuesday.as_ref(),
            Weekday::Wed => self.wednesday.as_ref(),
            Weekday::Thu => self.thursday.as_ref(),
            Weekday::Fri => self.friday.as_ref(),
            Weekday::Sat => self.saturday.as_ref(),
            Weekday::Sun => self.sunday.as_ref(),
        }
    }

    /// The ranges in force on `weekday`, in order.
    pub fn resolved_ranges_for(&self, weekday: Weekday) -> (r: Vec<AwakeTimeRange>)
        ensures
            r@ == self.ranges_for_spec(weekday),
    {
        if let Some(overrides) = self.day_specific(weekday) {
            return copy_ranges(overrides);
        }
        match weekday {
            Weekday::Sat | Weekday::Sun => match &self.weekend {
                Some(v) => copy_ranges(v),
                None => copy_ranges(&self.daily),
            },
            _ => match &self.weekdays {
                Some(v) => copy_ranges(v),
                None => copy_ranges(&self.daily),
            },
        }
    }

    /// Sorts every list by start and checks, list by list in the order daily,
    /// weekdays, weekend, Monday to Sunday, that no range overlaps the next;
    /// the first list that fails is named and the lists after it are left as
    /// they were.
    pub fn validate(&mut self) -> (r: Result<(), RangeList>)
        ensures
            validated(&*old(self), &*final(self), r),
            r is Ok ==> self_valid(&*final(self)),
            r is Ok ==> same_ranges(&*old(self), &*final(self)),
            r matches Err(l) ==> list_of(&*final(self), l) matches Some(v) && sorted_by_start(v)
                && !non_overlapping(v),
    {
        let ghost start = *self;
        let r = self.check_lists();
        proof {
            match r {
                Ok(_) => lemma_validated_all(&start, &*self),
                Err(l) => lemma_validated_failed(&start, &*self, l),
            }
        }
        r
    }

    fn check_lists(&mut self) -> (r: Result<(), RangeList>)
        ensures
            validated(&*old(self), &*final(self), r),
    {
        let ghost start = self.daily@;
        let daily = validate_ranges(&mut self.daily);
        proof {
            reveal(checked_as);
            assert(checked_as(Some(start), Some(self.daily@), daily is Ok));
        }
        if daily.is_err() {
            return Err(RangeList::Daily);
        }
        if validate_list(&mut self.weekdays).is_err() {
            return Err(RangeList::Weekdays);
        }
        if validate_list(&mut self.weekend).is_err() {
            return Err(RangeList::Weekend);
        }
        if validate_list(&mut self.monday).is_err() {
            return Err(RangeList::Monday);
        }
        if validate_list(&mut self.tuesday).is_err() {
            return Err(RangeList::Tuesday);
        }
        if validate_list(&mut self.wednesday).is_err() {
            return Err(RangeList::Wednesday);
        }
        if validate_list(&mut self.thursday).is_err() {
            return Err(RangeList::Thursday);
        }
        if validate_list(&mut self.friday).is_err() {
            return Err(RangeList::Friday);
        }
        if validate_list(&mut self.saturday).is_err() {
            return Err(RangeList::Saturday);
        }
        if validate_list(&mut self.sunday).is_err() {
            return Err(RangeList::Sunday);
        }
        Ok(())
    }
}

/// List `after` is list `before` sorted by start, free of overlaps exactly
/// when `passed`; an absent list stays absent and passes.
#[verifier::opaque]
pub open spec fn checked_as(
    before: Option<Seq<AwakeTimeRange>>,
    after: Option<Seq<AwakeTimeRange>>,
    passed: bool,
) -> bool {
    match (before, after) {
        (Some(x), Some(y)) => sorted_by_start(y) && y.to_multiset() == x.to_multiset() && (passed
            <==> non_overlapping(y)),
        (None, None) => passed,
        _ => false,
    }
}

/// Sorts and checks an optional list of ranges (see `validate_ranges`); an
/// absent list passes.
fn validate_list(list: &mut Option<Vec<AwakeTimeRange>>) -> (r: Result<(), ()>)
    ensures
        checked_as(opt_view(*old(list)), opt_view(*final(list)), r is Ok),
{
    proof {
        reveal(checked_as);
    }
    match list.as_mut() {
        Some(ranges) => validate_ranges(ranges),
        None => Ok(()),
    }
}

/// The place of `l` in the order in which `validate` checks the lists.
pub open spec fn list_rank(l: RangeList) -> int {
    match l {
        RangeList::Daily => 0,
        RangeList::Weekdays => 1,
        RangeList::Weekend => 2,
        RangeList::Monday => 3,
        RangeList::Tuesday => 4,
        RangeList::Wednesday => 5,
        RangeList::Thursday => 6,
        RangeList::Friday => 7,
        RangeList::Saturday => 8,
        RangeList::Sunday => 9,
    }
}

/// What a validation that returned `r` leaves of list `l`: a list checked
/// before the failing one (or any list, on success) is the old list sorted
/// and free of overlaps; the failing list is the old list sorted, and it
/// overlaps; a list after it is as it was.
pub open spec fn validated_list(
    before: &AwakeScheduleRules,
    after: &AwakeScheduleRules,
    r: Result<(), RangeList>,
    l: RangeList,
) -> bool {
    let reached = match r {
        Ok(_) => true,
        Err(e) => list_rank(l) <= list_rank(e),
    };
    if reached {
        checked_as(list_of(before, l), list_of(after, l), r != Err::<(), RangeList>(l))
    } else {
        list_of(after, l) == list_of(before, l)
    }
}

/// `validated_list` for every list.
pub open spec fn validated(before: &AwakeScheduleRules, after: &AwakeScheduleRules, r: Result<(), RangeList>) -> bool {
    &&& validated_list(before, after, r, RangeList::Daily)
    &&& validated_list(before, after, r, RangeList::Weekdays)
    &&& validated_list(before, after, r, RangeList::Weekend)
    &&& validated_list(before, after, r, RangeList::Monday)
    &&& validated_list(before, after, r, RangeList::Tuesday)
    &&& validated_list(before, after, r, RangeList::Wednesday)
    &&& validated_list(before, after, r, RangeList::Thursday)
    &&& validated_list(before, after, r, RangeList::Friday)
    &&& validated_list(before, after, r, RangeList::Saturday)
    &&& validated_list(before, after, r, RangeList::Sunday)
}

proof fn lemma_checked_passed(x: Option<Seq<AwakeTimeRange>>, y: Option<Seq<AwakeTimeRange>>)
    requires
        checked_as(x, y, true),
    ensures
        y matches Some(v) ==> sorted_by_start(v) && non_overlapping(v),
        match (x, y) {
            (Some(a), Some(b)) => a.to_multiset() == b.to_multiset(),
            (None, None) => true,
            _ => false,
        },
{
    reveal(checked_as);
}

proof fn lemma_validated_all(before: &AwakeScheduleRules, after: &AwakeScheduleRules)
    requires
        validated(before, after, Ok(())),
    ensures
        self_valid(after),
        same_ranges(before, after),
{
    assert forall|l: RangeList| #![trigger list_of(after, l)]
        checked_as(list_of(before, l), list_of(after, l), true) by {
        match l {
            RangeList::Daily => {},
            RangeList::Weekdays => {},
            RangeList::Weekend => {},
            RangeList::Monday => {},
            RangeList::Tuesday => {},
            RangeList::Wednesday => {},
            RangeList::Thursday => {},
            RangeList::Friday => {},
            RangeList::Saturday => {},
            RangeList::Sunday => {},
        }
    }
    assert forall|l: RangeList| #![trigger list_of(after, l)]
        list_of(after, l) matches Some(v) ==> sorted_by_start(v) && non_overlapping(v) by {
        lemma_checked_passed(list_of(before, l), list_of(after, l));
    }
    assert forall|l: RangeList| #![trigger list_of(before, l)]
        match (list_of(before, l), list_of(after, l)) {
            (Some(x), Some(y)) => x.to_multiset() == y.to_multiset(),
            (None, None) => true,
            _ => false,
        } by {
        assert(checked_as(list_of(before, l), list_of(after, l), true));
        lemma_checked_passed(list_of(before, l), list_of(after, l));
    }
}

proof fn lemma_validated_failed(before: &AwakeScheduleRules, after: &AwakeScheduleRules, l: RangeList)
    requires
        validated(before, after, Err(l)),
    ensures
        list_of(after, l) matches Some(v) && sorted_by_start(v) && !non_overlapping(v),
{
    reveal(checked_as);
    match l {
            RangeList::Daily => {},
            RangeList::Weekdays => {},
            RangeList::Weekend => {},
            RangeList::Monday => {},
            RangeList::Tuesday => {},
            RangeList::Wednesday => {},
            RangeList::Thursday => {},
            RangeList::Friday => {},
            RangeList::Saturday => {},
            RangeList::Sunday => {},
    }
}

/// The list `l` of `rules`, if configured.
pub open spec fn list_of(rules: &AwakeScheduleRules, l: RangeList) -> Option<Seq<AwakeTimeRange>> {
    match l {
        RangeList::Daily => Some(rules.daily@),
        RangeList::Weekdays => opt_view(rules.weekdays),
        RangeList::Weekend => opt_view(rules.weekend),
        RangeList::Monday => opt_view(rules.monday),
        RangeList::Tuesday => opt_view(rules.tuesday),
        RangeList::Wednesday => opt_view(rules.wednesday),
        RangeList::Thursday => opt_view(rules.thursday),
        RangeList::Friday => opt_view(rules.friday),
        RangeList::Saturday => opt_view(rules.saturday),
        RangeList::Sunday => opt_view(rules.sunday),
    }
}

/// Every configured list is sorted by start and free of overlaps.
pub open spec fn self_valid(rules: &AwakeScheduleRules) -> bool {
    forall|l: RangeList|
        #![trigger list_of(rules, l)]
        list_of(rules, l) matches Some(v) ==> sorted_by_start(v) && non_overlapping(v)
}

/// The two schedules configure the same lists with the same ranges, up to order.
pub open spec fn same_ranges(a: &AwakeScheduleRules, b: &AwakeScheduleRules) -> bool {
    forall|l: RangeList|
        #![trigger list_of(a, l)]
        match (list_of(a, l), list_of(b, l)) {
            (Some(x), Some(y)) => x.to_multiset() == y.to_multiset(),
            (None, None) => true,
            _ => false,
        }
}

// ---------------------------------------------------------------------------
// From configured ranges to instants
// ---------------------------------------------------------------------------

/// Which end of a range a local time is.
#[derive(Debug, Clone, Copy, PartialEq, Eq, Structural)]
pub enum Boundary {
    Start,
    End,
}

/// Tries after the first at which a reading in a gap is moved one minute on,
/// keeping `boundary`'s choice among two instants.
pub const SHIFT_TRIES: u64 = 180;

/// The instant of the wall-clock reading (`secs`, `nanos`) in `zone`, at the
/// `k`-th try: a single instant is taken; of two, the earliest for a start and
/// the latest for an end; a reading in a gap moves on by a minute. After
/// `SHIFT_TRIES` moves the reading is tried once more, taking the earliest of
/// two; `None` if it still falls in a gap, or the zone or the reading cannot be
/// resolved at all.
pub open spec fn resolve_spec(zone: Seq<char>, secs: int, nanos: u32, boundary: Boundary, k: nat) -> Option<
    Timestamp,
>
    decreases 181 - k,
{
    if secs < i64::MIN || secs > i64::MAX || k > 181 {
        None
    } else {
        match zone_from_local(zone, secs as i64, nanos) {
            None => None,
            Some(LocalResolution::Single(t)) => Some(t),
            Some(LocalResolution::Ambiguous(a, b)) => if k <= 180 && boundary == Boundary::End {
                Some(b)
            } else {
                Some(a)
            },
            Some(LocalResolution::Gap) => if k >= 181 {
                None
            } else {
                resolve_spec(zone, secs + 60, nanos, boundary, k + 1)
            },
        }
    }
}

/// The local reading of `time` on the date `days` days after 1970-01-01, in seconds.
pub open spec fn local_secs(days: int, time: TimeOfDay) -> int {
    days * 86400 + time.secs
}

/// The instant at which `time` falls on the date `days` days after
/// 1970-01-01 in `zone`, as `resolve_spec` describes it.
pub fn resolve_local_datetime(zone: &str, days: i64, time: TimeOfDay, boundary: Boundary) -> (r: Option<
    Timestamp,
>)
    ensures
        r == resolve_spec(zone@, local_secs(days as int, time), time.nanos, boundary, 0),
{
    let wide: i128 = days as i128 * 86400 + time.secs as i128;
    if wide < i64::MIN as i128 || wide > i64::MAX as i128 {
        return None;
    }
    let mut secs: i64 = wide as i64;
    let mut k: u64 = 0;
    loop
        invariant
            k <= 181,
            secs as int == local_secs(days as int, time) + 60 * k,
            resolve_spec(zone@, local_secs(days as int, time), time.nanos, boundary, 0)
                == resolve_spec(zone@, secs as int, time.nanos, boundary, k as nat),
        decreases 181 - k,
    {
        match instants_of(zone, LocalDateTime { secs, nanos: time.nanos }) {
            None => {
                return None;
            },
            Some(LocalResolution::Single(t)) => {
                return Some(t);
            },
            Some(LocalResolution::Ambiguous(a, b)) => {
                if k <= SHIFT_TRIES && boundary == Boundary::End {
                    return Some(b);
                } else {
                    return Some(a);
                }
            },
            Some(LocalResolution::Gap) => {
                if k >= 181 {
                    return None;
                }
                if secs > i64::MAX - 60 {
                    assert(resolve_spec(zone@, secs + 60, time.nanos, boundary, (k + 1) as nat) is None);
                    return None;
                }
                secs = secs + 60;
                k = k + 1;
            },
        }
    }
}

/// A day's awake range as instants: from `start` (inclusive) to `end` (exclusive).
#[derive(Debug, Clone, Copy, PartialEq, Eq, Structural)]
pub struct ResolvedAwakeInterval {
    pub start: Timestamp,
    pub end: Timestamp,
}

pub open spec fn contains_spec(iv: ResolvedAwakeInterval, t: Timestamp) -> bool {
    ts_value(iv.start) <= ts_value(t) < ts_value(iv.end)
}

impl ResolvedAwakeInterval {
    /// Whether `instant` lies in the interval.
    pub fn contains(&self, instant: Timestamp) -> (b: bool)
        ensures
            b == contains_spec(*self, instant),
    {
        !ts_lt(instant, self.start) && ts_lt(instant, self.end)
    }
}

/// The intervals of the first `n` of `ranges` on the date `days`, skipping those
/// that end no later than they start once resolved; `None` if a boundary
/// cannot be resolved.
pub open spec fn intervals_of(zone: Seq<char>, ranges: Seq<AwakeTimeRange>, days: int, n: nat) -> Option<
    Seq<ResolvedAwakeInterval>,
>
    decreases n,
{
    if n == 0 {
        Some(Seq::empty())
    } else {
        match intervals_of(zone, ranges, days, (n - 1) as nat) {
            None => None,
            Some(prev) => {
                let r = ranges[n - 1];
                match (
                    resolve_spec(zone, local_secs(days, r.start), r.start.nanos, Boundary::Start, 0),
                    resolve_spec(zone, local_secs(days, r.end), r.end.nanos, Boundary::End, 0),
                ) {
                    (Some(start), Some(end)) => if ts_value(end) > ts_value(start) {
                        Some(prev.push(ResolvedAwakeInterval { start, end }))
                    } else {
                        Some(prev)
                    },
                    _ => None,
                }
            },
        }
    }
}

/// Why the schedule cannot answer.
#[derive(Debug, Clone, Copy, PartialEq, Eq, Structural)]
pub enum ScheduleError {
    /// The zone is unknown, an instant lies outside the supported range, or a
    /// boundary stays in a daylight-saving gap after every try.
    Unresolvable,
}

/// An awake schedule in a named IANA time zone.
#[derive(Debug, Clone)]
pub struct AwakeScheduleConfig {
    pub timezone: String,
    pub schedule: AwakeScheduleRules,
}

/// The intervals of the date `days` under `rules` in `zone`.
pub open spec fn day_intervals(zone: Seq<char>, rules: AwakeScheduleRules, days: int) -> Option<
    Seq<ResolvedAwakeInterval>,
> {
    let ranges = rules.ranges_for_spec(weekday_of(days));
    intervals_of(zone, ranges, days, ranges.len())
}

/// Whether the frame is awake at `at`: `at` lies in one of the intervals of
/// its local date.
pub open spec fn awake_spec(zone: Seq<char>, rules: AwakeScheduleRules, at: Timestamp) -> Option<bool> {
    match zone_local_time(zone, at.secs, at.nanos) {
        None => None,
        Some(local) => match day_intervals(zone, rules, local.secs as int / 86400) {
            None => None,
            Some(ivs) => Some(exists|i: int| 0 <= i < ivs.len() && contains_spec(ivs[i], at)),
        },
    }
}

/// The first boundary after `from` among the intervals from the `i`-th on: a
/// start later than `from` (waking), else an end later than `from` (sleeping).
pub open spec fn first_boundary(ivs: Seq<ResolvedAwakeInterval>, from: Timestamp, i: int) -> Option<
    (Timestamp, bool),
>
    decreases ivs.len() - i,
{
    if i < 0 || i >= ivs.len() {
        None
    } else if ts_value(ivs[i].start) > ts_value(from) {
        Some((ivs[i].start, true))
    } else if ts_value(ivs[i].end) > ts_value(from) {
        Some((ivs[i].end, false))
    } else {
        first_boundary(ivs, from, i + 1)
    }
}

/// The next transition after `from`, looking at the dates `start_days + offset`
/// up to a week after `start_days`.
pub open spec fn next_spec(
    zone: Seq<char>,
    rules: AwakeScheduleRules,
    from: Timestamp,
    start_days: int,
    offset: nat,
) -> Option<Option<(Timestamp, bool)>>
    decreases 8 - offset,
{
    if offset > 7 {
        Some(None)
    } else {
        match day_intervals(zone, rules, start_days + offset) {
            None => None,
            Some(ivs) => match first_boundary(ivs, from, 0) {
                Some(x) => Some(Some(x)),
                None => next_spec(zone, rules, from, start_days, offset + 1),
            },
        }
    }
}

/// The next transition after `from`, from the local date of `from` on.
pub open spec fn next_transition_spec(zone: Seq<char>, rules: AwakeScheduleRules, from: Timestamp) -> Option<
    Option<(Timestamp, bool)>,
> {
    match zone_local_time(zone, from.secs, from.nanos) {
        None => None,
        Some(local) => next_spec(zone, rules, from, local.secs as int / 86400, 0),
    }
}

impl AwakeScheduleConfig {
    /// Sorts and checks the configured ranges (see `AwakeScheduleRules::validate`).
    pub fn validate(&mut self) -> (r: Result<(), RangeList>)
        ensures
            validated(&old(self).schedule, &final(self).schedule, r),
            r matches Err(l) ==> list_of(&final(self).schedule, l) matches Some(v) && sorted_by_start(v)
                && !non_overlapping(v),
            r is Ok ==> self_valid(&final(self).schedule),
            r is Ok ==> same_ranges(&old(self).schedule, &final(self).schedule),
            final(self).timezone == old(self).timezone,
    {
        self.schedule.validate()
    }

    /// The IANA name of the schedule's time zone.
    pub fn timezone(&self) -> (r: &str)
        ensures
            r@ == self.timezone@,
    {
        self.timezone.as_str()
    }

    /// The intervals of the date `days` days after 1970-01-01.
    pub fn intervals_for_date(&self, days: i64) -> (r: Option<Vec<ResolvedAwakeInterval>>)
        ensures
            match day_intervals(self.timezone@, self.schedule, days as int) {
                Some(ivs) => r matches Some(v) && v@ == ivs,
                None => r is None,
            },
    {
        let weekday = weekday_from_days(days);
        let ranges = self.schedule.resolved_ranges_for(weekday);
        let zone = self.timezone.as_str();
        let mut out: Vec<ResolvedAwakeInterval> = Vec::new();
        let mut i: usize = 0;
        while i < ranges.len()
            invariant
                0 <= i <= ranges@.len(),
                ranges@ == self.schedule.ranges_for_spec(weekday_of(days as int)),
                zone@ == self.timezone@,
                intervals_of(zone@, ranges@, days as int, i as nat) == Some(out@),
            decreases ranges.len() - i,
        {
            let range = ranges[i];
            let start = match resolve_local_datetime(zone, days, range.start, Boundary::Start) {
                Some(t) => t,
                None => {
                    proof {
                        lemma_intervals_none_stays(zone@, ranges@, days as int, (i + 1) as nat, ranges@.len());
                    }
                    return None;
                },
            };
            let end = match resolve_local_datetime(zone, days, range.end, Boundary::End) {
                Some(t) => t,
                None => {
                    proof {
                        lemma_intervals_none_stays(zone@, ranges@, days as int, (i + 1) as nat, ranges@.len());
                    }
                    return None;
                },
            };
            if ts_lt(start, end) {
                out.push(ResolvedAwakeInterval { start, end });
            }
            i = i + 1;
        }
        Some(out)
    }

    /// Whether the frame should be awake at `instant`; an error where a
    /// boundary of that date cannot be resolved.
    pub fn is_awake_at(&self, instant: Timestamp) -> (r: Result<bool, ScheduleError>)
        ensures
            match awake_spec(self.timezone@, self.schedule, instant) {
                Some(b) => r == Ok::<bool, ScheduleError>(b),
                None => r == Err::<bool, ScheduleError>(ScheduleError::Unresolvable),
            },
    {
        let local = match local_reading(self.timezone.as_str(), instant) {
            Some(l) => l,
            None => {
                return Err(ScheduleError::Unresolvable);
            },
        };
        let (days, _) = floor_div_mod(local.secs, 86400);
        let intervals = match self.intervals_for_date(days) {
            Some(v) => v,
            None => {
                return Err(ScheduleError::Unresolvable);
            },
        };
        let ghost answer = exists|j: int| 0 <= j < intervals@.len() && contains_spec(intervals@[j], instant);
        assert(awake_spec(self.timezone@, self.schedule, instant) == Some(answer));
        let mut i: usize = 0;
        while i < intervals.len()
            invariant
                0 <= i <= intervals@.len(),
                forall|j: int| 0 <= j < i ==> !contains_spec(intervals@[j], instant),
                awake_spec(self.timezone@, self.schedule, instant) == Some(answer),
                answer == exists|j: int| 0 <= j < intervals@.len() && contains_spec(intervals@[j], instant),
            decreases intervals.len() - i,
        {
            if intervals[i].contains(instant) {
                assert(contains_spec(intervals@[i as int], instant));
                return Ok(true);
            }
            i = i + 1;
        }
        Ok(false)
    }

    /// The next time after `from` at which the schedule wakes (`true`) or
    /// sleeps (`false`), looking up to a week ahead of `from`'s local date;
    /// `None` when nothing changes in that time.
    pub fn next_transition_after(&self, from: Timestamp) -> (r: Result<
        Option<(Timestamp, bool)>,
        ScheduleError,
    >)
        ensures
            match next_transition_spec(self.timezone@, self.schedule, from) {
                Some(x) => r == Ok::<Option<(Timestamp, bool)>, ScheduleError>(x),
                None => r == Err::<Option<(Timestamp, bool)>, ScheduleError>(
                    ScheduleError::Unresolvable,
                ),
            },
    {
        let local = match local_reading(self.timezone.as_str(), from) {
            Some(l) => l,
            None => {
                return Err(ScheduleError::Unresolvable);
            },
        };
        let (start_days, rem) = floor_div_mod(local.secs, 86400);
        assert(-0x1_0000_0000_0000 < start_days < 0x1_0000_0000_0000) by (nonlinear_arith)
            requires
                local.secs as int == start_days * 86400 + rem,
                0 <= rem < 86400,
                i64::MIN <= local.secs <= i64::MAX,
        ;
        let mut offset: i64 = 0;
        while offset <= 7
            invariant
                0 <= offset <= 8,
                -0x1_0000_0000_0000 < start_days < 0x1_0000_0000_0000,
                start_days as int == local.secs as int / 86400,
                zone_local_time(self.timezone@, from.secs, from.nanos) == Some(local),
                next_transition_spec(self.timezone@, self.schedule, from) == next_spec(
                    self.timezone@,
                    self.schedule,
                    from,
                    start_days as int,
                    offset as nat,
                ),
            decreases 8 - offset,
        {
            let intervals = match self.intervals_for_date(start_days + offset) {
                Some(v) => v,
                None => {
                    return Err(ScheduleError::Unresolvable);
                },
            };
            let mut i: usize = 0;
            while i < intervals.len()
                invariant
                    0 <= i <= intervals@.len(),
                    0 <= offset <= 7,
                    first_boundary(intervals@, from, 0) == first_boundary(intervals@, from, i as int),
                    day_intervals(self.timezone@, self.schedule, start_days + offset) == Some(intervals@),
                    next_transition_spec(self.timezone@, self.schedule, from) == next_spec(
                        self.timezone@,
                        self.schedule,
                        from,
                        start_days as int,
                        offset as nat,
                    ),
                decreases intervals.len() - i,
            {
                let iv = intervals[i];
                if ts_lt(from, iv.start) {
                    assert(first_boundary(intervals@, from, i as int) == Some((iv.start, true)));
                    return Ok(Some((iv.start, true)));
                }
                if ts_lt(from, iv.end) {
                    assert(first_boundary(intervals@, from, i as int) == Some((iv.end, false)));
                    return Ok(Some((iv.end, false)));
                }
                i = i + 1;
            }
            offset = offset + 1;
        }
        Ok(None)
    }
}

proof fn lemma_intervals_none_stays(zone: Seq<char>, ranges: Seq<AwakeTimeRange>, days: int, n: nat, m: nat)
    requires
        intervals_of(zone, ranges, days, n) is None,
        n <= m,
    ensures
        intervals_of(zone, ranges, days, m) is None,
    decreases m - n,
{
    if n < m {
        lemma_intervals_none_stays(zone, ranges, days, n, (m - 1) as nat);
    }
}

proof fn lemma_first_boundary_after(ivs: Seq<ResolvedAwakeInterval>, from: Timestamp, i: int)
    ensures
        first_boundary(ivs, from, i) matches Some(x) ==> ts_value(x.0) > ts_value(from),
    decreases ivs.len() - i,
{
    if 0 <= i < ivs.len() {
        lemma_first_boundary_after(ivs, from, i + 1);
    }
}

proof fn lemma_next_spec_after(
    zone: Seq<char>,
    rules: AwakeScheduleRules,
    from: Timestamp,
    start_days: int,
    offset: nat,
)
    ensures
        next_spec(zone, rules, from, start_days, offset) matches Some(Some(x)) ==> ts_value(x.0)
            > ts_value(from),
    decreases 8 - offset,
{
    if offset <= 7 {
        match day_intervals(zone, rules, start_days + offset) {
            Some(ivs) => {
                lemma_first_boundary_after(ivs, from, 0);
                lemma_next_spec_after(zone, rules, from, start_days, offset + 1);
            },
            None => {},
        }
    }
}

/// A transition is always reported strictly after the instant asked about.
pub proof fn lemma_transition_is_later(zone: Seq<char>, rules: AwakeScheduleRules, from: Timestamp)
    ensures
        next_transition_spec(zone, rules, from) matches Some(Some(x)) ==> ts_value(x.0) > ts_value(
            from,
        ),
{
    match zone_local_time(zone, from.secs, from.nanos) {
        Some(local) => lemma_next_spec_after(zone, rules, from, local.secs as int / 86400, 0),
        None => {},
    }
}

/// Every resolved awake interval is non-empty: it ends after it starts.
pub proof fn lemma_intervals_nonempty(zone: Seq<char>, ranges: Seq<AwakeTimeRange>, days: int, n: nat)
    requires
        n <= ranges.len(),
    ensures
        intervals_of(zone, ranges, days, n) matches Some(ivs) ==> forall|i: int|
            0 <= i < ivs.len() ==> ts_value(ivs[i].start) < ts_value(ivs[i].end),
        intervals_of(zone, ranges, days, n) matches Some(ivs) ==> ivs.len() <= n,
    decreases n,
{
    if n > 0 {
        lemma_intervals_nonempty(zone, ranges, days, (n - 1) as nat);
    }
}

/// Which list is in force on each day: the day's own list when configured;
/// otherwise the weekend list on Saturday and Sunday and the weekdays list
/// on Monday to Friday, each falling back to the daily list.
pub proof fn lemma_lists_in_force(rules: AwakeScheduleRules)
    ensures
        rules.ranges_for_spec(Weekday::Mon) == match rules.monday {
            Some(v) => v@,
            None => match rules.weekdays {
                Some(g) => g@,
                None => rules.daily@,
            },
        },
        rules.ranges_for_spec(Weekday::Tue) == match rules.tuesday {
            Some(v) => v@,
            None => match rules.weekdays {
                Some(g) => g@,
                None => rules.daily@,
            },
        },
        rules.ranges_for_spec(Weekday::Wed) == match rules.wednesday {
            Some(v) => v@,
            None => match rules.weekdays {
                Some(g) => g@,
                None => rules.daily@,
            },
        },
        rules.ranges_for_spec(Weekday::Thu) == match rules.thursday {
            Some(v) => v@,
            None => match rules.weekdays {
                Some(g) => g@,
                None => rules.daily@,
            },
        },
        rules.ranges_for_spec(Weekday::Fri) == match rules.friday {
            Some(v) => v@,
            None => match rules.weekdays {
                Some(g) => g@,
                None => rules.daily@,
            },
        },
        rules.ranges_for_spec(Weekday::Sat) == match rules.saturday {
            Some(v) => v@,
            None => match rules.weekend {
                Some(g) => g@,
                None => rules.daily@,
            },
        },
        rules.ranges_for_spec(Weekday::Sun) == match rules.sunday {
            Some(v) => v@,
            None => match rules.weekend {
                Some(g) => g@,
                None => rules.daily@,
            },
        },
{
}

} // verus!
