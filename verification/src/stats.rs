use std::collections::HashMap;

use vstd::prelude::*;

verus! {

broadcast use vstd::std_specs::hash::group_hash_axioms;

// ---------------------------------------------------------------------------
// Calendar days
// ---------------------------------------------------------------------------

/// A calendar day of the proleptic Gregorian calendar.
#[derive(Debug, Clone, Copy, PartialEq, Eq, Hash, Structural)]
pub struct DayKey {
    pub year: u16,
    pub month: u8,
    pub day: u8,
}

/// Gregorian leap years: divisible by 4, and not by 100 unless by 400.
pub open spec fn is_leap_year_spec(year: int) -> bool {
    year % 4 == 0 && (year % 100 != 0 || year % 400 == 0)
}

/// The number of days of `month` in `year`, for a month from 1 to 12.
pub open spec fn month_len(year: int, month: int) -> int {
    if month == 2 {
        if is_leap_year_spec(year) {
            29
        } else {
            28
        }
    } else if month == 4 || month == 6 || month == 9 || month == 11 {
        30
    } else {
        31
    }
}

/// The number of days of `year`.
pub open spec fn year_len(year: int) -> int {
    if is_leap_year_spec(year) {
        366
    } else {
        365
    }
}

/// The number of days from the first day of year 0 to the first day of
/// `year`.
pub open spec fn days_before_year(year: nat) -> nat
    decreases year,
{
    if year == 0 {
        0
    } else {
        days_before_year((year - 1) as nat) + year_len(year - 1) as nat
    }
}

/// The number of days from the first day of `year` to the first day of
/// `month` in it.
pub open spec fn days_before_month(year: int, month: nat) -> nat
    decreases month,
{
    if month <= 1 {
        0
    } else {
        days_before_month(year, (month - 1) as nat) + month_len(year, month - 1) as nat
    }
}

/// A real calendar day: a month from 1 to 12 and a day within its month.
pub open spec fn is_valid_day(d: DayKey) -> bool {
    &&& 1 <= d.month <= 12
    &&& 1 <= d.day <= month_len(d.year as int, d.month as int)
}

/// The position of `d` in the sequence of all days, counted from the first
/// day of year 0.
pub open spec fn ordinal(d: DayKey) -> int {
    days_before_year(d.year as nat) + days_before_month(d.year as int, d.month as nat) + d.day - 1
}

/// The number of days of `month` in `year`, or `None` for a month outside 1
/// to 12.
pub open spec fn days_in_month_spec(year: u16, month: u8) -> Option<u8> {
    if 1 <= month <= 12 {
        Some(month_len(year as int, month as int) as u8)
    } else {
        None
    }
}

/// The day before `d` as `DayKey::previous_day` computes it: `None` for a
/// month outside 1 to 12 and before the first day of year 0.
pub open spec fn previous_day_spec(d: DayKey) -> Option<DayKey> {
    if !(1 <= d.month <= 12) {
        None
    } else if d.day > 1 {
        Some(DayKey { year: d.year, month: d.month, day: (d.day - 1) as u8 })
    } else if d.month > 1 {
        Some(
            DayKey {
                year: d.year,
                month: (d.month - 1) as u8,
                day: month_len(d.year as int, d.month - 1) as u8,
            },
        )
    } else if d.year == 0 {
        None
    } else {
        Some(DayKey { year: (d.year - 1) as u16, month: 12, day: 31 })
    }
}

/// A measure that every step to the previous day lowers.
pub open spec fn day_measure(d: DayKey) -> nat {
    (d.year * 416 + d.month * 32 + d.day) as nat
}

/// Tests for a Gregorian leap year.
pub fn is_leap_year(year: u16) -> (leap: bool)
    ensures
        leap == is_leap_year_spec(year as int),
{
    year % 4 == 0 && (year % 100 != 0 || year % 400 == 0)
}

fn days_in_month(year: u16, month: u8) -> (n: Option<u8>)
    ensures
        n == days_in_month_spec(year, month),
{
    match month {
        1 | 3 | 5 | 7 | 8 | 10 | 12 => Some(31),
        4 | 6 | 9 | 11 => Some(30),
        2 => {
            if is_leap_year(year) {
                Some(29)
            } else {
                Some(28)
            }
        },
        _ => None,
    }
}

impl DayKey {
    /// The day with the given year, month and day of the month.
    pub fn new(year: u16, month: u8, day: u8) -> (d: Self)
        ensures
            d.year == year,
            d.month == month,
            d.day == day,
    {
        DayKey { year, month, day }
    }

    /// The day before this one: the previous day of the month, the last day
    /// of the previous month, or the 31st of December of the previous year.
    /// `None` for a month outside 1 to 12, or for the first day of year 0.
    pub fn previous_day(self) -> (p: Option<DayKey>)
        ensures
            p == previous_day_spec(self),
    {
        if days_in_month(self.year, self.month).is_none() {
            return None;
        }
        if self.day > 1 {
            return Some(DayKey { year: self.year, month: self.month, day: self.day - 1 });
        }
        if self.month > 1 {
            let previous_month: u8 = self.month - 1;
            match days_in_month(self.year, previous_month) {
                Some(previous_month_days) => {
                    return Some(
                        DayKey { year: self.year, month: previous_month, day: previous_month_days },
                    );
                },
                None => {
                    return None;
                },
            }
        }
        if self.year == 0 {
            return None;
        }
        Some(DayKey { year: self.year - 1, month: 12, day: 31 })
    }
}

/// Every step to the previous day lowers `day_measure`.
pub proof fn lemma_previous_day_decreases(d: DayKey)
    ensures
        previous_day_spec(d) matches Some(p) ==> day_measure(p) < day_measure(d),
{
}

proof fn lemma_days_before_month_12(year: int)
    ensures
        days_before_month(year, 12) + 31 == year_len(year),
{
    reveal_with_fuel(days_before_month, 12);
}

/// Going to the previous day of a real calendar day gives a real calendar
/// day, exactly one day earlier; only the first day of year 0 has none.
pub proof fn lemma_previous_day_is_one_day_earlier(d: DayKey)
    requires
        is_valid_day(d),
        !(d.year == 0 && d.month == 1 && d.day == 1),
    ensures
        previous_day_spec(d) matches Some(p) && is_valid_day(p) && ordinal(p) == ordinal(d) - 1,
{
    if d.day > 1 {
    } else if d.month > 1 {
        assert(days_before_month(d.year as int, d.month as nat) == days_before_month(
            d.year as int,
            (d.month - 1) as nat,
        ) + month_len(d.year as int, d.month - 1));
    } else {
        let y: int = d.year as int;
        lemma_days_before_month_12(y - 1);
        assert(days_before_year(d.year as nat) == days_before_year((d.year - 1) as nat) + year_len(
            y - 1,
        ));
        assert(days_before_month(y, 1) == 0);
    }
}

proof fn lemma_days_before_year_grows(a: nat, b: nat)
    requires
        a < b,
    ensures
        days_before_year(a) + year_len(a as int) <= days_before_year(b),
    decreases b - a,
{
    if a + 1 < b {
        lemma_days_before_year_grows(a, (b - 1) as nat);
    }
}

proof fn lemma_days_before_month_grows(year: int, a: nat, b: nat)
    requires
        1 <= a < b <= 12,
    ensures
        days_before_month(year, a) + month_len(year, a as int) <= days_before_month(year, b),
    decreases b - a,
{
    if a + 1 < b {
        lemma_days_before_month_grows(year, a, (b - 1) as nat);
    }
}

/// A real calendar day lies within its year.
proof fn lemma_day_within_year(d: DayKey)
    requires
        is_valid_day(d),
    ensures
        days_before_month(d.year as int, d.month as nat) + d.day - 1 < year_len(d.year as int),
{
    lemma_days_before_month_12(d.year as int);
    if d.month < 12 {
        lemma_days_before_month_grows(d.year as int, d.month as nat, 12);
    }
}

/// Two real calendar days at the same position are the same day.
pub proof fn lemma_ordinal_injective(a: DayKey, b: DayKey)
    requires
        is_valid_day(a),
        is_valid_day(b),
        ordinal(a) == ordinal(b),
    ensures
        a == b,
{
    lemma_day_within_year(a);
    lemma_day_within_year(b);
    if a.year < b.year {
        lemma_days_before_year_grows(a.year as nat, b.year as nat);
    } else if b.year < a.year {
        lemma_days_before_year_grows(b.year as nat, a.year as nat);
    } else if a.month < b.month {
        lemma_days_before_month_grows(a.year as int, a.month as nat, b.month as nat);
    } else if b.month < a.month {
        lemma_days_before_month_grows(a.year as int, b.month as nat, a.month as nat);
    }
}

/// The Gregorian leap-year rule, over every cycle: in each block of 400
/// years the first year is a leap year and the other three century years
/// are not; among the other years, exactly every fourth one is.
pub proof fn lemma_leap_year_rule(k: int)
    requires
        k >= 0,
    ensures
        is_leap_year_spec(400 * k),
        !is_leap_year_spec(400 * k + 100),
        !is_leap_year_spec(400 * k + 200),
        !is_leap_year_spec(400 * k + 300),
        !is_leap_year_spec(4 * k + 1),
        !is_leap_year_spec(4 * k + 2),
        !is_leap_year_spec(4 * k + 3),
        (4 * k) % 100 != 0 ==> is_leap_year_spec(4 * k),
        year_len(400 * k) == 366 && year_len(400 * k + 100) == 365,
{
    assert((400 * k) % 400 == 0 && (400 * k) % 4 == 0) by (nonlinear_arith)
        requires
            k >= 0,
    ;
    assert(forall|r: int|
        100 <= r <= 300 && r % 100 == 0 ==> #[trigger] ((400 * k + r) % 400) == r && (400 * k + r)
            % 100 == 0 && (400 * k + r) % 4 == 0) by (nonlinear_arith)
        requires
            k >= 0,
    ;
    assert((400 * k + 100) % 400 == 100 && (400 * k + 200) % 400 == 200 && (400 * k + 300) % 400
        == 300);
    assert(forall|r: int| 1 <= r <= 3 ==> #[trigger] ((4 * k + r) % 4) == r) by (nonlinear_arith)
        requires
            k >= 0,
    ;
    assert((4 * k + 1) % 4 == 1 && (4 * k + 2) % 4 == 2 && (4 * k + 3) % 4 == 3);
    assert((4 * k) % 4 == 0) by (nonlinear_arith)
        requires
            k >= 0,
    ;
}

/// The number of days before the first of each month in a common year, as
/// the Gregorian calendar's day-of-year table gives them.
pub open spec fn common_year_days_before(month: int) -> int {
    seq![0int, 31, 59, 90, 120, 151, 181, 212, 243, 273, 304, 334][month - 1]
}

/// The calendar's months: the days before the first of each month are the
/// Gregorian table's, one more from March on in a leap year; so January,
/// March, May, July, August, October and December have 31 days, April,
/// June, September and November 30, and February 28 or 29.
pub proof fn lemma_days_before_month_table(year: int, month: int)
    requires
        1 <= month <= 12,
    ensures
        days_before_month(year, month as nat) == common_year_days_before(month) + (if month > 2
            && is_leap_year_spec(year) {
            1int
        } else {
            0int
        }),
        month_len(year, month) == (if month < 12 {
            common_year_days_before(month + 1)
        } else {
            365
        }) - common_year_days_before(month) + (if month == 2 && is_leap_year_spec(year) {
            1int
        } else {
            0int
        }),
{
    reveal_with_fuel(days_before_month, 13);
}

/// The day before the first of a month is the last day of the month
/// before, as long as the table makes it: 1 October follows 30 September,
/// 1 March follows 28 or 29 February, 1 January follows 31 December of the
/// year before; and a month never has a day past its last.
pub proof fn lemma_first_of_month_follows_last_of_previous(year: u16, month: u8)
    requires
        1 <= month <= 12,
        !(year == 0 && month == 1),
    ensures
        previous_day_spec(DayKey { year, month, day: 1 }) == Some(
            if month == 1 {
                DayKey { year: (year - 1) as u16, month: 12, day: 31 }
            } else {
                DayKey {
                    year,
                    month: (month - 1) as u8,
                    day: (common_year_days_before(month as int) - common_year_days_before(
                        month - 1,
                    ) + (if month == 3 && is_leap_year_spec(year as int) {
                        1int
                    } else {
                        0int
                    })) as u8,
                }
            },
        ),
        !is_valid_day(
            DayKey {
                year,
                month,
                day: (month_len(year as int, month as int) + 1) as u8,
            },
        ),
{
    if month > 1 {
        lemma_days_before_month_table(year as int, month - 1);
    }
}

/// `a` comes before `b` in (year, month, day) order.
pub open spec fn day_precedes(a: DayKey, b: DayKey) -> bool {
    ||| a.year < b.year
    ||| a.year == b.year && a.month < b.month
    ||| a.year == b.year && a.month == b.month && a.day < b.day
}

/// Of two real calendar days, the one that comes first in (year, month,
/// day) order has the smaller position.
pub proof fn lemma_precedes_has_smaller_ordinal(a: DayKey, b: DayKey)
    requires
        is_valid_day(a),
        is_valid_day(b),
        day_precedes(a, b),
    ensures
        ordinal(a) < ordinal(b),
{
    lemma_day_within_year(a);
    if a.year < b.year {
        lemma_days_before_year_grows(a.year as nat, b.year as nat);
    } else if a.month < b.month {
        lemma_days_before_month_grows(a.year as int, a.month as nat, b.month as nat);
    }
}

/// The day before a real calendar day (other than the first day of year 0)
/// is the latest real day that comes before it: it comes before `d`, and
/// no real day lies strictly between the two.
pub proof fn lemma_no_day_between(d: DayKey, e: DayKey)
    requires
        is_valid_day(d),
        !(d.year == 0 && d.month == 1 && d.day == 1),
        is_valid_day(e),
    ensures
        previous_day_spec(d) matches Some(p) && is_valid_day(p) && day_precedes(p, d) && !(
        day_precedes(p, e) && day_precedes(e, d)),
{
    lemma_previous_day_is_one_day_earlier(d);
    let p = previous_day_spec(d)->0;
    if !day_precedes(p, d) {
        if p != d {
            lemma_precedes_has_smaller_ordinal(d, p);
        }
    }
    if day_precedes(p, e) && day_precedes(e, d) {
        lemma_precedes_has_smaller_ordinal(p, e);
        lemma_precedes_has_smaller_ordinal(e, d);
    }
}

/// Of two real calendar days one position apart, the earlier is the day
/// before the later: the days the clock gives on consecutive dates are the
/// ones the streak walks back through.
pub proof fn lemma_next_day_steps_back(earlier: DayKey, later: DayKey)
    requires
        is_valid_day(earlier),
        is_valid_day(later),
        ordinal(later) == ordinal(earlier) + 1,
    ensures
        previous_day_spec(later) == Some(earlier),
{
    assert(ordinal(earlier) >= 0);
    if later.year == 0 && later.month == 1 && later.day == 1 {
        assert(ordinal(later) == 0);
    }
    lemma_previous_day_is_one_day_earlier(later);
    let p = previous_day_spec(later)->0;
    lemma_ordinal_injective(p, earlier);
}

// ---------------------------------------------------------------------------
// Days since the Unix epoch
// ---------------------------------------------------------------------------

/// 1970-01-01.
pub open spec fn epoch_day() -> DayKey {
    DayKey { year: 1970, month: 1, day: 1 }
}

/// The number of days from 1970-01-01 to 1 January of year 65536, the first
/// day whose year a `DayKey` cannot hold.
pub open spec fn epoch_days_limit() -> int {
    days_before_year(65536) - days_before_year(1970)
}

fn year_length(year: u16) -> (n: u64)
    ensures
        n == year_len(year as int),
{
    if is_leap_year(year) {
        366
    } else {
        365
    }
}

fn month_length(year: u16, month: u8) -> (n: u64)
    requires
        1 <= month <= 12,
    ensures
        n == month_len(year as int, month as int),
{
    match days_in_month(year, month) {
        Some(n) => n as u64,
        None => 31,
    }
}

impl DayKey {
    /// The calendar day that is `days` days after 1970-01-01, or `None` when
    /// its year would not fit in a `u16`.
    pub fn from_days_since_epoch(days: u64) -> (d: Option<DayKey>)
        ensures
            d is None <==> days >= epoch_days_limit(),
            d matches Some(k) ==> is_valid_day(k) && ordinal(k) == ordinal(epoch_day()) + days,
    {
        let mut year: u16 = 1970;
        let mut remaining: u64 = days;
        while remaining >= year_length(year)
            invariant
                1970 <= year,
                remaining <= days,
                days_before_year(year as nat) + remaining == days_before_year(1970) + days,
            decreases remaining,
        {
            if year == u16::MAX {
                proof {
                    assert(days_before_year(65536) == days_before_year(65535) + year_len(65535));
                }
                return None;
            }
            let len: u64 = year_length(year);
            remaining = remaining - len;
            year = year + 1;
        }
        let mut month: u8 = 1;
        proof {
            reveal_with_fuel(days_before_month, 2);
        }
        while remaining >= month_length(year, month)
            invariant
                1 <= month <= 12,
                remaining < year_len(year as int) - days_before_month(year as int, month as nat),
                days_before_year(year as nat) + days_before_month(year as int, month as nat)
                    + remaining == days_before_year(1970) + days,
            decreases 12 - month,
        {
            let len: u64 = month_length(year, month);
            proof {
                if month == 12 {
                    lemma_days_before_month_12(year as int);
                }
                assert(days_before_month(year as int, (month + 1) as nat) == days_before_month(
                    year as int,
                    month as nat,
                ) + month_len(year as int, month as int));
            }
            remaining = remaining - len;
            month = month + 1;
        }
        let d = DayKey { year, month, day: (remaining + 1) as u8 };
        proof {
            lemma_day_within_year(d);
            if year < 65535 {
                lemma_days_before_year_grows(year as nat, 65536);
            } else {
                assert(days_before_year(65536) == days_before_year(65535) + year_len(65535));
            }
        }
        Some(d)
    }
}

// ---------------------------------------------------------------------------
// Dictation statistics
// ---------------------------------------------------------------------------

/// The words and dictations of one day.
#[derive(Debug, Clone, Copy, PartialEq, Eq, Structural)]
pub struct DayStats {
    pub words: u64,
    pub dictations: u64,
}

impl Default for DayStats {
    fn default() -> (s: Self)
        ensures
            s.words == 0,
            s.dictations == 0,
    {
        DayStats { words: 0, dictations: 0 }
    }
}

/// The key under which the statistics of a day are kept: year, month and day
/// packed into one number.
pub open spec fn day_index(d: DayKey) -> u32 {
    (d.year as int * 65536 + d.month as int * 256 + d.day as int) as u32
}

impl DayKey {
    /// The number under which this day's statistics are kept.
    pub fn index(self) -> (k: u32)
        ensures
            k == day_index(self),
    {
        self.year as u32 * 65536 + self.month as u32 * 256 + self.day as u32
    }

    /// The day that `index` stands for.
    pub fn from_index(k: u32) -> (d: DayKey)
        ensures
            day_index(d) == k,
    {
        let d = DayKey { year: (k / 65536) as u16, month: ((k / 256) % 256) as u8, day: (k % 256) as u8 };
        proof {
            assert(k == (k / 65536) * 65536 + ((k / 256) % 256) * 256 + k % 256) by (nonlinear_arith);
        }
        d
    }
}

/// Two days are the same day exactly when their keys are equal.
pub proof fn lemma_day_index_injective(a: DayKey, b: DayKey)
    ensures
        day_index(a) == day_index(b) <==> a == b,
{
}

/// Running totals of dictation, and the words and dictations of every day.
#[derive(Debug)]
pub struct DictationStats {
    total_words: u64,
    total_dictations: u64,
    total_recording_ms: u64,
    daily_activity: HashMap<u32, DayStats>,
}

/// The statistics recorded for `day` in `daily`, zero when there are none.
pub open spec fn day_stats_of(daily: Map<u32, DayStats>, day: DayKey) -> DayStats {
    if daily.contains_key(day_index(day)) {
        daily[day_index(day)]
    } else {
        DayStats { words: 0, dictations: 0 }
    }
}

/// `a + b`, or `u64::MAX` when the sum does not fit.
pub open spec fn sat_add(a: u64, b: u64) -> u64 {
    if a + b <= u64::MAX {
        (a + b) as u64
    } else {
        u64::MAX
    }
}

/// Totals saturate: adding never makes a total smaller than either part,
/// is exact while the sum fits in a `u64`, and stays at `u64::MAX` beyond.
pub proof fn lemma_totals_saturate(a: u64, b: u64)
    ensures
        sat_add(a, b) >= a && sat_add(a, b) >= b,
        a + b <= u64::MAX ==> sat_add(a, b) == a + b,
        a + b > u64::MAX ==> sat_add(a, b) == u64::MAX,
        sat_add(a, b) == sat_add(b, a),
{
}

/// At least one dictation was recorded on `day`.
pub open spec fn is_active(daily: Map<u32, DayStats>, day: DayKey) -> bool {
    day_stats_of(daily, day).dictations > 0
}

/// The number of active days in a row just before `day`.
pub open spec fn active_days_before(daily: Map<u32, DayStats>, day: DayKey) -> nat
    decreases day_measure(day),
{
    match previous_day_spec(day) {
        Some(p) => if is_active(daily, p) {
            1 + active_days_before(daily, p)
        } else {
            0
        },
        None => 0,
    }
}

/// The number of active days in a row that end with `today`: zero when
/// nothing was recorded today.
pub open spec fn streak_spec(daily: Map<u32, DayStats>, today: DayKey) -> nat {
    if is_active(daily, today) {
        1 + active_days_before(daily, today)
    } else {
        0
    }
}

/// A streak grows by one each consecutive active day: when `day` is active
/// and the day before it is active too, the streak ending on `day` is one
/// longer than the streak ending the day before.
pub proof fn lemma_streak_extends(daily: Map<u32, DayStats>, day: DayKey, before: DayKey)
    requires
        previous_day_spec(day) == Some(before),
        is_active(daily, day),
        is_active(daily, before),
    ensures
        streak_spec(daily, day) == streak_spec(daily, before) + 1,
{
}

/// A day without dictations breaks the streak: when `day` is active and
/// the day before it is not (or there is none), the streak is one.
pub proof fn lemma_gap_resets_streak(daily: Map<u32, DayStats>, day: DayKey)
    requires
        is_active(daily, day),
        match previous_day_spec(day) {
            Some(before) => !is_active(daily, before),
            None => true,
        },
    ensures
        streak_spec(daily, day) == 1,
{
}

/// A day without dictations has no streak.
pub proof fn lemma_inactive_day_has_no_streak(daily: Map<u32, DayStats>, day: DayKey)
    requires
        !is_active(daily, day),
    ensures
        streak_spec(daily, day) == 0,
{
}

proof fn lemma_active_days_before_bound(daily: Map<u32, DayStats>, day: DayKey)
    ensures
        active_days_before(daily, day) <= day_measure(day),
    decreases day_measure(day),
{
    if let Some(p) = previous_day_spec(day) {
        if is_active(daily, p) {
            lemma_active_days_before_bound(daily, p);
        }
    }
}

/// The keys of the days on which at least one dictation was recorded.
pub open spec fn active_keys(daily: Map<u32, DayStats>) -> Set<u32> {
    daily.dom().filter(|k: u32| daily[k].dictations > 0)
}

/// The day `k` steps before `d`, counting back one day at a time; `None`
/// once there is no earlier day.
pub open spec fn day_steps_before(d: DayKey, k: nat) -> Option<DayKey>
    decreases k,
{
    if k == 0 {
        Some(d)
    } else {
        match previous_day_spec(d) {
            Some(p) => day_steps_before(p, (k - 1) as nat),
            None => None,
        }
    }
}

/// The keys of the active days in a row just before `day`.
spec fn run_keys_before(daily: Map<u32, DayStats>, day: DayKey) -> Set<u32>
    decreases day_measure(day),
{
    match previous_day_spec(day) {
        Some(p) => if is_active(daily, p) {
            run_keys_before(daily, p).insert(day_index(p))
        } else {
            Set::empty()
        },
        None => Set::empty(),
    }
}

proof fn lemma_run_keys_before(daily: Map<u32, DayStats>, day: DayKey)
    ensures
        run_keys_before(daily, day).finite(),
        run_keys_before(daily, day).len() == active_days_before(daily, day),
        run_keys_before(daily, day).subset_of(active_keys(daily)),
        forall|d: DayKey| #[trigger]
            run_keys_before(daily, day).contains(day_index(d)) ==> day_measure(d) < day_measure(day),
    decreases day_measure(day),
{
    lemma_previous_day_decreases(day);
    if let Some(p) = previous_day_spec(day) {
        if is_active(daily, p) {
            lemma_run_keys_before(daily, p);
            let r = run_keys_before(daily, p);
            assert(!r.contains(day_index(p)));
            assert forall|d: DayKey| #[trigger]
                run_keys_before(daily, day).contains(day_index(d)) implies day_measure(d)
                < day_measure(day) by {
                lemma_day_index_injective(d, p);
                if day_index(d) != day_index(p) {
                    assert(r.contains(day_index(d)));
                }
            }
            assert(active_keys(daily).contains(day_index(p)));
        }
    }
}

/// A streak never counts more days than there are days with dictations.
pub proof fn lemma_streak_at_most_active_days(daily: Map<u32, DayStats>, today: DayKey)
    requires
        daily.dom().finite(),
    ensures
        streak_spec(daily, today) <= active_keys(daily).len(),
{
    lemma_run_keys_before(daily, today);
    daily.dom().lemma_len_filter(|k: u32| daily[k].dictations > 0);
    if is_active(daily, today) {
        let r = run_keys_before(daily, today);
        assert(!r.contains(day_index(today)));
        assert(active_keys(daily).contains(day_index(today)));
        vstd::set_lib::lemma_len_subset(r.insert(day_index(today)), active_keys(daily));
    }
}

/// The streak is the longest run of active days ending with `today`: each
/// of the `streak` days counted back from `today` is active, and the day
/// after the run (counting back) is inactive or does not exist.
pub proof fn lemma_streak_is_longest_run(daily: Map<u32, DayStats>, today: DayKey)
    ensures
        forall|k: nat| #![trigger day_steps_before(today, k)]
            k < streak_spec(daily, today) ==> (day_steps_before(today, k) matches Some(d)
                && is_active(daily, d)),
        match day_steps_before(today, streak_spec(daily, today)) {
            Some(d) => !is_active(daily, d),
            None => true,
        },
    decreases day_measure(today),
{
    lemma_previous_day_decreases(today);
    if is_active(daily, today) {
        match previous_day_spec(today) {
            Some(p) => {
                lemma_streak_is_longest_run(daily, p);
                assert(streak_spec(daily, today) == 1 + streak_spec(daily, p));
                assert forall|k: nat| #![trigger day_steps_before(today, k)]
                    k < streak_spec(daily, today) implies (day_steps_before(
                    today,
                    k,
                ) matches Some(d) && is_active(daily, d)) by {
                    if k > 0 {
                        assert(day_steps_before(today, k) == day_steps_before(p, (k - 1) as nat));
                    }
                }
                assert(day_steps_before(today, streak_spec(daily, today)) == day_steps_before(
                    p,
                    streak_spec(daily, p),
                ));
            },
            None => {
                assert(day_steps_before(today, 1) == None::<DayKey>);
            },
        }
    } else {
        assert(day_steps_before(today, 0) == Some(today));
    }
}

impl DictationStats {
    /// The total number of words dictated.
    pub closed spec fn total_words_view(&self) -> u64 {
        self.total_words
    }

    /// The total number of dictations.
    pub closed spec fn total_dictations_view(&self) -> u64 {
        self.total_dictations
    }

    /// The total recording time in milliseconds.
    pub closed spec fn total_recording_ms_view(&self) -> u64 {
        self.total_recording_ms
    }

    /// The statistics of each day, keyed by `day_index`.
    pub closed spec fn daily_view(&self) -> Map<u32, DayStats> {
        self.daily_activity@
    }

    /// Statistics with nothing recorded.
    pub fn new() -> (s: Self)
        ensures
            s.total_words_view() == 0,
            s.total_dictations_view() == 0,
            s.total_recording_ms_view() == 0,
            s.daily_view() == Map::<u32, DayStats>::empty(),
    {
        DictationStats {
            total_words: 0,
            total_dictations: 0,
            total_recording_ms: 0,
            daily_activity: HashMap::new(),
        }
    }

    /// Records one dictation of `words` words and `recording_ms`
    /// milliseconds of audio on `day`. Every counter saturates at its
    /// maximum.
    pub fn record(&mut self, day: DayKey, words: u32, recording_ms: u64)
        ensures
            final(self).total_words_view() == sat_add(old(self).total_words_view(), words as u64),
            final(self).total_dictations_view() == sat_add(old(self).total_dictations_view(), 1),
            final(self).total_recording_ms_view() == sat_add(
                old(self).total_recording_ms_view(),
                recording_ms,
            ),
            final(self).daily_view() == old(self).daily_view().insert(
                day_index(day),
                DayStats {
                    words: sat_add(day_stats_of(old(self).daily_view(), day).words, words as u64),
                    dictations: sat_add(day_stats_of(old(self).daily_view(), day).dictations, 1),
                },
            ),
    {
        self.total_words = self.total_words.saturating_add(words as u64);
        self.total_dictations = self.total_dictations.saturating_add(1);
        self.total_recording_ms = self.total_recording_ms.saturating_add(recording_ms);
        let key: u32 = day.index();
        let current = self.today(day);
        let updated = DayStats {
            words: current.words.saturating_add(words as u64),
            dictations: current.dictations.saturating_add(1),
        };
        self.daily_activity.insert(key, updated);
    }

    /// The total number of words dictated.
    pub fn total_words(&self) -> (n: u64)
        ensures
            n == self.total_words_view(),
    {
        self.total_words
    }

    /// The total number of dictations.
    pub fn total_dictations(&self) -> (n: u64)
        ensures
            n == self.total_dictations_view(),
    {
        self.total_dictations
    }

    /// The total recording time in milliseconds.
    pub fn total_recording_ms(&self) -> (n: u64)
        ensures
            n == self.total_recording_ms_view(),
    {
        self.total_recording_ms
    }

    /// The statistics of `day`, zero when nothing was recorded on it.
    pub fn today(&self, day: DayKey) -> (s: DayStats)
        ensures
            s == day_stats_of(self.daily_view(), day),
    {
        let key: u32 = day.index();
        match self.daily_activity.get(&key) {
            Some(stats) => *stats,
            None => DayStats { words: 0, dictations: 0 },
        }
    }

    /// The number of days in a row, ending with `today`, on which at least
    /// one dictation was recorded; zero when none was recorded today.
    pub fn current_streak(&self, today: DayKey) -> (n: u32)
        ensures
            n == streak_spec(self.daily_view(), today),
    {
        if self.today(today).dictations == 0 {
            return 0;
        }
        let mut streak: u32 = 1;
        let mut current_day = today;
        proof {
            lemma_active_days_before_bound(self.daily_view(), today);
        }
        loop
            invariant
                is_active(self.daily_view(), today),
                1 <= streak,
                streak + active_days_before(self.daily_view(), current_day) == 1
                    + active_days_before(self.daily_view(), today),
                active_days_before(self.daily_view(), today) <= day_measure(today),
                day_measure(today) <= 65535 * 416 + 255 * 32 + 255,
            ensures
                streak == 1 + active_days_before(self.daily_view(), today),
            decreases day_measure(current_day),
        {
            let previous = current_day.previous_day();
            match previous {
                None => {
                    proof {
                        assert(active_days_before(self.daily_view(), current_day) == 0);
                    }
                    break ;
                },
                Some(previous_day) => {
                    proof {
                        lemma_previous_day_decreases(current_day);
                    }
                    if self.today(previous_day).dictations > 0 {
                        streak = streak + 1;
                        current_day = previous_day;
                    } else {
                        proof {
                            assert(active_days_before(self.daily_view(), current_day) == 0);
                        }
                        break ;
                    }
                },
            }
        }
        streak
    }

    /// Statistics made of stored totals and stored daily statistics.
    pub fn from_parts(
        total_words: u64,
        total_dictations: u64,
        total_recording_ms: u64,
        daily_activity: HashMap<u32, DayStats>,
    ) -> (s: Self)
        ensures
            s.total_words_view() == total_words,
            s.total_dictations_view() == total_dictations,
            s.total_recording_ms_view() == total_recording_ms,
            s.daily_view() == daily_activity@,
    {
        DictationStats { total_words, total_dictations, total_recording_ms, daily_activity }
    }

    /// The statistics of each day, keyed by `DayKey::index`.
    pub fn daily_activity(&self) -> (m: &HashMap<u32, DayStats>)
        ensures
            m@ == self.daily_view(),
    {
        &self.daily_activity
    }
}

impl Default for DictationStats {
    fn default() -> (s: Self)
        ensures
            s.total_words_view() == 0,
            s.total_dictations_view() == 0,
            s.total_recording_ms_view() == 0,
            s.daily_view() == Map::<u32, DayStats>::empty(),
    {
        DictationStats::new()
    }
}

} // verus!
