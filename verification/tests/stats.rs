use tinyvox::stats::{is_leap_year, DayKey, DayStats, DictationStats};

#[test]
fn record_updates_total_stats() {
    let mut stats = DictationStats::new();
    let day = DayKey::new(2026, 8, 12);
    stats.record(day, 100, 60_000);
    assert_eq!(stats.total_words(), 100);
    assert_eq!(stats.total_dictations(), 1);
    assert_eq!(stats.total_recording_ms(), 60_000);
}

#[test]
fn record_updates_daily_stats() {
    let mut stats = DictationStats::new();
    let day = DayKey::new(2026, 8, 12);
    stats.record(day, 42, 30_000);
    assert_eq!(stats.today(day), DayStats { words: 42, dictations: 1 });
}

#[test]
fn multiple_dictations_accumulate() {
    let mut stats = DictationStats::new();
    let day = DayKey::new(2026, 8, 12);
    stats.record(day, 50, 30_000);
    stats.record(day, 25, 20_000);
    assert_eq!(stats.total_words(), 75);
    assert_eq!(stats.total_dictations(), 2);
    assert_eq!(stats.total_recording_ms(), 50_000);
    assert_eq!(stats.today(day), DayStats { words: 75, dictations: 2 });
}

#[test]
fn consecutive_days_increment_streak() {
    let mut stats = DictationStats::new();
    let day_one = DayKey::new(2026, 8, 10);
    let day_two = DayKey::new(2026, 8, 11);
    let day_three = DayKey::new(2026, 8, 12);
    stats.record(day_one, 20, 20_000);
    stats.record(day_two, 30, 30_000);
    stats.record(day_three, 40, 40_000);
    assert_eq!(stats.current_streak(day_three), 3);
}

#[test]
fn one_gap_day_resets_streak() {
    let mut stats = DictationStats::new();
    let day_one = DayKey::new(2026, 8, 10);
    let day_three = DayKey::new(2026, 8, 12);
    stats.record(day_one, 20, 20_000);
    stats.record(day_three, 40, 40_000);
    assert_eq!(stats.current_streak(day_three), 1);
}

#[test]
fn no_activity_today_means_zero_streak() {
    let mut stats = DictationStats::new();
    let yesterday = DayKey::new(2026, 8, 11);
    let today = DayKey::new(2026, 8, 12);
    stats.record(yesterday, 20, 20_000);
    assert_eq!(stats.current_streak(today), 0);
}

#[test]
fn month_boundary_works() {
    let mut stats = DictationStats::new();
    let previous = DayKey::new(2026, 7, 31);
    let current = DayKey::new(2026, 8, 1);
    stats.record(previous, 20, 20_000);
    stats.record(current, 30, 30_000);
    assert_eq!(stats.current_streak(current), 2);
}

#[test]
fn year_boundary_works() {
    let mut stats = DictationStats::new();
    let previous = DayKey::new(2025, 12, 31);
    let current = DayKey::new(2026, 1, 1);
    stats.record(previous, 20, 20_000);
    stats.record(current, 30, 30_000);
    assert_eq!(stats.current_streak(current), 2);
}

// Further cases.

#[test]
fn leap_years_follow_the_gregorian_rule() {
    assert!(is_leap_year(2024));
    assert!(!is_leap_year(2026));
    assert!(!is_leap_year(1900));
    assert!(is_leap_year(2000));
}

#[test]
fn previous_day_crosses_months_and_years() {
    assert_eq!(DayKey::new(2026, 8, 12).previous_day(), Some(DayKey::new(2026, 8, 11)));
    assert_eq!(DayKey::new(2024, 3, 1).previous_day(), Some(DayKey::new(2024, 2, 29)));
    assert_eq!(DayKey::new(2023, 3, 1).previous_day(), Some(DayKey::new(2023, 2, 28)));
    assert_eq!(DayKey::new(2026, 5, 1).previous_day(), Some(DayKey::new(2026, 4, 30)));
    assert_eq!(DayKey::new(2026, 1, 1).previous_day(), Some(DayKey::new(2025, 12, 31)));
    assert_eq!(DayKey::new(0, 1, 1).previous_day(), None);
    assert_eq!(DayKey::new(2026, 13, 5).previous_day(), None);
    assert_eq!(DayKey::new(2026, 0, 5).previous_day(), None);
}

#[test]
fn leap_day_streak() {
    let mut stats = DictationStats::new();
    stats.record(DayKey::new(2024, 2, 28), 1, 1);
    stats.record(DayKey::new(2024, 2, 29), 1, 1);
    stats.record(DayKey::new(2024, 3, 1), 1, 1);
    assert_eq!(stats.current_streak(DayKey::new(2024, 3, 1)), 3);
}

#[test]
fn days_since_epoch_map_to_calendar_days() {
    assert_eq!(DayKey::from_days_since_epoch(0), Some(DayKey::new(1970, 1, 1)));
    assert_eq!(DayKey::from_days_since_epoch(31), Some(DayKey::new(1970, 2, 1)));
    assert_eq!(DayKey::from_days_since_epoch(365), Some(DayKey::new(1971, 1, 1)));
    assert_eq!(DayKey::from_days_since_epoch(11_016), Some(DayKey::new(2000, 2, 29)));
    assert_eq!(DayKey::from_days_since_epoch(20_677), Some(DayKey::new(2026, 8, 12)));
}

#[test]
fn days_beyond_year_65535_have_no_day() {
    // From 1970-01-01 to 65536-01-01: 63 566 years, 15 414 of them leap.
    let limit: u64 = 63_566 * 365 + 15_414;
    assert_eq!(DayKey::from_days_since_epoch(limit - 1), Some(DayKey::new(65535, 12, 31)));
    assert_eq!(DayKey::from_days_since_epoch(limit), None);
    assert_eq!(DayKey::from_days_since_epoch(u64::MAX), None);
}

#[test]
fn consecutive_epoch_days_step_back_by_one() {
    for n in 1..3_000u64 {
        let day = DayKey::from_days_since_epoch(19_000 + n).unwrap();
        let before = DayKey::from_days_since_epoch(19_000 + n - 1).unwrap();
        assert_eq!(day.previous_day(), Some(before));
    }
}

#[test]
fn day_index_round_trips() {
    let day = DayKey::new(2026, 8, 12);
    assert_eq!(DayKey::from_index(day.index()), day);
    assert_eq!(day.index(), 2026 * 65536 + 8 * 256 + 12);
}

#[test]
fn daily_activity_is_keyed_by_day_index() {
    let mut stats = DictationStats::new();
    let day = DayKey::new(2026, 8, 12);
    stats.record(day, 10, 1_000);
    let daily = stats.daily_activity();
    assert_eq!(daily.len(), 1);
    assert_eq!(daily.get(&day.index()), Some(&DayStats { words: 10, dictations: 1 }));
}

#[test]
fn totals_saturate() {
    let mut daily = std::collections::HashMap::new();
    daily.insert(DayKey::new(2026, 1, 1).index(), DayStats { words: u64::MAX - 1, dictations: 3 });
    let mut stats = DictationStats::from_parts(u64::MAX - 5, u64::MAX, u64::MAX - 1, daily);
    stats.record(DayKey::new(2026, 1, 1), 10, 10);
    assert_eq!(stats.total_words(), u64::MAX);
    assert_eq!(stats.total_dictations(), u64::MAX);
    assert_eq!(stats.total_recording_ms(), u64::MAX);
    assert_eq!(stats.today(DayKey::new(2026, 1, 1)), DayStats { words: u64::MAX, dictations: 4 });
}

#[test]
fn unrecorded_day_is_zero() {
    let stats = DictationStats::default();
    assert_eq!(stats.today(DayKey::new(2026, 8, 12)), DayStats::default());
    assert_eq!(stats.current_streak(DayKey::new(2026, 8, 12)), 0);
}

#[test]
fn streak_counts_only_active_days_in_a_row() {
    let mut daily = std::collections::HashMap::new();
    daily.insert(DayKey::new(2026, 8, 9).index(), DayStats { words: 5, dictations: 1 });
    daily.insert(DayKey::new(2026, 8, 10).index(), DayStats { words: 5, dictations: 0 });
    daily.insert(DayKey::new(2026, 8, 11).index(), DayStats { words: 5, dictations: 2 });
    daily.insert(DayKey::new(2026, 8, 12).index(), DayStats { words: 5, dictations: 1 });
    let stats = DictationStats::from_parts(20, 4, 0, daily);
    let active = stats.daily_activity().values().filter(|d| d.dictations > 0).count();
    assert_eq!(active, 3);
    assert_eq!(stats.current_streak(DayKey::new(2026, 8, 12)), 2);
    assert!(stats.current_streak(DayKey::new(2026, 8, 12)) as usize <= active);
    assert_eq!(stats.current_streak(DayKey::new(2026, 8, 10)), 0);
    assert_eq!(stats.current_streak(DayKey::new(2026, 8, 9)), 1);
}
