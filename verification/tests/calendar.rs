use chrono::{Datelike, NaiveDate};
use tenth::calendar::{
    days_from_saturday, saturday_of, seconds_since, week_label, Date, Timestamp, MAX_DAY, MAX_TIMESTAMP,
    MIN_DAY, MIN_TIMESTAMP, UNIX_EPOCH_DAY,
};

fn date(year: i32, month: u32, day: u32) -> Date {
    Date { days_from_ce: NaiveDate::from_ymd_opt(year, month, day).unwrap().num_days_from_ce() }
}

#[test]
fn finds_saturday_for_any_date() {
    let wednesday = date(2026, 8, 26);
    assert_eq!(saturday_of(wednesday), date(2026, 8, 22));
    let saturday = date(2026, 8, 29);
    assert_eq!(saturday_of(saturday), saturday);
    let friday = date(2026, 8, 28);
    assert_eq!(saturday_of(friday), date(2026, 8, 22));
}

#[test]
fn days_from_saturday_agree_with_weekdays() {
    let mut day = NaiveDate::from_ymd_opt(1969, 12, 20).unwrap();
    for _ in 0..400 {
        let expected = (day.weekday().num_days_from_monday() + 2) % 7;
        assert_eq!(days_from_saturday(Date { days_from_ce: day.num_days_from_ce() }), expected);
        day = day.succ_opt().unwrap();
    }
    let early = NaiveDate::from_ymd_opt(-500, 3, 1).unwrap();
    assert_eq!(
        days_from_saturday(Date { days_from_ce: early.num_days_from_ce() }),
        (early.weekday().num_days_from_monday() + 2) % 7
    );
}

#[test]
fn week_labels_name_one_or_two_months() {
    assert_eq!(week_label(date(2026, 8, 22)), "Aug 22–28, 2026");
    assert_eq!(week_label(date(2026, 8, 29)), "Aug 29 – Sep 4, 2026");
    assert_eq!(week_label(date(2026, 12, 26)), "Dec 26 – Jan 1, 2027");
}

#[test]
fn seconds_between_instants_truncate_toward_zero() {
    let a = Timestamp { secs: 100, nanos: 0 };
    let b = Timestamp { secs: 101, nanos: 999_999_999 };
    assert_eq!(seconds_since(&a, &b), 1);
    assert_eq!(seconds_since(&b, &a), -1);
    let c = Timestamp { secs: 100, nanos: 500_000_000 };
    assert_eq!(seconds_since(&c, &a), 0);
}

#[test]
fn representable_range_matches_chrono() {
    assert_eq!(NaiveDate::MIN.num_days_from_ce(), MIN_DAY);
    assert_eq!(NaiveDate::MAX.num_days_from_ce(), MAX_DAY);
    assert_eq!(chrono::DateTime::<chrono::Utc>::MIN_UTC.timestamp(), MIN_TIMESTAMP);
    assert_eq!(chrono::DateTime::<chrono::Utc>::MAX_UTC.timestamp(), MAX_TIMESTAMP);
    assert_eq!(NaiveDate::from_ymd_opt(1970, 1, 1).unwrap().num_days_from_ce() as i64, UNIX_EPOCH_DAY);
    assert_eq!(Timestamp::from_parts(MAX_TIMESTAMP, 999_999_999), Some(Timestamp { secs: MAX_TIMESTAMP, nanos: 999_999_999 }));
    assert_eq!(Timestamp::from_parts(MAX_TIMESTAMP + 1, 0), None);
}

fn civil_date(days_from_ce: i64) -> (i64, i64, i64) {
    let (year, month, day) = tenth::calendar::civil_parts(Date { days_from_ce: days_from_ce as i32 });
    (year as i64, month as i64, day as i64)
}

#[test]
fn gregorian_dates_match_chrono() {
    let mut checked = 0;
    let mut n = MIN_DAY as i64;
    while n <= MAX_DAY as i64 {
        let d = NaiveDate::from_num_days_from_ce_opt(n as i32).unwrap();
        assert_eq!(civil_date(n), (d.year() as i64, d.month() as i64, d.day() as i64), "day {n}");
        n += 9_973;
        checked += 1;
    }
    for n in 700_000..740_000 {
        let d = NaiveDate::from_num_days_from_ce_opt(n).unwrap();
        assert_eq!(civil_date(n as i64), (d.year() as i64, d.month() as i64, d.day() as i64));
    }
    for n in [MIN_DAY, MIN_DAY + 1, -1, 0, 1, 59, 60, 61, MAX_DAY - 1, MAX_DAY] {
        let d = NaiveDate::from_num_days_from_ce_opt(n).unwrap();
        assert_eq!(civil_date(n as i64), (d.year() as i64, d.month() as i64, d.day() as i64));
    }
    assert!(checked > 19_000);
}

fn chrono_of(t: Timestamp) -> chrono::DateTime<chrono::Utc> {
    chrono::DateTime::from_timestamp(t.secs, t.nanos).unwrap()
}

#[test]
fn seconds_between_count_leap_seconds_as_chrono_does() {
    let leap_in_day = Timestamp { secs: 1_000 * 60 + 59, nanos: 1_500_000_000 };
    let at_midnight = Timestamp { secs: 86_400 * 20_000 - 1, nanos: 1_500_000_000 };
    let samples = [
        leap_in_day,
        Timestamp { secs: 1_000 * 60 + 60, nanos: 200_000_000 },
        Timestamp { secs: 1_000 * 60 + 60, nanos: 600_000_000 },
        Timestamp { secs: 1_000 * 60 + 59, nanos: 300_000_000 },
        Timestamp { secs: 1_000 * 60 + 30, nanos: 0 },
        at_midnight,
        Timestamp { secs: 86_400 * 20_000, nanos: 200_000_000 },
        Timestamp { secs: 86_400 * 20_000 - 1, nanos: 100_000_000 },
        Timestamp { secs: 86_400 * 20_000 + 5, nanos: 999_999_999 },
        Timestamp { secs: -1, nanos: 1_999_999_999 },
        Timestamp { secs: 0, nanos: 0 },
    ];
    for a in samples {
        for b in samples {
            let expected = (chrono_of(b) - chrono_of(a)).num_seconds();
            assert_eq!(seconds_since(&a, &b), expected, "{a:?} to {b:?}");
        }
    }
}
