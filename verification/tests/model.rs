use chrono::{Datelike, Local, NaiveDate, Utc};
use tenth::calendar::{Date, LocalTime, Timestamp};
use tenth::model::{
    billed_tenths, format_elapsed, format_tenths, Project, TimeEntry, TrackerData,
    BILLING_INCREMENT_SECONDS,
};

fn date(year: i32, month: u32, day: u32) -> Date {
    Date { days_from_ce: NaiveDate::from_ymd_opt(year, month, day).unwrap().num_days_from_ce() }
}

fn local_day_of(t: Timestamp) -> NaiveDate {
    chrono::DateTime::from_timestamp(t.secs, t.nanos).unwrap().with_timezone(&Local).date_naive()
}

fn stamp(t: chrono::DateTime<Utc>) -> Timestamp {
    Timestamp::from_parts(t.timestamp(), t.timestamp_subsec_nanos()).unwrap()
}

fn random_id() -> u128 {
    uuid::Uuid::new_v4().as_u128()
}

#[test]
fn billing_rounds_up_to_six_minute_increments() {
    assert_eq!(billed_tenths(0), 0);
    assert_eq!(billed_tenths(1), 1);
    assert_eq!(billed_tenths(360), 1);
    assert_eq!(billed_tenths(361), 2);
    assert_eq!(billed_tenths(3600), 10);
}

#[test]
fn billing_of_negative_and_huge_durations() {
    assert_eq!(billed_tenths(-5), 0);
    assert_eq!(billed_tenths(i64::MIN), 0);
    assert_eq!(billed_tenths(i64::MAX), i64::MAX / 360 + 1);
    assert_eq!(billed_tenths(719), 2);
    assert_eq!(billed_tenths(720), 2);
    assert_eq!(billed_tenths(721), 3);
}

#[test]
fn elapsed_time_is_formatted_for_long_sessions() {
    assert_eq!(format_elapsed(0), "00:00:00");
    assert_eq!(format_elapsed(3661), "01:01:01");
    assert_eq!(format_elapsed(90_061), "25:01:01");
}

#[test]
fn elapsed_time_clamps_negative_and_pads_fields() {
    assert_eq!(format_elapsed(-42), "00:00:00");
    assert_eq!(format_elapsed(59), "00:00:59");
    assert_eq!(format_elapsed(360_000), "100:00:00");
    assert_eq!(format_elapsed(i64::MAX), format!("{}:{:02}:{:02}", i64::MAX / 3600, (i64::MAX % 3600) / 60, i64::MAX % 60));
}

#[test]
fn tenths_render_as_hours_with_one_decimal() {
    assert_eq!(format_tenths(0), "0.0");
    assert_eq!(format_tenths(17), "1.7");
    assert_eq!(format_tenths(240), "24.0");
    assert_eq!(format_tenths(-3), "-0.3");
    assert_eq!(format_tenths(-15), "-1.5");
    for t in [-1234i64, -1, 0, 1, 9, 10, 99, 101, 123456] {
        assert_eq!(format_tenths(t as i128), format!("{:.1}", t as f64 / 10.0));
    }
}

#[test]
fn manual_entries_preserve_date_and_tenths() {
    let day = NaiveDate::from_ymd_opt(2026, 8, 26).unwrap();
    let entry = TimeEntry::manual(random_id(), date(2026, 8, 26), 17).unwrap();
    assert_eq!(local_day_of(entry.started_at), day);
    assert_eq!(entry.billed_tenths, 17);
    assert_eq!(entry.elapsed_seconds, 17 * BILLING_INCREMENT_SECONDS);
}

#[test]
fn manual_entries_bill_at_least_one_tenth_and_end_after_their_duration() {
    let project = random_id();
    let entry = TimeEntry::manual(project, date(2026, 3, 2), -4).unwrap();
    assert_eq!(entry.project_id, project);
    assert_eq!(entry.billed_tenths, 1);
    assert_eq!(entry.elapsed_seconds, 360);
    assert_eq!(entry.ended_at.secs - entry.started_at.secs, 360);
    assert_eq!(entry.started_at.nanos, 0);
    assert!(entry.note.is_empty());
    assert_eq!((entry.id >> 76) & 0xf, 4);
}

#[test]
fn manual_values_can_be_updated_without_changing_entry_identity() {
    let original_date = date(2026, 8, 26);
    let updated_date = NaiveDate::from_ymd_opt(2026, 8, 28).unwrap();
    let mut entry = TimeEntry::manual(random_id(), original_date, 4).unwrap();
    let id = entry.id;
    let project_id = entry.project_id;
    entry.note = "Prepared client update".into();

    assert!(entry.update_manual_values(date(2026, 8, 28), 15));

    assert_eq!(entry.id, id);
    assert_eq!(entry.project_id, project_id);
    assert_eq!(local_day_of(entry.started_at), updated_date);
    assert_eq!(entry.billed_tenths, 15);
    assert_eq!(entry.elapsed_seconds, 15 * BILLING_INCREMENT_SECONDS);
    assert_eq!(entry.note, "Prepared client update");
}

#[test]
fn unchanged_billing_preserves_precise_session_times() {
    let now = Utc::now();
    let start = stamp(now);
    let end = stamp(now + chrono::Duration::seconds(61));
    let mut entry = TimeEntry::from_session(random_id(), start, end);
    let today = local_day_of(start);
    assert!(entry.update_manual_values(Date { days_from_ce: today.num_days_from_ce() }, 1));
    assert_eq!(entry.started_at, start);
    assert_eq!(entry.ended_at, end);
    assert_eq!(entry.elapsed_seconds, 61);
}

#[test]
fn sessions_count_whole_seconds_and_at_least_one() {
    let start = Timestamp { secs: 1_000, nanos: 900_000_000 };
    let end = Timestamp { secs: 1_361, nanos: 100_000_000 };
    let entry = TimeEntry::from_session(7, start, end);
    assert_eq!(entry.elapsed_seconds, 360);
    assert_eq!(entry.billed_tenths, 1);
    let backwards = TimeEntry::from_session(7, end, start);
    assert_eq!(backwards.elapsed_seconds, 1);
    assert_eq!(backwards.billed_tenths, 1);
    let instant = TimeEntry::from_session(7, start, start);
    assert_eq!(instant.elapsed_seconds, 1);
}

#[test]
fn local_date_is_rendered_with_month_name() {
    let entry = TimeEntry::manual(1, date(2026, 8, 26), 3).unwrap();
    assert_eq!(entry.local_date(), "Aug 26, 2026");
}

#[test]
fn new_projects_get_random_ids_and_creation_time() {
    let before = Utc::now().timestamp();
    let a = Project::new("Client redesign".to_string());
    let b = Project::new("Client redesign".to_string());
    assert_eq!(a.name, "Client redesign");
    assert_ne!(a.id, b.id);
    assert_eq!((a.id >> 76) & 0xf, 4);
    assert_eq!((a.id >> 62) & 3, 2);
    assert!(a.created_at.secs >= before && a.created_at.secs <= Utc::now().timestamp());
}

#[test]
fn default_tracker_data_is_empty_and_light() {
    let data = TrackerData::default();
    assert!(data.projects.is_empty());
    assert!(data.entries.is_empty());
    assert!(data.active_timer.is_none());
    assert!(!data.dark_mode);
}

#[test]
fn timestamps_keep_leap_seconds_and_refuse_out_of_range() {
    assert_eq!(Timestamp::from_parts(10, 5), Some(Timestamp { secs: 10, nanos: 5 }));
    assert_eq!(Timestamp::from_parts(10, 1_500_000_000), None);
    assert_eq!(Timestamp::from_parts(59, 1_500_000_000), Some(Timestamp { secs: 59, nanos: 1_500_000_000 }));
    assert_eq!(Timestamp::from_parts(-1, 1_500_000_000), Some(Timestamp { secs: -1, nanos: 1_500_000_000 }));
    assert_eq!(Timestamp::from_parts(i64::MAX, 0), None);
    assert_eq!(Timestamp::from_parts(10, 2_000_000_000), None);
}

#[test]
fn retiming_keeps_an_entry_on_its_day_with_its_billing() {
    let start = Timestamp { secs: 1_787_738_401, nanos: 250 };
    let end = Timestamp { secs: 1_787_738_462, nanos: 250 };
    let mut entry = TimeEntry::from_session(9, start, end);
    entry.note = "Call".to_string();
    let today = date(2026, 8, 26);
    let noon = LocalTime::Single(Timestamp { secs: 1_787_745_600, nanos: 0 });
    assert!(entry.update_manual_values_at(today, today, noon, 1));
    assert_eq!(entry.started_at, start);
    assert_eq!(entry.ended_at, end);
    assert_eq!(entry.elapsed_seconds, 61);
    assert_eq!(entry.billed_tenths, 1);
}

#[test]
fn retiming_moves_an_entry_to_noon_with_the_new_billing() {
    let start = Timestamp { secs: 1_787_738_401, nanos: 250 };
    let end = Timestamp { secs: 1_787_738_462, nanos: 250 };
    let mut entry = TimeEntry::from_session(9, start, end);
    let id = entry.id;
    entry.note = "Call".to_string();
    let today = date(2026, 8, 26);
    let noon = Timestamp { secs: 1_787_745_600, nanos: 0 };
    let later = Timestamp { secs: 1_787_749_200, nanos: 0 };
    assert!(entry.update_manual_values_at(today, today, LocalTime::Ambiguous(noon, later), 3));
    assert_eq!(entry.id, id);
    assert_eq!(entry.project_id, 9);
    assert_eq!(entry.note, "Call");
    assert_eq!(entry.started_at, noon);
    assert_eq!(entry.billed_tenths, 3);
    assert_eq!(entry.elapsed_seconds, 1080);
    assert_eq!(entry.ended_at.secs, noon.secs + 1080);
}

#[test]
fn retiming_to_a_skipped_noon_leaves_the_entry_alone() {
    let start = Timestamp { secs: 1_787_738_401, nanos: 0 };
    let end = Timestamp { secs: 1_787_742_001, nanos: 0 };
    let mut entry = TimeEntry::from_session(9, start, end);
    let before = entry.clone();
    assert!(!entry.update_manual_values_at(date(2026, 8, 26), date(2026, 8, 27), LocalTime::Nonexistent, 10));
    assert_eq!(entry.started_at, before.started_at);
    assert_eq!(entry.ended_at, before.ended_at);
    assert_eq!(entry.billed_tenths, before.billed_tenths);
}
