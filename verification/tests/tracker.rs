use chrono::{Datelike, NaiveDate};
use std::path::PathBuf;
use tenth::calendar::Date;
use tenth::menu::{menu_bar_labels, MenuBarAction};
use tenth::model::{ActiveTimer, Project, TimeEntry, TrackerData};
use tenth::order::sort_projects_by_name;
use tenth::storage::Storage;
use tenth::tracker::{HourTrackerApp, Screen};

fn date(year: i32, month: u32, day: u32) -> Date {
    Date { days_from_ce: NaiveDate::from_ymd_opt(year, month, day).unwrap().num_days_from_ce() }
}

fn storage() -> Storage {
    Storage::at(PathBuf::from("unused/tracker.json"))
}

fn project(name: &str) -> Project {
    Project::new(name.to_string())
}

fn entry(project: &Project, day: Date, tenths: i64, note: &str) -> TimeEntry {
    let mut e = TimeEntry::manual(project.id, day, tenths).unwrap();
    e.note = note.to_string();
    e
}

fn app_with(data: TrackerData, today: Date) -> HourTrackerApp {
    HourTrackerApp::new(storage(), Ok(data), today)
}

#[test]
fn opening_selects_the_running_project_and_shows_todays_week() {
    let a = project("Alpha");
    let b = project("Beta");
    let mut data = TrackerData::default();
    data.projects = vec![a.clone(), b.clone()];
    data.active_timer = Some(ActiveTimer {
        project_id: b.id,
        started_at: tenth::calendar::Timestamp { secs: 1_700_000_000, nanos: 0 },
        note: "Drafting".to_string(),
    });
    let app = app_with(data, date(2026, 8, 26));
    assert_eq!(app.selected_project, Some(b.id));
    assert_eq!(app.timer_note, "Drafting");
    assert_eq!(app.week_start, date(2026, 8, 22));
    assert_eq!(app.manual_day, 4);
    assert_eq!(app.view, Screen::Track);
    assert!(app.status.is_none());

    let mut plain = TrackerData::default();
    plain.projects = vec![a.clone()];
    assert_eq!(app_with(plain, date(2026, 8, 22)).selected_project, Some(a.id));
}

#[test]
fn a_load_error_opens_empty_with_the_error() {
    let app = HourTrackerApp::new(storage(), Err("Could not parse data: x".to_string()), date(2026, 1, 1));
    assert!(app.data.projects.is_empty());
    assert_eq!(app.status, Some(("Could not parse data: x".to_string(), true)));
    assert_eq!(app.selected_project, None);
}

#[test]
fn projects_are_added_trimmed_sorted_and_unique() {
    let mut app = app_with(TrackerData::default(), date(2026, 8, 26));
    app.new_project_name = "  zeta  ".to_string();
    app.adding_project = true;
    assert_eq!(app.add_project(), Some("Project added".to_string()));
    assert_eq!(app.data.projects[0].name, "zeta");
    assert_eq!(app.new_project_name, "");
    assert!(!app.adding_project);
    app.new_project_name = "Alpha".to_string();
    app.add_project();
    app.new_project_name = "beta".to_string();
    app.add_project();
    let names: Vec<_> = app.data.projects.iter().map(|p| p.name.clone()).collect();
    assert_eq!(names, vec!["Alpha", "beta", "zeta"]);
    assert_eq!(app.selected_project, Some(app.data.projects[1].id));

    app.new_project_name = "ZETA".to_string();
    assert_eq!(app.add_project(), None);
    assert_eq!(app.status, Some(("That project already exists.".to_string(), true)));
    assert_eq!(app.data.projects.len(), 3);

    app.new_project_name = "   ".to_string();
    assert_eq!(app.add_project(), None);
    assert_eq!(app.data.projects.len(), 3);
}

#[test]
fn project_sort_is_by_unicode_lowercase_and_stable() {
    let mut projects = vec![project("Émile"), project("b"), project("B"), project("a"), project("émile")];
    let ids: Vec<u128> = projects.iter().map(|p| p.id).collect();
    sort_projects_by_name(&mut projects);
    let names: Vec<_> = projects.iter().map(|p| p.name.clone()).collect();
    assert_eq!(names, vec!["a", "b", "B", "Émile", "émile"]);
    assert_eq!(projects[1].id, ids[1]);
    assert_eq!(projects[2].id, ids[2]);
    let once: Vec<u128> = projects.iter().map(|p| p.id).collect();
    sort_projects_by_name(&mut projects);
    let twice: Vec<u128> = projects.iter().map(|p| p.id).collect();
    assert_eq!(once, twice);
}

#[test]
fn only_one_timer_runs_and_stopping_saves_an_entry_with_its_note() {
    let a = project("Alpha");
    let mut data = TrackerData::default();
    data.projects = vec![a.clone()];
    let mut app = app_with(data, date(2026, 8, 26));
    app.timer_note = "  Kickoff call ".to_string();
    assert_eq!(app.start_timer(), Some("Timer started".to_string()));
    let started = app.data.active_timer.as_ref().unwrap().started_at;
    assert_eq!(app.data.active_timer.as_ref().unwrap().note, "Kickoff call");
    assert_eq!(app.start_timer(), None);
    assert_eq!(app.data.active_timer.as_ref().unwrap().started_at, started);

    app.compact_requested = true;
    assert_eq!(app.stop_timer(), Some("Entry saved".to_string()));
    assert!(app.data.active_timer.is_none());
    assert_eq!(app.data.entries.len(), 1);
    let e = &app.data.entries[0];
    assert_eq!(e.project_id, a.id);
    assert_eq!(e.started_at, started);
    assert!(e.elapsed_seconds >= 1);
    assert_eq!(e.billed_tenths, 1);
    assert_eq!(e.note, "  Kickoff call ".trim());
    assert_eq!(app.timer_note, "");
    assert!(!app.compact_requested);
    assert_eq!(app.stop_timer(), None);
}

#[test]
fn starting_needs_a_selected_project() {
    let mut app = app_with(TrackerData::default(), date(2026, 8, 26));
    assert_eq!(app.start_timer(), None);
    assert!(app.data.active_timer.is_none());
}

#[test]
fn manual_entries_are_added_newest_first_with_a_message() {
    let a = project("Alpha");
    let mut data = TrackerData::default();
    data.projects = vec![a.clone()];
    let mut app = app_with(data, date(2026, 8, 26));
    app.manual_day = 0;
    app.manual_tenths = 17;
    app.manual_note = " Research ".to_string();
    assert_eq!(app.add_manual_entry(), Some("Added 1.7 h on Sat Aug 22".to_string()));
    app.manual_day = 3;
    app.manual_tenths = 5;
    assert_eq!(app.add_manual_entry(), Some("Added 0.5 h on Tue Aug 25".to_string()));
    assert_eq!(app.data.entries.len(), 2);
    assert_eq!(app.data.entries[0].billed_tenths, 5);
    assert_eq!(app.data.entries[1].billed_tenths, 17);
    assert_eq!(app.data.entries[1].note, "Research");
    assert_eq!(app.manual_note, "");
}

#[test]
fn entries_are_sorted_newest_first_and_stably() {
    let a = project("Alpha");
    let mut data = TrackerData::default();
    let first = entry(&a, date(2026, 8, 22), 1, "one");
    let second = entry(&a, date(2026, 8, 24), 1, "two");
    let mut twin = first.clone();
    twin.note = "twin".to_string();
    data.entries = vec![first.clone(), second.clone(), twin.clone()];
    let mut app = app_with(data, date(2026, 8, 26));
    app.sort_entries();
    let notes: Vec<_> = app.data.entries.iter().map(|e| e.note.clone()).collect();
    assert_eq!(notes, vec!["two", "one", "twin"]);
    app.sort_entries();
    let again: Vec<_> = app.data.entries.iter().map(|e| e.note.clone()).collect();
    assert_eq!(again, notes);
}

fn sample_week() -> (HourTrackerApp, Project, Project) {
    let a = project("Client \"A\"");
    let b = project("Beta");
    let idle = project("Idle");
    let mut data = TrackerData::default();
    data.projects = vec![a.clone(), b.clone(), idle.clone()];
    data.entries = vec![
        entry(&a, date(2026, 8, 26), 15, "Prepared client update"),
        entry(&a, date(2026, 8, 26), 2, ""),
        entry(&b, date(2026, 8, 22), 10, ""),
        entry(&b, date(2026, 8, 28), 3, "Wrap-up"),
        entry(&a, date(2026, 8, 29), 40, "next week"),
    ];
    let app = app_with(data, date(2026, 8, 26));
    (app, a, b)
}

#[test]
fn weekly_summary_lists_projects_total_and_notes() {
    let (app, _, _) = sample_week();
    assert_eq!(
        app.week_summary(),
        "Week of August 22, 2026\nClient \"A\": 1.7 hours\nBeta: 1.3 hours\nTotal: 3.0 hours\n\nNotes:\nWed 8/26 · Client \"A\" · 1.5 h — Prepared client update\nFri 8/28 · Beta · 0.3 h — Wrap-up"
    );
}

#[test]
fn weekly_summary_without_time_or_notes() {
    let app = app_with(TrackerData::default(), date(2026, 8, 26));
    assert_eq!(app.week_summary(), "Week of August 22, 2026\nTotal: 0.0 hours");
}

#[test]
fn weekly_csv_has_day_columns_and_note_rows() {
    let (app, _, _) = sample_week();
    assert_eq!(
        app.week_csv(),
        "Project,Saturday,Sunday,Monday,Tuesday,Wednesday,Thursday,Friday,Total\n\"Client \"\"A\"\"\",0.0,0.0,0.0,0.0,1.7,0.0,0.0,1.7\n\"Beta\",1.0,0.0,0.0,0.0,0.0,0.0,0.3,1.3\n\nEntry notes\nProject,Date,Hours,Note\n\"Client \"\"A\"\"\",2026-08-26,1.5,\"Prepared client update\"\n\"Beta\",2026-08-28,0.3,\"Wrap-up\"\n"
    );
    assert_eq!(app.report_file_name(), "week-2026-08-22.csv");
}

#[test]
fn week_grid_rows_and_totals_add_up() {
    let (app, a, b) = sample_week();
    let (rows, days, grand) = app.week_grid();
    assert_eq!(grand, 30);
    assert_eq!(rows.len(), 2);
    assert_eq!(rows[0].project_id, a.id);
    assert_eq!(rows[0].cells, vec![0, 0, 0, 0, 17, 0, 0]);
    assert_eq!(rows[0].total, 17);
    assert_eq!(rows[1].project_id, b.id);
    assert_eq!(rows[1].total, 13);
    assert_eq!(rows[0].entry_counts, vec![0, 0, 0, 0, 2, 0, 0]);
    assert_eq!(rows[1].entry_counts, vec![1, 0, 0, 0, 0, 0, 1]);
    assert_eq!(days, vec![10, 0, 0, 0, 17, 0, 3]);
    assert_eq!(days.iter().sum::<i128>(), rows.iter().map(|r| r.total).sum::<i128>());
    assert_eq!(app.week_total(), 30);
    assert_eq!(app.week_entries(), vec![0, 1, 2, 3]);
}

#[test]
fn grid_cells_open_the_editor_or_the_picker() {
    let (mut app, a, b) = sample_week();
    app.select_grid_cell(a.id, 4);
    assert_eq!(app.entry_picker_cell, Some((a.id, 4)));
    assert!(app.editing_entry.is_none());
    assert_eq!(app.picker_entries(), vec![0, 1]);
    app.finish_picker(None, false);
    assert_eq!(app.entry_picker_cell, None);

    app.select_grid_cell(b.id, 6);
    let wrap_up = app.data.entries[3].id;
    assert_eq!(app.editing_entry, Some(wrap_up));
    assert_eq!(app.edit_project, Some(b.id));
    assert_eq!(app.edit_week_start, date(2026, 8, 22));
    assert_eq!(app.edit_day, 6);
    assert_eq!(app.edit_tenths, 3);
    assert_eq!(app.edit_note, "Wrap-up");
}

#[test]
fn saving_an_edit_keeps_identity_and_moves_the_entry() {
    let (mut app, a, _) = sample_week();
    let target = app.data.entries[3].id;
    app.begin_edit_entry(target);
    app.edit_project = Some(a.id);
    app.edit_day = 1;
    app.edit_tenths = 8;
    app.edit_note = " Revised ".to_string();
    assert_eq!(app.finish_edit(true, false, true), Some("Entry updated".to_string()));
    assert!(app.editing_entry.is_none());
    let edited = app.data.entries.iter().find(|e| e.id == target).unwrap();
    assert_eq!(edited.project_id, a.id);
    assert_eq!(edited.billed_tenths, 8);
    assert_eq!(edited.elapsed_seconds, 8 * 360);
    assert_eq!(edited.note, "Revised");
    assert_eq!(app.data.entries.len(), 5);
    for pair in app.data.entries.windows(2) {
        assert!(pair[0].started_at.secs >= pair[1].started_at.secs);
    }
}

#[test]
fn cancelling_or_closing_the_editor_discards_the_edit() {
    let (mut app, _, _) = sample_week();
    let target = app.data.entries[0].id;
    app.begin_edit_entry(target);
    app.edit_tenths = 99;
    assert_eq!(app.finish_edit(false, true, true), None);
    assert!(app.editing_entry.is_none());
    assert_eq!(app.data.entries[0].billed_tenths, 15);
    app.begin_edit_entry(target);
    assert_eq!(app.finish_edit(false, false, true), None);
    assert_eq!(app.editing_entry, Some(target));
    assert_eq!(app.finish_edit(false, false, false), None);
    assert!(app.editing_entry.is_none());
}

#[test]
fn editing_a_missing_entry_just_closes_the_editor() {
    let (mut app, a, _) = sample_week();
    app.editing_entry = Some(12345);
    app.edit_project = Some(a.id);
    assert_eq!(app.save_entry_edit(), None);
    assert!(app.editing_entry.is_none());
    app.begin_edit_entry(999);
    assert!(app.editing_entry.is_none());
}

#[test]
fn week_navigation_goes_back_and_forth() {
    let (mut app, _, _) = sample_week();
    app.previous_week();
    assert_eq!(app.week_start, date(2026, 8, 15));
    app.next_week();
    app.next_week();
    assert_eq!(app.week_start, date(2026, 8, 29));
    assert_eq!(app.week_total(), 40);
    app.show_week_of(date(2026, 8, 26));
    assert_eq!(app.week_start, date(2026, 8, 22));
}

#[test]
fn theme_toggles_and_saves_a_message() {
    let mut app = app_with(TrackerData::default(), date(2026, 8, 26));
    assert_eq!(app.toggle_theme(), "Dark theme enabled");
    assert!(app.data.dark_mode);
    assert_eq!(app.toggle_theme(), "Light theme enabled");
    assert!(!app.data.dark_mode);
}

#[test]
fn saving_outcomes_become_the_status() {
    let mut app = app_with(TrackerData::default(), date(2026, 8, 26));
    app.record_save("Entry saved".to_string(), Ok(()));
    assert_eq!(app.status, Some(("Entry saved".to_string(), false)));
    app.record_save("Entry saved".to_string(), Err("Could not write data: full".to_string()));
    assert_eq!(app.status, Some(("Could not write data: full".to_string(), true)));
}

#[test]
fn project_names_fall_back_to_unknown() {
    let (app, a, _) = sample_week();
    assert_eq!(app.project_name(a.id), "Client \"A\"");
    assert_eq!(app.project_name(1), "Unknown project");
}

#[test]
fn timer_notes_follow_the_field_while_running() {
    let a = project("Alpha");
    let mut data = TrackerData::default();
    data.projects = vec![a.clone()];
    let mut app = app_with(data, date(2026, 8, 26));
    assert_eq!(app.sync_timer_note(true, true), None);
    app.start_timer();
    app.timer_note = "New note".to_string();
    assert_eq!(app.sync_timer_note(true, false), None);
    assert_eq!(app.data.active_timer.as_ref().unwrap().note, "New note");
    assert_eq!(app.sync_timer_note(false, true), Some("Timer note saved".to_string()));
    assert!(app.active_elapsed().unwrap() >= 0);
    assert!(app.follow_window(true, false));
    assert!(!app.follow_window(false, true));
    app.request_compact();
    assert!(app.follow_window(false, true));
    assert!(app.follow_window(true, false));
    assert!(app.compact_window_away);
    assert!(app.follow_window(false, false));
    assert!(!app.follow_window(false, true));
    assert!(!app.compact_requested);
}

#[test]
fn the_reminder_hides_when_the_app_is_restored_or_tracking_stops() {
    let a = project("Alpha");
    let mut data = TrackerData::default();
    data.projects = vec![a.clone()];
    let mut app = app_with(data, date(2026, 8, 26));
    app.request_compact();
    assert!(!app.follow_window(true, false));
    app.start_timer();
    app.request_compact();
    assert!(app.follow_window(true, false));
    app.restore_from_compact();
    assert!(!app.follow_window(false, true));
    app.request_compact();
    assert!(app.follow_window(false, false));
    app.stop_timer();
    assert!(!app.follow_window(false, false));
}

#[test]
fn menu_bar_actions_start_stop_open_and_quit() {
    let a = project("Alpha");
    let mut data = TrackerData::default();
    data.projects = vec![a.clone()];
    let mut app = app_with(data, date(2026, 8, 26));
    let started = app.apply_menu_action(Some(MenuBarAction::Start));
    assert_eq!(started.save, Some("Timer started".to_string()));
    assert!(app.data.active_timer.is_some());
    assert_eq!(app.apply_menu_action(Some(MenuBarAction::Start)).save, None);
    let stopped = app.apply_menu_action(Some(MenuBarAction::Stop));
    assert_eq!(stopped.save, Some("Entry saved".to_string()));
    assert_eq!(app.data.entries.len(), 1);
    app.compact_requested = true;
    let open = app.apply_menu_action(Some(MenuBarAction::Open));
    assert!(open.restore_window && !open.close && !app.compact_requested);
    let quit = app.apply_menu_action(Some(MenuBarAction::Quit));
    assert!(quit.close && quit.save.is_none());
    let nothing = app.apply_menu_action(None);
    assert!(!nothing.close && !nothing.restore_window && nothing.save.is_none());
}

#[test]
fn menu_bar_labels_follow_the_timer() {
    let running = menu_bar_labels(Some("Alpha"), Some(("Alpha", 3661, 11)));
    assert_eq!(running.title, "● 01:01:01");
    assert_eq!(running.status, "Tracking Alpha · 01:01:01");
    assert_eq!(running.billable, "1.1 h billable");
    assert_eq!(running.start_label, "Timer is running");
    assert!(!running.start_enabled && running.stop_enabled);
    let idle = menu_bar_labels(Some("Alpha"), None);
    assert_eq!(idle.title, "Tenth");
    assert_eq!(idle.start_label, "Start Alpha");
    assert!(idle.start_enabled && !idle.stop_enabled);
    let none = menu_bar_labels(None, None);
    assert_eq!(none.start_label, "Start timer");
    assert!(!none.start_enabled);
}

#[test]
fn storage_keeps_the_path_it_was_given() {
    let path = PathBuf::from("nested/tracker.json");
    let s = Storage::at(path.clone());
    assert_eq!(s.path(), &path);
    let default = Storage::new();
    let p = default.path();
    let fallback = p.as_path() == std::path::Path::new("hour-tracker-data.json");
    let in_data_dir = p.file_name().and_then(|name| name.to_str()) == Some("tracker.json")
        && p.parent().map_or(false, |dir| !dir.as_os_str().is_empty());
    assert!(fallback || in_data_dir);
}

#[test]
fn today_totals_cover_todays_entries() {
    let a = project("Alpha");
    let b = project("Beta");
    let today = chrono::Local::now().date_naive();
    let today_date = Date { days_from_ce: today.num_days_from_ce() };
    let mut data = TrackerData::default();
    data.projects = vec![a.clone(), b.clone()];
    data.entries = vec![entry(&a, today_date, 4, ""), entry(&b, today_date, 6, "")];
    let mut app = app_with(data, today_date);
    app.selected_project = Some(a.id);
    assert_eq!(app.today_totals(), (10, 4));
    app.selected_project = None;
    assert_eq!(app.today_totals(), (10, 0));
    assert_eq!(app.recent_entry_count(), 2);
}

#[test]
fn storage_locates_its_file_in_the_data_directory_or_falls_back() {
    let s = Storage::located(Some(PathBuf::from("/home/user/.local/share/hourtracker")));
    assert_eq!(s.path(), &PathBuf::from("/home/user/.local/share/hourtracker/tracker.json"));
    let fallback = Storage::located(None);
    assert_eq!(fallback.path(), &PathBuf::from("hour-tracker-data.json"));
}

#[test]
fn viewing_a_recent_entry_opens_its_week_and_the_editor() {
    let (mut app, _, b) = sample_week();
    app.week_start = date(2026, 8, 1);
    let wrap_up = app.data.entries[3].id;
    assert!(app.can_open_entry(wrap_up));
    app.view_entry(wrap_up);
    assert_eq!(app.view, Screen::Week);
    assert_eq!(app.week_start, date(2026, 8, 22));
    assert_eq!(app.editing_entry, Some(wrap_up));
    assert_eq!(app.edit_project, Some(b.id));
    assert_eq!(app.edit_day, 6);
    assert_eq!(app.edit_tenths, 3);
}

#[test]
fn the_project_choice_is_frozen_while_a_timer_runs() {
    let a = project("Alpha");
    let b = project("Beta");
    let mut data = TrackerData::default();
    data.projects = vec![a.clone(), b.clone()];
    let mut app = app_with(data, date(2026, 8, 26));
    assert!(app.select_project(b.id));
    assert_eq!(app.selected_project, Some(b.id));
    app.start_timer();
    assert!(!app.select_project(a.id));
    assert_eq!(app.selected_project, Some(b.id));
    app.stop_timer();
    assert!(app.select_project(a.id));
    assert_eq!(app.selected_project, Some(a.id));
}

#[test]
fn copying_the_summary_reports_it_copied() {
    let (mut app, _, _) = sample_week();
    let expected = app.week_summary();
    assert_eq!(app.copy_week_summary(), expected);
    assert_eq!(app.status, Some(("Weekly summary copied".to_string(), false)));
}

#[test]
fn entries_at_the_start_of_time_cannot_be_opened() {
    let a = project("Alpha");
    let mut data = TrackerData::default();
    let mut early = entry(&a, date(2026, 8, 26), 1, "");
    early.started_at = tenth::calendar::Timestamp { secs: tenth::calendar::MIN_TIMESTAMP + 86_400 * 2, nanos: 0 };
    data.entries = vec![early.clone()];
    let app = app_with(data, date(2026, 8, 26));
    assert!(!app.can_open_entry(early.id));
    assert!(app.can_open_entry(12345));
    assert!(tenth::tracker::all_local_safe(&app.data.entries));
}

#[test]
fn an_unchanged_edit_keeps_a_timed_session() {
    let a = project("Alpha");
    let mut data = TrackerData::default();
    data.projects = vec![a.clone()];
    let start = tenth::calendar::Timestamp { secs: 1_787_738_401, nanos: 250 };
    let end = tenth::calendar::Timestamp { secs: 1_787_738_462, nanos: 250 };
    let mut session = TimeEntry::from_session(a.id, start, end);
    session.note = "  Call  ".to_string();
    data.entries = vec![session.clone()];
    let mut app = app_with(data, date(2026, 8, 26));
    let day = date(2026, 8, 26);
    app.begin_edit_entry_at(session.id, day);
    assert_eq!(app.edit_week_start, date(2026, 8, 22));
    assert_eq!(app.edit_day, 4);
    let noon = tenth::calendar::LocalTime::Single(tenth::calendar::Timestamp { secs: 1_787_745_600, nanos: 0 });
    assert_eq!(app.save_entry_edit_at(day, noon), Some("Entry updated".to_string()));
    let kept = &app.data.entries[0];
    assert_eq!(kept.id, session.id);
    assert_eq!(kept.started_at, start);
    assert_eq!(kept.ended_at, end);
    assert_eq!(kept.elapsed_seconds, 61);
    assert_eq!(kept.billed_tenths, 1);
    assert_eq!(kept.note, "Call");
    assert!(app.editing_entry.is_none());

    app.begin_edit_entry_at(session.id, day);
    app.edit_tenths = 5;
    let noon_time = tenth::calendar::Timestamp { secs: 1_787_745_600, nanos: 0 };
    app.save_entry_edit_at(day, tenth::calendar::LocalTime::Single(noon_time));
    assert_eq!(app.data.entries[0].started_at, noon_time);
    assert_eq!(app.data.entries[0].billed_tenths, 5);
    assert_eq!(app.data.entries[0].elapsed_seconds, 1800);
}

#[test]
fn manual_entries_start_at_the_resolved_noon() {
    let a = project("Alpha");
    let mut data = TrackerData::default();
    data.projects = vec![a.clone()];
    let mut app = app_with(data, date(2026, 8, 26));
    app.manual_tenths = 15;
    app.manual_note = "  Review ".to_string();
    let noon = tenth::calendar::Timestamp { secs: 1_787_745_600, nanos: 0 };
    let later = tenth::calendar::Timestamp { secs: 1_787_749_200, nanos: 0 };
    let saved = app.add_manual_entry_at(77, tenth::calendar::LocalTime::Ambiguous(noon, later));
    assert!(saved.unwrap().starts_with("Added 1.5 h on "));
    let e = &app.data.entries[0];
    assert_eq!(e.id, 77);
    assert_eq!(e.project_id, a.id);
    assert_eq!(e.started_at, noon);
    assert_eq!(e.elapsed_seconds, 15 * 360);
    assert_eq!(e.note, "Review");
    assert!(app.manual_note.is_empty());
    app.manual_note = "kept".to_string();
    assert_eq!(app.add_manual_entry_at(78, tenth::calendar::LocalTime::Nonexistent), None);
    assert_eq!(app.data.entries.len(), 1);
    assert_eq!(app.manual_note, "kept");
}

#[test]
fn grid_clicks_follow_the_given_local_dates() {
    let (mut app, a, b) = sample_week();
    let dates: Vec<Date> = vec![
        date(2026, 8, 26),
        date(2026, 8, 26),
        date(2026, 8, 22),
        date(2026, 8, 28),
        date(2026, 8, 29),
    ];
    app.select_grid_cell_at(a.id, 4, &dates);
    assert_eq!(app.entry_picker_cell, Some((a.id, 4)));
    app.finish_picker(None, false);
    app.select_grid_cell_at(b.id, 0, &dates);
    assert_eq!(app.editing_entry, Some(app.data.entries[2].id));
    assert_eq!(app.edit_week_start, date(2026, 8, 22));
    assert_eq!(app.edit_day, 0);
    let before_picker = app.entry_picker_cell;
    app.select_grid_cell_at(b.id, 3, &dates);
    assert_eq!(app.entry_picker_cell, before_picker);
}

#[test]
fn elapsed_time_never_runs_backwards() {
    let start = tenth::calendar::Timestamp { secs: 1_000, nanos: 500_000_000 };
    let later = tenth::calendar::Timestamp { secs: 1_090, nanos: 400_000_000 };
    let earlier = tenth::calendar::Timestamp { secs: 900, nanos: 0 };
    assert_eq!(tenth::tracker::elapsed_since(&start, &later), 89);
    assert_eq!(tenth::tracker::elapsed_since(&start, &earlier), 0);
}

#[test]
fn report_file_names_write_dates_as_chrono_does() {
    let mut app = app_with(TrackerData::default(), date(2026, 8, 26));
    for d in [
        chrono::NaiveDate::from_ymd_opt(2026, 8, 22).unwrap(),
        chrono::NaiveDate::from_ymd_opt(999, 1, 5).unwrap(),
        chrono::NaiveDate::from_ymd_opt(0, 12, 31).unwrap(),
        chrono::NaiveDate::from_ymd_opt(-5, 3, 1).unwrap(),
        chrono::NaiveDate::from_ymd_opt(12_345, 11, 30).unwrap(),
        chrono::NaiveDate::MIN,
        chrono::NaiveDate::MAX,
    ] {
        app.week_start = Date { days_from_ce: d.num_days_from_ce() };
        assert_eq!(app.report_file_name(), format!("week-{}.csv", d.format("%Y-%m-%d")));
    }
    assert_eq!(
        tenth::calendar::civil_parts(Date { days_from_ce: chrono::NaiveDate::from_ymd_opt(-5, 3, 1).unwrap().num_days_from_ce() }),
        (-5, 3, 1)
    );
}

#[test]
fn only_the_edited_entry_needs_a_readable_local_date() {
    let a = project("Alpha");
    let mut data = TrackerData::default();
    let mut edge = entry(&a, date(2026, 8, 26), 1, "");
    edge.started_at = tenth::calendar::Timestamp { secs: tenth::calendar::MIN_TIMESTAMP, nanos: 0 };
    let normal = entry(&a, date(2026, 8, 26), 2, "ok");
    data.entries = vec![normal.clone(), edge.clone()];
    let app = app_with(data, date(2026, 8, 26));
    assert!(app.can_read_local_date(normal.id));
    assert!(!app.can_read_local_date(edge.id));
    assert!(app.can_read_local_date(999));
}
