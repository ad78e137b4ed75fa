//! The tracker's state between frames and the decisions taken on each user
//! action. The desktop shell draws the state, performs the file writes an
//! action asks for, and reports their outcome back.

use vstd::prelude::*;
use crate::calendar::{
    days_from_saturday, today_local, offset_from_saturday, saturday_of, week_start_of, Date,
    MAX_DAY, MIN_DAY, UNIX_EPOCH_DAY,
};
use crate::calendar::{
    clock_now, format_date, formatted_date, iso_date_text, local_day, near_noon, noon_on, noon_resolved,
    seconds_between, seconds_since, shifted, leap_adjust, LocalTime, Timestamp,
};
use crate::menu::MenuBarAction;
use crate::model::{
    is_random_id, new_id, manual_tenths, manual_tenths_in_range, manual_values_kept, noon_fits, noon_read, earliest, push_tenths, session_seconds, tenths_for,
    tenths_text, ActiveTimer, Project, TimeEntry, TrackerData,
};
use crate::report::{
    csv_text, cell_tenths, day_of_week, in_week, day_column_tenths, day_positions, day_tenths, grid_projects, project_day_positions,
    lemma_day_positions_bounded, project_week_tenths, summary_text, tenths_on_day, week_csv_text,
    week_day_totals, week_entry_positions, week_grid_rows, week_positions, week_summary_text,
    week_tenths, week_total_tenths, week_day, GridRow, cell, week_grand_total,
    lemma_grid_totals_agree, projects_week_tenths,
};
use crate::order::{
    lemma_newest_first_permutes, lemma_sorted_by_name_permutes, newest_first, sort_entries_newest_first,
    sort_projects_by_name, sorted_by_name,
};
use crate::report::{name_of, project_name_of};
use crate::storage::Storage;
use crate::text::{eq_ignore_ascii_case, push_str, same_ignoring_ascii_case, string_of, trim, trimmed};

verus! {

/// The two screens of the tracker.
#[derive(Clone, Copy, Debug, PartialEq, Eq, Structural)]
pub enum Screen {
    Track,
    Week,
}

/// The tracker: its data, where it is stored, and what the screens are
/// showing or editing.
pub struct HourTrackerApp {
    pub data: TrackerData,
    pub storage: Storage,
    pub selected_project: Option<u128>,
    pub new_project_name: String,
    pub adding_project: bool,
    pub view: Screen,
    pub week_start: Date,
    pub manual_day: usize,
    pub manual_tenths: i64,
    pub manual_note: String,
    pub timer_note: String,
    pub editing_entry: Option<u128>,
    pub edit_project: Option<u128>,
    pub edit_day: usize,
    pub edit_week_start: Date,
    pub edit_tenths: i64,
    pub edit_note: String,
    pub entry_picker_cell: Option<(u128, u64)>,
    pub status: Option<(String, bool)>,
    pub compact_requested: bool,
    pub compact_window_away: bool,
}

/// The project selected when the tracker opens: the running timer's, else
/// the first project's.
pub open spec fn initial_selection(data: TrackerData) -> Option<u128> {
    match data.active_timer {
        Some(t) => Some(t.project_id),
        None => if data.projects@.len() > 0 {
            Some(data.projects@[0].id)
        } else {
            None
        },
    }
}

/// The tracker showing the week that starts `days` days after the one it
/// shows, all else unchanged.
pub open spec fn week_shifted(app: HourTrackerApp, days: int) -> HourTrackerApp {
    HourTrackerApp {
        week_start: Date { days_from_ce: (app.week_start.days_from_ce + days) as i32 },
        ..app
    }
}

/// The tracker as it opens on `today` with what was loaded from storage:
/// on a load error, empty data and the error as status. The running
/// timer's project (else the first project) is selected, the timer note is
/// the running timer's, the timesheet shows the week of `today`, and every
/// form and the editor start empty.
pub open spec fn opened(
    app: HourTrackerApp,
    storage: Storage,
    loaded: Result<TrackerData, String>,
    today: Date,
) -> bool {
    &&& app.storage == storage
    &&& loaded matches Ok(data) ==> app.data == data && app.status is None
    &&& loaded matches Err(error) ==> {
        &&& app.data.projects@.len() == 0
        &&& app.data.entries@.len() == 0
        &&& app.data.active_timer is None
        &&& !app.data.dark_mode
        &&& app.status == Some((error, true))
    }
    &&& app.selected_project == initial_selection(app.data)
    &&& app.timer_note@ == (match app.data.active_timer {
        Some(t) => t.note@,
        None => Seq::empty(),
    })
    &&& app.new_project_name@ == Seq::<char>::empty()
    &&& !app.adding_project
    &&& app.view == Screen::Track
    &&& app.week_start.days_from_ce == week_start_of(today.days_from_ce as int)
    &&& app.manual_day == offset_from_saturday(today.days_from_ce as int)
    &&& app.manual_tenths == 1
    &&& app.manual_note@ == Seq::<char>::empty()
    &&& app.editing_entry is None
    &&& app.edit_project is None
    &&& app.edit_day == 0
    &&& app.edit_week_start == app.week_start
    &&& app.edit_tenths == 1
    &&& app.edit_note@ == Seq::<char>::empty()
    &&& app.entry_picker_cell is None
    &&& !app.compact_requested
    &&& !app.compact_window_away
}

impl HourTrackerApp {
    /// The stored instants are representable and the shown weeks start on
    /// representable dates.
    pub open spec fn wf(self) -> bool {
        &&& self.data.wf()
        &&& self.week_start.wf()
        &&& self.edit_week_start.wf()
    }

    /// The tracker as it opens on `today` with what was loaded from storage:
    /// on a load error, empty data and the error as status. The running
    /// timer's project (else the first project) is selected, the timer note
    /// is the running timer's, and the timesheet shows today's week.
    pub fn new(storage: Storage, loaded: Result<TrackerData, String>, today: Date) -> (app: Self)
        requires
            today.wf(),
            week_start_of(today.days_from_ce as int) >= MIN_DAY,
            loaded matches Ok(data) ==> data.wf(),
        ensures
            app.wf(),
            opened(app, storage, loaded, today),
    {
        let (data, status) = match loaded {
            Ok(data) => (data, None),
            Err(error) => (TrackerData::default(), Some((error, true))),
        };
        let selected_project = match &data.active_timer {
            Some(timer) => Some(timer.project_id),
            None => if data.projects.len() > 0 {
                Some(data.projects[0].id)
            } else {
                None
            },
        };
        let timer_note = match &data.active_timer {
            Some(timer) => timer.note.clone(),
            None => String::new(),
        };
        let week_start = saturday_of(today);
        HourTrackerApp {
            data,
            storage,
            selected_project,
            new_project_name: String::new(),
            adding_project: false,
            view: Screen::Track,
            week_start,
            manual_day: days_from_saturday(today) as usize,
            manual_tenths: 1,
            manual_note: String::new(),
            timer_note,
            editing_entry: None,
            edit_project: None,
            edit_day: 0,
            edit_week_start: week_start,
            edit_tenths: 1,
            edit_note: String::new(),
            entry_picker_cell: None,
            status,
            compact_requested: false,
            compact_window_away: false,
        }
    }

    /// The tracker as it opens today, in the machine's time zone.
    pub fn open(storage: Storage, loaded: Result<TrackerData, String>) -> (app: Self)
        requires
            loaded matches Ok(data) ==> data.wf(),
        ensures
            app.wf(),
            exists|today: Date|
                {
                    &&& #[trigger] today.wf()
                    &&& call_ensures(today_local, (), today)
                    &&& today.days_from_ce >= UNIX_EPOCH_DAY - 1
                    &&& opened(app, storage, loaded, today)
                },
    {
        let today = today_local();
        HourTrackerApp::new(storage, loaded, today)
    }

    /// Records how saving went: the action's message, or the error.
    pub fn record_save(&mut self, message: String, outcome: Result<(), String>)
        ensures
            outcome is Ok ==> final(self).status == Some((message, false)),
            outcome matches Err(error) ==> final(self).status == Some((error, true)),
            *final(self) == (HourTrackerApp { status: final(self).status, ..*old(self) }),
    {
        self.status = match outcome {
            Ok(()) => Some((message, false)),
            Err(error) => Some((error, true)),
        };
    }

    /// The name of a project, or `Unknown project`.
    pub fn project_name(&self, id: u128) -> (name: &str)
        ensures
            name@ == name_of(self.data.projects@, id),
    {
        project_name_of(&self.data.projects, id)
    }

    /// Switches between the light and dark theme; returns the message to
    /// save with.
    pub fn toggle_theme(&mut self) -> (message: String)
        ensures
            final(self).data.dark_mode == !old(self).data.dark_mode,
            final(self).data == (TrackerData { dark_mode: !old(self).data.dark_mode, ..old(self).data }),
            *final(self) == (HourTrackerApp { data: final(self).data, ..*old(self) }),
            message@ == (if final(self).data.dark_mode {
                "Dark theme enabled"@
            } else {
                "Light theme enabled"@
            }),
    {
        self.data.dark_mode = !self.data.dark_mode;
        if self.data.dark_mode {
            String::from_str("Dark theme enabled")
        } else {
            String::from_str("Light theme enabled")
        }
    }

    /// Shows the week before.
    pub fn previous_week(&mut self)
        requires
            old(self).week_start.wf(),
            old(self).week_start.days_from_ce - 7 >= MIN_DAY,
        ensures
            *final(self) == week_shifted(*old(self), -7),
            final(self).week_start.wf(),
    {
        self.week_start = self.week_start.minus_days(7);
    }

    /// Shows the week after.
    pub fn next_week(&mut self)
        requires
            old(self).week_start.wf(),
            old(self).week_start.days_from_ce + 7 <= MAX_DAY,
        ensures
            *final(self) == week_shifted(*old(self), 7),
            final(self).week_start.wf(),
    {
        self.week_start = self.week_start.plus_days(7);
    }

    /// Shows the week that contains `today`.
    pub fn show_week_of(&mut self, today: Date)
        requires
            today.wf(),
            week_start_of(today.days_from_ce as int) >= MIN_DAY,
        ensures
            final(self).week_start.days_from_ce == week_start_of(today.days_from_ce as int),
            final(self).week_start.wf(),
            *final(self) == (HourTrackerApp { week_start: final(self).week_start, ..*old(self) }),
    {
        self.week_start = saturday_of(today);
    }

    /// Shows this week, in the machine's time zone.
    pub fn this_week(&mut self)
        ensures
            exists|today: Date|
                {
                    &&& #[trigger] today.wf()
                    &&& call_ensures(today_local, (), today)
                    &&& today.days_from_ce >= UNIX_EPOCH_DAY - 1
                    &&& final(self).week_start.days_from_ce == week_start_of(
                        today.days_from_ce as int,
                    )
                },
            offset_from_saturday(final(self).week_start.days_from_ce as int) == 0,
            final(self).week_start.wf(),
            *final(self) == (HourTrackerApp { week_start: final(self).week_start, ..*old(self) }),
    {
        let today = today_local();
        self.show_week_of(today);
    }
}

/// Some project already bears `name`, ignoring the case of ASCII letters.
pub open spec fn name_taken(projects: Seq<Project>, name: Seq<char>) -> bool {
    exists|i: int|
        0 <= i < projects.len() && same_ignoring_ascii_case(#[trigger] projects[i].name@, name)
}

/// What starting the timer did: nothing while a timer runs or when no
/// project is selected; otherwise a timer runs on the selected project since
/// a representable instant, with the trimmed timer note, and the message to
/// save with is `Timer started`.
pub open spec fn timer_started(
    before: HourTrackerApp,
    after: HourTrackerApp,
    saved: Option<String>,
) -> bool {
    if before.data.active_timer is Some || before.selected_project is None {
        after == before && saved is None
    } else {
        &&& after.data.active_timer matches Some(timer) && {
            &&& Some(timer.project_id) == before.selected_project
            &&& timer.note@ == trimmed(before.timer_note@)
            &&& timer.started_at.wf()
            &&& call_ensures(clock_now, (), timer.started_at)
            &&& timer.started_at.secs >= 0
        }
        &&& saved matches Some(message) && message@ == "Timer started"@
        &&& after.data == (TrackerData { active_timer: after.data.active_timer, ..before.data })
        &&& after == (HourTrackerApp { data: after.data, ..before })
    }
}

/// What stopping the timer did: nothing when no timer ran; otherwise the
/// timer is gone and one entry joined the others, newest first: a session
/// of the timer's project from its start to the instant the clock read at
/// the stop, billed in
/// tenths rounded up, with the timer's note. The timer note field is
/// cleared, the compact timer dismissed, and the message to save with is
/// `Entry saved`.
pub open spec fn timer_stopped(
    before: HourTrackerApp,
    after: HourTrackerApp,
    saved: Option<String>,
) -> bool {
    match before.data.active_timer {
        None => after == before && saved is None,
        Some(timer) => exists|entry: TimeEntry|
            {
                &&& #[trigger] is_random_id(entry.id)
                &&& entry.project_id == timer.project_id
                &&& entry.started_at == timer.started_at
                &&& call_ensures(clock_now, (), entry.ended_at)
                &&& entry.ended_at.wf()
                &&& entry.ended_at.secs >= 0
                &&& entry.elapsed_seconds == session_seconds(timer.started_at, entry.ended_at)
                &&& entry.billed_tenths == tenths_for(entry.elapsed_seconds as int)
                &&& entry.note == timer.note
                &&& after.data.entries@ == newest_first(before.data.entries@.push(entry))
                &&& after.data == (TrackerData {
                    entries: after.data.entries,
                    active_timer: None,
                    ..before.data
                })
                &&& after.timer_note@ == Seq::<char>::empty()
                &&& saved matches Some(message) && message@ == "Entry saved"@
                &&& after == (HourTrackerApp {
                    data: after.data,
                    timer_note: after.timer_note,
                    compact_requested: false,
                    ..before
                })
            },
    }
}

proof fn lemma_sorted_projects_wf(s: Seq<Project>)
    requires
        forall|i: int| 0 <= i < s.len() ==> (#[trigger] s[i]).created_at.wf(),
    ensures
        sorted_by_name(s).len() == s.len(),
        forall|i: int|
            0 <= i < sorted_by_name(s).len() ==> (#[trigger] sorted_by_name(s)[i]).created_at.wf(),
{
    broadcast use vstd::seq_lib::group_to_multiset_ensures;

    lemma_sorted_by_name_permutes(s);
    let r = sorted_by_name(s);
    assert(r.len() == r.to_multiset().len());
    assert forall|i: int| 0 <= i < r.len() implies (#[trigger] r[i]).created_at.wf() by {
        assert(r.contains(r[i]));
        assert(r.to_multiset().count(r[i]) > 0);
        assert(s.to_multiset().count(r[i]) > 0);
        assert(s.contains(r[i]));
    }
}

proof fn lemma_sorted_entries_wf(s: Seq<TimeEntry>)
    requires
        forall|i: int| 0 <= i < s.len() ==> (#[trigger] s[i]).wf(),
    ensures
        newest_first(s).len() == s.len(),
        forall|i: int| 0 <= i < newest_first(s).len() ==> (#[trigger] newest_first(s)[i]).wf(),
{
    broadcast use vstd::seq_lib::group_to_multiset_ensures;

    lemma_newest_first_permutes(s);
    let r = newest_first(s);
    assert(r.len() == r.to_multiset().len());
    assert forall|i: int| 0 <= i < r.len() implies (#[trigger] r[i]).wf() by {
        assert(r.contains(r[i]));
        assert(r.to_multiset().count(r[i]) > 0);
        assert(s.to_multiset().count(r[i]) > 0);
        assert(s.contains(r[i]));
    }
}

impl HourTrackerApp {
    /// Creates the project named in the new-project field (trimmed) and
    /// selects it, keeping projects sorted by lower-cased name; returns the
    /// message to save with. A blank name does nothing; a name that another
    /// project bears, ignoring ASCII case, is refused with an error status.
    pub fn add_project(&mut self) -> (saved: Option<String>)
        requires
            old(self).wf(),
        ensures
            final(self).wf(),
            trimmed(old(self).new_project_name@).len() == 0 ==> *final(self) == *old(self) && saved is None,
            trimmed(old(self).new_project_name@).len() > 0 && name_taken(
                old(self).data.projects@,
                trimmed(old(self).new_project_name@),
            ) ==> {
                &&& saved is None
                &&& final(self).status matches Some((message, is_error)) && is_error && message@
                    == "That project already exists."@
                &&& *final(self) == (HourTrackerApp { status: final(self).status, ..*old(self) })
            },
            trimmed(old(self).new_project_name@).len() > 0 && !name_taken(
                old(self).data.projects@,
                trimmed(old(self).new_project_name@),
            ) ==> exists|p: Project|
                {
                    &&& p.name@ == trimmed(old(self).new_project_name@)
                    &&& is_random_id(p.id)
                    &&& p.created_at.wf()
                    &&& final(self).data.projects@ == sorted_by_name(old(self).data.projects@.push(p))
                    &&& final(self).selected_project == Some(p.id)
                    &&& final(self).new_project_name@ == Seq::<char>::empty()
                    &&& saved matches Some(message) && message@ == "Project added"@
                    &&& final(self).data == (TrackerData {
                        projects: final(self).data.projects,
                        ..old(self).data
                    })
                    &&& *final(self) == (HourTrackerApp {
                        data: final(self).data,
                        selected_project: final(self).selected_project,
                        new_project_name: final(self).new_project_name,
                        adding_project: false,
                        ..*old(self)
                    })
                },
    {
        let name = trim(self.new_project_name.as_str());
        if name.as_str().is_empty() {
            return None;
        }
        let mut i: usize = 0;
        while i < self.data.projects.len()
            invariant
                *self == *old(self),
                old(self).wf(),
                name@.len() > 0,
                i <= self.data.projects@.len(),
                name@ == trimmed(self.new_project_name@),
                forall|k: int|
                    0 <= k < i ==> !same_ignoring_ascii_case(
                        #[trigger] self.data.projects@[k].name@,
                        name@,
                    ),
            decreases self.data.projects@.len() - i,
        {
            if eq_ignore_ascii_case(self.data.projects[i].name.as_str(), name.as_str()) {
                self.status = Some((String::from_str("That project already exists."), true));
                return None;
            }
            i = i + 1;
        }
        assert(!name_taken(old(self).data.projects@, name@));
        let project = Project::new(name);
        let ghost added = project;
        self.selected_project = Some(project.id);
        self.data.projects.push(project);
        proof {
            lemma_sorted_projects_wf(old(self).data.projects@.push(added));
        }
        sort_projects_by_name(&mut self.data.projects);
        self.new_project_name = String::new();
        self.adding_project = false;
        let saved = String::from_str("Project added");
        assert(self.data.wf());
        assert(self.data == (TrackerData { projects: self.data.projects, ..old(self).data }));
        Some(saved)
    }

    /// Starts timing the selected project now, with the trimmed timer note;
    /// returns the message to save with. Nothing happens while a timer runs
    /// or when no project is selected: only one timer runs at a time.
    pub fn start_timer(&mut self) -> (saved: Option<String>)
        requires
            old(self).wf(),
        ensures
            final(self).wf(),
            timer_started(*old(self), *final(self), saved),
    {
        if self.data.active_timer.is_some() {
            return None;
        }
        let project_id = match self.selected_project {
            Some(id) => id,
            None => {
                return None;
            },
        };
        let note = trim(self.timer_note.as_str());
        self.data.active_timer = Some(ActiveTimer { project_id, started_at: clock_now(), note });
        Some(String::from_str("Timer started"))
    }

    /// Stops the running timer and saves it as an entry, with the timer's
    /// note, keeping entries newest first; returns the message to save with.
    /// Nothing happens when no timer runs.
    pub fn stop_timer(&mut self) -> (saved: Option<String>)
        requires
            old(self).wf(),
        ensures
            final(self).wf(),
            timer_stopped(*old(self), *final(self), saved),
    {
        let timer = match self.data.active_timer.take() {
            Some(timer) => timer,
            None => {
                return None;
            },
        };
        let now = clock_now();
        let mut entry = TimeEntry::from_session(timer.project_id, timer.started_at, now);
        entry.note = timer.note;
        let ghost added = entry;
        self.data.entries.push(entry);
        proof {
            lemma_sorted_entries_wf(old(self).data.entries@.push(added));
        }
        self.timer_note = String::new();
        self.compact_requested = false;
        sort_entries_newest_first(&mut self.data.entries);
        let saved = String::from_str("Entry saved");
        assert(self.data.entries@ == newest_first(old(self).data.entries@.push(added)));
        assert(self.data == (TrackerData {
            entries: self.data.entries,
            active_timer: None,
            ..old(self).data
        }));
        assert(added.note == timer.note);
        assert(self.timer_note@ == Seq::<char>::empty());
        assert(*self == (HourTrackerApp {
            data: self.data,
            timer_note: self.timer_note,
            compact_requested: false,
            ..*old(self)
        }));
        assert(added.elapsed_seconds == session_seconds(timer.started_at, added.ended_at));
        assert(is_random_id(added.id));
        Some(saved)
    }

    /// Keeps entries newest first.
    pub fn sort_entries(&mut self)
        requires
            old(self).wf(),
        ensures
            final(self).wf(),
            final(self).data.entries@ == newest_first(old(self).data.entries@),
            final(self).data == (TrackerData { entries: final(self).data.entries, ..old(self).data }),
            *final(self) == (HourTrackerApp { data: final(self).data, ..*old(self) }),
    {
        proof {
            lemma_sorted_entries_wf(old(self).data.entries@);
        }
        sort_entries_newest_first(&mut self.data.entries);
    }
}

/// Every entry started at an instant whose local date, and the week around
/// it, can be represented.
pub open spec fn entries_local_safe(entries: Seq<TimeEntry>) -> bool {
    forall|i: int| 0 <= i < entries.len() ==> (#[trigger] entries[i]).started_at.local_safe()
}

/// `d` can be the local date of the instant `t`: a representable date at
/// most one day from its UTC date.
pub open spec fn local_date_near(t: Timestamp, d: Date) -> bool {
    &&& d.wf()
    &&& t.utc_day() - 1 <= d.days_from_ce <= t.utc_day() + 1
}

/// `dates` are the local dates of `entries`, one for each, as `local_day`
/// reads them from each entry's start.
pub open spec fn local_dates_fit(entries: Seq<TimeEntry>, dates: Seq<Date>) -> bool {
    &&& dates.len() == entries.len()
    &&& forall|i: int|
        0 <= i < dates.len() ==> local_date_near(entries[i].started_at, #[trigger] dates[i])
            && call_ensures(local_day, (entries[i].started_at,), dates[i])
}

proof fn lemma_lone_entry_cells(
    entries: Seq<TimeEntry>,
    dates: Seq<Date>,
    start: Date,
    i: int,
    d: int,
    n: int,
)
    requires
        dates.len() == entries.len(),
        0 <= i < entries.len(),
        0 <= n <= entries.len(),
        0 <= d < 7,
        forall|j: int|
            0 <= j < entries.len() && j != i && entries[j].project_id == entries[i].project_id
                ==> !in_week(#[trigger] dates[j], start),
    ensures
        cell_tenths(entries, dates, start, entries[i].project_id, d, n) == (if i < n && d
            == day_of_week(dates[i], start) {
            entries[i].billed_tenths as int
        } else {
            0
        }),
    decreases n,
{
    if n > 0 {
        lemma_lone_entry_cells(entries, dates, start, i, d, n - 1);
        if n - 1 != i && entries[n - 1].project_id == entries[i].project_id {
            assert(!in_week(dates[n - 1], start));
        }
    }
}

/// The timesheet dates an entry by the local date of its start, as the
/// machine's time zone reads it (`local_day`), and counts it in that day's
/// column and no other: with the entries' local dates as the reports read
/// them, a project whose only entry in the week is `i` bills that entry's
/// tenths in the column of its local start date and nothing on the other
/// days.
pub proof fn lemma_entry_counts_on_its_local_day(
    entries: Seq<TimeEntry>,
    dates: Seq<Date>,
    start: Date,
    i: int,
)
    requires
        local_dates_fit(entries, dates),
        0 <= i < entries.len(),
        in_week(dates[i], start),
        forall|j: int|
            0 <= j < entries.len() && j != i && entries[j].project_id == entries[i].project_id
                ==> !in_week(#[trigger] dates[j], start),
    ensures
        call_ensures(local_day, (entries[i].started_at,), dates[i]),
        forall|d: int|
            0 <= d < 7 ==> #[trigger] cell(entries, dates, start, entries[i].project_id, d) == (if d
                == dates[i].days_from_ce - start.days_from_ce {
                entries[i].billed_tenths as int
            } else {
                0
            }),
        project_week_tenths(entries, dates, start, entries[i].project_id)
            == entries[i].billed_tenths,
{
    assert forall|d: int| 0 <= d < 7 implies #[trigger] cell(
        entries,
        dates,
        start,
        entries[i].project_id,
        d,
    ) == (if d == dates[i].days_from_ce - start.days_from_ce {
        entries[i].billed_tenths as int
    } else {
        0
    }) by {
        lemma_lone_entry_cells(entries, dates, start, i, d, entries.len() as int);
    }
    let p = entries[i].project_id;
    assert(cell(entries, dates, start, p, 0) + cell(entries, dates, start, p, 1) + cell(
        entries,
        dates,
        start,
        p,
        2,
    ) + cell(entries, dates, start, p, 3) + cell(entries, dates, start, p, 4) + cell(
        entries,
        dates,
        start,
        p,
        5,
    ) + cell(entries, dates, start, p, 6) == entries[i].billed_tenths);
}

/// The local date of each entry, in the machine's time zone.
pub fn local_dates(entries: &Vec<TimeEntry>) -> (dates: Vec<Date>)
    requires
        entries_local_safe(entries@),
    ensures
        local_dates_fit(entries@, dates@),
{
    let mut dates: Vec<Date> = Vec::new();
    let n = entries.len();
    let mut i: usize = 0;
    while i < n
        invariant
            i <= n == entries@.len(),
            entries_local_safe(entries@),
            dates@.len() == i,
            forall|k: int|
                0 <= k < i ==> local_date_near(entries@[k].started_at, #[trigger] dates@[k])
                    && call_ensures(local_day, (entries@[k].started_at,), dates@[k]),
        decreases n - i,
    {
        let d = local_day(entries[i].started_at);
        dates.push(d);
        i = i + 1;
    }
    dates
}

/// Whether every entry's start is far enough from the ends of time to have
/// a local date and week.
pub fn all_local_safe(entries: &Vec<TimeEntry>) -> (safe: bool)
    ensures
        safe == entries_local_safe(entries@),
{
    let mut i: usize = 0;
    while i < entries.len()
        invariant
            i <= entries@.len(),
            forall|k: int| 0 <= k < i ==> (#[trigger] entries@[k]).started_at.local_safe(),
        decreases entries@.len() - i,
    {
        let t = entries[i].started_at;
        if !(t.is_wf() && -8_334_601_142_400 <= t.secs && t.secs <= 8_210_266_790_399) {
            return false;
        }
        i = i + 1;
    }
    true
}

/// The position of the first entry with identifier `id`; the number of
/// entries when there is none.
pub open spec fn entry_index(entries: Seq<TimeEntry>, id: u128) -> int
    decreases entries.len(),
{
    if entries.len() == 0 {
        0
    } else if entries[0].id == id {
        0
    } else {
        1 + entry_index(entries.drop_first(), id)
    }
}

/// The first entry with an identifier is the one found by scanning from the
/// start.
pub proof fn lemma_entry_index(entries: Seq<TimeEntry>, id: u128)
    ensures
        0 <= entry_index(entries, id) <= entries.len(),
        entry_index(entries, id) < entries.len() ==> entries[entry_index(entries, id)].id == id,
        forall|k: int| 0 <= k < entry_index(entries, id) ==> (#[trigger] entries[k]).id != id,
    decreases entries.len(),
{
    if entries.len() > 0 && entries[0].id != id {
        lemma_entry_index(entries.drop_first(), id);
        assert forall|k: int| 0 <= k < entry_index(entries, id) implies (#[trigger] entries[k]).id
            != id by {
            if k > 0 {
                assert(entries[k] == entries.drop_first()[k - 1]);
            }
        }
    }
}

/// Finds the first entry with identifier `id`.
pub fn find_entry(entries: &Vec<TimeEntry>, id: u128) -> (k: usize)
    ensures
        k == entry_index(entries@, id),
{
    let mut i: usize = 0;
    assert(entries@.skip(0) =~= entries@);
    while i < entries.len()
        invariant
            i <= entries@.len(),
            entry_index(entries@, id) == i + entry_index(entries@.skip(i as int), id),
        decreases entries@.len() - i,
    {
        proof {
            let rest = entries@.skip(i as int);
            assert(rest.drop_first() =~= entries@.skip(i + 1));
            assert(rest[0] == entries@[i as int]);
        }
        if entries[i].id == id {
            return i;
        }
        i = i + 1;
    }
    assert(entries@.skip(i as int).len() == 0);
    i
}

/// The outcome of opening the editor on the entry with identifier `id`:
/// when there is such an entry (the first), the editor holds its project,
/// its local date as a week and a day, its tenths and its note.
pub open spec fn edit_begun(before: HourTrackerApp, after: HourTrackerApp, id: u128) -> bool {
    let entries = before.data.entries@;
    let k = entry_index(entries, id);
    if k == entries.len() {
        after == before
    } else {
        exists|d: Date|
            #[trigger] local_date_near(entries[k].started_at, d) && call_ensures(
                local_day,
                (entries[k].started_at,),
                d,
            ) && edit_begun_on(before, after, id, d)
    }
}

/// The outcome of opening the editor on the first entry with identifier
/// `id`, read as lying on the local date `d`: the editor holds its project,
/// `d` as a week and a day, its tenths and its note. Nothing changes when
/// there is no such entry.
pub open spec fn edit_begun_on(before: HourTrackerApp, after: HourTrackerApp, id: u128, d: Date) -> bool {
    let entries = before.data.entries@;
    let k = entry_index(entries, id);
    if k == entries.len() {
        after == before
    } else {
        after == (HourTrackerApp {
            editing_entry: Some(entries[k].id),
            edit_project: Some(entries[k].project_id),
            edit_week_start: Date { days_from_ce: week_start_of(d.days_from_ce as int) as i32 },
            edit_day: offset_from_saturday(d.days_from_ce as int) as usize,
            edit_tenths: entries[k].billed_tenths,
            edit_note: entries[k].note,
            entry_picker_cell: None,
            ..before
        })
    }
}

/// The first entry with identifier `id`, when there is one, started far
/// enough from the ends of time for its local date to be representable.
pub open spec fn entry_local_safe(entries: Seq<TimeEntry>, id: u128) -> bool {
    entry_index(entries, id) < entries.len() ==> entries[entry_index(entries, id)].started_at.local_safe()
}

/// The first entry with identifier `id`, when there is one, started far
/// enough from the earliest instant for its work week to be representable.
pub open spec fn entry_week_safe(entries: Seq<TimeEntry>, id: u128) -> bool {
    entry_index(entries, id) < entries.len() ==> entries[entry_index(entries, id)].started_at.week_safe()
}

/// `after` is `before` as the entry editor saved it: same identity, the
/// chosen project and note; its timing unchanged when its local start date
/// is the chosen day and it already bills the chosen tenths, else moved to
/// local noon of that day with those tenths (or unchanged when that noon
/// cannot start it).
pub open spec fn entry_edited(
    before: TimeEntry,
    after: TimeEntry,
    project: u128,
    day: Date,
    requested: int,
    note: Seq<char>,
) -> bool {
    let same_timing = after.started_at == before.started_at && after.ended_at == before.ended_at
        && after.elapsed_seconds == before.elapsed_seconds && after.billed_tenths
        == before.billed_tenths;
    &&& after.id == before.id
    &&& after.project_id == project
    &&& after.note@ == note
    &&& exists|current: Date|
        {
            &&& #[trigger] local_date_near(before.started_at, current)
            &&& manual_values_kept(before, current, day, requested) ==> same_timing
            &&& !manual_values_kept(before, current, day, requested) ==> same_timing || (near_noon(
                after.started_at,
                day.days_from_ce as int,
            ) && after.billed_tenths == manual_tenths(requested) && after.elapsed_seconds
                == after.billed_tenths * 360 && Some(after.ended_at) == shifted(
                after.started_at,
                after.elapsed_seconds as int,
            ))
        }
}

/// The tracker after the shell saw the main window: while the compact timer
/// is asked for, a window that is minimized or unfocused is away; a window
/// seen back after being away ends the compact request.
pub open spec fn window_seen(app: HourTrackerApp, minimized: bool, focused: bool) -> HourTrackerApp {
    if !app.compact_requested {
        app
    } else if minimized || !focused {
        HourTrackerApp { compact_window_away: true, ..app }
    } else if app.compact_window_away {
        HourTrackerApp { compact_requested: false, compact_window_away: false, ..app }
    } else {
        app
    }
}

/// The floating reminder shows: a timer runs, and the window is minimized or
/// the compact timer is asked for.
pub open spec fn reminder_shown(app: HourTrackerApp, minimized: bool) -> bool {
    app.data.active_timer is Some && (minimized || app.compact_requested)
}

/// What saving the entry editor did. With no entry or no project in the
/// editor, nothing. When the edited entry is gone, the editor closes. Else
/// the first entry with that identifier becomes the edited entry (see
/// `entry_edited`), entries stay newest first, the editor closes, and the
/// message to save with is `Entry updated`; nothing else changes.
pub open spec fn edit_saved(before: HourTrackerApp, after: HourTrackerApp, saved: Option<String>) -> bool {
    match (before.editing_entry, before.edit_project) {
        (Some(id), Some(project)) => {
            let entries = before.data.entries@;
            let k = entry_index(entries, id);
            if k == entries.len() {
                saved is None && after == (HourTrackerApp { editing_entry: None, ..before })
            } else {
                exists|edited: TimeEntry|
                    {
                        &&& entry_edited(
                            entries[k],
                            edited,
                            project,
                            Date {
                                days_from_ce: (before.edit_week_start.days_from_ce
                                    + before.edit_day) as i32,
                            },
                            before.edit_tenths as int,
                            trimmed(before.edit_note@),
                        )
                        &&& after.data.entries@ == newest_first(#[trigger] entries.update(k, edited))
                        &&& saved matches Some(message) && message@ == "Entry updated"@
                        &&& after.data == (TrackerData { entries: after.data.entries, ..before.data })
                        &&& after == (HourTrackerApp {
                            data: after.data,
                            editing_entry: None,
                            ..before
                        })
                    }
            }
        },
        _ => after == before && saved is None,
    }
}

/// `after` is `before` as the entry editor saved it, given that `before`
/// starts on the local date `current` and local noon of the chosen day
/// resolved as `noon`: same identity, the chosen project and note; its
/// timing unchanged when it already lies on the chosen day with the chosen
/// tenths, or when that noon cannot start it; else retimed to that noon (the
/// earlier instant when it occurs twice) with the chosen tenths.
pub open spec fn entry_edited_at(
    before: TimeEntry,
    after: TimeEntry,
    project: u128,
    day: Date,
    requested: int,
    note: Seq<char>,
    current: Date,
    noon: LocalTime,
) -> bool {
    &&& after.id == before.id
    &&& after.project_id == project
    &&& after.note@ == note
    &&& if manual_values_kept(before, current, day, requested) || !noon_fits(noon, requested) {
        &&& after.started_at == before.started_at
        &&& after.ended_at == before.ended_at
        &&& after.elapsed_seconds == before.elapsed_seconds
        &&& after.billed_tenths == before.billed_tenths
    } else {
        &&& after.started_at == earliest(noon)->0
        &&& after.billed_tenths == manual_tenths(requested)
        &&& after.elapsed_seconds == after.billed_tenths * 360
        &&& Some(after.ended_at) == shifted(after.started_at, after.elapsed_seconds as int)
    }
}

/// What saving the entry editor did, given the edited entry's local date
/// `current` and how local noon of the chosen day resolved: as `edit_saved`,
/// with the edited entry exactly as `entry_edited_at` gives it.
pub open spec fn edit_saved_at(
    before: HourTrackerApp,
    after: HourTrackerApp,
    saved: Option<String>,
    current: Date,
    noon: LocalTime,
) -> bool {
    match (before.editing_entry, before.edit_project) {
        (Some(id), Some(project)) => {
            let entries = before.data.entries@;
            let k = entry_index(entries, id);
            if k == entries.len() {
                saved is None && after == (HourTrackerApp { editing_entry: None, ..before })
            } else {
                exists|edited: TimeEntry|
                    {
                        &&& entry_edited_at(
                            entries[k],
                            edited,
                            project,
                            Date {
                                days_from_ce: (before.edit_week_start.days_from_ce
                                    + before.edit_day) as i32,
                            },
                            before.edit_tenths as int,
                            trimmed(before.edit_note@),
                            current,
                            noon,
                        )
                        &&& after.data.entries@ == newest_first(#[trigger] entries.update(k, edited))
                        &&& saved matches Some(message) && message@ == "Entry updated"@
                        &&& after.data == (TrackerData { entries: after.data.entries, ..before.data })
                        &&& after == (HourTrackerApp {
                            data: after.data,
                            editing_entry: None,
                            ..before
                        })
                    }
            }
        },
        _ => after == before && saved is None,
    }
}

proof fn lemma_edit_saved(
    before: HourTrackerApp,
    after: HourTrackerApp,
    saved: Option<String>,
    current: Date,
    noon: LocalTime,
)
    requires
        edit_saved_at(before, after, saved, current, noon),
        before.editing_entry is Some && before.edit_project is Some && entry_index(
            before.data.entries@,
            before.editing_entry->0,
        ) < before.data.entries@.len() ==> local_date_near(
            before.data.entries@[entry_index(
                before.data.entries@,
                before.editing_entry->0,
            )].started_at,
            current,
        ) && noon_resolved(noon, before.edit_week_start.days_from_ce + before.edit_day)
            && before.edit_week_start.days_from_ce + before.edit_day <= MAX_DAY,
    ensures
        edit_saved(before, after, saved),
{
    match (before.editing_entry, before.edit_project) {
        (Some(id), Some(project)) => {
            let entries = before.data.entries@;
            let k = entry_index(entries, id);
            lemma_entry_index(entries, id);
            if k < entries.len() {
                let day = Date {
                    days_from_ce: (before.edit_week_start.days_from_ce + before.edit_day) as i32,
                };
                let t = before.edit_tenths as int;
                let note = trimmed(before.edit_note@);
                let edited = choose|edited: TimeEntry|
                    {
                        &&& entry_edited_at(entries[k], edited, project, day, t, note, current, noon)
                        &&& after.data.entries@ == newest_first(#[trigger] entries.update(k, edited))
                        &&& saved matches Some(message) && message@ == "Entry updated"@
                        &&& after.data == (TrackerData { entries: after.data.entries, ..before.data })
                        &&& after == (HourTrackerApp {
                            data: after.data,
                            editing_entry: None,
                            ..before
                        })
                    };
                assert(day.days_from_ce == before.edit_week_start.days_from_ce + before.edit_day);
                assert(local_date_near(entries[k].started_at, current));
                assert(entry_edited(entries[k], edited, project, day, t, note));
            }
        },
        _ => {},
    }
}

/// What logging the manual-entry form did, for an entry with identifier
/// `id` and local noon of the chosen day resolved as `noon`. Nothing without
/// a selected project, or when that noon cannot start the entry. Else an
/// entry of the selected project joined the others, newest first: it starts
/// at that noon (the earlier instant when it occurs twice), lasts exactly
/// its tenths (at least one) and carries the trimmed note; the note field is
/// cleared, and the message to save with names the hours and the day.
pub open spec fn manual_entry_added(
    before: HourTrackerApp,
    after: HourTrackerApp,
    saved: Option<String>,
    id: u128,
    noon: LocalTime,
) -> bool {
    let requested = before.manual_tenths as int;
    let day = before.week_start.days_from_ce + before.manual_day;
    match before.selected_project {
        None => after == before && saved is None,
        Some(project) => if !noon_fits(noon, requested) {
            after == before && saved is None
        } else {
            exists|entry: TimeEntry|
                {
                    &&& entry.id == id
                    &&& entry.project_id == project
                    &&& entry.started_at == earliest(noon)->0
                    &&& entry.billed_tenths == manual_tenths(requested)
                    &&& entry.elapsed_seconds == entry.billed_tenths * 360
                    &&& Some(entry.ended_at) == shifted(entry.started_at, entry.elapsed_seconds as int)
                    &&& entry.note@ == trimmed(before.manual_note@)
                    &&& after.data.entries@ == newest_first(#[trigger] before.data.entries@.push(entry))
                    &&& saved matches Some(message) && message@ == "Added "@ + tenths_text(requested)
                        + " h on "@ + formatted_date(day, "%a %b %-d"@)
                    &&& after.manual_note@ == Seq::<char>::empty()
                    &&& after.data == (TrackerData { entries: after.data.entries, ..before.data })
                    &&& after == (HourTrackerApp {
                        data: after.data,
                        manual_note: after.manual_note,
                        ..before
                    })
                }
        },
    }
}

/// The whole seconds from `started_at` to `now`, and none when `now` comes
/// earlier.
pub open spec fn elapsed_seconds(started_at: Timestamp, now: Timestamp) -> int {
    let s = seconds_between(started_at, now);
    if s < 0 {
        0
    } else {
        s
    }
}

/// Computes the whole seconds from `started_at` to `now`, never negative.
pub fn elapsed_since(started_at: &Timestamp, now: &Timestamp) -> (elapsed: i64)
    requires
        started_at.wf(),
        now.wf(),
    ensures
        elapsed == elapsed_seconds(*started_at, *now),
{
    let seconds = seconds_since(started_at, now);
    if seconds < 0 {
        0
    } else {
        seconds
    }
}

/// What a click on the grid cell of `project_id` and `day` did, with the
/// entries' local dates `dates`: the entries of that project dated that day
/// decide. None: nothing; one: the editor opens on it at that date; several:
/// the entry picker opens on the cell.
pub open spec fn grid_cell_opened(
    before: HourTrackerApp,
    after: HourTrackerApp,
    project_id: u128,
    day: u64,
    dates: Seq<Date>,
) -> bool {
    let date = Date { days_from_ce: (before.week_start.days_from_ce + day) as i32 };
    let positions = day_positions(
        before.data.entries@,
        dates,
        project_id,
        date,
        before.data.entries@.len() as int,
    );
    &&& positions.len() == 0 ==> after == before
    &&& positions.len() == 1 ==> edit_begun_on(
        before,
        after,
        before.data.entries@[positions[0]].id,
        date,
    )
    &&& positions.len() > 1 ==> after == (HourTrackerApp {
        entry_picker_cell: Some((project_id, day)),
        ..before
    })
}

/// Saving the entry editor used what the machine's time zone says: the
/// edited entry's local date as `local_day` reads it and local noon of the
/// chosen day as `noon_read` gives it, and did exactly what `edit_saved_at`
/// says for those.
pub open spec fn edit_saved_read(
    before: HourTrackerApp,
    after: HourTrackerApp,
    saved: Option<String>,
) -> bool {
    match (before.editing_entry, before.edit_project) {
        (Some(id), Some(_)) => {
            let entries = before.data.entries@;
            let k = entry_index(entries, id);
            k < entries.len() ==> exists|current: Date, noon: LocalTime|
                {
                    &&& call_ensures(local_day, (entries[k].started_at,), current)
                    &&& noon_read(
                        Date {
                            days_from_ce: (before.edit_week_start.days_from_ce
                                + before.edit_day) as i32,
                        },
                        noon,
                    )
                    &&& #[trigger] edit_saved_at(before, after, saved, current, noon)
                }
        },
        _ => true,
    }
}

/// The entries sit inside the reports' limits.
pub open spec fn reportable(app: HourTrackerApp) -> bool {
    &&& app.wf()
    &&& entries_local_safe(app.data.entries@)
    &&& app.data.entries@.len() < 0x4000_0000
    &&& app.data.projects@.len() < 0x4000_0000
}

/// Which window commands a menu-bar action asks of the desktop shell.
pub struct MenuCommand {
    /// The message to save the data with, when the action changed it.
    pub save: Option<String>,
    /// Bring the main window back and focus it.
    pub restore_window: bool,
    /// Close the application.
    pub close: bool,
}

impl HourTrackerApp {
    /// Opens the entry editor on the entry with identifier `id`, which lies
    /// on the local date `date`.
    pub fn begin_edit_entry_at(&mut self, entry_id: u128, date: Date)
        requires
            old(self).wf(),
            date.wf(),
            week_start_of(date.days_from_ce as int) >= MIN_DAY,
        ensures
            final(self).wf(),
            edit_begun_on(*old(self), *final(self), entry_id, date),
    {
        let k = find_entry(&self.data.entries, entry_id);
        proof {
            lemma_entry_index(self.data.entries@, entry_id);
        }
        if k == self.data.entries.len() {
            return;
        }
        self.editing_entry = Some(self.data.entries[k].id);
        self.edit_project = Some(self.data.entries[k].project_id);
        self.edit_week_start = saturday_of(date);
        self.edit_day = days_from_saturday(date) as usize;
        self.edit_tenths = self.data.entries[k].billed_tenths;
        self.edit_note = self.data.entries[k].note.clone();
        self.entry_picker_cell = None;
    }

    /// Opens the entry editor on the entry with identifier `id`, at its local
    /// date.
    pub fn begin_edit_entry(&mut self, entry_id: u128)
        requires
            old(self).wf(),
            entry_week_safe(old(self).data.entries@, entry_id),
        ensures
            final(self).wf(),
            edit_begun(*old(self), *final(self), entry_id),
    {
        let k = find_entry(&self.data.entries, entry_id);
        proof {
            lemma_entry_index(self.data.entries@, entry_id);
        }
        if k == self.data.entries.len() {
            return;
        }
        let date = local_day(self.data.entries[k].started_at);
        let ghost before = *self;
        self.begin_edit_entry_at(entry_id, date);
        assert(local_date_near(before.data.entries@[k as int].started_at, date));
    }

    /// Whether the local date of the entry with identifier `id` can be read:
    /// there is none, or it lies a day or more from the ends of time.
    pub fn can_read_local_date(&self, entry_id: u128) -> (ok: bool)
        ensures
            ok == entry_local_safe(self.data.entries@, entry_id),
    {
        let k = find_entry(&self.data.entries, entry_id);
        proof {
            lemma_entry_index(self.data.entries@, entry_id);
        }
        if k == self.data.entries.len() {
            return true;
        }
        let t = self.data.entries[k].started_at;
        t.is_wf() && -8_334_601_142_400 <= t.secs && t.secs <= 8_210_266_790_399
    }

    /// Whether the entry with identifier `id` can be opened in the editor:
    /// there is none, or its work week is representable.
    pub fn can_open_entry(&self, entry_id: u128) -> (ok: bool)
        ensures
            ok == entry_week_safe(self.data.entries@, entry_id),
    {
        let k = find_entry(&self.data.entries, entry_id);
        proof {
            lemma_entry_index(self.data.entries@, entry_id);
        }
        if k == self.data.entries.len() {
            return true;
        }
        let t = self.data.entries[k].started_at;
        t.is_wf() && -8_334_600_624_000 <= t.secs && t.secs <= 8_210_266_790_399
    }

    /// Opens an entry listed on the timer screen: the timesheet shows the
    /// week of its local date, with the editor open on it.
    pub fn view_entry(&mut self, entry_id: u128)
        requires
            old(self).wf(),
            entry_week_safe(old(self).data.entries@, entry_id),
        ensures
            final(self).wf(),
            entry_index(old(self).data.entries@, entry_id) == old(self).data.entries@.len()
                ==> *final(self) == *old(self),
            entry_index(old(self).data.entries@, entry_id) < old(self).data.entries@.len()
                ==> exists|d: Date|
                {
                    &&& #[trigger] local_date_near(
                        old(self).data.entries@[entry_index(old(self).data.entries@, entry_id)].started_at,
                        d,
                    )
                    &&& call_ensures(
                        local_day,
                        (old(self).data.entries@[entry_index(
                            old(self).data.entries@,
                            entry_id,
                        )].started_at,),
                        d,
                    )
                    &&& edit_begun_on(
                        HourTrackerApp {
                            week_start: Date {
                                days_from_ce: week_start_of(d.days_from_ce as int) as i32,
                            },
                            view: Screen::Week,
                            ..*old(self)
                        },
                        *final(self),
                        entry_id,
                        d,
                    )
                },
    {
        let k = find_entry(&self.data.entries, entry_id);
        proof {
            lemma_entry_index(self.data.entries@, entry_id);
        }
        if k == self.data.entries.len() {
            return;
        }
        let date = local_day(self.data.entries[k].started_at);
        let ghost before = *self;
        self.week_start = saturday_of(date);
        self.view = Screen::Week;
        self.begin_edit_entry_at(entry_id, date);
        assert(local_date_near(before.data.entries@[k as int].started_at, date));
    }

    /// The timer screen's project choice: it changes only while no timer
    /// runs, so a running timer keeps its project.
    pub fn select_project(&mut self, project_id: u128) -> (changed: bool)
        ensures
            changed == (old(self).data.active_timer is None),
            changed ==> *final(self) == (HourTrackerApp {
                selected_project: Some(project_id),
                ..*old(self)
            }),
            !changed ==> *final(self) == *old(self),
    {
        if self.data.active_timer.is_some() {
            return false;
        }
        self.selected_project = Some(project_id);
        true
    }

    /// Saves the entry editor: the edited entry takes the chosen project,
    /// moves to local noon of the chosen day with the chosen tenths (unless it
    /// already lies on that day with those tenths), and takes the trimmed
    /// note; entries stay newest first. Returns the message to save with.
    /// Nothing is saved when the editor holds no entry or project; when the
    /// entry is gone the editor just closes.
    pub fn save_entry_edit(&mut self) -> (saved: Option<String>)
        requires
            old(self).wf(),
            old(self).editing_entry is Some && old(self).edit_project is Some ==> {
                &&& old(self).edit_week_start.days_from_ce + old(self).edit_day <= MAX_DAY
                &&& entry_local_safe(old(self).data.entries@, old(self).editing_entry->0)
            },
        ensures
            final(self).wf(),
            edit_saved(*old(self), *final(self), saved),
            edit_saved_read(*old(self), *final(self), saved),
    {
        let entry_id = match (self.editing_entry, self.edit_project) {
            (Some(entry_id), Some(_)) => entry_id,
            _ => {
                return None;
            },
        };
        let date = self.edit_week_start.plus_days(self.edit_day as u64);
        let k = find_entry(&self.data.entries, entry_id);
        proof {
            lemma_entry_index(self.data.entries@, entry_id);
        }
        if k == self.data.entries.len() {
            self.editing_entry = None;
            return None;
        }
        let current = local_day(self.data.entries[k].started_at);
        let noon = if MIN_DAY < date.days_from_ce && date.days_from_ce < MAX_DAY {
            noon_on(date)
        } else {
            LocalTime::Nonexistent
        };
        let saved = self.save_entry_edit_at(current, noon);
        proof {
            lemma_edit_saved(*old(self), *self, saved, current, noon);
            assert(date == Date {
                days_from_ce: (old(self).edit_week_start.days_from_ce + old(self).edit_day) as i32,
            });
            assert(noon_read(date, noon));
            assert(edit_saved_at(*old(self), *self, saved, current, noon));
        }
        saved
    }

    /// Saves the entry editor given the edited entry's local date `current`
    /// and how local noon of the chosen day resolved (see `edit_saved_at`).
    pub fn save_entry_edit_at(&mut self, current: Date, noon: LocalTime) -> (saved: Option<String>)
        requires
            old(self).wf(),
            old(self).editing_entry is Some && old(self).edit_project is Some ==> {
                &&& old(self).edit_week_start.days_from_ce + old(self).edit_day <= MAX_DAY
                &&& noon matches LocalTime::Single(t) ==> t.regular()
                &&& noon matches LocalTime::Ambiguous(a, b) ==> a.regular()
            },
        ensures
            final(self).wf(),
            edit_saved_at(*old(self), *final(self), saved, current, noon),
    {
        let (entry_id, project_id) = match (self.editing_entry, self.edit_project) {
            (Some(entry_id), Some(project_id)) => (entry_id, project_id),
            _ => {
                return None;
            },
        };
        let date = self.edit_week_start.plus_days(self.edit_day as u64);
        let k = find_entry(&self.data.entries, entry_id);
        proof {
            lemma_entry_index(self.data.entries@, entry_id);
        }
        if k == self.data.entries.len() {
            self.editing_entry = None;
            return None;
        }
        let mut entry = self.data.entries[k].clone();
        entry.project_id = project_id;
        entry.update_manual_values_at(current, date, noon, self.edit_tenths);
        proof {
            assert(date == Date {
                days_from_ce: (old(self).edit_week_start.days_from_ce + old(self).edit_day) as i32,
            });
        }
        entry.note = trim(self.edit_note.as_str());
        let ghost edited = entry;
        assert(edited.wf());
        self.data.entries[k] = entry;
        proof {
            lemma_sorted_entries_wf(old(self).data.entries@.update(k as int, edited));
        }
        self.editing_entry = None;
        sort_entries_newest_first(&mut self.data.entries);
        assert(self.data == (TrackerData { entries: self.data.entries, ..old(self).data }));
        assert(self.data.entries@ == newest_first(old(self).data.entries@.update(k as int, edited)));
        Some(String::from_str("Entry updated"))
    }

    /// Logs the manual-entry form as an entry of the selected project at
    /// local noon of the chosen day, with the trimmed note; entries stay
    /// newest first. Returns the message to save with. Nothing happens when
    /// no project is selected, or when noon of that day does not exist in the
    /// local time zone or the entry's end is not representable.
    pub fn add_manual_entry(&mut self) -> (saved: Option<String>)
        requires
            old(self).wf(),
            manual_tenths_in_range(old(self).manual_tenths as int),
            old(self).selected_project is Some ==> MIN_DAY < old(self).week_start.days_from_ce + old(self).manual_day < MAX_DAY,
        ensures
            final(self).wf(),
            old(self).selected_project is None ==> saved is None && *final(self) == *old(self),
            old(self).selected_project is Some ==> exists|id: u128, noon: LocalTime|
                {
                    &&& #[trigger] is_random_id(id)
                    &&& #[trigger] call_ensures(
                        noon_on,
                        (
                            Date {
                                days_from_ce: (old(self).week_start.days_from_ce
                                    + old(self).manual_day) as i32,
                            },
                        ),
                        noon,
                    )
                    &&& manual_entry_added(*old(self), *final(self), saved, id, noon)
                },
    {
        if self.selected_project.is_none() {
            return None;
        }
        let date = self.week_start.plus_days(self.manual_day as u64);
        assert(date == Date {
            days_from_ce: (old(self).week_start.days_from_ce + old(self).manual_day) as i32,
        });
        let noon = noon_on(date);
        let id = new_id();
        self.add_manual_entry_at(id, noon)
    }

    /// Logs the manual-entry form as an entry with identifier `id`, given how
    /// local noon of the chosen day resolved (see `manual_entry_added`).
    pub fn add_manual_entry_at(&mut self, id: u128, noon: LocalTime) -> (saved: Option<String>)
        requires
            old(self).wf(),
            manual_tenths_in_range(old(self).manual_tenths as int),
            old(self).selected_project is Some ==> MIN_DAY < old(self).week_start.days_from_ce + old(self).manual_day < MAX_DAY,
            noon matches LocalTime::Single(t) ==> t.regular(),
            noon matches LocalTime::Ambiguous(a, b) ==> a.regular(),
        ensures
            final(self).wf(),
            manual_entry_added(*old(self), *final(self), saved, id, noon),
            saved is Some <==> old(self).selected_project is Some && noon_fits(
                noon,
                old(self).manual_tenths as int,
            ),
    {
        let project_id = match self.selected_project {
            Some(id) => id,
            None => {
                return None;
            },
        };
        let date = self.week_start.plus_days(self.manual_day as u64);
        let mut entry = match TimeEntry::manual_from(id, project_id, noon, self.manual_tenths) {
            Some(entry) => entry,
            None => {
                return None;
            },
        };
        entry.note = trim(self.manual_note.as_str());
        let ghost added = entry;
        self.data.entries.push(entry);
        proof {
            lemma_sorted_entries_wf(old(self).data.entries@.push(added));
        }
        self.manual_note = String::new();
        sort_entries_newest_first(&mut self.data.entries);
        let mut message: Vec<char> = Vec::new();
        push_str(&mut message, "Added ");
        push_tenths(&mut message, self.manual_tenths as i128);
        push_str(&mut message, " h on ");
        let day_text = format_date(date, "%a %b %-d");
        push_str(&mut message, day_text.as_str());
        assert(self.data == (TrackerData { entries: self.data.entries, ..old(self).data }));
        assert(message@ == "Added "@ + tenths_text(old(self).manual_tenths as int) + " h on "@
            + formatted_date(date.days_from_ce as int, "%a %b %-d"@));
        assert(self.data.entries@ == newest_first(old(self).data.entries@.push(added)));
        Some(string_of(&message))
    }
}

impl HourTrackerApp {
    /// Opens a cell of the week grid (a project and a day, 0 being
    /// Saturday), by the entries' local dates in the machine's time zone
    /// (see `select_grid_cell_at`).
    pub fn select_grid_cell(&mut self, project_id: u128, day: u64)
        requires
            old(self).wf(),
            entries_local_safe(old(self).data.entries@),
            day < 7,
            old(self).week_start.days_from_ce + 6 <= MAX_DAY,
            week_start_of(old(self).week_start.days_from_ce + day) >= MIN_DAY,
        ensures
            final(self).wf(),
            exists|dates: Seq<Date>|
                #[trigger] local_dates_fit(old(self).data.entries@, dates) && grid_cell_opened(
                    *old(self),
                    *final(self),
                    project_id,
                    day,
                    dates,
                ),
    {
        let dates = local_dates(&self.data.entries);
        self.select_grid_cell_at(project_id, day, &dates);
        assert(local_dates_fit(old(self).data.entries@, dates@));
    }

    /// Opens a cell of the week grid given each entry's local date
    /// (`dates[i]` belongs to entry `i`): a cell backed by one entry opens
    /// that entry in the editor; a cell backed by several opens the entry
    /// picker on it; an empty cell does nothing.
    pub fn select_grid_cell_at(&mut self, project_id: u128, day: u64, dates: &Vec<Date>)
        requires
            old(self).wf(),
            dates@.len() == old(self).data.entries@.len(),
            day < 7,
            old(self).week_start.days_from_ce + 6 <= MAX_DAY,
            week_start_of(old(self).week_start.days_from_ce + day) >= MIN_DAY,
        ensures
            final(self).wf(),
            grid_cell_opened(*old(self), *final(self), project_id, day, dates@),
    {
        let date = self.week_start.plus_days(day);
        let positions = project_day_positions(&self.data.entries, dates, project_id, date);
        proof {
            lemma_day_positions_bounded(self.data.entries@, dates@, project_id, date, self.data.entries@.len() as int);
        }
        if positions.len() == 1 {
            let id = self.data.entries[positions[0]].id;
            self.begin_edit_entry_at(id, date);
        } else if positions.len() > 1 {
            self.entry_picker_cell = Some((project_id, day));
        }
    }

    /// The positions of the entries behind the cell the entry picker is
    /// open on; none when it is closed.
    pub fn picker_entries(&self) -> (positions: Vec<usize>)
        requires
            self.wf(),
            entries_local_safe(self.data.entries@),
            self.week_start.days_from_ce + 6 <= MAX_DAY,
            self.entry_picker_cell matches Some((_, day)) ==> day < 7,
        ensures
            self.entry_picker_cell is None ==> positions@.len() == 0,
            self.entry_picker_cell matches Some((project_id, day)) ==> exists|dates: Seq<Date>|
                {
                    let expected = day_positions(
                        self.data.entries@,
                        dates,
                        project_id,
                        Date { days_from_ce: (self.week_start.days_from_ce + day) as i32 },
                        self.data.entries@.len() as int,
                    );
                    &&& #[trigger] local_dates_fit(self.data.entries@, dates)
                    &&& positions@.len() == expected.len()
                    &&& forall|k: int| 0 <= k < expected.len() ==> positions@[k] as int == expected[k]
                },
    {
        match self.entry_picker_cell {
            Some((project_id, day)) => {
                let dates = local_dates(&self.data.entries);
                let date = self.week_start.plus_days(day);
                let positions = project_day_positions(&self.data.entries, &dates, project_id, date);
                assert(local_dates_fit(self.data.entries@, dates@));
                positions
            },
            None => Vec::new(),
        }
    }

    /// Closes the entry picker: a chosen entry opens in the editor; closing
    /// the picker without a choice just hides it.
    pub fn finish_picker(&mut self, selected: Option<u128>, open: bool)
        requires
            old(self).wf(),
            selected matches Some(id) ==> entry_week_safe(old(self).data.entries@, id),
        ensures
            final(self).wf(),
            selected matches Some(id) ==> edit_begun(*old(self), *final(self), id),
            selected is None && !open ==> *final(self) == (HourTrackerApp {
                entry_picker_cell: None,
                ..*old(self)
            }),
            selected is None && open ==> *final(self) == *old(self),
    {
        match selected {
            Some(id) => self.begin_edit_entry(id),
            None => {
                if !open {
                    self.entry_picker_cell = None;
                }
            },
        }
    }

    /// Closes the entry editor: saving when asked to, else discarding the
    /// edit when cancelled or closed. Returns the message to save with.
    pub fn finish_edit(&mut self, save_requested: bool, cancel_requested: bool, open: bool) -> (saved:
        Option<String>)
        requires
            old(self).wf(),
            save_requested && old(self).editing_entry is Some && old(self).edit_project is Some ==> {
                &&& old(self).edit_week_start.days_from_ce + old(self).edit_day <= MAX_DAY
                &&& entry_local_safe(old(self).data.entries@, old(self).editing_entry->0)
            },
        ensures
            final(self).wf(),
            !save_requested && (cancel_requested || !open) ==> saved is None && *final(self) == (
            HourTrackerApp { editing_entry: None, ..*old(self) }),
            !save_requested && !cancel_requested && open ==> saved is None && *final(self) == *old(self),
            save_requested ==> edit_saved(*old(self), *final(self), saved),
            save_requested ==> edit_saved_read(*old(self), *final(self), saved),
    {
        if save_requested {
            proof {
                if old(self).editing_entry is Some {
                    lemma_entry_index(old(self).data.entries@, old(self).editing_entry->0);
                }
            }
            self.save_entry_edit()
        } else {
            if cancel_requested || !open {
                self.editing_entry = None;
            }
            None
        }
    }

    /// The weekly summary of the week shown, for the clipboard.
    pub fn week_summary(&self) -> (text: String)
        requires
            reportable(*self),
        ensures
            exists|dates: Seq<Date>|
                #[trigger] local_dates_fit(self.data.entries@, dates) && text@ == summary_text(
                    self.data.projects@,
                    self.data.entries@,
                    dates,
                    self.week_start,
                ),
    {
        let dates = local_dates(&self.data.entries);
        let text = week_summary_text(&self.data.projects, &self.data.entries, &dates, self.week_start);
        assert(local_dates_fit(self.data.entries@, dates@));
        text
    }

    /// Copies the weekly summary of the week shown: returns its text and
    /// reports it copied.
    pub fn copy_week_summary(&mut self) -> (text: String)
        requires
            reportable(*old(self)),
        ensures
            exists|dates: Seq<Date>|
                #[trigger] local_dates_fit(old(self).data.entries@, dates) && text@ == summary_text(
                    old(self).data.projects@,
                    old(self).data.entries@,
                    dates,
                    old(self).week_start,
                ),
            final(self).status matches Some((message, is_error)) && !is_error && message@
                == "Weekly summary copied"@,
            *final(self) == (HourTrackerApp { status: final(self).status, ..*old(self) }),
    {
        let text = self.week_summary();
        self.status = Some((String::from_str("Weekly summary copied"), false));
        text
    }

    /// The CSV timesheet of the week shown.
    pub fn week_csv(&self) -> (text: String)
        requires
            reportable(*self),
        ensures
            exists|dates: Seq<Date>|
                #[trigger] local_dates_fit(self.data.entries@, dates) && text@ == csv_text(
                    self.data.projects@,
                    self.data.entries@,
                    dates,
                    self.week_start,
                ),
    {
        let dates = local_dates(&self.data.entries);
        let text = week_csv_text(&self.data.projects, &self.data.entries, &dates, self.week_start);
        assert(local_dates_fit(self.data.entries@, dates@));
        text
    }

    /// The week grid of the week shown: its project rows, its day totals and
    /// its grand total, which is both the sum of the day totals and the sum of
    /// the projects' week totals.
    pub fn week_grid(&self) -> (grid: (Vec<GridRow>, Vec<i128>, i128))
        requires
            reportable(*self),
            self.week_start.days_from_ce + 6 <= MAX_DAY,
        ensures
            grid.1@.len() == 7,
            exists|dates: Seq<Date>|
                {
                    let rows = grid_projects(
                        self.data.projects@,
                        self.data.entries@,
                        dates,
                        self.week_start,
                        self.data.projects@.len() as int,
                    );
                    &&& #[trigger] local_dates_fit(self.data.entries@, dates)
                    &&& grid.0@.len() == rows.len()
                    &&& forall|k: int|
                        0 <= k < rows.len() ==> {
                            &&& (#[trigger] grid.0@[k]).project_id == rows[k].id
                            &&& grid.0@[k].name == rows[k].name
                            &&& grid.0@[k].cells@.len() == 7
                            &&& forall|d: int|
                                0 <= d < 7 ==> grid.0@[k].cells@[d] == cell(
                                    self.data.entries@,
                                    dates,
                                    self.week_start,
                                    rows[k].id,
                                    d,
                                )
                            &&& grid.0@[k].entry_counts@.len() == 7
                            &&& forall|d: int|
                                0 <= d < 7 ==> grid.0@[k].entry_counts@[d] == day_positions(
                                    self.data.entries@,
                                    dates,
                                    rows[k].id,
                                    week_day(self.week_start, d),
                                    self.data.entries@.len() as int,
                                ).len()
                            &&& grid.0@[k].total == project_week_tenths(
                                self.data.entries@,
                                dates,
                                self.week_start,
                                rows[k].id,
                            )
                        }
                    &&& forall|d: int|
                        0 <= d < 7 ==> grid.1@[d] == day_column_tenths(
                            self.data.projects@,
                            self.data.entries@,
                            dates,
                            self.week_start,
                            d,
                            self.data.projects@.len() as int,
                        )
                    &&& grid.2 == projects_week_tenths(
                        self.data.projects@,
                        self.data.entries@,
                        dates,
                        self.week_start,
                        self.data.projects@.len() as int,
                    )
                },
            grid.2 == grid.1@[0] + grid.1@[1] + grid.1@[2] + grid.1@[3] + grid.1@[4] + grid.1@[5]
                + grid.1@[6],
    {
        let dates = local_dates(&self.data.entries);
        let rows = week_grid_rows(&self.data.projects, &self.data.entries, &dates, self.week_start);
        let totals = week_day_totals(&self.data.projects, &self.data.entries, &dates, self.week_start);
        let grand = week_grand_total(&self.data.projects, &self.data.entries, &dates, self.week_start);
        proof {
            lemma_grid_totals_agree(
                self.data.projects@,
                self.data.entries@,
                dates@,
                self.week_start,
                self.data.projects@.len() as int,
            );
        }
        assert(local_dates_fit(self.data.entries@, dates@));
        (rows, totals, grand)
    }

    /// Tenths billed by the entries of the week shown.
    pub fn week_total(&self) -> (total: i128)
        requires
            reportable(*self),
        ensures
            exists|dates: Seq<Date>|
                #[trigger] local_dates_fit(self.data.entries@, dates) && total == week_tenths(
                    self.data.entries@,
                    dates,
                    self.week_start,
                    self.data.entries@.len() as int,
                ),
    {
        let dates = local_dates(&self.data.entries);
        let total = week_total_tenths(&self.data.entries, &dates, self.week_start);
        assert(local_dates_fit(self.data.entries@, dates@));
        total
    }

    /// The positions of the entries of the week shown, in entry order.
    pub fn week_entries(&self) -> (positions: Vec<usize>)
        requires
            reportable(*self),
        ensures
            exists|dates: Seq<Date>|
                {
                    let expected = week_positions(
                        dates,
                        self.week_start,
                        self.data.entries@.len() as int,
                    );
                    &&& #[trigger] local_dates_fit(self.data.entries@, dates)
                    &&& positions@.len() == expected.len()
                    &&& forall|k: int| 0 <= k < expected.len() ==> positions@[k] as int == expected[k]
                },
    {
        let dates = local_dates(&self.data.entries);
        let positions = week_entry_positions(&dates, self.week_start);
        assert(local_dates_fit(self.data.entries@, dates@));
        positions
    }

    /// Tenths saved today across all projects, and on the selected project
    /// (zero when none is selected).
    pub fn today_totals(&self) -> (totals: (i128, i128))
        requires
            reportable(*self),
        ensures
            exists|dates: Seq<Date>, today: Date|
                {
                    &&& #[trigger] local_dates_fit(self.data.entries@, dates)
                    &&& #[trigger] today.wf()
                    &&& call_ensures(today_local, (), today)
                    &&& today.days_from_ce >= UNIX_EPOCH_DAY - 1
                    &&& totals.0 == day_tenths(
                        self.data.entries@,
                        dates,
                        today,
                        None,
                        self.data.entries@.len() as int,
                    )
                    &&& self.selected_project is Some ==> totals.1 == day_tenths(
                        self.data.entries@,
                        dates,
                        today,
                        self.selected_project,
                        self.data.entries@.len() as int,
                    )
                    &&& self.selected_project is None ==> totals.1 == 0
                },
    {
        let today = today_local();
        let dates = local_dates(&self.data.entries);
        let totals = tenths_on_day(&self.data.entries, &dates, today, self.selected_project);
        assert(local_dates_fit(self.data.entries@, dates@));
        assert(today.wf());
        totals
    }

    /// The file name of the week's CSV export: `week-2026-08-22.csv`.
    pub fn report_file_name(&self) -> (name: String)
        requires
            self.week_start.wf(),
        ensures
            name@ == "week-"@ + iso_date_text(self.week_start.days_from_ce as int) + ".csv"@,
    {
        let mut out: Vec<char> = Vec::new();
        push_str(&mut out, "week-");
        let day = format_date(self.week_start, "%Y-%m-%d");
        push_str(&mut out, day.as_str());
        push_str(&mut out, ".csv");
        string_of(&out)
    }

    /// How many entries the timer screen lists as recent: the first eight.
    pub fn recent_entry_count(&self) -> (count: usize)
        ensures
            count == if self.data.entries@.len() < 8 {
                self.data.entries@.len()
            } else {
                8
            },
    {
        if self.data.entries.len() < 8 {
            self.data.entries.len()
        } else {
            8
        }
    }

    /// The whole seconds the running timer has run so far, up to the instant
    /// the clock reads, never negative.
    pub fn active_elapsed(&self) -> (elapsed: Option<i64>)
        requires
            self.wf(),
        ensures
            self.data.active_timer is None ==> elapsed is None,
            self.data.active_timer matches Some(timer) ==> exists|now: Timestamp|
                {
                    &&& #[trigger] call_ensures(clock_now, (), now)
                    &&& now.wf()
                    &&& now.secs >= 0
                    &&& elapsed == Some(elapsed_seconds(timer.started_at, now) as i64)
                },
    {
        match &self.data.active_timer {
            Some(timer) => {
                let now = clock_now();
                assert(now.wf());
                Some(elapsed_since(&timer.started_at, &now))
            },
            None => None,
        }
    }

    /// Follows an edit of the timer note: a running timer takes the new note;
    /// when the note field loses focus during a run, returns the message to
    /// save with.
    pub fn sync_timer_note(&mut self, changed: bool, lost_focus: bool) -> (saved: Option<String>)
        requires
            old(self).wf(),
        ensures
            final(self).wf(),
            old(self).data.active_timer is None ==> *final(self) == *old(self) && saved is None,
            old(self).data.active_timer matches Some(timer) ==> {
                &&& final(self).data.active_timer == Some(
                    (if changed {
                        ActiveTimer { note: old(self).timer_note, ..timer }
                    } else {
                        timer
                    }),
                )
                &&& final(self).data == (TrackerData {
                    active_timer: final(self).data.active_timer,
                    ..old(self).data
                })
                &&& *final(self) == (HourTrackerApp { data: final(self).data, ..*old(self) })
                &&& lost_focus ==> (saved matches Some(message) && message@ == "Timer note saved"@)
                &&& !lost_focus ==> saved is None
            },
    {
        if self.data.active_timer.is_none() {
            return None;
        }
        if changed {
            let note = self.timer_note.clone();
            match &mut self.data.active_timer {
                Some(timer) => {
                    timer.note = note;
                },
                None => {},
            }
        }
        if lost_focus {
            Some(String::from_str("Timer note saved"))
        } else {
            None
        }
    }

    /// Follows what the shell sees of the main window in a frame, and says
    /// whether the floating reminder shows: while a timer runs, when the
    /// window is minimized or the compact timer was asked for. Once the window
    /// is seen back (not minimized and focused) after it was away, the compact
    /// request ends, so the reminder disappears when the app is restored.
    pub fn follow_window(&mut self, minimized: bool, focused: bool) -> (visible: bool)
        ensures
            *final(self) == window_seen(*old(self), minimized, focused),
            visible == reminder_shown(*final(self), minimized),
            old(self).compact_window_away && !minimized && focused ==> !visible
                && !final(self).compact_requested,
            old(self).data.active_timer is None ==> !visible,
    {
        if self.compact_requested {
            if minimized || !focused {
                self.compact_window_away = true;
            } else if self.compact_window_away {
                self.compact_requested = false;
                self.compact_window_away = false;
            }
        }
        self.data.active_timer.is_some() && (minimized || self.compact_requested)
    }

    /// Carries out a click on the menu-bar extra. Start works only while no
    /// timer runs; Open brings the window back; Quit closes the application.
    pub fn apply_menu_action(&mut self, action: Option<MenuBarAction>) -> (command: MenuCommand)
        requires
            old(self).wf(),
        ensures
            final(self).wf(),
            action == Some(MenuBarAction::Start) ==> !command.restore_window && !command.close
                && timer_started(*old(self), *final(self), command.save),
            action == Some(MenuBarAction::Stop) ==> !command.restore_window && !command.close
                && timer_stopped(*old(self), *final(self), command.save),
            action == Some(MenuBarAction::Open) ==> command.restore_window && !command.close
                && command.save is None && *final(self) == (HourTrackerApp {
                compact_requested: false,
                ..*old(self)
            }),
            action == Some(MenuBarAction::Quit) ==> command.close && !command.restore_window
                && command.save is None && *final(self) == *old(self),
            action is None ==> !command.close && !command.restore_window && command.save is None
                && *final(self) == *old(self),
    {
        match action {
            Some(MenuBarAction::Start) => {
                let save = if self.data.active_timer.is_none() {
                    self.start_timer()
                } else {
                    None
                };
                MenuCommand { save, restore_window: false, close: false }
            },
            Some(MenuBarAction::Stop) => {
                let save = self.stop_timer();
                MenuCommand { save, restore_window: false, close: false }
            },
            Some(MenuBarAction::Open) => {
                self.compact_requested = false;
                MenuCommand { save: None, restore_window: true, close: false }
            },
            Some(MenuBarAction::Quit) => MenuCommand { save: None, restore_window: false, close: true },
            None => MenuCommand { save: None, restore_window: false, close: false },
        }
    }
}

impl HourTrackerApp {
    /// Shows or hides the new-project form.
    pub fn toggle_new_project_form(&mut self)
        ensures
            *final(self) == (HourTrackerApp { adding_project: !old(self).adding_project, ..*old(self) }),
    {
        self.adding_project = !self.adding_project;
    }

    /// Asks for the compact floating timer in place of the window.
    pub fn request_compact(&mut self)
        ensures
            *final(self) == (HourTrackerApp {
                compact_requested: true,
                compact_window_away: false,
                ..*old(self)
            }),
    {
        self.compact_requested = true;
        self.compact_window_away = false;
    }

    /// Brings the main window back from the compact timer.
    pub fn restore_from_compact(&mut self)
        ensures
            *final(self) == (HourTrackerApp {
                compact_requested: false,
                compact_window_away: false,
                ..*old(self)
            }),
    {
        self.compact_requested = false;
        self.compact_window_away = false;
    }
}

/// No two projects bear the same name, ignoring the case of ASCII letters.
pub open spec fn names_distinct(projects: Seq<Project>) -> bool {
    forall|i: int, j: int|
        0 <= i < j < projects.len() ==> !same_ignoring_ascii_case(
            (#[trigger] projects[i]).name@,
            (#[trigger] projects[j]).name@,
        )
}

proof fn lemma_same_name_symmetric(a: Seq<char>, b: Seq<char>)
    ensures
        same_ignoring_ascii_case(a, b) == same_ignoring_ascii_case(b, a),
{
}

proof fn lemma_insert_by_name_is_insert(s: Seq<Project>, p: Project) -> (j: int)
    ensures
        0 <= j <= s.len(),
        crate::order::insert_by_name(s, p) == s.insert(j, p),
    decreases s.len(),
{
    if s.len() == 0 {
        assert(s.insert(0, p) =~= seq![p]);
        0
    } else if crate::order::chars_before(crate::order::name_key(p), crate::order::name_key(s.last())) {
        let j = lemma_insert_by_name_is_insert(s.drop_last(), p);
        assert(s.insert(j, p) =~= s.drop_last().insert(j, p).push(s.last()));
        j
    } else {
        assert(s.insert(s.len() as int, p) =~= s.push(p));
        s.len() as int
    }
}

proof fn lemma_distinct_after_insert(s: Seq<Project>, p: Project, j: int)
    requires
        0 <= j <= s.len(),
        names_distinct(s),
        forall|k: int| 0 <= k < s.len() ==> !same_ignoring_ascii_case((#[trigger] s[k]).name@, p.name@),
    ensures
        names_distinct(s.insert(j, p)),
{
    let r = s.insert(j, p);
    assert forall|a: int, b: int| 0 <= a < b < r.len() implies !same_ignoring_ascii_case(
        (#[trigger] r[a]).name@,
        (#[trigger] r[b]).name@,
    ) by {
        if a == j {
            assert(r[b] == s[b - 1]);
            lemma_same_name_symmetric(p.name@, s[b - 1].name@);
        } else if b == j {
            assert(r[a] == s[a]);
        } else {
            let x = if a < j { a } else { a - 1 };
            let y = if b < j { b } else { b - 1 };
            assert(r[a] == s[x] && r[b] == s[y]);
        }
    }
}

/// Sorting projects by name keeps their names distinct when they were.
pub proof fn lemma_sorted_names_stay_distinct(s: Seq<Project>)
    requires
        names_distinct(s),
    ensures
        names_distinct(sorted_by_name(s)),
    decreases s.len(),
{
    broadcast use vstd::seq_lib::group_to_multiset_ensures;

    if s.len() > 0 {
        let t = s.drop_last();
        let p = s.last();
        assert(names_distinct(t)) by {
            assert forall|a: int, b: int| 0 <= a < b < t.len() implies !same_ignoring_ascii_case(
                (#[trigger] t[a]).name@,
                (#[trigger] t[b]).name@,
            ) by {
                assert(t[a] == s[a] && t[b] == s[b]);
            }
        }
        lemma_sorted_names_stay_distinct(t);
        let sorted = sorted_by_name(t);
        lemma_sorted_by_name_permutes(t);
        assert forall|k: int| 0 <= k < sorted.len() implies !same_ignoring_ascii_case(
            (#[trigger] sorted[k]).name@,
            p.name@,
        ) by {
            assert(sorted.contains(sorted[k]));
            assert(sorted.to_multiset().count(sorted[k]) > 0);
            assert(t.to_multiset().count(sorted[k]) > 0);
            assert(t.contains(sorted[k]));
            let a = choose|a: int| 0 <= a < t.len() && t[a] == sorted[k];
            assert(s[a] == sorted[k]);
            assert(s[s.len() - 1] == p);
        }
        let j = lemma_insert_by_name_is_insert(sorted, p);
        lemma_distinct_after_insert(sorted, p, j);
    }
}

/// Adding a project whose name is not taken, ignoring ASCII case, keeps
/// project names distinct.
pub proof fn lemma_add_project_keeps_names_distinct(projects: Seq<Project>, added: Project)
    requires
        names_distinct(projects),
        !name_taken(projects, added.name@),
    ensures
        names_distinct(sorted_by_name(projects.push(added))),
{
    let t = projects.push(added);
    assert forall|a: int, b: int| 0 <= a < b < t.len() implies !same_ignoring_ascii_case(
        (#[trigger] t[a]).name@,
        (#[trigger] t[b]).name@,
    ) by {
        if b == projects.len() {
            assert(t[a] == projects[a]);
            if same_ignoring_ascii_case(projects[a].name@, added.name@) {
                assert(name_taken(projects, added.name@));
            }
        } else {
            assert(t[a] == projects[a] && t[b] == projects[b]);
        }
    }
    lemma_sorted_names_stay_distinct(t);
}

/// Starting the timer and then stopping it logs exactly one entry: a
/// session of the project that was selected, from when the timer started,
/// carrying the trimmed timer note and billed in tenths rounded up.
/// Afterwards no timer runs, the timer note is cleared, and the projects and
/// the theme are as they were.
pub proof fn lemma_start_then_stop_logs_the_session(
    a: HourTrackerApp,
    b: HourTrackerApp,
    c: HourTrackerApp,
    started: Option<String>,
    stopped: Option<String>,
)
    requires
        a.data.active_timer is None,
        a.selected_project is Some,
        timer_started(a, b, started),
        timer_stopped(b, c, stopped),
    ensures
        c.data.active_timer is None,
        c.data.projects == a.data.projects,
        c.data.dark_mode == a.data.dark_mode,
        c.timer_note@ == Seq::<char>::empty(),
        started is Some && stopped is Some,
        exists|entry: TimeEntry|
            {
                &&& #[trigger] is_random_id(entry.id)
                &&& Some(entry.project_id) == a.selected_project
                &&& entry.started_at == b.data.active_timer->0.started_at
                &&& entry.note@ == trimmed(a.timer_note@)
                &&& entry.elapsed_seconds >= 1
                &&& entry.billed_tenths == tenths_for(entry.elapsed_seconds as int)
                &&& c.data.entries@ == newest_first(a.data.entries@.push(entry))
            },
{
    let timer = b.data.active_timer->0;
    let entry = choose|entry: TimeEntry|
        {
            &&& #[trigger] is_random_id(entry.id)
            &&& entry.project_id == timer.project_id
            &&& entry.started_at == timer.started_at
            &&& entry.ended_at.wf()
            &&& entry.ended_at.secs >= 0
            &&& entry.elapsed_seconds == session_seconds(timer.started_at, entry.ended_at)
            &&& entry.billed_tenths == tenths_for(entry.elapsed_seconds as int)
            &&& entry.note == timer.note
            &&& c.data.entries@ == newest_first(b.data.entries@.push(entry))
            &&& c.data == (TrackerData {
                entries: c.data.entries,
                active_timer: None,
                ..b.data
            })
            &&& c.timer_note@ == Seq::<char>::empty()
            &&& stopped matches Some(message) && message@ == "Entry saved"@
            &&& c == (HourTrackerApp {
                data: c.data,
                timer_note: c.timer_note,
                compact_requested: false,
                ..b
            })
        };
    assert(b.data.entries == a.data.entries);
}

/// Asking for the compact timer, minimizing the window and bringing it back
/// hides the reminder again: the app restored, the compact request is over.
pub proof fn lemma_restore_hides_reminder(app: HourTrackerApp, minimized: bool, focused: bool)
    requires
        minimized || !focused,
    ensures
        ({
            let asked = HourTrackerApp { compact_requested: true, compact_window_away: false, ..app };
            let away = window_seen(asked, minimized, focused);
            let back = window_seen(away, false, true);
            &&& reminder_shown(away, minimized) == (app.data.active_timer is Some)
            &&& !back.compact_requested
            &&& !reminder_shown(back, false)
            &&& back.data == app.data
        }),
{
}

/// Opening an entry in the editor and saving it without changing anything
/// keeps the entry as it was, its note trimmed: a timed session keeps its
/// precise start, end and seconds. Both steps read the entry's local date as
/// `d` (the time zone did not change in between).
pub proof fn lemma_unchanged_edit_keeps_entry(
    a: HourTrackerApp,
    b: HourTrackerApp,
    c: HourTrackerApp,
    id: u128,
    d: Date,
    noon: LocalTime,
    saved: Option<String>,
)
    requires
        d.wf(),
        week_start_of(d.days_from_ce as int) >= MIN_DAY,
        entry_index(a.data.entries@, id) < a.data.entries@.len(),
        a.data.entries@[entry_index(a.data.entries@, id)].billed_tenths >= 1,
        edit_begun_on(a, b, id, d),
        edit_saved_at(b, c, saved, d, noon),
    ensures
        saved matches Some(message) && message@ == "Entry updated"@,
        c.editing_entry is None,
        c.data.projects == a.data.projects,
        exists|edited: TimeEntry|
            {
                let e = a.data.entries@[entry_index(a.data.entries@, id)];
                &&& edited.id == e.id
                &&& edited.project_id == e.project_id
                &&& edited.started_at == e.started_at
                &&& edited.ended_at == e.ended_at
                &&& edited.elapsed_seconds == e.elapsed_seconds
                &&& edited.billed_tenths == e.billed_tenths
                &&& edited.note@ == trimmed(e.note@)
                &&& c.data.entries@ == newest_first(
                    #[trigger] a.data.entries@.update(entry_index(a.data.entries@, id), edited),
                )
            },
{
    let entries = a.data.entries@;
    let k = entry_index(entries, id);
    lemma_entry_index(entries, id);
    let e = entries[k];
    assert(b.data.entries@ == entries);
    lemma_entry_index(entries, e.id);
    assert(entry_index(entries, e.id) == k) by {
        if entry_index(entries, e.id) < k {
            assert(entries[entry_index(entries, e.id)].id == id);
        }
    }
    crate::calendar::lemma_week_start(d.days_from_ce as int);
    let day = Date { days_from_ce: (b.edit_week_start.days_from_ce + b.edit_day) as i32 };
    assert(day == d);
    assert(manual_values_kept(e, d, day, b.edit_tenths as int));
    let edited = choose|edited: TimeEntry|
        {
            &&& entry_edited_at(
                entries[k],
                edited,
                e.project_id,
                day,
                b.edit_tenths as int,
                trimmed(b.edit_note@),
                d,
                noon,
            )
            &&& c.data.entries@ == newest_first(#[trigger] entries.update(k, edited))
            &&& saved matches Some(message) && message@ == "Entry updated"@
            &&& c.data == (TrackerData { entries: c.data.entries, ..b.data })
            &&& c == (HourTrackerApp { data: c.data, editing_entry: None, ..b })
        };
    assert(edited.note@ == trimmed(e.note@));
}

/// Stopping the timer saves the session up to the instant the clock read at
/// the stop: the new entry ends at that reading, lasts the whole seconds from
/// the timer's start to it (at least one), bills every started six minutes of
/// them, and joins all the entries there were.
pub proof fn lemma_stop_saves_until_the_clock(
    before: HourTrackerApp,
    after: HourTrackerApp,
    saved: Option<String>,
)
    requires
        before.data.active_timer is Some,
        timer_stopped(before, after, saved),
    ensures
        saved is Some,
        after.data.active_timer is None,
        exists|entry: TimeEntry, now: Timestamp|
            #![trigger call_ensures(clock_now, (), now), before.data.entries@.to_multiset().insert(entry)]
            {
                &&& call_ensures(clock_now, (), now)
                &&& entry.started_at == before.data.active_timer->0.started_at
                &&& entry.ended_at == now
                &&& entry.elapsed_seconds == (if seconds_between(entry.started_at, now) < 1 {
                    1
                } else {
                    seconds_between(entry.started_at, now)
                })
                &&& (entry.billed_tenths - 1) * 360 < entry.elapsed_seconds <= entry.billed_tenths
                    * 360
                &&& after.data.entries@.to_multiset() == before.data.entries@.to_multiset().insert(
                    entry,
                )
            },
{
    let timer = before.data.active_timer->0;
    let entry = choose|entry: TimeEntry|
        {
            &&& #[trigger] is_random_id(entry.id)
            &&& entry.project_id == timer.project_id
            &&& entry.started_at == timer.started_at
            &&& call_ensures(clock_now, (), entry.ended_at)
            &&& entry.ended_at.wf()
            &&& entry.ended_at.secs >= 0
            &&& entry.elapsed_seconds == session_seconds(timer.started_at, entry.ended_at)
            &&& entry.billed_tenths == tenths_for(entry.elapsed_seconds as int)
            &&& entry.note == timer.note
            &&& after.data.entries@ == newest_first(before.data.entries@.push(entry))
            &&& after.data == (TrackerData {
                entries: after.data.entries,
                active_timer: None,
                ..before.data
            })
            &&& after.timer_note@ == Seq::<char>::empty()
            &&& saved matches Some(message) && message@ == "Entry saved"@
            &&& after == (HourTrackerApp {
                data: after.data,
                timer_note: after.timer_note,
                compact_requested: false,
                ..before
            })
        };
    lemma_newest_first_permutes(before.data.entries@.push(entry));
    broadcast use vstd::seq_lib::group_to_multiset_ensures;

    let now = entry.ended_at;
    assert(call_ensures(clock_now, (), now));
}

/// The running timer shows the whole seconds from its start to the clock's
/// reading: for a reading after the start, the elapsed nanoseconds lie in
/// that whole number of seconds; before the start it shows none.
pub proof fn lemma_elapsed_is_time_since_start(started_at: Timestamp, now: Timestamp)
    requires
        started_at.regular(),
        now.regular(),
    ensures
        started_at.total_nanos() <= now.total_nanos() ==> elapsed_seconds(started_at, now)
            * 1_000_000_000 <= now.total_nanos() - started_at.total_nanos() < (elapsed_seconds(
            started_at,
            now,
        ) + 1) * 1_000_000_000,
        now.total_nanos() < started_at.total_nanos() ==> elapsed_seconds(started_at, now) == 0,
{
    assert(leap_adjust(started_at, now) == 0);
}

/// The running timer's elapsed time never goes back as the clock moves on:
/// of two readings, the later shows at least as many seconds.
pub proof fn lemma_elapsed_never_decreases(started_at: Timestamp, a: Timestamp, b: Timestamp)
    requires
        started_at.regular(),
        a.regular(),
        b.regular(),
        a.total_nanos() <= b.total_nanos(),
    ensures
        elapsed_seconds(started_at, a) <= elapsed_seconds(started_at, b),
{
    assert(leap_adjust(started_at, a) == 0);
    assert(leap_adjust(started_at, b) == 0);
    let da = a.total_nanos() - started_at.total_nanos();
    let db = b.total_nanos() - started_at.total_nanos();
    if da >= 0 {
        assert(da / 1_000_000_000 <= db / 1_000_000_000) by (nonlinear_arith)
            requires
                0 <= da <= db,
        ;
    }
}

/// A manual entry is logged at local noon of the chosen day as the
/// machine's time zone resolves it (`noon_on`): when that noon exists and can
/// start it, the log grows by exactly one entry of the selected project,
/// starting at that noon (the earlier instant when noon occurs twice) and
/// lasting exactly the chosen tenths, at least one.
pub proof fn lemma_manual_entry_starts_at_local_noon(
    before: HourTrackerApp,
    after: HourTrackerApp,
    saved: Option<String>,
    id: u128,
    noon: LocalTime,
)
    requires
        before.selected_project is Some,
        MIN_DAY < before.week_start.days_from_ce + before.manual_day < MAX_DAY,
        call_ensures(
            noon_on,
            (Date { days_from_ce: (before.week_start.days_from_ce + before.manual_day) as i32 },),
            noon,
        ),
        noon_fits(noon, before.manual_tenths as int),
        manual_entry_added(before, after, saved, id, noon),
    ensures
        saved is Some,
        after.data.entries@.len() == before.data.entries@.len() + 1,
        exists|entry: TimeEntry|
            {
                &&& #[trigger] after.data.entries@.to_multiset() == before.data.entries@.to_multiset().insert(
                    entry,
                )
                &&& Some(entry.project_id) == before.selected_project
                &&& entry.started_at == earliest(noon)->0
                &&& near_noon(
                    entry.started_at,
                    before.week_start.days_from_ce + before.manual_day,
                )
                &&& entry.elapsed_seconds == manual_tenths(before.manual_tenths as int) * 360
                &&& entry.elapsed_seconds >= 360
            },
{
    let requested = before.manual_tenths as int;
    let project = before.selected_project->0;
    let day = before.week_start.days_from_ce + before.manual_day;
    let entry = choose|entry: TimeEntry|
        {
            &&& entry.id == id
            &&& entry.project_id == project
            &&& entry.started_at == earliest(noon)->0
            &&& entry.billed_tenths == manual_tenths(requested)
            &&& entry.elapsed_seconds == entry.billed_tenths * 360
            &&& Some(entry.ended_at) == shifted(entry.started_at, entry.elapsed_seconds as int)
            &&& entry.note@ == trimmed(before.manual_note@)
            &&& after.data.entries@ == newest_first(#[trigger] before.data.entries@.push(entry))
            &&& saved matches Some(message) && message@ == "Added "@ + tenths_text(requested)
                + " h on "@ + formatted_date(day, "%a %b %-d"@)
            &&& after.manual_note@ == Seq::<char>::empty()
            &&& after.data == (TrackerData { entries: after.data.entries, ..before.data })
            &&& after == (HourTrackerApp {
                data: after.data,
                manual_note: after.manual_note,
                ..before
            })
        };
    lemma_newest_first_permutes(before.data.entries@.push(entry));
    broadcast use vstd::seq_lib::group_to_multiset_ensures;

    assert(after.data.entries@.to_multiset().len() == after.data.entries@.len());
    assert(before.data.entries@.push(entry).to_multiset().len() == before.data.entries@.len() + 1);
    match noon {
        LocalTime::Single(t) => {},
        LocalTime::Ambiguous(a, b) => {},
        LocalTime::Nonexistent => {},
    }
}

/// Changing the hours of an entry on its own day retimes it: when the
/// entry's local date is the chosen day, the requested tenths differ from
/// what it bills, and local noon of that day can start it, saving moves it to
/// that noon with the requested tenths (at least one), keeping its identity.
pub proof fn lemma_changed_hours_retime_the_entry(
    before: HourTrackerApp,
    after: HourTrackerApp,
    saved: Option<String>,
    current: Date,
    noon: LocalTime,
)
    requires
        before.editing_entry is Some,
        before.edit_project is Some,
        entry_index(before.data.entries@, before.editing_entry->0) < before.data.entries@.len(),
        current.days_from_ce == before.edit_week_start.days_from_ce + before.edit_day,
        before.data.entries@[entry_index(
            before.data.entries@,
            before.editing_entry->0,
        )].billed_tenths != manual_tenths(before.edit_tenths as int),
        noon_fits(noon, before.edit_tenths as int),
        edit_saved_at(before, after, saved, current, noon),
    ensures
        saved is Some,
        exists|edited: TimeEntry|
            {
                &&& edited.id == before.data.entries@[entry_index(
                    before.data.entries@,
                    before.editing_entry->0,
                )].id
                &&& edited.started_at == earliest(noon)->0
                &&& edited.billed_tenths == manual_tenths(before.edit_tenths as int)
                &&& edited.elapsed_seconds == edited.billed_tenths * 360
                &&& after.data.entries@ == newest_first(
                    #[trigger] before.data.entries@.update(
                        entry_index(before.data.entries@, before.editing_entry->0),
                        edited,
                    ),
                )
            },
{
}

/// Going back a week and then forward again leaves the tracker exactly as
/// it was, and each step keeps the shown week starting on the same weekday.
pub proof fn lemma_week_navigation_round_trip(app: HourTrackerApp)
    requires
        app.week_start.wf(),
        app.week_start.days_from_ce - 7 >= MIN_DAY,
    ensures
        week_shifted(week_shifted(app, -7), 7) == app,
        offset_from_saturday(week_shifted(app, -7).week_start.days_from_ce as int)
            == offset_from_saturday(app.week_start.days_from_ce as int),
{
    assert(week_shifted(week_shifted(app, -7), 7).week_start == app.week_start);
}

} // verus!
