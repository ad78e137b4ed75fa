//! The tracker's billing arithmetic and the renderings of durations.

use vstd::prelude::*;
use crate::calendar::{
    add_seconds, clock_now, format_date, formatted_date, local_day, near_noon, noon_on, noon_resolved,
    seconds_between, seconds_since, shifted, Date, LocalTime, Timestamp, MAX_DAY, MIN_DAY,
};
use crate::text::{decimal, digit_char, push_decimal, push_zero_padded, string_of, zero_padded};

verus! {

/// Seconds in one billable tenth of an hour (six minutes).
pub const BILLING_INCREMENT_SECONDS: i64 = 6 * 60;

/// Billable tenths for an elapsed time: every started six-minute increment
/// counts in full; no time bills nothing.
pub open spec fn tenths_for(elapsed_seconds: int) -> int {
    if elapsed_seconds <= 0 {
        0
    } else {
        (elapsed_seconds + 359) / 360
    }
}

/// Rounds an elapsed time in seconds up to whole tenths of an hour.
pub fn billed_tenths(elapsed_seconds: i64) -> (tenths: i64)
    ensures
        tenths == tenths_for(elapsed_seconds as int),
        elapsed_seconds > 0 ==> (tenths - 1) * 360 < elapsed_seconds <= tenths * 360,
        elapsed_seconds <= 0 ==> tenths == 0,
{
    if elapsed_seconds <= 0 {
        0
    } else {
        let whole = elapsed_seconds / BILLING_INCREMENT_SECONDS;
        if elapsed_seconds % BILLING_INCREMENT_SECONDS == 0 {
            whole
        } else {
            whole + 1
        }
    }
}

/// Billing never decreases as time passes, and each further six minutes
/// (or part of them) adds exactly one tenth.
pub proof fn lemma_billing_monotone(a: int, b: int)
    requires
        a <= b,
    ensures
        tenths_for(a) <= tenths_for(b),
        a > 0 ==> tenths_for(a + 360) == tenths_for(a) + 1,
{
}

/// A duration of whole tenths bills exactly those tenths: the six-minute
/// increments of a manual entry round to themselves.
pub proof fn lemma_whole_tenths_bill_themselves(tenths: int)
    requires
        tenths >= 1,
    ensures
        tenths_for(tenths * 360) == tenths,
{
    assert((tenths * 360 + 359) / 360 == tenths) by (nonlinear_arith)
        requires
            tenths >= 1,
    ;
}

/// A duration as `HH:MM:SS`, hours zero-padded to at least two digits;
/// negative durations show as zero.
pub open spec fn elapsed_text(total_seconds: int) -> Seq<char> {
    let t = if total_seconds < 0 { 0 } else { total_seconds };
    zero_padded((t / 3600) as nat, 2) + seq![':'] + zero_padded(((t % 3600) / 60) as nat, 2)
        + seq![':'] + zero_padded((t % 60) as nat, 2)
}

/// Renders a duration in seconds as `HH:MM:SS`.
pub fn format_elapsed(total_seconds: i64) -> (text: String)
    ensures
        text@ == elapsed_text(total_seconds as int),
{
    let t: i64 = if total_seconds < 0 { 0 } else { total_seconds };
    let hours = t / 3600;
    let minutes = (t % 3600) / 60;
    let seconds = t % 60;
    let mut out: Vec<char> = Vec::new();
    push_zero_padded(&mut out, hours as u128, 2);
    out.push(':');
    push_zero_padded(&mut out, minutes as u128, 2);
    out.push(':');
    push_zero_padded(&mut out, seconds as u128, 2);
    string_of(&out)
}

/// A count of tenths of an hour shown as hours with one decimal place,
/// such as `1.7` for 17 tenths or `-0.3` for -3.
pub open spec fn tenths_text(tenths: int) -> Seq<char> {
    let magnitude = if tenths < 0 { -tenths } else { tenths };
    (if tenths < 0 { seq!['-'] } else { Seq::empty() }) + decimal((magnitude / 10) as nat)
        + seq!['.'] + seq![digit_char((magnitude % 10) as nat)]
}

/// Appends `tenths` rendered as hours with one decimal place.
pub(crate) fn push_tenths(out: &mut Vec<char>, tenths: i128)
    ensures
        final(out)@ == old(out)@ + tenths_text(tenths as int),
{
    let ghost start = out@;
    let magnitude: u128 = if tenths < 0 {
        out.push('-');
        if tenths == i128::MIN {
            (i128::MAX as u128) + 1
        } else {
            (-tenths) as u128
        }
    } else {
        tenths as u128
    };
    push_decimal(out, magnitude / 10);
    out.push('.');
    push_decimal(out, magnitude % 10);
    assert(decimal((magnitude % 10) as nat) == seq![digit_char((magnitude % 10) as nat)]);
    if tenths < 0 {
        assert(out@ == start + tenths_text(tenths as int));
    } else {
        assert(out@ == start + tenths_text(tenths as int));
    }
}

/// Renders a count of tenths as hours with one decimal place.
pub fn format_tenths(tenths: i128) -> (text: String)
    ensures
        text@ == tenths_text(tenths as int),
{
    let mut out: Vec<char> = Vec::new();
    push_tenths(&mut out, tenths);
    string_of(&out)
}


// ---------------------------------------------------------------------------
// Identifiers

/// A 128-bit identifier carries the version-4 (random) UUID markings.
pub open spec fn is_random_id(id: u128) -> bool {
    &&& (id >> 76u128) & 0xfu128 == 4
    &&& (id >> 62u128) & 3u128 == 2
}

/// A fresh random identifier.
///
/// Trusted: calls `uuid::Uuid::new_v4().as_u128()`. The contract claims the
/// version and variant bits that `new_v4` sets; the other bits are random.
#[verifier::external_body]
pub(crate) fn new_id() -> (id: u128)
    ensures
        is_random_id(id),
{
    uuid::Uuid::new_v4().as_u128()
}

// ---------------------------------------------------------------------------
// Projects and entries

/// A client project that time is tracked against.
pub struct Project {
    pub id: u128,
    pub name: String,
    pub created_at: Timestamp,
}

impl Project {
    /// A new project with a fresh identifier, created now.
    pub fn new(name: String) -> (project: Project)
        ensures
            project.name == name,
            is_random_id(project.id),
            project.created_at.wf(),
            project.created_at.secs >= 0,
            call_ensures(clock_now, (), project.created_at),
    {
        Project { id: new_id(), name, created_at: clock_now() }
    }
}

impl Clone for Project {
    fn clone(&self) -> (copy: Self)
        ensures
            copy == *self,
    {
        Project { id: self.id, name: self.name.clone(), created_at: self.created_at }
    }
}

/// One block of billed work on a project.
pub struct TimeEntry {
    pub id: u128,
    pub project_id: u128,
    pub started_at: Timestamp,
    pub ended_at: Timestamp,
    pub elapsed_seconds: i64,
    pub billed_tenths: i64,
    pub note: String,
}

impl Clone for TimeEntry {
    fn clone(&self) -> (copy: Self)
        ensures
            copy == *self,
    {
        TimeEntry {
            id: self.id,
            project_id: self.project_id,
            started_at: self.started_at,
            ended_at: self.ended_at,
            elapsed_seconds: self.elapsed_seconds,
            billed_tenths: self.billed_tenths,
            note: self.note.clone(),
        }
    }
}

/// The seconds recorded for a timed session: the whole seconds between its
/// ends, and at least one.
pub open spec fn session_seconds(start: Timestamp, end: Timestamp) -> int {
    let s = seconds_between(start, end);
    if s < 1 {
        1
    } else {
        s
    }
}

/// The tenths a manual entry bills: what was asked for, and at least one.
pub open spec fn manual_tenths(requested: int) -> int {
    if requested < 1 {
        1
    } else {
        requested
    }
}

/// A manual entry of `requested` tenths can be timed: its duration in
/// seconds fits a `chrono` time delta.
pub open spec fn manual_tenths_in_range(requested: int) -> bool {
    manual_tenths(requested) * 360 <= 9_223_372_036_854_775
}

/// Where a manual entry starts, given how local noon on its date resolved:
/// the single instant, or the earlier of two; none when noon was skipped.
pub open spec fn earliest(noon: LocalTime) -> Option<Timestamp> {
    match noon {
        LocalTime::Single(t) => Some(t),
        LocalTime::Ambiguous(a, _) => Some(a),
        LocalTime::Nonexistent => None,
    }
}

/// Local noon resolved to an instant from which a manual entry of
/// `requested` tenths can be timed: noon exists and the entry's end is
/// representable.
pub open spec fn noon_fits(noon: LocalTime, requested: int) -> bool {
    &&& earliest(noon) is Some
    &&& shifted(earliest(noon)->0, manual_tenths(requested) * 360) is Some
}

/// `after` is `before` retimed as a manual entry of `requested` tenths
/// starting at `start`: same identity, project and note, exactly the billed
/// tenths long.
pub open spec fn retimed(before: TimeEntry, after: TimeEntry, start: Timestamp, requested: int) -> bool {
    &&& after.id == before.id
    &&& after.project_id == before.project_id
    &&& after.note == before.note
    &&& after.started_at == start
    &&& after.billed_tenths == manual_tenths(requested)
    &&& after.elapsed_seconds == after.billed_tenths * 360
    &&& Some(after.ended_at) == shifted(start, after.elapsed_seconds as int)
}

/// An edit to `date` and `requested` tenths leaves an entry whose start lies
/// on the local date `current` as it is: same date, same billing.
pub open spec fn manual_values_kept(entry: TimeEntry, current: Date, date: Date, requested: int) -> bool {
    current.days_from_ce == date.days_from_ce && entry.billed_tenths == manual_tenths(requested)
}

/// How local noon of `day` is read for retiming an entry: as `noon_on`
/// gives it for a day strictly inside the representable range; at either
/// end no noon is read.
pub open spec fn noon_read(day: Date, noon: LocalTime) -> bool {
    if MIN_DAY < day.days_from_ce < MAX_DAY {
        call_ensures(noon_on, (day,), noon)
    } else {
        noon == LocalTime::Nonexistent
    }
}

/// What retiming did to an entry whose start lies on the local date
/// `current`, for `date`, local noon of it resolved as `noon`, and
/// `requested` tenths: kept it when it already lies on `date` with those
/// tenths; else retimed it to that noon when the noon can start it, and kept
/// it otherwise. `updated` says whether it is as asked.
pub open spec fn manual_values_updated(
    before: TimeEntry,
    after: TimeEntry,
    updated: bool,
    current: Date,
    date: Date,
    noon: LocalTime,
    requested: int,
) -> bool {
    if manual_values_kept(before, current, date, requested) {
        updated && after == before
    } else if noon_fits(noon, requested) {
        updated && retimed(before, after, earliest(noon)->0, requested)
    } else {
        !updated && after == before
    }
}

impl TimeEntry {
    /// The entry's timestamps are representable.
    pub open spec fn wf(self) -> bool {
        self.started_at.wf() && self.ended_at.wf()
    }

    /// Records a timed session from `started_at` to `ended_at`: at least one
    /// second elapsed, billed in tenths rounded up, with no note.
    pub fn from_session(project_id: u128, started_at: Timestamp, ended_at: Timestamp) -> (entry:
        TimeEntry)
        requires
            started_at.wf(),
            ended_at.wf(),
        ensures
            is_random_id(entry.id),
            entry.project_id == project_id,
            entry.started_at == started_at,
            entry.ended_at == ended_at,
            entry.elapsed_seconds == session_seconds(started_at, ended_at),
            entry.billed_tenths == tenths_for(entry.elapsed_seconds as int),
            entry.note@ == Seq::<char>::empty(),
            entry.wf(),
    {
        let seconds = seconds_since(&started_at, &ended_at);
        let elapsed_seconds = if seconds < 1 { 1 } else { seconds };
        TimeEntry {
            id: new_id(),
            project_id,
            started_at,
            ended_at,
            elapsed_seconds,
            billed_tenths: billed_tenths(elapsed_seconds),
            note: String::new(),
        }
    }

    /// Builds a manual entry given how local noon on its date resolved: it
    /// starts at that noon (the earlier instant when noon occurs twice) and
    /// lasts exactly the billed tenths, at least one. `None` when noon was
    /// skipped on that date or the end is not representable.
    pub fn manual_from(id: u128, project_id: u128, noon: LocalTime, billed_tenths: i64) -> (entry:
        Option<TimeEntry>)
        requires
            manual_tenths_in_range(billed_tenths as int),
            noon matches LocalTime::Single(t) ==> t.regular(),
            noon matches LocalTime::Ambiguous(a, b) ==> a.regular(),
        ensures
            entry is None <==> !noon_fits(noon, billed_tenths as int),
            entry matches Some(e) ==> {
                &&& e.id == id
                &&& e.project_id == project_id
                &&& e.started_at == earliest(noon)->0
                &&& Some(e.ended_at) == shifted(e.started_at, e.elapsed_seconds as int)
                &&& e.billed_tenths == manual_tenths(billed_tenths as int)
                &&& e.elapsed_seconds == e.billed_tenths * 360
                &&& e.note@ == Seq::<char>::empty()
                &&& e.wf()
            },
    {
        let started_at = match noon {
            LocalTime::Single(t) => t,
            LocalTime::Ambiguous(a, _) => a,
            LocalTime::Nonexistent => {
                return None;
            },
        };
        let tenths: i64 = if billed_tenths < 1 { 1 } else { billed_tenths };
        let elapsed_seconds = tenths * BILLING_INCREMENT_SECONDS;
        match add_seconds(&started_at, elapsed_seconds) {
            Some(ended_at) => Some(
                TimeEntry {
                    id,
                    project_id,
                    started_at,
                    ended_at,
                    elapsed_seconds,
                    billed_tenths: tenths,
                    note: String::new(),
                },
            ),
            None => None,
        }
    }

    /// A manual entry for `date`: it starts at local noon and lasts exactly
    /// the billed tenths, at least one. `None` when noon does not exist on
    /// that date in the local time zone or the end is not representable.
    pub fn manual(project_id: u128, date: Date, billed_tenths: i64) -> (entry: Option<TimeEntry>)
        requires
            MIN_DAY < date.days_from_ce < MAX_DAY,
            manual_tenths_in_range(billed_tenths as int),
        ensures
            exists|noon: LocalTime|
                {
                    &&& #[trigger] noon_resolved(noon, date.days_from_ce as int)
                    &&& call_ensures(noon_on, (date,), noon)
                    &&& entry is None <==> !noon_fits(noon, billed_tenths as int)
                    &&& entry matches Some(e) ==> e.started_at == earliest(noon)->0
                },
            entry matches Some(e) ==> {
                &&& is_random_id(e.id)
                &&& e.project_id == project_id
                &&& near_noon(e.started_at, date.days_from_ce as int)
                &&& Some(e.ended_at) == shifted(e.started_at, e.elapsed_seconds as int)
                &&& e.billed_tenths == manual_tenths(billed_tenths as int)
                &&& e.elapsed_seconds == e.billed_tenths * 360
                &&& e.note@ == Seq::<char>::empty()
                &&& e.wf()
            },
    {
        let noon = noon_on(date);
        let id = new_id();
        TimeEntry::manual_from(id, project_id, noon, billed_tenths)
    }

    /// Moves the entry to the resolved local noon of `date` with
    /// `billed_tenths` billed, as a manual entry would be, given that its
    /// start lies on the local date `current`. When that is `date` and the
    /// entry already bills that many tenths it is left untouched, so editing
    /// a note or project keeps precise timer timestamps. Identity, project and
    /// note are always kept. Returns false, leaving the entry untouched, when
    /// noon was skipped or the end is not representable.
    pub fn update_manual_values_at(
        &mut self,
        current: Date,
        date: Date,
        noon: LocalTime,
        billed_tenths: i64,
    ) -> (updated: bool)
        requires
            noon matches LocalTime::Single(t) ==> t.regular(),
            noon matches LocalTime::Ambiguous(a, b) ==> a.regular(),
        ensures
            manual_values_kept(*old(self), current, date, billed_tenths as int) ==> updated
                && *final(self) == *old(self),
            !manual_values_kept(*old(self), current, date, billed_tenths as int) ==> {
                &&& updated == noon_fits(noon, billed_tenths as int)
                &&& !updated ==> *final(self) == *old(self)
                &&& updated ==> retimed(
                    *old(self),
                    *final(self),
                    earliest(noon)->0,
                    billed_tenths as int,
                )
            },
            manual_values_updated(
                *old(self),
                *final(self),
                updated,
                current,
                date,
                noon,
                billed_tenths as int,
            ),
    {
        let tenths: i64 = if billed_tenths < 1 { 1 } else { billed_tenths };
        if current.days_from_ce == date.days_from_ce && self.billed_tenths == tenths {
            return true;
        }
        if tenths > 25_620_477_880_152 {
            return false;
        }
        match TimeEntry::manual_from(self.id, self.project_id, noon, billed_tenths) {
            Some(updated) => {
                self.started_at = updated.started_at;
                self.ended_at = updated.ended_at;
                self.elapsed_seconds = updated.elapsed_seconds;
                self.billed_tenths = updated.billed_tenths;
                true
            },
            None => false,
        }
    }

    /// Moves the entry to local noon on `date` with `billed_tenths` billed,
    /// as a manual entry would be. When the entry already lies on that local
    /// date and bills that many tenths it is left untouched, so editing a note
    /// or project keeps precise timer timestamps. Identity, project and note
    /// are always kept. Returns false, leaving the entry untouched, when noon
    /// does not exist on that date locally (or the date is the first or last
    /// representable one) or the end is not representable.
    pub fn update_manual_values(&mut self, date: Date, billed_tenths: i64) -> (updated: bool)
        requires
            old(self).started_at.local_safe(),
            date.wf(),
        ensures
            !updated ==> *final(self) == *old(self),
            exists|current: Date, noon: LocalTime|
                {
                    &&& call_ensures(local_day, (old(self).started_at,), current)
                    &&& noon_read(date, noon)
                    &&& #[trigger] manual_values_updated(
                        *old(self),
                        *final(self),
                        updated,
                        current,
                        date,
                        noon,
                        billed_tenths as int,
                    )
                },
            exists|current: Date|
                {
                    &&& current.wf()
                    &&& call_ensures(local_day, (old(self).started_at,), current)
                    &&& old(self).started_at.utc_day() - 1 <= current.days_from_ce
                        <= old(self).started_at.utc_day() + 1
                    &&& #[trigger] manual_values_kept(
                        *old(self),
                        current,
                        date,
                        billed_tenths as int,
                    ) ==> updated && *final(self) == *old(self)
                    &&& !manual_values_kept(*old(self), current, date, billed_tenths as int)
                        && updated ==> near_noon(final(self).started_at, date.days_from_ce as int)
                        && retimed(
                        *old(self),
                        *final(self),
                        final(self).started_at,
                        billed_tenths as int,
                    )
                },
    {
        let current = local_day(self.started_at);
        let noon = if MIN_DAY < date.days_from_ce && date.days_from_ce < MAX_DAY {
            noon_on(date)
        } else {
            LocalTime::Nonexistent
        };
        let updated = self.update_manual_values_at(current, date, noon, billed_tenths);
        assert(manual_values_kept(*old(self), current, date, billed_tenths as int) ==> updated
            && *self == *old(self));
        assert(noon_read(date, noon));
        updated
    }

    /// The entry's local start date rendered as `Aug 26, 2026`.
    pub fn local_date(&self) -> (text: String)
        requires
            self.started_at.local_safe(),
        ensures
            exists|d: int|
                self.started_at.utc_day() - 1 <= d <= self.started_at.utc_day() + 1 && text@
                    == formatted_date(d, "%b %-d, %Y"@),
            exists|d: Date|
                #[trigger] call_ensures(local_day, (self.started_at,), d) && text@ == formatted_date(
                    d.days_from_ce as int,
                    "%b %-d, %Y"@,
                ),
    {
        let date = local_day(self.started_at);
        format_date(date, "%b %-d, %Y")
    }
}

/// The timer that is running: which project, since when, and its note.
pub struct ActiveTimer {
    pub project_id: u128,
    pub started_at: Timestamp,
    pub note: String,
}

impl Clone for ActiveTimer {
    fn clone(&self) -> (copy: Self)
        ensures
            copy == *self,
    {
        ActiveTimer { project_id: self.project_id, started_at: self.started_at, note: self.note.clone() }
    }
}

/// Everything the tracker stores: projects, entries, the running timer, and
/// the theme choice.
pub struct TrackerData {
    pub projects: Vec<Project>,
    pub entries: Vec<TimeEntry>,
    pub active_timer: Option<ActiveTimer>,
    pub dark_mode: bool,
}

impl TrackerData {
    /// Every stored instant is representable.
    pub open spec fn wf(self) -> bool {
        &&& forall|i: int| 0 <= i < self.entries.len() ==> (#[trigger] self.entries@[i]).wf()
        &&& forall|i: int|
            0 <= i < self.projects.len() ==> (#[trigger] self.projects@[i]).created_at.wf()
        &&& self.active_timer matches Some(t) ==> t.started_at.wf()
    }
}

impl Default for TrackerData {
    fn default() -> (data: Self)
        ensures
            data.projects@.len() == 0,
            data.entries@.len() == 0,
            data.active_timer is None,
            !data.dark_mode,
            data.wf(),
    {
        TrackerData { projects: Vec::new(), entries: Vec::new(), active_timer: None, dark_mode: false }
    }
}

} // verus!
