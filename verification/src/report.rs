//! The weekly timesheet: which entries fall in a Saturday-to-Friday week,
//! the tenths billed per project and day, the copied summary and the CSV
//! export.
//!
//! Every function here takes, beside the entries, the local date of each
//! entry (`dates[i]` belongs to `entries[i]`), so what it computes is fixed
//! by its arguments.

use vstd::prelude::*;
use crate::calendar::{format_date, formatted_date, iso_date_text, Date, MAX_DAY};
use crate::model::{push_tenths, tenths_text, Project, TimeEntry};
use crate::text::{csv_cell, csv_cell_text, push_all, push_str, string_of};

verus! {

/// The magnitude bound of an `i64`.
pub open spec fn i64_span() -> int {
    0x8000_0000_0000_0000
}

/// What every report needs of its inputs: one date per entry, representable
/// dates, and lists short enough to sum exactly (a machine could not hold
/// longer ones).
pub open spec fn report_inputs(
    projects: Seq<Project>,
    entries: Seq<TimeEntry>,
    dates: Seq<Date>,
    start: Date,
) -> bool {
    &&& dates.len() == entries.len()
    &&& entries.len() < 0x4000_0000
    &&& projects.len() < 0x4000_0000
    &&& start.wf()
    &&& forall|i: int| 0 <= i < dates.len() ==> (#[trigger] dates[i]).wf()
}

/// `d` lies in the seven days starting on `start`.
pub open spec fn in_week(d: Date, start: Date) -> bool {
    start.days_from_ce <= d.days_from_ce < start.days_from_ce + 7
}

/// Days from `start` to `d`: the column of `d` in the week of `start`.
pub open spec fn day_of_week(d: Date, start: Date) -> int {
    d.days_from_ce - start.days_from_ce
}

/// Tenths billed to `project` on day `day` of the week, over the first `n`
/// entries.
pub open spec fn cell_tenths(
    entries: Seq<TimeEntry>,
    dates: Seq<Date>,
    start: Date,
    project: u128,
    day: int,
    n: int,
) -> int
    decreases n,
{
    if n <= 0 {
        0
    } else {
        cell_tenths(entries, dates, start, project, day, n - 1) + (if entries[n - 1].project_id
            == project && day_of_week(dates[n - 1], start) == day {
            entries[n - 1].billed_tenths as int
        } else {
            0
        })
    }
}

/// Tenths billed to `project` on day `day` (0 is Saturday) of the week.
pub open spec fn cell(
    entries: Seq<TimeEntry>,
    dates: Seq<Date>,
    start: Date,
    project: u128,
    day: int,
) -> int {
    cell_tenths(entries, dates, start, project, day, entries.len() as int)
}

/// Tenths billed to `project` over the week: its seven day cells.
pub open spec fn project_week_tenths(
    entries: Seq<TimeEntry>,
    dates: Seq<Date>,
    start: Date,
    project: u128,
) -> int {
    cell(entries, dates, start, project, 0) + cell(entries, dates, start, project, 1) + cell(
        entries,
        dates,
        start,
        project,
        2,
    ) + cell(entries, dates, start, project, 3) + cell(entries, dates, start, project, 4) + cell(
        entries,
        dates,
        start,
        project,
        5,
    ) + cell(entries, dates, start, project, 6)
}

/// Tenths billed to `project` by the entries among the first `n` that fall
/// in the week.
pub open spec fn week_entry_tenths(
    entries: Seq<TimeEntry>,
    dates: Seq<Date>,
    start: Date,
    project: u128,
    n: int,
) -> int
    decreases n,
{
    if n <= 0 {
        0
    } else {
        week_entry_tenths(entries, dates, start, project, n - 1) + (if entries[n - 1].project_id
            == project && in_week(dates[n - 1], start) {
            entries[n - 1].billed_tenths as int
        } else {
            0
        })
    }
}

/// A project's week total is what its entries in that week bill: the seven
/// day cells add up to the sum over the week's entries of the project.
pub proof fn lemma_week_total_is_entry_sum(
    entries: Seq<TimeEntry>,
    dates: Seq<Date>,
    start: Date,
    project: u128,
    n: int,
)
    requires
        0 <= n <= entries.len(),
        dates.len() == entries.len(),
    ensures
        cell_tenths(entries, dates, start, project, 0, n) + cell_tenths(
            entries,
            dates,
            start,
            project,
            1,
            n,
        ) + cell_tenths(entries, dates, start, project, 2, n) + cell_tenths(
            entries,
            dates,
            start,
            project,
            3,
            n,
        ) + cell_tenths(entries, dates, start, project, 4, n) + cell_tenths(
            entries,
            dates,
            start,
            project,
            5,
            n,
        ) + cell_tenths(entries, dates, start, project, 6, n) == week_entry_tenths(
            entries,
            dates,
            start,
            project,
            n,
        ),
    decreases n,
{
    if n > 0 {
        lemma_week_total_is_entry_sum(entries, dates, start, project, n - 1);
    }
}

proof fn lemma_cell_bound(
    entries: Seq<TimeEntry>,
    dates: Seq<Date>,
    start: Date,
    project: u128,
    day: int,
    n: int,
)
    requires
        0 <= n <= entries.len(),
    ensures
        -n * i64_span() <= cell_tenths(entries, dates, start, project, day, n) <= n * i64_span(),
    decreases n,
{
    if n > 0 {
        lemma_cell_bound(entries, dates, start, project, day, n - 1);
        assert(-i64_span() <= (entries[n - 1].billed_tenths as int) < i64_span());
    }
}

/// The seven day cells of `project` for the week starting on `start`.
pub fn week_cells(entries: &Vec<TimeEntry>, dates: &Vec<Date>, start: Date, project: u128) -> (cells:
    Vec<i128>)
    requires
        dates@.len() == entries@.len(),
        entries@.len() < 0x4000_0000,
    ensures
        cells@.len() == 7,
        forall|d: int| 0 <= d < 7 ==> cells@[d] == cell(entries@, dates@, start, project, d),
{
    let mut cells: Vec<i128> = Vec::new();
    let mut k: usize = 0;
    while k < 7
        invariant
            k <= 7,
            cells@.len() == k,
            forall|d: int| 0 <= d < k ==> cells@[d] == 0,
        decreases 7 - k,
    {
        cells.push(0);
        k = k + 1;
    }
    let n = entries.len();
    let mut i: usize = 0;
    while i < n
        invariant
            i <= n == entries@.len() == dates@.len() < 0x4000_0000,
            cells@.len() == 7,
            forall|d: int|
                0 <= d < 7 ==> cells@[d] == cell_tenths(entries@, dates@, start, project, d, i as int),
        decreases n - i,
    {
        proof {
            assert forall|d: int| 0 <= d < 7 implies -i * i64_span() <= #[trigger] cell_tenths(
                entries@,
                dates@,
                start,
                project,
                d,
                i as int,
            ) <= i * i64_span() by {
                lemma_cell_bound(entries@, dates@, start, project, d, i as int);
            }
        }
        let entry = &entries[i];
        let offset: i64 = dates[i].days_from_ce as i64 - start.days_from_ce as i64;
        if entry.project_id == project && 0 <= offset && offset < 7 {
            let d = offset as usize;
            assert(-i * i64_span() <= cells@[d as int] <= i * i64_span());
            let updated = cells[d] + entry.billed_tenths as i128;
            cells[d] = updated;
        }
        i = i + 1;
    }
    cells
}

/// Adds the seven day cells.
fn cells_total(cells: &Vec<i128>) -> (total: i128)
    requires
        cells@.len() == 7,
        forall|d: int| 0 <= d < 7 ==> -0x4000_0000 * i64_span() <= #[trigger] cells@[d] <= 0x4000_0000
            * i64_span(),
    ensures
        total == cells@[0] + cells@[1] + cells@[2] + cells@[3] + cells@[4] + cells@[5] + cells@[6],
{
    cells[0] + cells[1] + cells[2] + cells[3] + cells[4] + cells[5] + cells[6]
}

/// The cells of `project` and their sum, the project's week total.
fn project_cells(entries: &Vec<TimeEntry>, dates: &Vec<Date>, start: Date, project: u128) -> (r: (
    Vec<i128>,
    i128,
))
    requires
        dates@.len() == entries@.len(),
        entries@.len() < 0x4000_0000,
    ensures
        r.0@.len() == 7,
        forall|d: int| 0 <= d < 7 ==> r.0@[d] == cell(entries@, dates@, start, project, d),
        r.1 == project_week_tenths(entries@, dates@, start, project),
        -7 * 0x4000_0000 * i64_span() <= r.1 <= 7 * 0x4000_0000 * i64_span(),
{
    let cells = week_cells(entries, dates, start, project);
    proof {
        assert forall|d: int| 0 <= d < 7 implies -0x4000_0000 * i64_span() <= #[trigger] cells@[d]
            <= 0x4000_0000 * i64_span() by {
            lemma_cell_bound(entries@, dates@, start, project, d, entries@.len() as int);
            assert(entries@.len() * i64_span() <= 0x4000_0000 * i64_span()) by (nonlinear_arith)
                requires
                    entries@.len() < 0x4000_0000,
            ;
        }
    }
    let total = cells_total(&cells);
    (cells, total)
}

// ---------------------------------------------------------------------------
// Project names

/// The name of the first project with identifier `id`, or `Unknown project`.
pub open spec fn name_of(projects: Seq<Project>, id: u128) -> Seq<char>
    decreases projects.len(),
{
    if projects.len() == 0 {
        "Unknown project"@
    } else if projects[0].id == id {
        projects[0].name@
    } else {
        name_of(projects.drop_first(), id)
    }
}

/// Looks up the name of the project with identifier `id`.
pub fn project_name_of(projects: &Vec<Project>, id: u128) -> (name: &str)
    ensures
        name@ == name_of(projects@, id),
{
    let mut i: usize = 0;
    assert(projects@.skip(0) =~= projects@);
    while i < projects.len()
        invariant
            i <= projects@.len(),
            name_of(projects@, id) == name_of(projects@.skip(i as int), id),
        decreases projects@.len() - i,
    {
        proof {
            let rest = projects@.skip(i as int);
            assert(rest.drop_first() =~= projects@.skip(i + 1));
            assert(rest[0] == projects@[i as int]);
        }
        if projects[i].id == id {
            return projects[i].name.as_str();
        }
        i = i + 1;
    }
    "Unknown project"
}

// ---------------------------------------------------------------------------
// Lines of text

/// Lines joined with newlines between them.
pub open spec fn joined(lines: Seq<Seq<char>>) -> Seq<char>
    decreases lines.len(),
{
    if lines.len() == 0 {
        Seq::empty()
    } else if lines.len() == 1 {
        lines[0]
    } else {
        joined(lines.drop_last()) + seq!['\n'] + lines.last()
    }
}

/// Appends a line to text holding the joined earlier lines.
fn push_line(out: &mut Vec<char>, line: &Vec<char>, Ghost(lines): Ghost<Seq<Seq<char>>>)
    requires
        old(out)@ == joined(lines),
        lines.len() > 0,
    ensures
        final(out)@ == joined(lines.push(line@)),
{
    assert(lines.push(line@).drop_last() =~= lines);
    out.push('\n');
    push_all(out, line);
}

// ---------------------------------------------------------------------------
// The copied summary

/// `name: 1.7 hours`.
pub open spec fn hours_line(name: Seq<char>, tenths: int) -> Seq<char> {
    name + ": "@ + tenths_text(tenths) + " hours"@
}

/// One line per project among the first `m` that billed time in the week,
/// in project order.
pub open spec fn project_lines(
    projects: Seq<Project>,
    entries: Seq<TimeEntry>,
    dates: Seq<Date>,
    start: Date,
    m: int,
) -> Seq<Seq<char>>
    decreases m,
{
    if m <= 0 {
        Seq::empty()
    } else {
        let prev = project_lines(projects, entries, dates, start, m - 1);
        let p = projects[m - 1];
        let t = project_week_tenths(entries, dates, start, p.id);
        if t > 0 {
            prev.push(hours_line(p.name@, t))
        } else {
            prev
        }
    }
}

/// The sum of the week totals of the projects among the first `m` that
/// billed time in the week.
pub open spec fn positive_total(
    projects: Seq<Project>,
    entries: Seq<TimeEntry>,
    dates: Seq<Date>,
    start: Date,
    m: int,
) -> int
    decreases m,
{
    if m <= 0 {
        0
    } else {
        let t = project_week_tenths(entries, dates, start, projects[m - 1].id);
        positive_total(projects, entries, dates, start, m - 1) + (if t > 0 {
            t
        } else {
            0
        })
    }
}

/// `Wed 8/26 · Client · 1.5 h — note`.
pub open spec fn note_line(projects: Seq<Project>, entry: TimeEntry, date: Date) -> Seq<char> {
    formatted_date(date.days_from_ce as int, "%a %-m/%-d"@) + " \u{b7} "@ + name_of(
        projects,
        entry.project_id,
    ) + " \u{b7} "@ + tenths_text(entry.billed_tenths as int) + " h \u{2014} "@ + entry.note@
}

/// One line per entry among the first `n` that falls in the week and has a
/// note, in entry order.
pub open spec fn note_lines(
    projects: Seq<Project>,
    entries: Seq<TimeEntry>,
    dates: Seq<Date>,
    start: Date,
    n: int,
) -> Seq<Seq<char>>
    decreases n,
{
    if n <= 0 {
        Seq::empty()
    } else {
        let prev = note_lines(projects, entries, dates, start, n - 1);
        if in_week(dates[n - 1], start) && entries[n - 1].note@.len() > 0 {
            prev.push(note_line(projects, entries[n - 1], dates[n - 1]))
        } else {
            prev
        }
    }
}

/// The summary's lines: the week heading, each project's hours, the total,
/// and the notes logged that week when there are any.
pub open spec fn summary_lines(
    projects: Seq<Project>,
    entries: Seq<TimeEntry>,
    dates: Seq<Date>,
    start: Date,
) -> Seq<Seq<char>> {
    let notes = note_lines(projects, entries, dates, start, entries.len() as int);
    seq!["Week of "@ + formatted_date(start.days_from_ce as int, "%B %-d, %Y"@)] + project_lines(
        projects,
        entries,
        dates,
        start,
        projects.len() as int,
    ) + seq![
        "Total: "@ + tenths_text(positive_total(projects, entries, dates, start, projects.len() as int))
            + " hours"@,
    ] + (if notes.len() > 0 {
        seq![Seq::empty(), "Notes:"@] + notes
    } else {
        Seq::empty()
    })
}

/// The weekly summary text.
pub open spec fn summary_text(
    projects: Seq<Project>,
    entries: Seq<TimeEntry>,
    dates: Seq<Date>,
    start: Date,
) -> Seq<char> {
    joined(summary_lines(projects, entries, dates, start))
}

proof fn lemma_positive_total_bound(
    projects: Seq<Project>,
    entries: Seq<TimeEntry>,
    dates: Seq<Date>,
    start: Date,
    m: int,
)
    requires
        0 <= m <= projects.len(),
        dates.len() == entries.len(),
        entries.len() < 0x4000_0000,
    ensures
        0 <= positive_total(projects, entries, dates, start, m) <= m * 7 * 0x4000_0000 * i64_span(),
    decreases m,
{
    if m > 0 {
        lemma_positive_total_bound(projects, entries, dates, start, m - 1);
        let p = projects[m - 1].id;
        lemma_cell_bound(entries, dates, start, p, 0, entries.len() as int);
        lemma_cell_bound(entries, dates, start, p, 1, entries.len() as int);
        lemma_cell_bound(entries, dates, start, p, 2, entries.len() as int);
        lemma_cell_bound(entries, dates, start, p, 3, entries.len() as int);
        lemma_cell_bound(entries, dates, start, p, 4, entries.len() as int);
        lemma_cell_bound(entries, dates, start, p, 5, entries.len() as int);
        lemma_cell_bound(entries, dates, start, p, 6, entries.len() as int);
        assert(entries.len() * i64_span() <= 0x4000_0000 * i64_span()) by (nonlinear_arith)
            requires
                entries.len() < 0x4000_0000,
        ;
        assert((m - 1) * 7 * 0x4000_0000 * i64_span() + 7 * 0x4000_0000 * i64_span() == m * 7
            * 0x4000_0000 * i64_span()) by (nonlinear_arith);
    }
}

/// Builds `name: 1.7 hours`.
fn hours_line_chars(name: &str, tenths: i128) -> (line: Vec<char>)
    ensures
        line@ == hours_line(name@, tenths as int),
{
    let mut line: Vec<char> = Vec::new();
    push_str(&mut line, name);
    push_str(&mut line, ": ");
    push_tenths(&mut line, tenths);
    push_str(&mut line, " hours");
    line
}

/// Builds the note line of an entry.
fn note_line_chars(projects: &Vec<Project>, entry: &TimeEntry, date: Date) -> (line: Vec<char>)
    requires
        date.wf(),
    ensures
        line@ == note_line(projects@, *entry, date),
{
    let mut line: Vec<char> = Vec::new();
    let day = format_date(date, "%a %-m/%-d");
    push_str(&mut line, day.as_str());
    push_str(&mut line, " \u{b7} ");
    push_str(&mut line, project_name_of(projects, entry.project_id));
    push_str(&mut line, " \u{b7} ");
    push_tenths(&mut line, entry.billed_tenths as i128);
    push_str(&mut line, " h \u{2014} ");
    push_str(&mut line, entry.note.as_str());
    line
}

/// Renders the weekly summary that the timesheet copies to the clipboard.
pub fn week_summary_text(
    projects: &Vec<Project>,
    entries: &Vec<TimeEntry>,
    dates: &Vec<Date>,
    start: Date,
) -> (text: String)
    requires
        report_inputs(projects@, entries@, dates@, start),
    ensures
        text@ == summary_text(projects@, entries@, dates@, start),
{
    let mut out: Vec<char> = Vec::new();
    let mut header: Vec<char> = Vec::new();
    push_str(&mut header, "Week of ");
    let heading_date = format_date(start, "%B %-d, %Y");
    push_str(&mut header, heading_date.as_str());
    push_all(&mut out, &header);
    let ghost mut lines: Seq<Seq<char>> = seq![header@];
    let mut grand: i128 = 0;
    let m = projects.len();
    let mut j: usize = 0;
    while j < m
        invariant
            j <= m == projects@.len() < 0x4000_0000,
            report_inputs(projects@, entries@, dates@, start),
            lines == seq![header@] + project_lines(projects@, entries@, dates@, start, j as int),
            out@ == joined(lines),
            grand == positive_total(projects@, entries@, dates@, start, j as int),
        decreases m - j,
    {
        proof {
            lemma_positive_total_bound(projects@, entries@, dates@, start, j as int);
            assert(j * 7 * 0x4000_0000 * i64_span() <= 0x4000_0000 * 7 * 0x4000_0000 * i64_span())
                by (nonlinear_arith)
                requires
                    j < 0x4000_0000,
            ;
        }
        let project = &projects[j];
        let (_, total) = project_cells(entries, dates, start, project.id);
        if total > 0 {
            let line = hours_line_chars(project.name.as_str(), total);
            push_line(&mut out, &line, Ghost(lines));
            proof {
                lines = lines.push(line@);
            }
            grand = grand + total;
        }
        j = j + 1;
    }
    let mut total_line: Vec<char> = Vec::new();
    push_str(&mut total_line, "Total: ");
    push_tenths(&mut total_line, grand);
    push_str(&mut total_line, " hours");
    push_line(&mut out, &total_line, Ghost(lines));
    proof {
        lines = lines.push(total_line@);
    }
    let mut notes: Vec<Vec<char>> = Vec::new();
    let ghost mut note_seq: Seq<Seq<char>> = Seq::empty();
    let n = entries.len();
    let mut i: usize = 0;
    while i < n
        invariant
            i <= n == entries@.len(),
            report_inputs(projects@, entries@, dates@, start),
            note_seq == note_lines(projects@, entries@, dates@, start, i as int),
            notes@.len() == note_seq.len(),
            forall|k: int| 0 <= k < notes@.len() ==> (#[trigger] notes@[k])@ == note_seq[k],
        decreases n - i,
    {
        let entry = &entries[i];
        let date = dates[i];
        let offset: i64 = date.days_from_ce as i64 - start.days_from_ce as i64;
        if 0 <= offset && offset < 7 && !entry.note.as_str().is_empty() {
            let line = note_line_chars(projects, entry, date);
            notes.push(line);
            proof {
                note_seq = note_seq.push(line@);
            }
        }
        i = i + 1;
    }
    if notes.len() > 0 {
        let blank: Vec<char> = Vec::new();
        push_line(&mut out, &blank, Ghost(lines));
        proof {
            lines = lines.push(blank@);
        }
        let mut notes_heading: Vec<char> = Vec::new();
        push_str(&mut notes_heading, "Notes:");
        push_line(&mut out, &notes_heading, Ghost(lines));
        proof {
            lines = lines.push(notes_heading@);
        }
        let ghost before_notes = lines;
        let mut k: usize = 0;
        while k < notes.len()
            invariant
                k <= notes@.len() == note_seq.len(),
                forall|q: int| 0 <= q < notes@.len() ==> (#[trigger] notes@[q])@ == note_seq[q],
                before_notes.len() > 0,
                lines == before_notes + note_seq.take(k as int),
                out@ == joined(lines),
            decreases notes@.len() - k,
        {
            push_line(&mut out, &notes[k], Ghost(lines));
            proof {
                lines = lines.push(notes@[k as int]@);
                assert(note_seq.take(k + 1) =~= note_seq.take(k as int).push(note_seq[k as int]));
            }
            k = k + 1;
        }
        assert(note_seq.take(notes.len() as int) =~= note_seq);
    }
    assert(lines =~= summary_lines(projects@, entries@, dates@, start));
    string_of(&out)
}


// ---------------------------------------------------------------------------
// The CSV timesheet

/// The first row of the CSV timesheet.
pub open spec fn csv_header() -> Seq<char> {
    "Project,Saturday,Sunday,Monday,Tuesday,Wednesday,Thursday,Friday,Total\n"@
}

/// The heading of the entry-notes part of the CSV timesheet.
pub open spec fn csv_notes_header() -> Seq<char> {
    "\nEntry notes\nProject,Date,Hours,Note\n"@
}

/// The first `k` day cells of a project's row, each after a comma.
pub open spec fn cells_text(
    entries: Seq<TimeEntry>,
    dates: Seq<Date>,
    start: Date,
    project: u128,
    k: int,
) -> Seq<char>
    decreases k,
{
    if k <= 0 {
        Seq::empty()
    } else {
        cells_text(entries, dates, start, project, k - 1) + seq![','] + tenths_text(
            cell(entries, dates, start, project, k - 1),
        )
    }
}

/// A project's CSV row: its quoted name, the hours of each day, the week's
/// total.
pub open spec fn csv_row(
    project: Project,
    entries: Seq<TimeEntry>,
    dates: Seq<Date>,
    start: Date,
) -> Seq<char> {
    csv_cell_text(project.name@) + cells_text(entries, dates, start, project.id, 7) + seq![','] + tenths_text(
        project_week_tenths(entries, dates, start, project.id),
    ) + seq!['\n']
}

/// The rows of the projects among the first `m` whose week total is not
/// zero, in project order.
pub open spec fn csv_rows(
    projects: Seq<Project>,
    entries: Seq<TimeEntry>,
    dates: Seq<Date>,
    start: Date,
    m: int,
) -> Seq<char>
    decreases m,
{
    if m <= 0 {
        Seq::empty()
    } else {
        let p = projects[m - 1];
        csv_rows(projects, entries, dates, start, m - 1) + (if project_week_tenths(
            entries,
            dates,
            start,
            p.id,
        ) != 0 {
            csv_row(p, entries, dates, start)
        } else {
            Seq::empty()
        })
    }
}

/// The CSV row of an entry's note: project, date, hours, note.
pub open spec fn csv_note_row(projects: Seq<Project>, entry: TimeEntry, date: Date) -> Seq<char> {
    csv_cell_text(name_of(projects, entry.project_id)) + seq![','] + iso_date_text(
        date.days_from_ce as int,
    ) + seq![','] + tenths_text(entry.billed_tenths as int) + seq![','] + csv_cell_text(entry.note@)
        + seq!['\n']
}

/// The note rows of the entries among the first `n` that fall in the week
/// and have a note, in entry order.
pub open spec fn csv_note_rows(
    projects: Seq<Project>,
    entries: Seq<TimeEntry>,
    dates: Seq<Date>,
    start: Date,
    n: int,
) -> Seq<char>
    decreases n,
{
    if n <= 0 {
        Seq::empty()
    } else {
        csv_note_rows(projects, entries, dates, start, n - 1) + (if in_week(dates[n - 1], start)
            && entries[n - 1].note@.len() > 0 {
            csv_note_row(projects, entries[n - 1], dates[n - 1])
        } else {
            Seq::empty()
        })
    }
}

/// The CSV timesheet of the week.
pub open spec fn csv_text(
    projects: Seq<Project>,
    entries: Seq<TimeEntry>,
    dates: Seq<Date>,
    start: Date,
) -> Seq<char> {
    let notes = csv_note_rows(projects, entries, dates, start, entries.len() as int);
    csv_header() + csv_rows(projects, entries, dates, start, projects.len() as int) + (if notes.len()
        > 0 {
        csv_notes_header() + notes
    } else {
        Seq::empty()
    })
}

/// Builds the CSV row of an entry's note.
fn csv_note_row_chars(projects: &Vec<Project>, entry: &TimeEntry, date: Date) -> (row: Vec<char>)
    requires
        date.wf(),
    ensures
        row@ == csv_note_row(projects@, *entry, date),
{
    let mut row: Vec<char> = Vec::new();
    let name = csv_cell(project_name_of(projects, entry.project_id));
    push_str(&mut row, name.as_str());
    row.push(',');
    let day = format_date(date, "%Y-%m-%d");
    push_str(&mut row, day.as_str());
    row.push(',');
    push_tenths(&mut row, entry.billed_tenths as i128);
    row.push(',');
    let note = csv_cell(entry.note.as_str());
    push_str(&mut row, note.as_str());
    row.push('\n');
    row
}

/// Renders the CSV timesheet of the week starting on `start`.
pub fn week_csv_text(
    projects: &Vec<Project>,
    entries: &Vec<TimeEntry>,
    dates: &Vec<Date>,
    start: Date,
) -> (text: String)
    requires
        report_inputs(projects@, entries@, dates@, start),
    ensures
        text@ == csv_text(projects@, entries@, dates@, start),
{
    let mut out: Vec<char> = Vec::new();
    push_str(&mut out, "Project,Saturday,Sunday,Monday,Tuesday,Wednesday,Thursday,Friday,Total\n");
    let m = projects.len();
    let mut j: usize = 0;
    while j < m
        invariant
            j <= m == projects@.len(),
            report_inputs(projects@, entries@, dates@, start),
            out@ == csv_header() + csv_rows(projects@, entries@, dates@, start, j as int),
        decreases m - j,
    {
        let project = &projects[j];
        let (cells, total) = project_cells(entries, dates, start, project.id);
        if total != 0 {
            let ghost before = out@;
            let name = csv_cell(project.name.as_str());
            push_str(&mut out, name.as_str());
            let mut d: usize = 0;
            while d < 7
                invariant
                    d <= 7,
                    cells@.len() == 7,
                    forall|q: int| 0 <= q < 7 ==> cells@[q] == cell(entries@, dates@, start, project.id, q),
                    out@ == before + csv_cell_text(project.name@) + cells_text(
                        entries@,
                        dates@,
                        start,
                        project.id,
                        d as int,
                    ),
                decreases 7 - d,
            {
                out.push(',');
                push_tenths(&mut out, cells[d]);
                d = d + 1;
            }
            out.push(',');
            push_tenths(&mut out, total);
            out.push('\n');
        }
        j = j + 1;
    }
    let mut notes: Vec<char> = Vec::new();
    let n = entries.len();
    let mut i: usize = 0;
    while i < n
        invariant
            i <= n == entries@.len(),
            report_inputs(projects@, entries@, dates@, start),
            notes@ == csv_note_rows(projects@, entries@, dates@, start, i as int),
        decreases n - i,
    {
        let entry = &entries[i];
        let date = dates[i];
        let offset: i64 = date.days_from_ce as i64 - start.days_from_ce as i64;
        if 0 <= offset && offset < 7 && !entry.note.as_str().is_empty() {
            let row = csv_note_row_chars(projects, entry, date);
            push_all(&mut notes, &row);
        }
        i = i + 1;
    }
    if notes.len() > 0 {
        push_str(&mut out, "\nEntry notes\nProject,Date,Hours,Note\n");
        push_all(&mut out, &notes);
    }
    string_of(&out)
}


// ---------------------------------------------------------------------------
// Selections of entries

/// Positions, among the first `n` entries, of those that fall in the week.
pub open spec fn week_positions(dates: Seq<Date>, start: Date, n: int) -> Seq<int>
    decreases n,
{
    if n <= 0 {
        Seq::empty()
    } else if in_week(dates[n - 1], start) {
        week_positions(dates, start, n - 1).push(n - 1)
    } else {
        week_positions(dates, start, n - 1)
    }
}

/// The positions of the entries that fall in the week starting on `start`,
/// in entry order.
pub fn week_entry_positions(dates: &Vec<Date>, start: Date) -> (positions: Vec<usize>)
    ensures
        positions@.len() == week_positions(dates@, start, dates@.len() as int).len(),
        forall|k: int|
            0 <= k < positions@.len() ==> #[trigger] positions@[k] as int == week_positions(
                dates@,
                start,
                dates@.len() as int,
            )[k],
{
    let mut positions: Vec<usize> = Vec::new();
    let n = dates.len();
    let mut i: usize = 0;
    while i < n
        invariant
            i <= n == dates@.len(),
            positions@.len() == week_positions(dates@, start, i as int).len(),
            forall|k: int|
                0 <= k < positions@.len() ==> #[trigger] positions@[k] as int == week_positions(
                    dates@,
                    start,
                    i as int,
                )[k],
        decreases n - i,
    {
        let offset: i64 = dates[i].days_from_ce as i64 - start.days_from_ce as i64;
        if 0 <= offset && offset < 7 {
            positions.push(i);
        }
        i = i + 1;
    }
    positions
}

/// Positions, among the first `n` entries, of those of `project` dated
/// `day`.
pub open spec fn day_positions(
    entries: Seq<TimeEntry>,
    dates: Seq<Date>,
    project: u128,
    day: Date,
    n: int,
) -> Seq<int>
    decreases n,
{
    if n <= 0 {
        Seq::empty()
    } else if entries[n - 1].project_id == project && dates[n - 1] == day {
        day_positions(entries, dates, project, day, n - 1).push(n - 1)
    } else {
        day_positions(entries, dates, project, day, n - 1)
    }
}

/// Every position listed lies among the first `n`.
pub proof fn lemma_day_positions_bounded(
    entries: Seq<TimeEntry>,
    dates: Seq<Date>,
    project: u128,
    day: Date,
    n: int,
)
    ensures
        forall|k: int|
            0 <= k < day_positions(entries, dates, project, day, n).len() ==> 0 <= #[trigger] day_positions(
                entries,
                dates,
                project,
                day,
                n,
            )[k] < n,
    decreases n,
{
    if n > 0 {
        lemma_day_positions_bounded(entries, dates, project, day, n - 1);
        let prev = day_positions(entries, dates, project, day, n - 1);
        let now = day_positions(entries, dates, project, day, n);
        assert forall|k: int| 0 <= k < now.len() implies 0 <= #[trigger] now[k] < n by {
            if k < prev.len() {
                assert(now[k] == prev[k]);
            }
        }
    }
}

/// The positions of the entries of `project` dated `day`, in entry order.
pub fn project_day_positions(entries: &Vec<TimeEntry>, dates: &Vec<Date>, project: u128, day: Date) -> (positions:
    Vec<usize>)
    requires
        dates@.len() == entries@.len(),
    ensures
        positions@.len() == day_positions(entries@, dates@, project, day, entries@.len() as int).len(),
        forall|k: int|
            0 <= k < positions@.len() ==> #[trigger] positions@[k] as int == day_positions(
                entries@,
                dates@,
                project,
                day,
                entries@.len() as int,
            )[k],
{
    let mut positions: Vec<usize> = Vec::new();
    let n = entries.len();
    let mut i: usize = 0;
    while i < n
        invariant
            i <= n == entries@.len() == dates@.len(),
            positions@.len() == day_positions(entries@, dates@, project, day, i as int).len(),
            forall|k: int|
                0 <= k < positions@.len() ==> #[trigger] positions@[k] as int == day_positions(
                    entries@,
                    dates@,
                    project,
                    day,
                    i as int,
                )[k],
        decreases n - i,
    {
        if entries[i].project_id == project && dates[i].days_from_ce == day.days_from_ce {
            positions.push(i);
        }
        i = i + 1;
    }
    positions
}

// ---------------------------------------------------------------------------
// Totals

/// Tenths billed by the first `n` entries dated `day`, and by those of them
/// that belong to `project` when one is given.
pub open spec fn day_tenths(
    entries: Seq<TimeEntry>,
    dates: Seq<Date>,
    day: Date,
    project: Option<u128>,
    n: int,
) -> int
    decreases n,
{
    if n <= 0 {
        0
    } else {
        day_tenths(entries, dates, day, project, n - 1) + (if dates[n - 1] == day && (
        project is None || project == Some(entries[n - 1].project_id)) {
            entries[n - 1].billed_tenths as int
        } else {
            0
        })
    }
}

proof fn lemma_day_tenths_bound(
    entries: Seq<TimeEntry>,
    dates: Seq<Date>,
    day: Date,
    project: Option<u128>,
    n: int,
)
    requires
        0 <= n <= entries.len(),
    ensures
        -n * i64_span() <= day_tenths(entries, dates, day, project, n) <= n * i64_span(),
    decreases n,
{
    if n > 0 {
        lemma_day_tenths_bound(entries, dates, day, project, n - 1);
        assert(-i64_span() <= (entries[n - 1].billed_tenths as int) < i64_span());
    }
}

/// Tenths saved on `day` across all projects, and on `project` when one is
/// given (zero when none is).
pub fn tenths_on_day(entries: &Vec<TimeEntry>, dates: &Vec<Date>, day: Date, project: Option<u128>) -> (totals: (
    i128,
    i128,
))
    requires
        dates@.len() == entries@.len(),
        entries@.len() < 0x4000_0000,
    ensures
        totals.0 == day_tenths(entries@, dates@, day, None, entries@.len() as int),
        project is Some ==> totals.1 == day_tenths(entries@, dates@, day, project, entries@.len() as int),
        project is None ==> totals.1 == 0,
{
    let mut all: i128 = 0;
    let mut mine: i128 = 0;
    let n = entries.len();
    let mut i: usize = 0;
    while i < n
        invariant
            i <= n == entries@.len() == dates@.len() < 0x4000_0000,
            all == day_tenths(entries@, dates@, day, None, i as int),
            project is Some ==> mine == day_tenths(entries@, dates@, day, project, i as int),
            project is None ==> mine == 0,
        decreases n - i,
    {
        proof {
            lemma_day_tenths_bound(entries@, dates@, day, None, i as int);
            lemma_day_tenths_bound(entries@, dates@, day, project, i as int);
        }
        if dates[i].days_from_ce == day.days_from_ce {
            all = all + entries[i].billed_tenths as i128;
            match project {
                Some(p) => {
                    if p == entries[i].project_id {
                        mine = mine + entries[i].billed_tenths as i128;
                    }
                },
                None => {},
            }
        }
        i = i + 1;
    }
    (all, mine)
}

/// Tenths billed by the first `n` entries that fall in the week.
pub open spec fn week_tenths(entries: Seq<TimeEntry>, dates: Seq<Date>, start: Date, n: int) -> int
    decreases n,
{
    if n <= 0 {
        0
    } else {
        week_tenths(entries, dates, start, n - 1) + (if in_week(dates[n - 1], start) {
            entries[n - 1].billed_tenths as int
        } else {
            0
        })
    }
}

proof fn lemma_week_tenths_bound(entries: Seq<TimeEntry>, dates: Seq<Date>, start: Date, n: int)
    requires
        0 <= n <= entries.len(),
    ensures
        -n * i64_span() <= week_tenths(entries, dates, start, n) <= n * i64_span(),
    decreases n,
{
    if n > 0 {
        lemma_week_tenths_bound(entries, dates, start, n - 1);
        assert(-i64_span() <= (entries[n - 1].billed_tenths as int) < i64_span());
    }
}

/// Tenths billed by all entries that fall in the week starting on `start`.
pub fn week_total_tenths(entries: &Vec<TimeEntry>, dates: &Vec<Date>, start: Date) -> (total: i128)
    requires
        dates@.len() == entries@.len(),
        entries@.len() < 0x4000_0000,
    ensures
        total == week_tenths(entries@, dates@, start, entries@.len() as int),
{
    let mut total: i128 = 0;
    let n = entries.len();
    let mut i: usize = 0;
    while i < n
        invariant
            i <= n == entries@.len() == dates@.len() < 0x4000_0000,
            total == week_tenths(entries@, dates@, start, i as int),
        decreases n - i,
    {
        proof {
            lemma_week_tenths_bound(entries@, dates@, start, i as int);
        }
        let offset: i64 = dates[i].days_from_ce as i64 - start.days_from_ce as i64;
        if 0 <= offset && offset < 7 {
            total = total + entries[i].billed_tenths as i128;
        }
        i = i + 1;
    }
    total
}

// ---------------------------------------------------------------------------
// The week grid

/// A project billed time on some day of the week.
pub open spec fn has_positive_cell(
    entries: Seq<TimeEntry>,
    dates: Seq<Date>,
    start: Date,
    project: u128,
) -> bool {
    exists|d: int| 0 <= d < 7 && cell(entries, dates, start, project, d) > 0
}

/// The projects among the first `m` with a positive day cell, in order:
/// the rows of the grid.
pub open spec fn grid_projects(
    projects: Seq<Project>,
    entries: Seq<TimeEntry>,
    dates: Seq<Date>,
    start: Date,
    m: int,
) -> Seq<Project>
    decreases m,
{
    if m <= 0 {
        Seq::empty()
    } else if has_positive_cell(entries, dates, start, projects[m - 1].id) {
        grid_projects(projects, entries, dates, start, m - 1).push(projects[m - 1])
    } else {
        grid_projects(projects, entries, dates, start, m - 1)
    }
}

/// One row of the week grid: a project, its day cells, how many entries
/// stand behind each cell, and its total.
pub struct GridRow {
    pub project_id: u128,
    pub name: String,
    pub cells: Vec<i128>,
    pub entry_counts: Vec<usize>,
    pub total: i128,
}

/// The date of day `day` of the week starting on `start`.
pub open spec fn week_day(start: Date, day: int) -> Date {
    Date { days_from_ce: (start.days_from_ce + day) as i32 }
}

/// The rows of the week grid: one per project that billed time on some day
/// of the week, in project order, with its seven day cells and its total.
pub fn week_grid_rows(
    projects: &Vec<Project>,
    entries: &Vec<TimeEntry>,
    dates: &Vec<Date>,
    start: Date,
) -> (rows: Vec<GridRow>)
    requires
        report_inputs(projects@, entries@, dates@, start),
        start.days_from_ce + 6 <= MAX_DAY,
    ensures
        rows@.len() == grid_projects(projects@, entries@, dates@, start, projects@.len() as int).len(),
        forall|k: int|
            0 <= k < rows@.len() ==> {
                let p = grid_projects(projects@, entries@, dates@, start, projects@.len() as int)[k];
                &&& (#[trigger] rows@[k]).project_id == p.id
                &&& rows@[k].name == p.name
                &&& rows@[k].cells@.len() == 7
                &&& forall|d: int|
                    0 <= d < 7 ==> rows@[k].cells@[d] == cell(entries@, dates@, start, p.id, d)
                &&& rows@[k].entry_counts@.len() == 7
                &&& forall|d: int|
                    0 <= d < 7 ==> rows@[k].entry_counts@[d] == day_positions(
                        entries@,
                        dates@,
                        p.id,
                        week_day(start, d),
                        entries@.len() as int,
                    ).len()
                &&& rows@[k].total == project_week_tenths(entries@, dates@, start, p.id)
            },
{
    let mut rows: Vec<GridRow> = Vec::new();
    let m = projects.len();
    let mut j: usize = 0;
    while j < m
        invariant
            j <= m == projects@.len(),
            report_inputs(projects@, entries@, dates@, start),
            rows@.len() == grid_projects(projects@, entries@, dates@, start, j as int).len(),
            forall|k: int|
                0 <= k < rows@.len() ==> {
                    let p = grid_projects(projects@, entries@, dates@, start, j as int)[k];
                    &&& (#[trigger] rows@[k]).project_id == p.id
                    &&& rows@[k].name == p.name
                    &&& rows@[k].cells@.len() == 7
                    &&& forall|d: int|
                        0 <= d < 7 ==> rows@[k].cells@[d] == cell(entries@, dates@, start, p.id, d)
                    &&& rows@[k].entry_counts@.len() == 7
                    &&& forall|d: int|
                        0 <= d < 7 ==> rows@[k].entry_counts@[d] == day_positions(
                            entries@,
                            dates@,
                            p.id,
                            week_day(start, d),
                            entries@.len() as int,
                        ).len()
                    &&& rows@[k].total == project_week_tenths(entries@, dates@, start, p.id)
                },
            start.days_from_ce + 6 <= MAX_DAY,
        decreases m - j,
    {
        let project = &projects[j];
        let (cells, total) = project_cells(entries, dates, start, project.id);
        let mut positive = false;
        let mut d: usize = 0;
        while d < 7
            invariant
                d <= 7,
                cells@.len() == 7,
                positive == exists|q: int| 0 <= q < d && cells@[q] > 0,
            decreases 7 - d,
        {
            if cells[d] > 0 {
                positive = true;
            }
            d = d + 1;
        }
        proof {
            if positive {
                let q = choose|q: int| 0 <= q < 7 && cells@[q] > 0;
                assert(cell(entries@, dates@, start, project.id, q) > 0);
            }
            if has_positive_cell(entries@, dates@, start, project.id) {
                let q = choose|q: int| 0 <= q < 7 && cell(entries@, dates@, start, project.id, q) > 0;
                assert(cells@[q] > 0);
            }
        }
        if positive {
            let mut entry_counts: Vec<usize> = Vec::new();
            let mut q: usize = 0;
            while q < 7
                invariant
                    q <= 7,
                    report_inputs(projects@, entries@, dates@, start),
                    start.days_from_ce + 6 <= MAX_DAY,
                    entry_counts@.len() == q,
                    forall|d: int|
                        0 <= d < q ==> entry_counts@[d] == day_positions(
                            entries@,
                            dates@,
                            project.id,
                            week_day(start, d),
                            entries@.len() as int,
                        ).len(),
                decreases 7 - q,
            {
                let day = Date { days_from_ce: start.days_from_ce + q as i32 };
                assert(day == week_day(start, q as int));
                let positions = project_day_positions(entries, dates, project.id, day);
                entry_counts.push(positions.len());
                q = q + 1;
            }
            let row = GridRow {
                project_id: project.id,
                name: project.name.clone(),
                cells,
                entry_counts,
                total,
            };
            rows.push(row);
        }
        j = j + 1;
    }
    rows
}

/// Tenths billed on day `day` of the week, summed over the first `m`
/// projects' cells.
pub open spec fn day_column_tenths(
    projects: Seq<Project>,
    entries: Seq<TimeEntry>,
    dates: Seq<Date>,
    start: Date,
    day: int,
    m: int,
) -> int
    decreases m,
{
    if m <= 0 {
        0
    } else {
        day_column_tenths(projects, entries, dates, start, day, m - 1) + cell(
            entries,
            dates,
            start,
            projects[m - 1].id,
            day,
        )
    }
}

/// The sum of the week totals of the first `m` projects.
pub open spec fn projects_week_tenths(
    projects: Seq<Project>,
    entries: Seq<TimeEntry>,
    dates: Seq<Date>,
    start: Date,
    m: int,
) -> int
    decreases m,
{
    if m <= 0 {
        0
    } else {
        projects_week_tenths(projects, entries, dates, start, m - 1) + project_week_tenths(
            entries,
            dates,
            start,
            projects[m - 1].id,
        )
    }
}

/// The grid adds up both ways: the seven day totals sum to the sum of the
/// projects' week totals.
pub proof fn lemma_grid_totals_agree(
    projects: Seq<Project>,
    entries: Seq<TimeEntry>,
    dates: Seq<Date>,
    start: Date,
    m: int,
)
    requires
        0 <= m <= projects.len(),
    ensures
        day_column_tenths(projects, entries, dates, start, 0, m) + day_column_tenths(
            projects,
            entries,
            dates,
            start,
            1,
            m,
        ) + day_column_tenths(projects, entries, dates, start, 2, m) + day_column_tenths(
            projects,
            entries,
            dates,
            start,
            3,
            m,
        ) + day_column_tenths(projects, entries, dates, start, 4, m) + day_column_tenths(
            projects,
            entries,
            dates,
            start,
            5,
            m,
        ) + day_column_tenths(projects, entries, dates, start, 6, m) == projects_week_tenths(
            projects,
            entries,
            dates,
            start,
            m,
        ),
    decreases m,
{
    if m > 0 {
        lemma_grid_totals_agree(projects, entries, dates, start, m - 1);
    }
}

proof fn lemma_day_column_bound(
    projects: Seq<Project>,
    entries: Seq<TimeEntry>,
    dates: Seq<Date>,
    start: Date,
    day: int,
    m: int,
)
    requires
        0 <= m <= projects.len(),
        entries.len() < 0x4000_0000,
    ensures
        -m * 0x4000_0000 * i64_span() <= day_column_tenths(projects, entries, dates, start, day, m)
            <= m * 0x4000_0000 * i64_span(),
    decreases m,
{
    if m > 0 {
        lemma_day_column_bound(projects, entries, dates, start, day, m - 1);
        lemma_cell_bound(entries, dates, start, projects[m - 1].id, day, entries.len() as int);
        assert(entries.len() * i64_span() <= 0x4000_0000 * i64_span()) by (nonlinear_arith)
            requires
                entries.len() < 0x4000_0000,
        ;
        assert((m - 1) * 0x4000_0000 * i64_span() + 0x4000_0000 * i64_span() == m * 0x4000_0000
            * i64_span()) by (nonlinear_arith);
    }
}

/// The grid's bottom row: for each day of the week, the tenths of all
/// projects' cells that day.
pub fn week_day_totals(
    projects: &Vec<Project>,
    entries: &Vec<TimeEntry>,
    dates: &Vec<Date>,
    start: Date,
) -> (totals: Vec<i128>)
    requires
        report_inputs(projects@, entries@, dates@, start),
    ensures
        totals@.len() == 7,
        forall|d: int|
            0 <= d < 7 ==> totals@[d] == day_column_tenths(
                projects@,
                entries@,
                dates@,
                start,
                d,
                projects@.len() as int,
            ),
{
    let mut totals: Vec<i128> = Vec::new();
    let mut k: usize = 0;
    while k < 7
        invariant
            k <= 7,
            totals@.len() == k,
            forall|d: int| 0 <= d < k ==> totals@[d] == 0,
        decreases 7 - k,
    {
        totals.push(0);
        k = k + 1;
    }
    let m = projects.len();
    let mut j: usize = 0;
    while j < m
        invariant
            j <= m == projects@.len() < 0x4000_0000,
            report_inputs(projects@, entries@, dates@, start),
            totals@.len() == 7,
            forall|d: int|
                0 <= d < 7 ==> totals@[d] == day_column_tenths(
                    projects@,
                    entries@,
                    dates@,
                    start,
                    d,
                    j as int,
                ),
        decreases m - j,
    {
        let (cells, _) = project_cells(entries, dates, start, projects[j].id);
        let mut d: usize = 0;
        while d < 7
            invariant
                d <= 7,
                j < m == projects@.len() < 0x4000_0000,
                report_inputs(projects@, entries@, dates@, start),
                totals@.len() == 7,
                cells@.len() == 7,
                forall|q: int|
                    0 <= q < 7 ==> cells@[q] == cell(entries@, dates@, start, projects@[j as int].id, q),
                forall|q: int|
                    0 <= q < d ==> totals@[q] == day_column_tenths(
                        projects@,
                        entries@,
                        dates@,
                        start,
                        q,
                        j + 1,
                    ),
                forall|q: int|
                    d <= q < 7 ==> totals@[q] == day_column_tenths(
                        projects@,
                        entries@,
                        dates@,
                        start,
                        q,
                        j as int,
                    ),
            decreases 7 - d,
        {
            proof {
                lemma_day_column_bound(projects@, entries@, dates@, start, d as int, j as int);
                lemma_cell_bound(entries@, dates@, start, projects@[j as int].id, d as int, entries@.len() as int);
                assert(j * 0x4000_0000 * i64_span() <= 0x4000_0000 * 0x4000_0000 * i64_span()) by (nonlinear_arith)
                    requires
                        j < 0x4000_0000,
                ;
                assert(entries@.len() * i64_span() <= 0x4000_0000 * i64_span()) by (nonlinear_arith)
                    requires
                        entries@.len() < 0x4000_0000,
                ;
            }
            let updated = totals[d] + cells[d];
            totals[d] = updated;
            d = d + 1;
        }
        j = j + 1;
    }
    totals
}


proof fn lemma_projects_week_bound(
    projects: Seq<Project>,
    entries: Seq<TimeEntry>,
    dates: Seq<Date>,
    start: Date,
    m: int,
)
    requires
        0 <= m <= projects.len(),
        entries.len() < 0x4000_0000,
    ensures
        -m * 7 * 0x4000_0000 * i64_span() <= projects_week_tenths(projects, entries, dates, start, m)
            <= m * 7 * 0x4000_0000 * i64_span(),
    decreases m,
{
    if m > 0 {
        lemma_projects_week_bound(projects, entries, dates, start, m - 1);
        let p = projects[m - 1].id;
        lemma_cell_bound(entries, dates, start, p, 0, entries.len() as int);
        lemma_cell_bound(entries, dates, start, p, 1, entries.len() as int);
        lemma_cell_bound(entries, dates, start, p, 2, entries.len() as int);
        lemma_cell_bound(entries, dates, start, p, 3, entries.len() as int);
        lemma_cell_bound(entries, dates, start, p, 4, entries.len() as int);
        lemma_cell_bound(entries, dates, start, p, 5, entries.len() as int);
        lemma_cell_bound(entries, dates, start, p, 6, entries.len() as int);
        assert(entries.len() * i64_span() <= 0x4000_0000 * i64_span()) by (nonlinear_arith)
            requires
                entries.len() < 0x4000_0000,
        ;
        assert((m - 1) * 7 * 0x4000_0000 * i64_span() + 7 * 0x4000_0000 * i64_span() == m * 7
            * 0x4000_0000 * i64_span()) by (nonlinear_arith);
    }
}

/// The grid's grand total: the sum of every project's week total.
pub fn week_grand_total(
    projects: &Vec<Project>,
    entries: &Vec<TimeEntry>,
    dates: &Vec<Date>,
    start: Date,
) -> (total: i128)
    requires
        report_inputs(projects@, entries@, dates@, start),
    ensures
        total == projects_week_tenths(projects@, entries@, dates@, start, projects@.len() as int),
{
    let mut total: i128 = 0;
    let m = projects.len();
    let mut j: usize = 0;
    while j < m
        invariant
            j <= m == projects@.len() < 0x4000_0000,
            report_inputs(projects@, entries@, dates@, start),
            total == projects_week_tenths(projects@, entries@, dates@, start, j as int),
        decreases m - j,
    {
        proof {
            lemma_projects_week_bound(projects@, entries@, dates@, start, j as int);
            assert(j * 7 * 0x4000_0000 * i64_span() <= 0x4000_0000 * 7 * 0x4000_0000 * i64_span())
                by (nonlinear_arith)
                requires
                    j < 0x4000_0000,
            ;
        }
        let (_, project_total) = project_cells(entries, dates, start, projects[j].id);
        total = total + project_total;
        j = j + 1;
    }
    total
}


/// The sum, over the project identifiers `ids`, of what each one's entries
/// among the first `n` bill in the week.
pub open spec fn ids_entry_tenths(
    ids: Seq<u128>,
    entries: Seq<TimeEntry>,
    dates: Seq<Date>,
    start: Date,
    n: int,
) -> int
    decreases ids.len(),
{
    if ids.len() == 0 {
        0
    } else {
        ids_entry_tenths(ids.drop_last(), entries, dates, start, n) + week_entry_tenths(
            entries,
            dates,
            start,
            ids.last(),
            n,
        )
    }
}

/// The sum of the week totals (each the project's seven day cells) of the
/// project identifiers `ids`.
pub open spec fn ids_week_tenths(
    ids: Seq<u128>,
    entries: Seq<TimeEntry>,
    dates: Seq<Date>,
    start: Date,
) -> int
    decreases ids.len(),
{
    if ids.len() == 0 {
        0
    } else {
        ids_week_tenths(ids.drop_last(), entries, dates, start) + project_week_tenths(
            entries,
            dates,
            start,
            ids.last(),
        )
    }
}

proof fn lemma_ids_entry_none(ids: Seq<u128>, entries: Seq<TimeEntry>, dates: Seq<Date>, start: Date)
    ensures
        ids_entry_tenths(ids, entries, dates, start, 0) == 0,
    decreases ids.len(),
{
    if ids.len() > 0 {
        lemma_ids_entry_none(ids.drop_last(), entries, dates, start);
    }
}

proof fn lemma_ids_entry_step(
    ids: Seq<u128>,
    entries: Seq<TimeEntry>,
    dates: Seq<Date>,
    start: Date,
    n: int,
)
    requires
        ids.no_duplicates(),
        0 <= n < entries.len(),
    ensures
        ids_entry_tenths(ids, entries, dates, start, n + 1) == ids_entry_tenths(
            ids,
            entries,
            dates,
            start,
            n,
        ) + (if in_week(dates[n], start) && ids.contains(entries[n].project_id) {
            entries[n].billed_tenths as int
        } else {
            0
        }),
    decreases ids.len(),
{
    if ids.len() > 0 {
        let t = ids.drop_last();
        assert(t.no_duplicates()) by {
            assert forall|i: int, j: int| 0 <= i < t.len() && 0 <= j < t.len() && i != j implies t[i]
                != t[j] by {
                assert(t[i] == ids[i] && t[j] == ids[j]);
            }
        }
        lemma_ids_entry_step(t, entries, dates, start, n);
        let pid = entries[n].project_id;
        let last = ids.last();
        if pid == last {
            assert(ids.contains(pid)) by {
                assert(ids[ids.len() - 1] == pid);
            }
            assert(!t.contains(pid)) by {
                if t.contains(pid) {
                    let i = choose|i: int| 0 <= i < t.len() && t[i] == pid;
                    assert(ids[i] == ids[ids.len() - 1]);
                }
            }
        } else {
            assert(ids.contains(pid) == t.contains(pid)) by {
                if ids.contains(pid) {
                    let i = choose|i: int| 0 <= i < ids.len() && ids[i] == pid;
                    assert(i < t.len());
                    assert(t[i] == pid);
                }
                if t.contains(pid) {
                    let i = choose|i: int| 0 <= i < t.len() && t[i] == pid;
                    assert(ids[i] == pid);
                }
            }
        }
    }
}

proof fn lemma_ids_entry_total(
    ids: Seq<u128>,
    entries: Seq<TimeEntry>,
    dates: Seq<Date>,
    start: Date,
    n: int,
)
    requires
        ids.no_duplicates(),
        0 <= n <= entries.len(),
        forall|i: int|
            0 <= i < n && in_week(#[trigger] dates[i], start) ==> ids.contains(entries[i].project_id),
    ensures
        ids_entry_tenths(ids, entries, dates, start, n) == week_tenths(entries, dates, start, n),
    decreases n,
{
    if n == 0 {
        lemma_ids_entry_none(ids, entries, dates, start);
    } else {
        lemma_ids_entry_total(ids, entries, dates, start, n - 1);
        lemma_ids_entry_step(ids, entries, dates, start, n - 1);
        if in_week(dates[n - 1], start) {
            assert(ids.contains(entries[n - 1].project_id));
        }
    }
}

proof fn lemma_ids_week_is_entry_sum(
    ids: Seq<u128>,
    entries: Seq<TimeEntry>,
    dates: Seq<Date>,
    start: Date,
)
    requires
        dates.len() == entries.len(),
    ensures
        ids_week_tenths(ids, entries, dates, start) == ids_entry_tenths(
            ids,
            entries,
            dates,
            start,
            entries.len() as int,
        ),
    decreases ids.len(),
{
    if ids.len() > 0 {
        lemma_ids_week_is_entry_sum(ids.drop_last(), entries, dates, start);
        lemma_week_total_is_entry_sum(entries, dates, start, ids.last(), entries.len() as int);
    }
}

/// The week's cells add up to the tenths billed in the week: summing the
/// week totals of distinct project identifiers, among them every project
/// with an entry in the week, gives what all the week's entries bill.
pub proof fn lemma_cells_cover_the_week(
    ids: Seq<u128>,
    entries: Seq<TimeEntry>,
    dates: Seq<Date>,
    start: Date,
)
    requires
        ids.no_duplicates(),
        dates.len() == entries.len(),
        forall|i: int|
            0 <= i < entries.len() && in_week(#[trigger] dates[i], start) ==> ids.contains(
                entries[i].project_id,
            ),
    ensures
        ids_week_tenths(ids, entries, dates, start) == week_tenths(
            entries,
            dates,
            start,
            entries.len() as int,
        ),
{
    lemma_ids_week_is_entry_sum(ids, entries, dates, start);
    lemma_ids_entry_total(ids, entries, dates, start, entries.len() as int);
}

} // verus!
