# Tenth

Tenth tracks consulting time by project and bills it rounded up to tenths of
an hour (six-minute increments). This crate is its verified core, written in
Verus, plus a thin desktop shell.

## Layout

- `src/` — the verified library.
  - `model.rs`: projects, time entries, the active timer, billing arithmetic
    (`billed_tenths`, `format_elapsed`, `format_tenths`).
  - `calendar.rs`: timestamps, calendar days, the Saturday-to-Friday week.
  - `text.rs`: string helpers (CSV cells, trimming, status compaction).
  - `order.rs`: ordering projects by name and entries newest first.
  - `report.rs`: weekly totals, the copied summary, the CSV timesheet and the
    timesheet grid.
  - `tracker.rs`: the application state and what each user action does to it.
  - `menu.rs`: labels and actions of the menu-bar item.
  - `storage.rs`: where the data file lives.
- `tests/` — ordinary Rust tests against the library.
- `app/` — the egui window, JSON persistence and the menu-bar item; it hands
  the library plain values and renders what comes back.
