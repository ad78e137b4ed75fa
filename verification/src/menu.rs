//! The macOS menu-bar extra: the actions its items send and the labels it
//! shows for the tracker's state.

use vstd::prelude::*;
use crate::model::{elapsed_text, format_elapsed, push_tenths, tenths_text};
use crate::text::{push_str, string_of};

verus! {

/// What a click on one of the menu-bar items asks for.
#[derive(Clone, Copy, Debug, PartialEq, Eq, Structural)]
pub enum MenuBarAction {
    Start,
    Stop,
    Open,
    Quit,
}

/// The texts and enabled states of the menu-bar extra.
pub struct MenuBarLabels {
    pub title: String,
    pub status: String,
    pub billable: String,
    pub start_label: String,
    pub start_enabled: bool,
    pub stop_enabled: bool,
}

/// The labels for a running timer: its project, elapsed seconds and billed
/// tenths.
pub open spec fn running_labels_hold(
    labels: MenuBarLabels,
    project: Seq<char>,
    elapsed_seconds: int,
    billable_tenths: int,
) -> bool {
    &&& labels.title@ == seq!['\u{25cf}', ' '] + elapsed_text(elapsed_seconds)
    &&& labels.status@ == "Tracking "@ + project + " \u{b7} "@ + elapsed_text(elapsed_seconds)
    &&& labels.billable@ == tenths_text(billable_tenths) + " h billable"@
    &&& labels.start_label@ == "Timer is running"@
    &&& !labels.start_enabled
    &&& labels.stop_enabled
}

/// The labels with no timer running, given the selected project's name.
pub open spec fn idle_labels_hold(labels: MenuBarLabels, project: Option<Seq<char>>) -> bool {
    &&& labels.title@ == "Tenth"@
    &&& labels.status@ == "No timer running"@
    &&& labels.billable@ == "Ready to track"@
    &&& labels.start_label@ == (match project {
        Some(name) => "Start "@ + name,
        None => "Start timer"@,
    })
    &&& labels.start_enabled == project is Some
    &&& !labels.stop_enabled
}

/// The menu-bar labels: a running timer shows its elapsed and billable time;
/// otherwise the start item names the selected project.
pub fn menu_bar_labels(project_name: Option<&str>, active_timer: Option<(&str, i64, i64)>) -> (labels:
    MenuBarLabels)
    ensures
        active_timer matches Some((project, elapsed, billable)) ==> running_labels_hold(
            labels,
            project@,
            elapsed as int,
            billable as int,
        ),
        active_timer is None ==> idle_labels_hold(
            labels,
            match project_name {
                Some(name) => Some(name@),
                None => None,
            },
        ),
{
    match active_timer {
        Some((project, elapsed_seconds, billable_tenths)) => {
            let elapsed = format_elapsed(elapsed_seconds);
            let mut title: Vec<char> = Vec::new();
            title.push('\u{25cf}');
            title.push(' ');
            push_str(&mut title, elapsed.as_str());
            let mut status: Vec<char> = Vec::new();
            push_str(&mut status, "Tracking ");
            push_str(&mut status, project);
            push_str(&mut status, " \u{b7} ");
            push_str(&mut status, elapsed.as_str());
            let mut billable: Vec<char> = Vec::new();
            push_tenths(&mut billable, billable_tenths as i128);
            push_str(&mut billable, " h billable");
            let labels = MenuBarLabels {
                title: string_of(&title),
                status: string_of(&status),
                billable: string_of(&billable),
                start_label: String::from_str("Timer is running"),
                start_enabled: false,
                stop_enabled: true,
            };
            assert(labels.title@ == seq!['\u{25cf}', ' '] + elapsed_text(elapsed_seconds as int));
            assert(labels.status@ == "Tracking "@ + project@ + " \u{b7} "@ + elapsed_text(elapsed_seconds as int));
            assert(labels.billable@ == tenths_text(billable_tenths as int) + " h billable"@);
            assert(labels.start_label@ == "Timer is running"@);
            labels
        },
        None => {
            let mut start: Vec<char> = Vec::new();
            match project_name {
                Some(project) => {
                    push_str(&mut start, "Start ");
                    push_str(&mut start, project);
                },
                None => {
                    push_str(&mut start, "Start timer");
                },
            }
            MenuBarLabels {
                title: String::from_str("Tenth"),
                status: String::from_str("No timer running"),
                billable: String::from_str("Ready to track"),
                start_label: string_of(&start),
                start_enabled: project_name.is_some(),
                stop_enabled: false,
            }
        },
    }
}

} // verus!
