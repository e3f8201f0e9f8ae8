//! The footer: a notice, the focused column's error, the filter and its counts, or when the
//! data came; and the logo.

use vstd::prelude::*;

use crate::app::{
    focused_error_of, live_filter, matching, query_of, App, Column, ColumnState, Row, Stage,
};
use crate::strs::{concat, decimal, decimal_string};
use crate::text::{refreshed, refreshed_of};
use crate::time::Stamp;

verus! {

/// Three boxes on a belt, then the name and the version.
pub fn logo(version: &str) -> (r: String)
    ensures
        r@ == "\u{27e6}\u{25a3}\u{27e7}\u{2501}\u{27e6}\u{25a3}\u{27e7}\u{2501}\u{27e6}\u{25a3}\u{27e7}\u{2501}\u{25b8} conveyor v"@
            + version@,
{
    concat(
        "\u{27e6}\u{25a3}\u{27e7}\u{2501}\u{27e6}\u{25a3}\u{27e7}\u{2501}\u{27e6}\u{25a3}\u{27e7}\u{2501}\u{25b8} conveyor v",
        version,
    )
}

/// When the focused column's rows came.
pub open spec fn focused_stamp(app: App) -> Option<Stamp> {
    match app.focus {
        Stage::Prs => app.prs.state.stamp(),
        Stage::Queue => app.queue.state.stamp(),
        Stage::Builds => app.builds.state.stamp(),
        Stage::Deployed => app.deployed.state.stamp(),
    }
}

/// How many rows the focused column shows and has.
pub open spec fn focused_counts_of(app: App) -> (nat, nat) {
    match app.focus {
        Stage::Prs => (app.prs.shown().len(), app.prs.rows().len()),
        Stage::Queue => (app.queue.shown().len(), app.queue.rows().len()),
        Stage::Builds => (app.builds.shown().len(), app.builds.rows().len()),
        Stage::Deployed => (app.deployed.shown().len(), app.deployed.rows().len()),
    }
}

/// What the footer says: the notice, else the focused column's error, else the filter with
/// how many rows it lets through, else when the focused column's data came.
pub open spec fn footer_text_of(app: App) -> Seq<char> {
    match app.notice {
        Some(n) => n@,
        None => match focused_error_of(app) {
            Some(e) => e,
            None => match live_filter(app) {
                Some(q) => "/"@ + q + "  "@ + decimal(focused_counts_of(app).0) + "/"@ + decimal(
                    focused_counts_of(app).1,
                ),
                None => match focused_stamp(app) {
                    Some(at) => refreshed_of(at, app.now, app.utc_offset_secs),
                    None => Seq::empty(),
                },
            },
        },
    }
}

/// A column shows no more rows than it has, and it has no more than a `usize` counts.
pub proof fn lemma_counts_fit<T: Row>(c: Column<T>)
    ensures
        c.shown().len() <= c.rows().len() <= usize::MAX,
{
    c.rows().lemma_filter_len(matching(query_of(c.filter)));
    match c.state {
        ColumnState::Ready { rows, .. } => {
            assert(rows@.len() == rows.len());
        },
        ColumnState::Loading => {},
    }
}

/// See `footer_text_of`.
pub fn footer_text(app: &App) -> (r: String)
    ensures
        r@ == footer_text_of(*app),
{
    if let Some(notice) = &app.notice {
        return notice.clone();
    }
    if let Some(error) = app.focused_error() {
        return error.to_owned();
    }
    match app.filter() {
        Some(query) => {
            let (visible, total) = app.focused_counts();
            proof {
                lemma_counts_fit(app.prs);
                lemma_counts_fit(app.queue);
                lemma_counts_fit(app.builds);
                lemma_counts_fit(app.deployed);
            }
            let head = concat("/", query);
            let head = concat(head.as_str(), "  ");
            let head = concat(head.as_str(), decimal_string(visible as u64).as_str());
            let head = concat(head.as_str(), "/");
            concat(head.as_str(), decimal_string(total as u64).as_str())
        },
        None => match app.focused_fetched_at() {
            Some(at) => refreshed(at, app.now, app.utc_offset_secs),
            None => String::new(),
        },
    }
}

} // verus!
