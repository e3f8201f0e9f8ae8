//! What each column shows: its title, a message in place of rows, or the cards of its rows.

use vstd::prelude::*;

use crate::app::{sha_index, spinner_frames, App, Column, JobsState, Row, Stage};
use crate::config::deploy_configured_in;
use crate::model::builds::Build;
use crate::model::deployed::Deployment;
use crate::model::prs::PullRequest;
use crate::model::queue::QueueEntry;
use crate::strs::{concat, decimal, decimal_string};
use crate::time::Stamp;
use crate::ui::card::{line_view, lines_view, plain_look, seg_view, segment, Look, Segment};
use crate::ui::rows::{
    build_row, build_row_of, deployed_row, deployed_row_of, pr_row, pr_row_of, queue_row,
    queue_row_of,
};
use crate::ui::style::{short_repo, short_repo_of};

verus! {

broadcast use vstd::std_specs::hash::group_hash_axioms;

/// The braille frame the spinner shows at `now`.
pub open spec fn spinner_at(now: Stamp) -> char {
    spinner_frames()[(((now / 1_000_000) / 100) % 10) as int]
}

/// A column's title: its name, how many rows it has once they came, a warning when its last
/// fetch failed, and the spinner while a fetch runs.
pub open spec fn titled_of<T: Row>(base: Seq<char>, column: Column<T>, now: Stamp) -> Seq<char> {
    let counted = if column.state is Loading {
        base
    } else {
        base + " ("@ + decimal(column.rows().len()) + ")"@
    };
    let warned = if column.error is Some {
        counted + " ⚠"@
    } else {
        counted
    };
    if column.refreshing {
        warned + seq![' ', spinner_at(now)]
    } else {
        warned
    }
}

/// The title of a column: its name, or the short name of its repository or system once
/// known.
pub open spec fn column_title_of(app: App, stage: Stage) -> Seq<char> {
    match stage {
        Stage::Prs => titled_of("My PRs"@, app.prs, app.now),
        Stage::Queue => match app.queue_repo {
            Some(repo) => titled_of("Queue "@ + short_repo_of(repo@), app.queue, app.now),
            None => titled_of("Merge queue"@, app.queue, app.now),
        },
        Stage::Builds => match app.builds_repo {
            Some(repo) => titled_of("Main "@ + short_repo_of(repo@), app.builds, app.now),
            None => titled_of("Main builds"@, app.builds, app.now),
        },
        Stage::Deployed => match app.deployed_system {
            Some(system) => titled_of("Deployed "@ + system@, app.deployed, app.now),
            None => titled_of("Deployed"@, app.deployed, app.now),
        },
    }
}

/// What a column says in place of rows: the error or that the first fetch runs, that there
/// are no rows, or that none matches the filter.
pub open spec fn list_message_of<T: Row>(column: Column<T>, empty: Seq<char>) -> Option<Seq<char>> {
    if column.state is Loading {
        Some(
            match column.error {
                Some(e) => e@,
                None => "fetching…"@,
            },
        )
    } else if column.rows().len() == 0 {
        Some(empty)
    } else if column.shown().len() == 0 {
        Some(
            "no matches for /"@ + match column.filter {
                Some(q) => q@,
                None => Seq::empty(),
            },
        )
    } else {
        None
    }
}

/// What a column says in place of rows (see `list_message_of`); the deployed column says
/// when no system is configured and nothing came yet.
pub open spec fn column_message_of(app: App, stage: Stage) -> Option<Seq<char>> {
    match stage {
        Stage::Prs => list_message_of(app.prs, "no open pull requests"@),
        Stage::Queue => list_message_of(app.queue, "queue empty"@),
        Stage::Builds => list_message_of(app.builds, "no builds on main"@),
        Stage::Deployed => if app.deployed.state is Loading && app.deployed.error is None
            && !deploy_configured_in(app.config) {
            Some("no [[repo.deploy]] configured"@)
        } else {
            list_message_of(app.deployed, "no environments"@)
        },
    }
}

/// Whether row `i` of a column is drawn selected: the column has the focus and the row is
/// its selection.
pub open spec fn lit(app: App, stage: Stage, selected: Option<usize>, i: int) -> bool {
    app.focus == stage && selected == Some(i as usize)
}

/// What is known of the jobs of run `id`.
pub open spec fn jobs_of(jobs: Map<u64, JobsState>, id: u64) -> Option<JobsState> {
    if jobs.contains_key(id) {
        Some(jobs[id])
    } else {
        None
    }
}

/// How many main builds are newer than the one an environment runs.
pub open spec fn behind_of(builds: Seq<Build>, row: Deployment) -> Option<usize> {
    match row.sha {
        Some(sha) => match sha_index(builds, sha@) {
            Some(i) => Some(i as usize),
            None => None,
        },
        None => None,
    }
}

/// The cards of the rows a column shows, in order, of `width` characters.
pub open spec fn column_cards_of(app: App, stage: Stage, width: nat) -> Seq<
    Seq<Seq<(Seq<char>, Look)>>,
> {
    match stage {
        Stage::Prs => Seq::new(
            app.prs.shown().len(),
            |i: int|
                pr_row_of(
                    app.prs.shown()[i],
                    app.now,
                    lit(app, stage, app.prs.list.selected, i),
                    width,
                ),
        ),
        Stage::Queue => Seq::new(
            app.queue.shown().len(),
            |i: int|
                queue_row_of(
                    app.queue.shown()[i],
                    match app.queue.shown()[i].run {
                        Some(r) => jobs_of(app.jobs@, r.id),
                        None => None,
                    },
                    app.now,
                    lit(app, stage, app.queue.list.selected, i),
                    width,
                ),
        ),
        Stage::Builds => Seq::new(
            app.builds.shown().len(),
            |i: int|
                build_row_of(
                    app.builds.shown()[i],
                    jobs_of(app.jobs@, app.builds.shown()[i].id),
                    app.now,
                    lit(app, stage, app.builds.list.selected, i),
                    width,
                ),
        ),
        Stage::Deployed => Seq::new(
            app.deployed.shown().len(),
            |i: int|
                deployed_row_of(
                    app.deployed.shown()[i],
                    behind_of(app.builds.rows(), app.deployed.shown()[i]),
                    app.now,
                    lit(app, stage, app.deployed.list.selected, i),
                    width,
                ),
        ),
    }
}

pub open spec fn cards_view(cards: Seq<Vec<Vec<Segment>>>) -> Seq<Seq<Seq<(Seq<char>, Look)>>> {
    cards.map_values(|c: Vec<Vec<Segment>>| lines_view(c@))
}

fn titled<T: Row>(base: String, column: &Column<T>, now: Stamp) -> (r: String)
    ensures
        r@ == titled_of(base@, *column, now),
{
    let counted = if column.is_loading() {
        base
    } else {
        let head = concat(base.as_str(), " (");
        let head = concat(head.as_str(), decimal_string(column.all().len() as u64).as_str());
        concat(head.as_str(), ")")
    };
    let warned = if column.error.is_some() {
        concat(counted.as_str(), " ⚠")
    } else {
        counted
    };
    if column.refreshing {
        let frames: [char; 10] = ['⠋', '⠙', '⠹', '⠸', '⠼', '⠴', '⠦', '⠧', '⠇', '⠏'];
        assert(frames@ =~= spinner_frames());
        let mut chars: Vec<char> = Vec::new();
        chars.push(' ');
        chars.push(frames[((now / 1_000_000 / 100) % 10) as usize]);
        let tail = crate::strs::string_of(chars.as_slice());
        assert(tail@ =~= seq![' ', spinner_at(now)]);
        concat(warned.as_str(), tail.as_str())
    } else {
        warned
    }
}

/// See `column_title_of`.
pub fn column_title(app: &App, stage: Stage) -> (r: String)
    ensures
        r@ == column_title_of(*app, stage),
{
    match stage {
        Stage::Prs => titled("My PRs".to_owned(), &app.prs, app.now),
        Stage::Queue => match &app.queue_repo {
            Some(repo) => titled(
                concat("Queue ", short_repo(repo.as_str()).as_str()),
                &app.queue,
                app.now,
            ),
            None => titled("Merge queue".to_owned(), &app.queue, app.now),
        },
        Stage::Builds => match &app.builds_repo {
            Some(repo) => titled(
                concat("Main ", short_repo(repo.as_str()).as_str()),
                &app.builds,
                app.now,
            ),
            None => titled("Main builds".to_owned(), &app.builds, app.now),
        },
        Stage::Deployed => match &app.deployed_system {
            Some(system) => titled(concat("Deployed ", system.as_str()), &app.deployed, app.now),
            None => titled("Deployed".to_owned(), &app.deployed, app.now),
        },
    }
}

fn list_message<T: Row>(column: &Column<T>, empty: &str) -> (r: Option<String>)
    ensures
        match list_message_of(*column, empty@) {
            Some(m) => r matches Some(s) && s@ == m,
            None => r is None,
        },
{
    if column.is_loading() {
        return Some(
            match &column.error {
                Some(e) => e.clone(),
                None => "fetching…".to_owned(),
            },
        );
    }
    if column.all().len() == 0 {
        return Some(empty.to_owned());
    }
    if column.visible().len() == 0 {
        let query = match &column.filter {
            Some(q) => q.clone(),
            None => String::new(),
        };
        return Some(concat("no matches for /", query.as_str()));
    }
    None
}

/// See `column_message_of`.
pub fn column_message(app: &App, stage: Stage) -> (r: Option<String>)
    ensures
        match column_message_of(*app, stage) {
            Some(m) => r matches Some(s) && s@ == m,
            None => r is None,
        },
{
    match stage {
        Stage::Prs => list_message(&app.prs, "no open pull requests"),
        Stage::Queue => list_message(&app.queue, "queue empty"),
        Stage::Builds => list_message(&app.builds, "no builds on main"),
        Stage::Deployed => if app.deployed.is_loading() && app.deployed.error.is_none()
            && !app.deploy_configured() {
            Some("no [[repo.deploy]] configured".to_owned())
        } else {
            list_message(&app.deployed, "no environments")
        },
    }
}

fn is_lit(app: &App, stage: Stage, selected: Option<usize>, i: usize) -> (r: bool)
    ensures
        r == lit(*app, stage, selected, i as int),
{
    app.focus == stage && match selected {
        Some(s) => s == i,
        None => false,
    }
}

/// See `column_cards_of`.
pub fn column_cards(app: &App, stage: Stage, width: usize) -> (r: Vec<Vec<Vec<Segment>>>)
    ensures
        cards_view(r@) == column_cards_of(*app, stage, width as nat),
{
    let mut cards: Vec<Vec<Vec<Segment>>> = Vec::new();
    let ghost want = column_cards_of(*app, stage, width as nat);
    match stage {
        Stage::Prs => {
            let shown = app.prs.visible();
            let mut i: usize = 0;
            while i < shown.len()
                invariant
                    0 <= i <= shown@.len() == app.prs.shown().len(),
                    forall|k: int| 0 <= k < shown@.len() ==> *shown@[k] == app.prs.shown()[k],
                    want == column_cards_of(*app, stage, width as nat),
                    stage == Stage::Prs,
                    cards_view(cards@) == want.take(i as int),
                decreases shown@.len() - i,
            {
                let on = is_lit(app, stage, app.prs.list.selected, i);
                let card = pr_row(shown[i], app.now, on, width);
                let ghost before = cards@;
                cards.push(card);
                proof {
                    assert(cards_view(cards@) =~= cards_view(before).push(lines_view(card@)));
                    assert(want.take(i + 1) =~= want.take(i as int).push(want[i as int]));
                }
                i = i + 1;
            }
            assert(want.take(shown@.len() as int) =~= want);
        },
        Stage::Queue => {
            let shown = app.queue.visible();
            let mut i: usize = 0;
            while i < shown.len()
                invariant
                    0 <= i <= shown@.len() == app.queue.shown().len(),
                    forall|k: int| 0 <= k < shown@.len() ==> *shown@[k] == app.queue.shown()[k],
                    want == column_cards_of(*app, stage, width as nat),
                    stage == Stage::Queue,
                    cards_view(cards@) == want.take(i as int),
                decreases shown@.len() - i,
            {
                let on = is_lit(app, stage, app.queue.list.selected, i);
                let jobs = match &shown[i].run {
                    Some(r) => app.jobs.get(&r.id),
                    None => None,
                };
                let card = queue_row(shown[i], jobs, app.now, on, width);
                let ghost before = cards@;
                cards.push(card);
                proof {
                    assert(cards_view(cards@) =~= cards_view(before).push(lines_view(card@)));
                    assert(want.take(i + 1) =~= want.take(i as int).push(want[i as int]));
                }
                i = i + 1;
            }
            assert(want.take(shown@.len() as int) =~= want);
        },
        Stage::Builds => {
            let shown = app.builds.visible();
            let mut i: usize = 0;
            while i < shown.len()
                invariant
                    0 <= i <= shown@.len() == app.builds.shown().len(),
                    forall|k: int| 0 <= k < shown@.len() ==> *shown@[k] == app.builds.shown()[k],
                    want == column_cards_of(*app, stage, width as nat),
                    stage == Stage::Builds,
                    cards_view(cards@) == want.take(i as int),
                decreases shown@.len() - i,
            {
                let on = is_lit(app, stage, app.builds.list.selected, i);
                let jobs = app.jobs.get(&shown[i].id);
                let card = build_row(shown[i], jobs, app.now, on, width);
                let ghost before = cards@;
                cards.push(card);
                proof {
                    assert(cards_view(cards@) =~= cards_view(before).push(lines_view(card@)));
                    assert(want.take(i + 1) =~= want.take(i as int).push(want[i as int]));
                }
                i = i + 1;
            }
            assert(want.take(shown@.len() as int) =~= want);
        },
        Stage::Deployed => {
            let shown = app.deployed.visible();
            let mut i: usize = 0;
            while i < shown.len()
                invariant
                    0 <= i <= shown@.len() == app.deployed.shown().len(),
                    forall|k: int|
                        0 <= k < shown@.len() ==> *shown@[k] == app.deployed.shown()[k],
                    want == column_cards_of(*app, stage, width as nat),
                    stage == Stage::Deployed,
                    cards_view(cards@) == want.take(i as int),
                decreases shown@.len() - i,
            {
                let on = is_lit(app, stage, app.deployed.list.selected, i);
                let behind = app.behind_main(shown[i]);
                let card = deployed_row(shown[i], behind, app.now, on, width);
                let ghost before = cards@;
                cards.push(card);
                proof {
                    assert(cards_view(cards@) =~= cards_view(before).push(lines_view(card@)));
                    assert(want.take(i + 1) =~= want.take(i as int).push(want[i as int]));
                }
                i = i + 1;
            }
            assert(want.take(shown@.len() as int) =~= want);
        },
    }
    cards
}

/// How the columns share the screen: the focused one alone when zoomed; one at a time under
/// a bar of tabs when four of the narrowest allowed do not fit; else side by side.
#[derive(Debug, Clone, Copy, PartialEq, Eq, Structural)]
pub enum Arrangement {
    Zoomed,
    Tabs,
    Side,
}

/// See `Arrangement`; `width` is the width of the screen, and four times the narrowest
/// column saturates at `u16::MAX`.
pub open spec fn arrangement_of(app: App, width: u16) -> Arrangement {
    let four = app.config.ui.min_column_width * 4;
    let needed = if four > u16::MAX {
        u16::MAX as int
    } else {
        four
    };
    if app.zoom {
        Arrangement::Zoomed
    } else if width < needed {
        Arrangement::Tabs
    } else {
        Arrangement::Side
    }
}

/// See `arrangement_of`.
pub fn arrangement(app: &App, width: u16) -> (r: Arrangement)
    ensures
        r == arrangement_of(*app, width),
{
    let four = (app.config.ui.min_column_width as u32) * 4;
    let needed: u32 = if four > 0xffff {
        0xffff
    } else {
        four
    };
    if app.zoom {
        Arrangement::Zoomed
    } else if (width as u32) < needed {
        Arrangement::Tabs
    } else {
        Arrangement::Side
    }
}

/// The look of a tab: bold for the focused column, dim for the others.
pub open spec fn tab_look(app: App, stage: Stage) -> Look {
    if stage == app.focus {
        Look { tone: None, dim: false, bold: true }
    } else {
        Look { tone: None, dim: true, bold: false }
    }
}

/// The bar of tabs: the four column titles, in order, between ` │ ` separators.
pub open spec fn tab_bar_of(app: App) -> Seq<(Seq<char>, Look)> {
    let sep = (" │ "@, Look { tone: None, dim: false, bold: false });
    seq![
        (column_title_of(app, Stage::Prs), tab_look(app, Stage::Prs)),
        sep,
        (column_title_of(app, Stage::Queue), tab_look(app, Stage::Queue)),
        sep,
        (column_title_of(app, Stage::Builds), tab_look(app, Stage::Builds)),
        sep,
        (column_title_of(app, Stage::Deployed), tab_look(app, Stage::Deployed)),
    ]
}

fn tab(app: &App, stage: Stage) -> (r: Segment)
    ensures
        seg_view(r) == (column_title_of(*app, stage), tab_look(*app, stage)),
{
    let look = if stage == app.focus {
        Look { tone: None, dim: false, bold: true }
    } else {
        Look { tone: None, dim: true, bold: false }
    };
    segment(column_title(app, stage), look)
}

/// See `tab_bar_of`.
pub fn tab_bar(app: &App) -> (r: Vec<Segment>)
    ensures
        line_view(r@) == tab_bar_of(*app),
{
    let mut bar: Vec<Segment> = Vec::new();
    bar.push(tab(app, Stage::Prs));
    bar.push(segment(" │ ".to_owned(), plain_look()));
    bar.push(tab(app, Stage::Queue));
    bar.push(segment(" │ ".to_owned(), plain_look()));
    bar.push(tab(app, Stage::Builds));
    bar.push(segment(" │ ".to_owned(), plain_look()));
    bar.push(tab(app, Stage::Deployed));
    assert(line_view(bar@) =~= tab_bar_of(*app));
    bar
}

} // verus!
