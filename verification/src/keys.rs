//! What a key does to the view: the moves, the filter, the targets of `p` and `b`, and the
//! loop step that turns an input into the state's next value and the work it asks for.

use vstd::prelude::*;

use crate::app::{
    selected_run_of, LogState,
    fetching_of, jobs_wanted, live_filter, next_index, position_of_sha, previous_index,
    same_but_jobs, same_but_selection, sha_index, stage_at, stage_index, text_view, took_rows,
    Action, App, Column, Effect, Input, JobsState, Key, KeyCode, Mode, Navigable, Request, Row,
    Stage,
};
use crate::model::log::{tail, tail_of};
use crate::model::prs::{failures_first, Check};
use crate::strs::{chars_of, concat, decimal, decimal_string, owned, push_char, slice_string};
use crate::open::{is_web_url, web_url};
use crate::time::Nanos;
use crate::ui::columns::jobs_of;
use crate::ui::rows::{find_failed, first_failed};
use crate::ui::style::sha8;

verus! {

/// A move of a column's selection.
#[derive(Debug, Clone, Copy, PartialEq, Eq, Structural)]
pub enum Move {
    Next,
    Previous,
    First,
    Last,
}

/// What a move does to a column: only its selection changes, as `Navigable` says.
pub open spec fn moved<T: Row>(before: Column<T>, after: Column<T>, m: Move) -> bool {
    &&& same_but_selection(after, before)
    &&& match m {
        Move::Next => after.list.selected == Some(
            next_index(before.list.selected, before.shown().len()),
        ) && after.list.offset == before.list.offset,
        Move::Previous => after.list.selected == Some(previous_index(before.list.selected))
            && after.list.offset == before.list.offset,
        Move::First => after.list.selected == Some(0usize) && after.list.offset
            == before.list.offset,
        Move::Last => if before.shown().len() == 0 {
            after.list.selected is None && after.list.offset == 0
        } else {
            after.list.selected == Some((before.shown().len() - 1) as usize)
                && after.list.offset == before.list.offset
        },
    }
}

/// A move of the focused column: that column moves, the details pane goes back to its top,
/// and nothing else changes.
pub open spec fn moved_focused(before: App, after: App, m: Move) -> bool {
    &&& after == App {
        prs: after.prs,
        queue: after.queue,
        builds: after.builds,
        deployed: after.deployed,
        details_scroll: 0,
        ..before
    }
    &&& if before.focus == Stage::Prs {
        moved(before.prs, after.prs, m)
    } else {
        after.prs == before.prs
    }
    &&& if before.focus == Stage::Queue {
        moved(before.queue, after.queue, m)
    } else {
        after.queue == before.queue
    }
    &&& if before.focus == Stage::Builds {
        moved(before.builds, after.builds, m)
    } else {
        after.builds == before.builds
    }
    &&& if before.focus == Stage::Deployed {
        moved(before.deployed, after.deployed, m)
    } else {
        after.deployed == before.deployed
    }
}

fn move_column<T: Row>(column: &mut Column<T>, m: Move)
    ensures
        moved(*old(column), *final(column), m),
{
    match m {
        Move::Next => column.next(),
        Move::Previous => column.previous(),
        Move::First => column.first(),
        Move::Last => column.last(),
    }
}

/// Where half a page up or down takes the details pane: half its height, at least one line,
/// held between the top and the largest offset a `u16` holds.
pub open spec fn scrolled(scroll: u16, page: u16, half_pages: int) -> u16 {
    let step: int = if page / 2 > 1 {
        (page / 2) as int
    } else {
        1
    };
    let to = scroll + half_pages * step;
    if to < 0 {
        0
    } else if to > u16::MAX {
        u16::MAX
    } else {
        to as u16
    }
}

/// The scroll of a pane `page` lines tall over `lines` lines: no further than where the last
/// line shows on the last row.
pub open spec fn fitted(scroll: u16, page: u16, lines: nat) -> u16 {
    let bottom = if lines > page {
        lines - page
    } else {
        0
    };
    if scroll > bottom {
        bottom as u16
    } else {
        scroll
    }
}

proof fn lemma_step_bound(half_pages: int, step: int)
    by (nonlinear_arith)
    requires
        -0x8000_0000 <= half_pages < 0x8000_0000,
        1 <= step <= 0x8000,
    ensures
        -0x4000_0000_0000 <= half_pages * step <= 0x4000_0000_0000,
{
}

/// What applying the live filter does to a column: it takes the filter, and the focused
/// column (`to_top`) selects its first row.
pub open spec fn refiltered<T>(
    before: Column<T>,
    after: Column<T>,
    live: Option<Seq<char>>,
    to_top: bool,
) -> bool {
    &&& text_view(after.filter) == live
    &&& after.state == before.state
    &&& after.error == before.error
    &&& after.refreshing == before.refreshing
    &&& if to_top {
        after.list.selected == Some(0usize) && after.list.offset == before.list.offset
    } else {
        after.list == before.list
    }
}

/// Every column takes the live filter of `before`; with `to_top`, the focused column selects
/// its first row and the details pane goes back to its top. Nothing else changes.
pub open spec fn filtered(before: App, after: App, to_top: bool) -> bool {
    let live = live_filter(before);
    &&& after == (App {
        prs: after.prs,
        queue: after.queue,
        builds: after.builds,
        deployed: after.deployed,
        details_scroll: if to_top {
            0
        } else {
            before.details_scroll
        },
        ..before
    })
    &&& refiltered(before.prs, after.prs, live, to_top && before.focus == Stage::Prs)
    &&& refiltered(before.queue, after.queue, live, to_top && before.focus == Stage::Queue)
    &&& refiltered(before.builds, after.builds, live, to_top && before.focus == Stage::Builds)
    &&& refiltered(
        before.deployed,
        after.deployed,
        live,
        to_top && before.focus == Stage::Deployed,
    )
}

fn clone_text(text: &Option<String>) -> (r: Option<String>)
    ensures
        r == *text,
{
    match text {
        Some(t) => Some(t.clone()),
        None => None,
    }
}

impl App {
    /// Gives every column the live filter.
    fn apply_filter(&mut self)
        ensures
            filtered(*old(self), *final(self), false),
    {
        let live = match self.filter() {
            Some(f) => Some(owned(f)),
            None => None,
        };
        self.prs.filter = clone_text(&live);
        self.queue.filter = clone_text(&live);
        self.builds.filter = clone_text(&live);
        self.deployed.filter = live;
    }

    /// Gives every column the live filter and selects the first row of the focused one.
    fn sync_filter(&mut self)
        ensures
            filtered(*old(self), *final(self), true),
    {
        self.apply_filter();
        self.with_focused(Move::First);
    }

    fn with_focused(&mut self, m: Move)
        ensures
            moved_focused(*old(self), *final(self), m),
    {
        self.details_scroll = 0;
        match self.focus {
            Stage::Prs => move_column(&mut self.prs, m),
            Stage::Queue => move_column(&mut self.queue, m),
            Stage::Builds => move_column(&mut self.builds, m),
            Stage::Deployed => move_column(&mut self.deployed, m),
        }
    }

    fn scroll_details(&mut self, half_pages: i32)
        ensures
            *final(self) == (App {
                details_scroll: scrolled(
                    old(self).details_scroll,
                    old(self).details_page,
                    half_pages as int,
                ),
                ..*old(self)
            }),
    {
        let half = self.details_page / 2;
        let step: i64 = if half > 1 {
            half as i64
        } else {
            1
        };
        proof {
            lemma_step_bound(half_pages as int, step as int);
        }
        let to: i64 = self.details_scroll as i64 + (half_pages as i64) * step;
        self.details_scroll = if to < 0 {
            0
        } else if to > 0xffff {
            0xffff
        } else {
            to as u16
        };
    }

    /// The details pane is `page` lines tall and holds `lines` lines: the scroll stops where
    /// the last line shows on the last row.
    pub fn fit_details(&mut self, page: u16, lines: usize)
        ensures
            *final(self) == (App {
                details_page: page,
                details_scroll: fitted(old(self).details_scroll, page, lines as nat),
                ..*old(self)
            }),
    {
        self.details_page = page;
        let bottom: usize = if lines > page as usize {
            lines - page as usize
        } else {
            0
        };
        if (self.details_scroll as usize) > bottom {
            self.details_scroll = bottom as u16;
        }
    }

    fn refocus(&mut self, to: Stage)
        ensures
            *final(self) == (App { focus: to, details_scroll: 0, ..*old(self) }),
    {
        self.focus = to;
        self.details_scroll = 0;
    }
}

} // verus!

verus! {

/// The address of pull request `number` of `repo` on GitHub.
pub open spec fn pull_url(repo: Seq<char>, number: u64) -> Seq<char> {
    "https://github.com/"@ + repo + "/pull/"@ + decimal(number as nat)
}

/// The pull request that `p` opens and `y` copies, by number and address, or why there is
/// none: the selected pull request or queue entry; the pull request a main build or a
/// deployed commit came from.
pub open spec fn pull_target_of(app: App) -> Result<(u64, Seq<char>), Seq<char>> {
    let nothing = "nothing selected"@;
    match app.focus {
        Stage::Prs => match app.prs.current() {
            Some(pr) => Ok((pr.number, pr.url@)),
            None => Err(nothing),
        },
        Stage::Queue => match app.queue.current() {
            Some(entry) => Ok((entry.number, entry.url@)),
            None => Err(nothing),
        },
        Stage::Builds => match app.builds.current() {
            Some(build) => match (build.pull, build.pr_number, app.builds_repo) {
                (Some(pull), _, _) => Ok((pull.number, pull.url@)),
                (None, Some(number), Some(repo)) => Ok((number, pull_url(repo@, number))),
                _ => Err("no pull request for this run"@),
            },
            None => Err(nothing),
        },
        Stage::Deployed => match app.deployed.current() {
            Some(row) => match row.pull {
                Some(pull) => Ok((pull.number, pull.url@)),
                None => Err("no pull request for this commit"@),
            },
            None => Err(nothing),
        },
    }
}

/// The first check that links somewhere.
pub open spec fn first_with_url(checks: Seq<Check>) -> Option<Check>
    decreases checks.len(),
{
    if checks.len() == 0 {
        None
    } else if checks[0].url@.len() > 0 {
        Some(checks[0])
    } else {
        first_with_url(checks.drop_first())
    }
}

/// The build that `b` opens and `Y` copies, or why there is none: the failing check of the
/// selected pull request (else its first linked check), the merge-group run of a queue
/// entry, the selected main build, or the main build of a deployed sha.
pub open spec fn build_url_of(app: App) -> Result<Seq<char>, Seq<char>> {
    match app.focus {
        Stage::Prs => match app.prs.current() {
            Some(pr) => match first_with_url(failures_first(pr.checks_detail@)) {
                Some(check) => Ok(check.url@),
                None => Err("no checks yet"@),
            },
            None => Err("no checks yet"@),
        },
        Stage::Queue => match app.queue.current() {
            Some(entry) => match entry.run {
                Some(run) => Ok(run.url@),
                None => Err("no merge-group run yet"@),
            },
            None => Err("no merge-group run yet"@),
        },
        Stage::Builds => match app.builds.current() {
            Some(build) => Ok(build.url@),
            None => Err("nothing selected"@),
        },
        Stage::Deployed => match app.deployed.current() {
            Some(row) => match row.sha {
                Some(sha) => match sha_index(app.builds.rows(), sha@) {
                    Some(i) => Ok(app.builds.rows()[i].url@),
                    None => Err(
                        "no main build found for "@ + sha@.take(
                            if sha@.len() < 8 {
                                sha@.len() as int
                            } else {
                                8
                            },
                        ),
                    ),
                },
                None => Err("no deployed sha to look up"@),
            },
            None => Err("no deployed sha to look up"@),
        },
    }
}

pub open spec fn target_view(r: Result<(u64, String), String>) -> Result<(u64, Seq<char>), Seq<char>> {
    match r {
        Ok((n, url)) => Ok((n, url@)),
        Err(m) => Err(m@),
    }
}

pub open spec fn url_view(r: Result<String, String>) -> Result<Seq<char>, Seq<char>> {
    match r {
        Ok(url) => Ok(url@),
        Err(m) => Err(m@),
    }
}

proof fn lemma_first_with_url(s: Seq<Check>, i: int)
    requires
        0 <= i <= s.len(),
        forall|j: int| 0 <= j < i ==> (#[trigger] s[j]).url@.len() == 0,
    ensures
        first_with_url(s) == first_with_url(s.subrange(i, s.len() as int)),
    decreases i,
{
    if i == 0 {
        assert(s.subrange(0, s.len() as int) =~= s);
    } else {
        let t = s.drop_first();
        assert forall|j: int| 0 <= j < i - 1 implies (#[trigger] t[j]).url@.len() == 0 by {
            assert(t[j] == s[j + 1]);
        }
        lemma_first_with_url(t, i - 1);
        assert(t.subrange(i - 1, t.len() as int) =~= s.subrange(i, s.len() as int));
    }
}

impl App {
    fn pull_target(&self) -> (r: Result<(u64, String), String>)
        ensures
            target_view(r) == pull_target_of(*self),
    {
        match self.focus {
            Stage::Prs => match self.prs.selected() {
                Some(pr) => Ok((pr.number, pr.url.clone())),
                None => Err("nothing selected".to_owned()),
            },
            Stage::Queue => match self.queue.selected() {
                Some(entry) => Ok((entry.number, entry.url.clone())),
                None => Err("nothing selected".to_owned()),
            },
            Stage::Builds => match self.builds.selected() {
                Some(build) => match (&build.pull, build.pr_number, &self.builds_repo) {
                    (Some(pull), _, _) => Ok((pull.number, pull.url.clone())),
                    (None, Some(number), Some(repo)) => {
                        let head = concat("https://github.com/", repo.as_str());
                        let head = concat(head.as_str(), "/pull/");
                        let digits = decimal_string(number);
                        Ok((number, concat(head.as_str(), digits.as_str())))
                    },
                    _ => Err("no pull request for this run".to_owned()),
                },
                None => Err("nothing selected".to_owned()),
            },
            Stage::Deployed => match self.deployed.selected() {
                Some(row) => match &row.pull {
                    Some(pull) => Ok((pull.number, pull.url.clone())),
                    None => Err("no pull request for this commit".to_owned()),
                },
                None => Err("nothing selected".to_owned()),
            },
        }
    }

    fn build_url(&self) -> (r: Result<String, String>)
        ensures
            url_view(r) == build_url_of(*self),
    {
        match self.focus {
            Stage::Prs => match self.prs.selected() {
                Some(pr) => {
                    let checks = pr.checks_failures_first();
                    let ghost s = failures_first(pr.checks_detail@);
                    let mut i: usize = 0;
                    while i < checks.len()
                        invariant
                            0 <= i <= checks@.len(),
                            checks@.len() == s.len(),
                            s == failures_first(pr.checks_detail@),
                            self.focus == Stage::Prs,
                            self.prs.current() == Some(*pr),
                            forall|k: int| 0 <= k < checks@.len() ==> *checks@[k] == s[k],
                            forall|j: int| 0 <= j < i ==> (#[trigger] s[j]).url@.len() == 0,
                        decreases checks@.len() - i,
                    {
                        if !checks[i].url.as_str().is_empty() {
                            proof {
                                lemma_first_with_url(s, i as int);
                                let rest = s.subrange(i as int, s.len() as int);
                                assert(rest[0] == s[i as int]);
                                assert(first_with_url(rest) == Some(s[i as int]));
                            }
                            return Ok(checks[i].url.clone());
                        }
                        i = i + 1;
                    }
                    proof {
                        lemma_first_with_url(s, i as int);
                    }
                    Err("no checks yet".to_owned())
                },
                None => Err("no checks yet".to_owned()),
            },
            Stage::Queue => match self.queue.selected() {
                Some(entry) => match &entry.run {
                    Some(run) => Ok(run.url.clone()),
                    None => Err("no merge-group run yet".to_owned()),
                },
                None => Err("no merge-group run yet".to_owned()),
            },
            Stage::Builds => match self.builds.selected() {
                Some(build) => Ok(build.url.clone()),
                None => Err("nothing selected".to_owned()),
            },
            Stage::Deployed => match self.deployed.selected() {
                Some(row) => match &row.sha {
                    Some(sha) => {
                        let builds = self.builds.all();
                        match position_of_sha(builds, sha) {
                            Some(i) => Ok(builds[i].url.clone()),
                            None => {
                                let short = sha8(sha.as_str());
                                Err(concat("no main build found for ", short.as_str()))
                            },
                        }
                    },
                    None => Err("no deployed sha to look up".to_owned()),
                },
                None => Err("no deployed sha to look up".to_owned()),
            },
        }
    }
}

} // verus!

verus! {

/// How long after opening an address the same address is not opened again.
pub const OPEN_DEBOUNCE: Nanos = 1_000_000_000;

/// Whether `url` was opened less than `OPEN_DEBOUNCE` ago.
pub open spec fn opened_recently(app: App, url: Seq<char>) -> bool {
    match app.last_open {
        Some((last, at)) => last@ == url && app.now >= at && app.now - at < OPEN_DEBOUNCE,
        None => false,
    }
}

/// What the footer says of an address that is not a web URL.
pub open spec fn refusal_of(url: Seq<char>) -> Seq<char> {
    "refusing to open `"@ + url + "`: not an http(s) URL"@
}

/// Opening `url`: nothing when it was opened a moment ago; refused, with the footer saying
/// so, when it is not a web URL; else asked for and remembered with the time.
pub open spec fn opening(app: App, url: Seq<char>, after: App, r: Action) -> bool {
    if opened_recently(app, url) {
        r == Action::Continue && after == app
    } else if !is_web_url(url) {
        r == Action::Continue && noticed(app, after, refusal_of(url))
    } else {
        &&& r.effect() == Effect::Open(url)
        &&& after == (App { last_open: after.last_open, ..app })
        &&& after.last_open matches Some((u, at)) && u@ == url && at == app.now
    }
}

/// The footer says `text`; nothing else changes.
pub open spec fn noticed(app: App, after: App, text: Seq<char>) -> bool {
    &&& after == (App { notice: after.notice, ..app })
    &&& text_view(after.notice) == Some(text)
}

/// `Esc` closes the topmost thing: the details pane, else the zoom, else the kept filter.
pub open spec fn escaped(app: App, after: App) -> bool {
    if app.details {
        after == (App { details: false, details_scroll: 0, ..app })
    } else if app.zoom {
        after == (App { zoom: false, ..app })
    } else if app.query is Some {
        filtered(App { query: None, ..app }, after, true)
    } else {
        after == app
    }
}

/// The repository of the focused column's runs.
pub open spec fn focused_repo(app: App) -> Option<String> {
    match app.focus {
        Stage::Builds => app.builds_repo,
        Stage::Queue => app.queue_repo,
        _ => None,
    }
}

/// The selected run, its failed job and the repository to read the job's log from, when the
/// run's jobs are known and one failed.
pub open spec fn failed_job_to_show(app: App) -> Option<(u64, u64, Seq<char>)> {
    match selected_run_of(app) {
        Some(run) => match jobs_of(app.jobs@, run.id) {
            Some(JobsState::Ready(list)) => match first_failed(list@) {
                Some(job) => match focused_repo(app) {
                    Some(repo) => Some((run.id, job.id, repo@)),
                    None => None,
                },
                None => None,
            },
            _ => None,
        },
        None => None,
    }
}

/// `L`: hides the log when it shows; else asks for the log of the selected run's failed job
/// and opens the details pane to show it, or says there is none.
pub open spec fn logged(app: App, after: App, r: Action) -> bool {
    if app.log is Some {
        r == Action::Continue && after == (App { log: None, ..app })
    } else {
        match failed_job_to_show(app) {
            Some((run_id, job_id, repo)) => {
                &&& r.effect() == Effect::Log(run_id, job_id, repo)
                &&& after == (App { log: Some((job_id, LogState::Loading)), details: true, ..app })
            },
            None => r == Action::Continue && noticed(app, after, "no failed job to show"@),
        }
    }
}

/// The column the digit keys `1` to `4` focus.
pub open spec fn digit_stage(c: char) -> Option<Stage> {
    if c == '1' {
        Some(Stage::Prs)
    } else if c == '2' {
        Some(Stage::Queue)
    } else if c == '3' {
        Some(Stage::Builds)
    } else if c == '4' {
        Some(Stage::Deployed)
    } else {
        None
    }
}

/// A key outside the filter: `app` is the state with the notice cleared and a pending `g`
/// taken, `pending` whether a `g` was pending.
pub open spec fn normal_key(app: App, pending: bool, code: KeyCode, after: App, r: Action) -> bool {
    match code {
        KeyCode::Char(c) => if c == 'q' {
            r == Action::Quit && after == app
        } else if c == '/' {
            &&& r == Action::Continue
            &&& after.mode matches Mode::Filter(q) && q@ == match text_view(app.query) {
                Some(t) => t,
                None => Seq::<char>::empty(),
            }
            &&& filtered(App { mode: after.mode, ..app }, after, true)
        } else if c == '?' {
            r == Action::Continue && after == (App { mode: Mode::Help, ..app })
        } else if c == 'p' {
            match pull_target_of(app) {
                Ok((_, url)) => opening(app, url, after, r),
                Err(m) => r == Action::Continue && noticed(app, after, m),
            }
        } else if c == 'b' {
            match build_url_of(app) {
                Ok(url) => opening(app, url, after, r),
                Err(m) => r == Action::Continue && noticed(app, after, m),
            }
        } else if c == 'y' {
            match pull_target_of(app) {
                Ok((n, url)) => r.effect() == Effect::Copy(url) && noticed(
                    app,
                    after,
                    "copied #"@ + decimal(n as nat),
                ),
                Err(m) => r == Action::Continue && noticed(app, after, m),
            }
        } else if c == 'Y' {
            match build_url_of(app) {
                Ok(url) => r.effect() == Effect::Copy(url) && noticed(
                    app,
                    after,
                    "copied the build URL"@,
                ),
                Err(m) => r == Action::Continue && noticed(app, after, m),
            }
        } else if c == 'L' {
            logged(app, after, r)
        } else if c == 'r' {
            r == Action::Refresh(app.focus) && after == app
        } else if c == 'R' {
            r == Action::RefreshAll && after == app
        } else if c == 'd' {
            r == Action::Continue && after == (App {
                details: !app.details,
                details_scroll: 0,
                ..app
            })
        } else if c == 'z' {
            r == Action::Continue && after == (App { zoom: !app.zoom, ..app })
        } else if c == 'l' && app.focus != Stage::Deployed {
            r == Action::Continue && after == (App {
                focus: stage_at(stage_index(app.focus) + 1),
                details_scroll: 0,
                ..app
            })
        } else if c == 'h' && app.focus != Stage::Prs {
            r == Action::Continue && after == (App {
                focus: stage_at(stage_index(app.focus) + 3),
                details_scroll: 0,
                ..app
            })
        } else if digit_stage(c) is Some {
            r == Action::Continue && after == (App {
                focus: digit_stage(c)->0,
                details_scroll: 0,
                ..app
            })
        } else if c == 'j' {
            r == Action::Continue && moved_focused(app, after, Move::Next)
        } else if c == 'k' {
            r == Action::Continue && moved_focused(app, after, Move::Previous)
        } else if c == 'G' {
            r == Action::Continue && moved_focused(app, after, Move::Last)
        } else if c == 'g' && pending {
            r == Action::Continue && moved_focused(app, after, Move::First)
        } else if c == 'g' {
            r == Action::Continue && after == (App { pending_g: true, ..app })
        } else {
            r == Action::Continue && after == app
        },
        KeyCode::Esc => r == Action::Continue && escaped(app, after),
        KeyCode::Tab => r == Action::Continue && after == (App {
            focus: stage_at(stage_index(app.focus) + 1),
            details_scroll: 0,
            ..app
        }),
        KeyCode::BackTab => r == Action::Continue && after == (App {
            focus: stage_at(stage_index(app.focus) + 3),
            details_scroll: 0,
            ..app
        }),
        KeyCode::Down => r == Action::Continue && moved_focused(app, after, Move::Next),
        KeyCode::Up => r == Action::Continue && moved_focused(app, after, Move::Previous),
        _ => r == Action::Continue && after == app,
    }
}

/// A key while the filter is typed (`typed` so far): characters and `Backspace` edit it and
/// apply it at once, `Enter` keeps it, `Esc` drops it; other keys act as outside the filter.
pub open spec fn filter_key(app: App, typed: Seq<char>, code: KeyCode, after: App, r: Action) -> bool {
    match code {
        KeyCode::Char(c) => {
            &&& r == Action::Continue
            &&& after.mode matches Mode::Filter(q) && q@ == typed.push(c)
            &&& filtered(App { mode: after.mode, ..app }, after, true)
        },
        KeyCode::Backspace => {
            &&& r == Action::Continue
            &&& after.mode matches Mode::Filter(q) && q@ == if typed.len() > 0 {
                typed.drop_last()
            } else {
                typed
            }
            &&& filtered(App { mode: after.mode, ..app }, after, true)
        },
        KeyCode::Esc => r == Action::Continue && filtered(
            App { mode: Mode::Normal, query: None, ..app },
            after,
            true,
        ),
        KeyCode::Enter => {
            &&& r == Action::Continue
            &&& text_view(after.query) == if typed.len() > 0 {
                Some(typed)
            } else {
                None
            }
            &&& filtered(App { mode: Mode::Normal, query: after.query, ..app }, after, false)
        },
        _ => normal_key(App { pending_g: false, ..app }, app.pending_g, code, after, r),
    }
}

/// What a key does: the notice goes; `Ctrl-c` quits; any key closes the help; `Ctrl-d` and
/// `Ctrl-u` scroll the details pane by half a page; the rest goes by the mode.
pub open spec fn pressed(before: App, key: Key, after: App, r: Action) -> bool {
    let app = App { notice: None, ..before };
    if key.control && key.code == KeyCode::Char('c') {
        r == Action::Quit && after == app
    } else if before.mode == Mode::Help {
        r == Action::Continue && after == (App { mode: Mode::Normal, ..app })
    } else if key.control && key.code == KeyCode::Char('d') {
        r == Action::Continue && after == (App {
            details_scroll: scrolled(app.details_scroll, app.details_page, 1),
            ..app
        })
    } else if key.control && key.code == KeyCode::Char('u') {
        r == Action::Continue && after == (App {
            details_scroll: scrolled(app.details_scroll, app.details_page, -1),
            ..app
        })
    } else {
        match before.mode {
            Mode::Filter(q) => filter_key(app, q@, key.code, after, r),
            _ => normal_key(
                App { pending_g: false, ..app },
                before.pending_g,
                key.code,
                after,
                r,
            ),
        }
    }
}

fn same_text(a: &String, b: &String) -> (r: bool)
    ensures
        r == (a@ == b@),
{
    crate::strs::str_eq(a.as_str(), b.as_str())
}

impl App {
    /// See `failed_job_to_show`.
    fn failed_job(&self) -> (r: Option<(u64, u64, String)>)
        ensures
            match failed_job_to_show(*self) {
                Some((run_id, job_id, repo)) => r matches Some((a, b, c)) && a == run_id && b
                    == job_id && c@ == repo,
                None => r is None,
            },
    {
        let run = match self.selected_run() {
            Some(run) => run,
            None => return None,
        };
        let list = match self.jobs.get(&run.id) {
            Some(JobsState::Ready(list)) => list,
            _ => return None,
        };
        let job = match find_failed(list) {
            Some(job) => job,
            None => return None,
        };
        let repo = match self.focus {
            Stage::Builds => &self.builds_repo,
            Stage::Queue => &self.queue_repo,
            _ => return None,
        };
        match repo {
            Some(repo) => Some((run.id, job.id, repo.clone())),
            None => None,
        }
    }

    /// See `logged`.
    fn toggle_log(&mut self) -> (r: Action)
        ensures
            logged(*old(self), *final(self), r),
    {
        if self.log.is_some() {
            self.log = None;
            return Action::Continue;
        }
        match self.failed_job() {
            Some((run_id, job_id, repo)) => {
                self.log = Some((job_id, LogState::Loading));
                self.details = true;
                Action::Log { run_id, job_id, repo }
            },
            None => {
                self.notice = Some("no failed job to show".to_owned());
                Action::Continue
            },
        }
    }

    fn recently_opened(&self, url: &String) -> (r: bool)
        ensures
            r == opened_recently(*self, url@),
    {
        match &self.last_open {
            Some((last, at)) => same_text(last, url) && self.now >= *at && self.now - *at
                < OPEN_DEBOUNCE,
            None => false,
        }
    }

    fn open(&mut self, url: String) -> (r: Action)
        ensures
            opening(*old(self), url@, *final(self), r),
    {
        if self.recently_opened(&url) {
            return Action::Continue;
        }
        let refused = match web_url(url.as_str()) {
            Ok(_) => None,
            Err(e) => Some(e),
        };
        if let Some(e) = refused {
            self.notice = Some(e);
            return Action::Continue;
        }
        self.last_open = Some((url.clone(), self.now));
        Action::Open(url)
    }

    fn handle_normal_key(&mut self, code: KeyCode) -> (r: Action)
        ensures
            normal_key(
                App { pending_g: false, ..*old(self) },
                old(self).pending_g,
                code,
                *final(self),
                r,
            ),
    {
        let pending = self.pending_g;
        self.pending_g = false;
        match code {
            KeyCode::Char(c) => {
                if c == 'q' {
                    Action::Quit
                } else if c == '/' {
                    let text = match &self.query {
                        Some(q) => q.clone(),
                        None => String::new(),
                    };
                    self.mode = Mode::Filter(text);
                    self.sync_filter();
                    Action::Continue
                } else if c == '?' {
                    self.mode = Mode::Help;
                    Action::Continue
                } else if c == 'p' {
                    match self.pull_target() {
                        Ok((_, url)) => self.open(url),
                        Err(message) => {
                            self.notice = Some(message);
                            Action::Continue
                        },
                    }
                } else if c == 'b' {
                    match self.build_url() {
                        Ok(url) => self.open(url),
                        Err(message) => {
                            self.notice = Some(message);
                            Action::Continue
                        },
                    }
                } else if c == 'y' {
                    match self.pull_target() {
                        Ok((number, url)) => {
                            let digits = decimal_string(number);
                            self.notice = Some(concat("copied #", digits.as_str()));
                            Action::Copy(url)
                        },
                        Err(message) => {
                            self.notice = Some(message);
                            Action::Continue
                        },
                    }
                } else if c == 'Y' {
                    match self.build_url() {
                        Ok(url) => {
                            self.notice = Some("copied the build URL".to_owned());
                            Action::Copy(url)
                        },
                        Err(message) => {
                            self.notice = Some(message);
                            Action::Continue
                        },
                    }
                } else if c == 'L' {
                    self.toggle_log()
                } else if c == 'r' {
                    Action::Refresh(self.focus)
                } else if c == 'R' {
                    Action::RefreshAll
                } else if c == 'd' {
                    self.details = !self.details;
                    self.details_scroll = 0;
                    Action::Continue
                } else if c == 'z' {
                    self.zoom = !self.zoom;
                    Action::Continue
                } else if c == 'l' && self.focus != Stage::Deployed {
                    self.refocus(self.focus.next());
                    Action::Continue
                } else if c == 'h' && self.focus != Stage::Prs {
                    self.refocus(self.focus.previous());
                    Action::Continue
                } else if c == '1' {
                    self.refocus(Stage::Prs);
                    Action::Continue
                } else if c == '2' {
                    self.refocus(Stage::Queue);
                    Action::Continue
                } else if c == '3' {
                    self.refocus(Stage::Builds);
                    Action::Continue
                } else if c == '4' {
                    self.refocus(Stage::Deployed);
                    Action::Continue
                } else if c == 'j' {
                    self.with_focused(Move::Next);
                    Action::Continue
                } else if c == 'k' {
                    self.with_focused(Move::Previous);
                    Action::Continue
                } else if c == 'G' {
                    self.with_focused(Move::Last);
                    Action::Continue
                } else if c == 'g' && pending {
                    self.with_focused(Move::First);
                    Action::Continue
                } else if c == 'g' {
                    self.pending_g = true;
                    Action::Continue
                } else {
                    Action::Continue
                }
            },
            KeyCode::Esc => {
                if self.details {
                    self.details = false;
                    self.details_scroll = 0;
                } else if self.zoom {
                    self.zoom = false;
                } else if self.query.is_some() {
                    self.query = None;
                    self.sync_filter();
                }
                Action::Continue
            },
            KeyCode::Tab => {
                self.refocus(self.focus.next());
                Action::Continue
            },
            KeyCode::BackTab => {
                self.refocus(self.focus.previous());
                Action::Continue
            },
            KeyCode::Down => {
                self.with_focused(Move::Next);
                Action::Continue
            },
            KeyCode::Up => {
                self.with_focused(Move::Previous);
                Action::Continue
            },
            _ => Action::Continue,
        }
    }

    fn handle_filter_key(&mut self, typed: String, code: KeyCode) -> (r: Action)
        requires
            old(self).mode == Mode::Filter(typed),
        ensures
            filter_key(*old(self), typed@, code, *final(self), r),
    {
        match code {
            KeyCode::Char(c) => {
                let mut text = typed;
                push_char(&mut text, c);
                self.mode = Mode::Filter(text);
                self.sync_filter();
                Action::Continue
            },
            KeyCode::Backspace => {
                let chars = chars_of(typed.as_str());
                let end = if chars.len() > 0 {
                    chars.len() - 1
                } else {
                    0
                };
                let text = slice_string(chars.as_slice(), 0, end);
                proof {
                    assert(chars@.subrange(0, chars@.len() as int) =~= chars@);
                }
                self.mode = Mode::Filter(text);
                self.sync_filter();
                Action::Continue
            },
            KeyCode::Esc => {
                self.mode = Mode::Normal;
                self.query = None;
                self.sync_filter();
                Action::Continue
            },
            KeyCode::Enter => {
                self.mode = Mode::Normal;
                self.query = if typed.as_str().is_empty() {
                    None
                } else {
                    Some(typed)
                };
                self.apply_filter();
                Action::Continue
            },
            _ => self.handle_normal_key(code),
        }
    }

    /// Answers a key (see `pressed`).
    pub fn handle_key(&mut self, key: Key) -> (r: Action)
        ensures
            pressed(*old(self), key, *final(self), r),
    {
        self.notice = None;
        if key.control && key.code == KeyCode::Char('c') {
            return Action::Quit;
        }
        let typed = match &self.mode {
            Mode::Help => {
                self.mode = Mode::Normal;
                return Action::Continue;
            },
            Mode::Filter(q) => Some(q.clone()),
            Mode::Normal => None,
        };
        if key.control && key.code == KeyCode::Char('d') {
            self.scroll_details(1);
            return Action::Continue;
        }
        if key.control && key.code == KeyCode::Char('u') {
            self.scroll_details(-1);
            return Action::Continue;
        }
        match typed {
            Some(q) => self.handle_filter_key(q, key.code),
            None => self.handle_normal_key(key.code),
        }
    }
}

} // verus!

verus! {

/// What one input leaves the loop to do: act on the key's action, then make the requests.
pub struct Turn {
    pub action: Action,
    pub requests: Vec<Request>,
}

/// What an input does to the view before the jobs check, and the action it asks for.
pub open spec fn took(before: App, input: Input, after: App, action: Action) -> bool {
    match input {
        Input::Key(key) => pressed(before, key, after, action),
        Input::Tick(now) => action == Action::Continue && after == (App { now: now, ..before }),
        Input::Fetching(stage) => action == Action::Continue && after == fetching_of(before, stage),
        Input::Data(stage, data) => action == Action::Continue && took_rows(
            before,
            after,
            stage,
            data,
        ),
        Input::Log(job_id, result) => action == Action::Continue && log_received(
            before,
            job_id,
            result,
            after,
        ),
        Input::Jobs(run_id, result) => {
            &&& action == Action::Continue
            &&& after.jobs@ == before.jobs@.insert(
                run_id,
                match result {
                    Ok(jobs) => JobsState::Ready(jobs),
                    Err(message) => JobsState::Failed(message),
                },
            )
            &&& same_but_jobs(after, before)
        },
    }
}

/// The fetches an action asks for, then the jobs of run `jobs` if there is one to fetch.
pub open spec fn asked(action: Action, jobs: Option<u64>) -> Seq<Request> {
    let refresh = match action {
        Action::Refresh(stage) => seq![Request::Refresh(stage)],
        Action::RefreshAll => seq![
            Request::Refresh(Stage::Prs),
            Request::Refresh(Stage::Queue),
            Request::Refresh(Stage::Builds),
            Request::Refresh(Stage::Deployed),
        ],
        Action::Log { run_id, job_id, repo } => seq![Request::Log { run_id, job_id, repo }],
        _ => Seq::empty(),
    };
    match jobs {
        Some(run_id) => refresh.push(Request::Jobs { run_id }),
        None => refresh,
    }
}

/// How many lines of a failed step's log the details pane keeps.
pub const LOG_LINES: usize = 40;

/// What a log's answer does: the job whose log the pane waits for takes the last lines or
/// why the log could not be fetched; an answer for another job changes nothing.
pub open spec fn log_received(before: App, job_id: u64, result: Result<String, String>, after: App) -> bool {
    match before.log {
        Some((id, _)) => if id == job_id {
            &&& after == (App { log: after.log, ..before })
            &&& match result {
                Ok(text) => after.log matches Some((i, LogState::Lines(lines))) && i == job_id
                    && lines@.map_values(|l: String| l@) == tail_of(text@, LOG_LINES as nat),
                Err(message) => after.log == Some((job_id, LogState::Failed(message))),
            }
        } else {
            after == before
        },
        None => after == before,
    }
}

/// One turn of the loop: the input changes the view; unless it quits, the jobs of the run
/// that `jobs_wanted` names are marked loading and asked for after what the action asks.
pub open spec fn stepped(before: App, input: Input, after: App, turn: Turn) -> bool {
    exists|mid: App|
        #[trigger] took(before, input, mid, turn.action) && if turn.action == Action::Quit {
            after == mid && turn.requests@ == Seq::<Request>::empty()
        } else {
            &&& turn.requests@ == asked(turn.action, jobs_wanted(mid))
            &&& after.jobs@ == match jobs_wanted(mid) {
                Some(id) => mid.jobs@.insert(id, JobsState::Loading),
                None => mid.jobs@,
            }
            &&& same_but_jobs(after, mid)
        }
}

impl App {
    /// Takes one input (see `stepped`).
    pub fn step(&mut self, input: Input) -> (r: Turn)
        ensures
            stepped(*old(self), input, *final(self), r),
    {
        let ghost before = *self;
        let ghost input_value = input;
        let action = match input {
            Input::Key(key) => self.handle_key(key),
            Input::Tick(now) => {
                self.now = now;
                Action::Continue
            },
            Input::Fetching(stage) => {
                self.fetching(stage);
                Action::Continue
            },
            Input::Data(stage, data) => {
                self.receive(stage, data);
                Action::Continue
            },
            Input::Jobs(run_id, result) => {
                self.receive_jobs(run_id, result);
                Action::Continue
            },
            Input::Log(job_id, result) => {
                self.receive_log(job_id, result);
                Action::Continue
            },
        };
        let ghost mid = *self;
        assert(took(before, input_value, mid, action));
        let mut requests: Vec<Request> = Vec::new();
        match &action {
            Action::Quit => {
                return Turn { action, requests };
            },
            Action::Refresh(stage) => requests.push(Request::Refresh(*stage)),
            Action::RefreshAll => {
                requests.push(Request::Refresh(Stage::Prs));
                requests.push(Request::Refresh(Stage::Queue));
                requests.push(Request::Refresh(Stage::Builds));
                requests.push(Request::Refresh(Stage::Deployed));
            },
            Action::Log { run_id, job_id, repo } => {
                requests.push(Request::Log { run_id: *run_id, job_id: *job_id, repo: repo.clone() });
            },
            _ => {},
        }
        match self.jobs_needed() {
            Some(run_id) => requests.push(Request::Jobs { run_id }),
            None => {},
        }
        assert(requests@ == asked(action, jobs_wanted(mid)));
        Turn { action, requests }
    }

    /// Takes a failed step's log (see `log_received`).
    pub fn receive_log(&mut self, job_id: u64, result: Result<String, String>)
        ensures
            log_received(*old(self), job_id, result, *final(self)),
    {
        let waiting = match &self.log {
            Some((id, _)) => *id == job_id,
            None => false,
        };
        if !waiting {
            return;
        }
        match result {
            Ok(text) => {
                let lines = tail(text.as_str(), LOG_LINES);
                assert(lines@.map_values(|l: String| l@) =~= tail_of(text@, LOG_LINES as nat));
                self.log = Some((job_id, LogState::Lines(lines)));
            },
            Err(message) => {
                self.log = Some((job_id, LogState::Failed(message)));
            },
        }
    }

    /// An outside action failed: the footer says why.
    pub fn outside_failed(&mut self, message: String)
        ensures
            *final(self) == (App { notice: Some(message), ..*old(self) }),
    {
        self.notice = Some(message);
    }
}

} // verus!

verus! {

/// A second press of `p` or `b` on the same address at once opens nothing and changes
/// nothing but, for a refused address, repeats the same notice: a held key opens an address
/// once a second.
pub proof fn lemma_second_open_waits(
    app: App,
    url: Seq<char>,
    mid: App,
    first: Action,
    after: App,
    second: Action,
)
    requires
        opening(app, url, mid, first),
        opening(mid, url, after, second),
    ensures
        second == Action::Continue,
        after == (App { notice: after.notice, ..mid }),
        text_view(after.notice) == text_view(mid.notice),
{
}

/// Typing a character into the filter and erasing it again leaves the filter as it was.
pub proof fn lemma_type_then_erase(
    app: App,
    typed: Seq<char>,
    c: char,
    mid: App,
    first: Action,
    after: App,
    second: Action,
)
    requires
        app.mode matches Mode::Filter(q) && q@ == typed,
        filter_key(app, typed, KeyCode::Char(c), mid, first),
        filter_key(mid, typed.push(c), KeyCode::Backspace, after, second),
    ensures
        after.mode matches Mode::Filter(q) && q@ == typed,
        live_filter(after) == live_filter(app),
        text_view(after.prs.filter) == Some(typed),
        text_view(after.queue.filter) == Some(typed),
        text_view(after.builds.filter) == Some(typed),
        text_view(after.deployed.filter) == Some(typed),
{
    assert(typed.push(c).drop_last() =~= typed);
}

/// Half a page down and half a page up come back to the same line, unless the bottom was
/// hit; the top and the bottom hold.
pub proof fn lemma_scroll_round_trip(scroll: u16, page: u16)
    ensures
        scroll + (if page / 2 > 1 {
            page / 2
        } else {
            1
        }) <= u16::MAX ==> scrolled(scrolled(scroll, page, 1), page, -1) == scroll,
        scrolled(0, page, -1) == 0,
        scrolled(u16::MAX, page, 1) == u16::MAX,
{
}

/// A move from a row that is shown, or a move other than up from no selection, selects a row
/// that is shown, when any is.
pub proof fn lemma_moves_stay_in_range<T: Row>(before: Column<T>, after: Column<T>, m: Move)
    requires
        moved(before, after, m),
        before.shown().len() > 0,
        before.current() is Some || (before.list.selected is None && m != Move::Previous),
    ensures
        after.current() is Some,
        after.shown() == before.shown(),
{
}

/// `Esc` pressed often enough closes everything: after at most three presses outside the
/// filter the details pane, the zoom and the kept filter are all gone.
pub proof fn lemma_escape_closes_all(a0: App, a1: App, a2: App, a3: App)
    requires
        a0.mode == Mode::Normal,
        escaped(a0, a1),
        escaped(a1, a2),
        escaped(a2, a3),
    ensures
        !a3.details,
        !a3.zoom,
        a3.query is None,
{
}

} // verus!

verus! {

/// The digit keys `1` to `4` name the columns in their order on screen, and no other
/// character names one.
pub proof fn lemma_digits_name_the_columns(c: char)
    ensures
        digit_stage(c) is Some <==> '1' <= c <= '4',
        digit_stage(c) matches Some(s) ==> stage_index(s) == c as int - '1' as int,
{
}

} // verus!
