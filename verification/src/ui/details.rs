//! The details pane: everything known of the selected row of the focused column.

use vstd::prelude::*;

use crate::app::{selected_run_of, App, JobsState, LogState, Stage};
use crate::model::builds::Build;
use crate::model::deployed::Deployment;
use crate::model::jobs::Job;
use crate::model::prs::{failures_first, merge_label, review_label, Check, PullRequest};
use crate::model::queue::{queue_label, QueueEntry};
use crate::strs::{concat, decimal, decimal_string};
use crate::text::{age, clock, clock_of, duration, duration_text, whole_secs};
use crate::time::Stamp;
use crate::ui::card::{
    char_text, dim_look, dimmed, joined, join_parts, line_view, lines_view, plain, plain_look,
    segment, tint, tinted, Look, Segment,
};
use crate::ui::columns::jobs_of;
use crate::ui::rows::{ago, build_took, find_failed, first_failed, numbered, numbered_text, single};
use crate::ui::style::{
    build_glyph, build_glyph_of, build_label, build_label_of, check_text, check_word,
    conclusion_glyph, conclusion_glyph_of, status_text, status_word, Tone,
};

verus! {

broadcast use vstd::std_specs::hash::group_hash_axioms;

/// The lines of a pull request: number, repository, branch and size; review and merge
/// state; then every check, failures first.
pub open spec fn pr_details_of(pr: PullRequest) -> Seq<Seq<(Seq<char>, Look)>> {
    let head = "#"@ + decimal(pr.number as nat) + " "@ + pr.repo@ + "  "@ + pr.head_ref@ + "  +"@
        + decimal(pr.additions as nat) + " −"@ + decimal(pr.deletions as nat);
    let states = "review: "@ + review_label(pr.review) + "  merge: "@ + merge_label(pr.merge_state);
    seq![single(head, plain()), single(states, plain())] + failures_first(
        pr.checks_detail@,
    ).map_values(|c: Check| check_line(c))
}

/// A check in the details pane: its glyph in its colour, then its name.
pub open spec fn check_line(c: Check) -> Seq<(Seq<char>, Look)> {
    seq![
        (seq![conclusion_glyph_of(c.conclusion).0], tinted(conclusion_glyph_of(c.conclusion).1)),
        (" "@ + c.name@, plain()),
    ]
}

/// The head line of a queue entry: number, author, position, state, estimate and flags.
pub open spec fn queue_head_of(entry: QueueEntry) -> Seq<char> {
    let eta = match entry.eta {
        Some(e) => "  eta "@ + duration_text(whole_secs(e)),
        None => Seq::empty(),
    };
    let flag_words = joined(
        seq![
            if entry.solo {
                "solo"@
            } else {
                Seq::empty()
            },
            if entry.jump {
                "jump"@
            } else {
                Seq::empty()
            },
        ],
        " "@,
    );
    let flags = if flag_words.len() == 0 {
        Seq::empty()
    } else {
        "  "@ + flag_words
    };
    "#"@ + decimal(entry.number as nat) + " by "@ + entry.author@ + "  position "@ + decimal(
        entry.position as nat,
    ) + "  "@ + queue_label(entry.state) + eta + flags
}

/// The lines of a queue entry: its head line; how long it has waited, and its checks while
/// it has no merge-group run; its sha; the line of its run, or that it has none yet.
pub open spec fn queue_details_of(entry: QueueEntry, now: Stamp, offset: i32) -> Seq<
    Seq<(Seq<char>, Look)>,
> {
    let first = queue_head_of(entry);
    let enqueued = match entry.enqueued_at {
        Some(at) => "enqueued "@ + ago(at, now) + " ago"@,
        None => Seq::empty(),
    };
    match entry.run {
        Some(run) => seq![
            single(first, plain()),
            single(enqueued, plain()),
            single(entry.head_sha@, dimmed()),
            single(run_line_of(run, now, offset), plain()),
        ],
        None => seq![
            single(first, plain()),
            single(enqueued + "  checks: "@ + check_text(entry.checks), plain()),
            single(entry.head_sha@, dimmed()),
            single("no merge-group run yet"@, plain()),
        ],
    }
}

/// The line of a run: its number, status, time taken, start and actor.
pub open spec fn run_line_of(build: Build, now: Stamp, offset: i32) -> Seq<char> {
    let started = match build.started_at {
        Some(at) => "started at "@ + clock_of(at, offset),
        None => Seq::empty(),
    };
    "run "@ + decimal(build.run_number as nat) + "  "@ + status_text(build.status) + "  "@
        + build_took(build, now) + "  "@ + started + "  by "@ + build.actor@
}

/// The lines of a main build: its run line; its pull request or title; its sha.
pub open spec fn build_details_of(build: Build, now: Stamp, offset: i32) -> Seq<
    Seq<(Seq<char>, Look)>,
> {
    let second = match build.pull {
        Some(p) => "#"@ + decimal(p.number as nat) + " "@ + p.author@ + "  "@ + p.title@,
        None => build.title@,
    };
    seq![
        single(run_line_of(build, now, offset), plain()),
        single(second, plain()),
        single(build.sha@, dimmed()),
    ]
}

/// The lines of a deployed environment: its name and image; the pull request of its commit;
/// its sha and when it was read; why it could not be read.
pub open spec fn deployed_details_of(row: Deployment, now: Stamp) -> Seq<Seq<(Seq<char>, Look)>> {
    let first = row.env@ + "  "@ + match row.image {
        Some(i) => i@,
        None => "no image"@,
    };
    let second = match row.pull {
        Some(p) => "#"@ + decimal(p.number as nat) + " "@ + p.author@ + "  "@ + p.title@,
        None => "no pull request found for this commit"@,
    };
    let deployed = match row.fetched_at {
        Some(at) => "deployed "@ + ago(at, now) + " ago"@,
        None => Seq::empty(),
    };
    let third = seq![
        (
            match row.sha {
                Some(s) => s@,
                None => Seq::empty(),
            },
            dimmed(),
        ),
        ("  "@ + deployed, plain()),
    ];
    seq![single(first, plain()), single(second, plain()), third] + match row.error {
        Some(e) => seq![single(e@, tinted(Tone::Red))],
        None => Seq::empty(),
    }
}

/// A job in the details pane: its glyph, then name, time taken and the step that failed.
pub open spec fn job_line_of(job: Job) -> Seq<(Seq<char>, Look)> {
    let took = match job.took() {
        Some(d) => duration_text(whole_secs(d)),
        None => Seq::empty(),
    };
    let failed_at = match job.failed_step {
        Some(s) => "  failed at: "@ + s@,
        None => Seq::empty(),
    };
    seq![
        (seq![build_glyph_of(job.status).0], tinted(build_glyph_of(job.status).1)),
        (" "@ + job.name@ + "  "@ + took + failed_at, plain()),
    ]
}

/// The jobs of the selected run, one line each; that they are on their way; or why they
/// could not be fetched.
pub open spec fn job_lines_of(jobs: Option<JobsState>) -> Seq<Seq<(Seq<char>, Look)>> {
    match jobs {
        None => Seq::empty(),
        Some(JobsState::Loading) => seq![single("jobs: loading…"@, dimmed())],
        Some(JobsState::Failed(m)) => seq![single("jobs: "@ + m@, tinted(Tone::Red))],
        Some(JobsState::Ready(list)) => list@.map_values(|j: Job| job_line_of(j)),
    }
}

/// A failed step's log in the details pane: that it is on its way, why it could not be
/// fetched, or a dim heading and its last lines.
pub open spec fn log_state_lines(state: LogState) -> Seq<Seq<(Seq<char>, Look)>> {
    match state {
        LogState::Loading => seq![single("log: loading…"@, dimmed())],
        LogState::Failed(m) => seq![single("log: "@ + m@, tinted(Tone::Red))],
        LogState::Lines(lines) => seq![single("log"@, dimmed())] + lines@.map_values(
            |l: String| single(l@, plain()),
        ),
    }
}

/// The log the pane shows under a run: the log asked for, when it is that of the run's
/// failed job.
pub open spec fn log_lines_of(app: App, run: Option<Build>) -> Seq<Seq<(Seq<char>, Look)>> {
    match (app.log, run) {
        (Some((job_id, state)), Some(r)) => match jobs_of(app.jobs@, r.id) {
            Some(JobsState::Ready(list)) => match first_failed(list@) {
                Some(job) => if job.id == job_id {
                    log_state_lines(state)
                } else {
                    Seq::empty()
                },
                None => Seq::empty(),
            },
            _ => Seq::empty(),
        },
        _ => Seq::empty(),
    }
}

/// The title of the details pane and its lines: the selected row of the focused column, or
/// that nothing is selected. A run shows its jobs and the log of its failed step asked for.
pub open spec fn details_of(app: App) -> (Seq<char>, Seq<Seq<(Seq<char>, Look)>>) {
    let nothing = ("Details"@, seq![single("nothing selected"@, plain())]);
    match app.focus {
        Stage::Prs => match app.prs.current() {
            Some(pr) => (numbered(pr.number, pr.title@), pr_details_of(pr)),
            None => nothing,
        },
        Stage::Queue => match app.queue.current() {
            Some(entry) => (
                numbered(entry.number, entry.title@),
                queue_details_of(entry, app.now, app.utc_offset_secs) + match entry.run {
                    Some(run) => job_lines_of(jobs_of(app.jobs@, run.id)),
                    None => Seq::empty(),
                } + log_lines_of(app, entry.run),
            ),
            None => nothing,
        },
        Stage::Builds => match app.builds.current() {
            Some(build) => (
                build_label_of(build).0 + " run "@ + decimal(build.run_number as nat),
                build_details_of(build, app.now, app.utc_offset_secs) + job_lines_of(
                    jobs_of(app.jobs@, build.id),
                ) + log_lines_of(app, Some(build)),
            ),
            None => nothing,
        },
        Stage::Deployed => match app.deployed.current() {
            Some(row) => (
                row.env@ + " ("@ + match app.deployed_system {
                    Some(s) => s@,
                    None => Seq::empty(),
                } + ")"@,
                deployed_details_of(row, app.now),
            ),
            None => nothing,
        },
    }
}

fn one_line(text: String, look: Look) -> (r: Vec<Segment>)
    ensures
        line_view(r@) == single(text@, look),
{
    let mut line: Vec<Segment> = Vec::new();
    line.push(segment(text, look));
    assert(line_view(line@) =~= single(text@, look));
    line
}

fn two_runs(a: String, la: Look, b: String, lb: Look) -> (r: Vec<Segment>)
    ensures
        line_view(r@) == seq![(a@, la), (b@, lb)],
{
    let mut line: Vec<Segment> = Vec::new();
    line.push(segment(a, la));
    line.push(segment(b, lb));
    assert(line_view(line@) =~= seq![(a@, la), (b@, lb)]);
    line
}

/// Joins texts one after the other.
fn cat(parts: &[&str]) -> (r: String)
    ensures
        r@ == parts@.fold_left(Seq::<char>::empty(), |acc: Seq<char>, p: &str| acc + p@),
{
    let mut out = String::new();
    let mut i: usize = 0;
    while i < parts.len()
        invariant
            0 <= i <= parts@.len(),
            out@ == parts@.take(i as int).fold_left(
                Seq::<char>::empty(),
                |acc: Seq<char>, p: &str| acc + p@,
            ),
        decreases parts@.len() - i,
    {
        proof {
            assert(parts@.take(i + 1).drop_last() =~= parts@.take(i as int));
        }
        out = concat(out.as_str(), parts[i]);
        i = i + 1;
    }
    assert(parts@.take(parts@.len() as int) =~= parts@);
    out
}

/// See `pr_details_of`.
pub fn pr_details(pr: &PullRequest) -> (r: Vec<Vec<Segment>>)
    ensures
        lines_view(r@) == pr_details_of(*pr),
{
    let number = decimal_string(pr.number);
    let adds = decimal_string(pr.additions);
    let dels = decimal_string(pr.deletions);
    let head = cat(
        &[
            "#",
            number.as_str(),
            " ",
            pr.repo.as_str(),
            "  ",
            pr.head_ref.as_str(),
            "  +",
            adds.as_str(),
            " −",
            dels.as_str(),
        ],
    );
    let states = cat(&["review: ", pr.review.label(), "  merge: ", pr.merge_state.label()]);
    proof {
        reveal_with_fuel(Seq::fold_left, 11);
    }
    let mut lines: Vec<Vec<Segment>> = Vec::new();
    lines.push(one_line(head, plain_look()));
    lines.push(one_line(states, plain_look()));
    let checks = pr.checks_failures_first();
    let ghost ff = failures_first(pr.checks_detail@);
    let ghost f = |c: Check| check_line(c);
    let ghost top = lines_view(lines@);
    let mut i: usize = 0;
    while i < checks.len()
        invariant
            0 <= i <= checks@.len() == ff.len(),
            forall|k: int| 0 <= k < checks@.len() ==> *checks@[k] == ff[k],
            f == (|c: Check| check_line(c)),
            lines_view(lines@) == top + ff.take(i as int).map_values(f),
        decreases checks@.len() - i,
    {
        let (g, tone) = conclusion_glyph(checks[i].conclusion);
        let name = concat(" ", checks[i].name.as_str());
        let ghost before = lines@;
        let line = two_runs(char_text(g), tint(tone), name, plain_look());
        assert(*checks@[i as int] == ff[i as int]);
        proof {
            let c = ff[i as int];
            assert((g, tone) == conclusion_glyph_of(c.conclusion));
            assert(line_view(line@)[0] == (seq![g], tinted(tone)));
            assert(line_view(line@)[1] == (" "@ + c.name@, plain()));
            assert(line_view(line@) =~= f(c));
        }
        lines.push(line);
        proof {
            assert(ff.take(i + 1) =~= ff.take(i as int).push(ff[i as int]));
            assert(ff.take(i + 1).map_values(f) =~= ff.take(i as int).map_values(f).push(
                f(ff[i as int]),
            ));
            assert(lines_view(lines@) =~= lines_view(before).push(f(ff[i as int])));
        }
        i = i + 1;
    }
    assert(ff.take(checks@.len() as int) =~= ff);
    assert(lines_view(lines@) =~= pr_details_of(*pr));
    lines
}


/// See `queue_head_of`.
fn queue_head(entry: &QueueEntry) -> (r: String)
    ensures
        r@ == queue_head_of(*entry),
{
    let eta = match entry.eta {
        Some(e) => concat("  eta ", duration(e).as_str()),
        None => String::new(),
    };
    let flag_parts = vec![
        if entry.solo {
            "solo".to_owned()
        } else {
            String::new()
        },
        if entry.jump {
            "jump".to_owned()
        } else {
            String::new()
        },
    ];
    assert(flag_parts@.map_values(|p: String| p@) =~= seq![
        if entry.solo {
            "solo"@
        } else {
            Seq::<char>::empty()
        },
        if entry.jump {
            "jump"@
        } else {
            Seq::<char>::empty()
        },
    ]);
    let flag_words = join_parts(flag_parts.as_slice(), " ");
    let flags = if flag_words.as_str().is_empty() {
        String::new()
    } else {
        concat("  ", flag_words.as_str())
    };
    let number = decimal_string(entry.number);
    let position = decimal_string(entry.position);
    proof {
        reveal_with_fuel(Seq::fold_left, 11);
    }
    cat(
        &[
            "#",
            number.as_str(),
            " by ",
            entry.author.as_str(),
            "  position ",
            position.as_str(),
            "  ",
            entry.state.label(),
            eta.as_str(),
            flags.as_str(),
        ],
    )
}

/// See `queue_details_of`.
pub fn queue_details(entry: &QueueEntry, now: Stamp, offset: i32) -> (r: Vec<Vec<Segment>>)
    ensures
        lines_view(r@) == queue_details_of(*entry, now, offset),
{
    let first = queue_head(entry);
    let enqueued = match entry.enqueued_at {
        Some(at) => cat(&["enqueued ", age(at, now).as_str(), " ago"]),
        None => String::new(),
    };
    proof {
        reveal_with_fuel(Seq::fold_left, 4);
    }
    let (second, last) = match &entry.run {
        Some(run) => (enqueued, run_line(run, now, offset)),
        None => (
            cat(&[enqueued.as_str(), "  checks: ", check_word(entry.checks)]),
            "no merge-group run yet".to_owned(),
        ),
    };
    let mut lines: Vec<Vec<Segment>> = Vec::new();
    lines.push(one_line(first, plain_look()));
    lines.push(one_line(second, plain_look()));
    lines.push(one_line(entry.head_sha.clone(), dim_look()));
    lines.push(one_line(last, plain_look()));
    assert(lines_view(lines@) =~= queue_details_of(*entry, now, offset));
    lines
}

/// See `run_line_of`.
pub fn run_line(build: &Build, now: Stamp, offset: i32) -> (r: String)
    ensures
        r@ == run_line_of(*build, now, offset),
{
    let took = match build.duration() {
        Some(d) => duration(d),
        None => match build.elapsed(now) {
            Some(d) => duration(d),
            None => String::new(),
        },
    };
    let started = match build.started_at {
        Some(at) => concat("started at ", clock(at, offset).as_str()),
        None => String::new(),
    };
    let run = decimal_string(build.run_number);
    proof {
        reveal_with_fuel(Seq::fold_left, 11);
    }
    cat(
        &[
            "run ",
            run.as_str(),
            "  ",
            status_word(build.status),
            "  ",
            took.as_str(),
            "  ",
            started.as_str(),
            "  by ",
            build.actor.as_str(),
        ],
    )
}

/// See `build_details_of`.
pub fn build_details(build: &Build, now: Stamp, offset: i32) -> (r: Vec<Vec<Segment>>)
    ensures
        lines_view(r@) == build_details_of(*build, now, offset),
{
    let first = run_line(build, now, offset);
    let second = match &build.pull {
        Some(p) => {
            let number = decimal_string(p.number);
            cat(&["#", number.as_str(), " ", p.author.as_str(), "  ", p.title.as_str()])
        },
        None => build.title.clone(),
    };
    proof {
        reveal_with_fuel(Seq::fold_left, 11);
    }
    let mut lines: Vec<Vec<Segment>> = Vec::new();
    lines.push(one_line(first, plain_look()));
    lines.push(one_line(second, plain_look()));
    lines.push(one_line(build.sha.clone(), dim_look()));
    assert(lines_view(lines@) =~= build_details_of(*build, now, offset));
    lines
}

/// See `deployed_details_of`.
pub fn deployed_details(row: &Deployment, now: Stamp) -> (r: Vec<Vec<Segment>>)
    ensures
        lines_view(r@) == deployed_details_of(*row, now),
{
    let image = match &row.image {
        Some(i) => i.clone(),
        None => "no image".to_owned(),
    };
    let first = cat(&[row.env.as_str(), "  ", image.as_str()]);
    let second = match &row.pull {
        Some(p) => {
            let number = decimal_string(p.number);
            cat(&["#", number.as_str(), " ", p.author.as_str(), "  ", p.title.as_str()])
        },
        None => "no pull request found for this commit".to_owned(),
    };
    let deployed = match row.fetched_at {
        Some(at) => cat(&["deployed ", age(at, now).as_str(), " ago"]),
        None => String::new(),
    };
    let sha = match &row.sha {
        Some(s) => s.clone(),
        None => String::new(),
    };
    proof {
        reveal_with_fuel(Seq::fold_left, 7);
    }
    let mut lines: Vec<Vec<Segment>> = Vec::new();
    lines.push(one_line(first, plain_look()));
    lines.push(one_line(second, plain_look()));
    lines.push(two_runs(sha, dim_look(), concat("  ", deployed.as_str()), plain_look()));
    match &row.error {
        Some(e) => {
            lines.push(one_line(e.clone(), tint(Tone::Red)));
        },
        None => {},
    }
    proof {
        let want = deployed_details_of(*row, now);
        assert(lines_view(lines@)[0] == want[0]);
        assert(lines_view(lines@)[1] == want[1]);
        assert(lines_view(lines@)[2] == want[2]);
        assert(lines_view(lines@).len() == want.len());
    }
    assert(lines_view(lines@) =~= deployed_details_of(*row, now));
    lines
}

/// See `job_line_of`.
pub fn job_line(job: &Job) -> (r: Vec<Segment>)
    ensures
        line_view(r@) == job_line_of(*job),
{
    let took = match job.duration() {
        Some(d) => duration(d),
        None => String::new(),
    };
    let failed_at = match &job.failed_step {
        Some(step) => concat("  failed at: ", step.as_str()),
        None => String::new(),
    };
    let text = cat(&[" ", job.name.as_str(), "  ", took.as_str(), failed_at.as_str()]);
    proof {
        reveal_with_fuel(Seq::fold_left, 6);
    }
    let (g, tone) = build_glyph(job.status);
    let line = two_runs(char_text(g), tint(tone), text, plain_look());
    assert(line_view(line@) =~= job_line_of(*job));
    line
}


/// See `job_lines_of`.
pub fn job_lines(jobs: Option<&JobsState>) -> (r: Vec<Vec<Segment>>)
    ensures
        lines_view(r@) == job_lines_of(crate::ui::rows::deref_jobs(jobs)),
{
    let mut lines: Vec<Vec<Segment>> = Vec::new();
    match jobs {
        None => {
            assert(lines_view(lines@) =~= Seq::<Seq<(Seq<char>, Look)>>::empty());
        },
        Some(JobsState::Loading) => {
            lines.push(one_line("jobs: loading…".to_owned(), dim_look()));
            assert(lines_view(lines@) =~= seq![single("jobs: loading…"@, dimmed())]);
        },
        Some(JobsState::Failed(message)) => {
            lines.push(one_line(concat("jobs: ", message.as_str()), tint(Tone::Red)));
            assert(lines_view(lines@) =~= seq![single("jobs: "@ + message@, tinted(Tone::Red))]);
        },
        Some(JobsState::Ready(list)) => {
            let count = list.len();
            let ghost f = |j: Job| job_line_of(j);
            let mut i: usize = 0;
            while i < count
                invariant
                    0 <= i <= count <= list@.len(),
                    f == (|j: Job| job_line_of(j)),
                    lines_view(lines@) == list@.take(i as int).map_values(f),
                decreases count - i,
            {
                let ghost before = lines@;
                let line = job_line(&list[i]);
                lines.push(line);
                proof {
                    assert(list@.take(i + 1) =~= list@.take(i as int).push(list@[i as int]));
                    assert(list@.take(i + 1).map_values(f) =~= list@.take(i as int).map_values(
                        f,
                    ).push(f(list@[i as int])));
                    assert(lines_view(lines@) =~= lines_view(before).push(line_view(line@)));
                }
                i = i + 1;
            }
            assert(list@.take(count as int) =~= list@);
        },
    }
    lines
}

/// See `details_of`.
pub fn details(app: &App) -> (r: (String, Vec<Vec<Segment>>))
    ensures
        (r.0@, lines_view(r.1@)) == details_of(*app),
{
    let mut nothing: Vec<Vec<Segment>> = Vec::new();
    nothing.push(one_line("nothing selected".to_owned(), plain_look()));
    assert(lines_view(nothing@) =~= seq![single("nothing selected"@, plain())]);
    match app.focus {
        Stage::Prs => match app.prs.selected() {
            Some(pr) => (numbered_text(pr.number, pr.title.as_str()), pr_details(pr)),
            None => ("Details".to_owned(), nothing),
        },
        Stage::Queue => match app.queue.selected() {
            Some(entry) => {
                let mut lines = queue_details(entry, app.now, app.utc_offset_secs);
                if let Some(run) = &entry.run {
                    let jobs = job_lines(app.jobs.get(&run.id));
                    append_lines(&mut lines, &jobs);
                }
                let log = log_lines(app, entry.run.as_ref());
                append_lines(&mut lines, &log);
                (numbered_text(entry.number, entry.title.as_str()), lines)
            },
            None => ("Details".to_owned(), nothing),
        },
        Stage::Builds => match app.builds.selected() {
            Some(build) => {
                let (label, _) = build_label(build);
                let mut lines = build_details(build, app.now, app.utc_offset_secs);
                let jobs = job_lines(app.jobs.get(&build.id));
                append_lines(&mut lines, &jobs);
                let log = log_lines(app, Some(build));
                append_lines(&mut lines, &log);
                let title = concat(label.as_str(), " run ");
                (concat(title.as_str(), decimal_string(build.run_number).as_str()), lines)
            },
            None => ("Details".to_owned(), nothing),
        },
        Stage::Deployed => match app.deployed.selected() {
            Some(row) => {
                let system = match &app.deployed_system {
                    Some(s) => s.clone(),
                    None => String::new(),
                };
                let title = cat(&[row.env.as_str(), " (", system.as_str(), ")"]);
                proof {
                    reveal_with_fuel(Seq::fold_left, 5);
                }
                (title, deployed_details(row, app.now))
            },
            None => ("Details".to_owned(), nothing),
        },
    }
}

fn clone_line(line: &Vec<Segment>) -> (r: Vec<Segment>)
    ensures
        r@ == line@,
{
    let mut out: Vec<Segment> = Vec::new();
    let mut i: usize = 0;
    while i < line.len()
        invariant
            0 <= i <= line@.len(),
            out@ == line@.take(i as int),
        decreases line@.len() - i,
    {
        out.push(line[i].clone());
        assert(out@ =~= line@.take(i + 1));
        i = i + 1;
    }
    assert(line@.take(line@.len() as int) =~= line@);
    out
}


/// The arrows after the details title: up when lines are scrolled off above, down when
/// lines do not fit below.
pub open spec fn scroll_marks_of(scroll: u16, page: u16, lines: nat) -> Seq<char> {
    let up = scroll > 0;
    let down = scroll + page < lines;
    if up && down {
        " ↑↓"@
    } else if up {
        " ↑"@
    } else if down {
        " ↓"@
    } else {
        Seq::empty()
    }
}

/// See `scroll_marks_of`.
pub fn scroll_marks(scroll: u16, page: u16, lines: usize) -> (r: &'static str)
    ensures
        r@ == scroll_marks_of(scroll, page, lines as nat),
{
    proof {
        reveal_strlit("");
    }
    let up = scroll > 0;
    let down = (scroll as usize) + (page as usize) < lines;
    if up && down {
        " ↑↓"
    } else if up {
        " ↑"
    } else if down {
        " ↓"
    } else {
        ""
    }
}


/// Adds `more` after `lines`.
fn append_lines(lines: &mut Vec<Vec<Segment>>, more: &Vec<Vec<Segment>>)
    ensures
        lines_view(final(lines)@) == lines_view(old(lines)@) + lines_view(more@),
{
    let ghost top = lines_view(lines@);
    let ghost mv = lines_view(more@);
    let mut i: usize = 0;
    while i < more.len()
        invariant
            0 <= i <= more@.len(),
            mv == lines_view(more@),
            lines_view(lines@) == top + mv.take(i as int),
        decreases more@.len() - i,
    {
        let ghost before = lines@;
        let line = clone_line(&more[i]);
        lines.push(line);
        proof {
            assert(mv.take(i + 1) =~= mv.take(i as int).push(mv[i as int]));
            assert(lines_view(lines@) =~= lines_view(before).push(line_view(line@)));
        }
        i = i + 1;
    }
    assert(mv.take(more@.len() as int) =~= mv);
}

/// See `log_lines_of`.
fn log_lines(app: &App, run: Option<&Build>) -> (r: Vec<Vec<Segment>>)
    ensures
        lines_view(r@) == log_lines_of(*app, match run {
            Some(b) => Some(*b),
            None => None,
        }),
{
    let mut lines: Vec<Vec<Segment>> = Vec::new();
    assert(lines_view(lines@) =~= Seq::<Seq<(Seq<char>, Look)>>::empty());
    let (job_id, state) = match &app.log {
        Some((job_id, state)) => (*job_id, state),
        None => return lines,
    };
    let run = match run {
        Some(r) => r,
        None => return lines,
    };
    let list = match app.jobs.get(&run.id) {
        Some(JobsState::Ready(list)) => list,
        _ => return lines,
    };
    match find_failed(list) {
        Some(job) => {
            if job.id != job_id {
                return lines;
            }
        },
        None => return lines,
    }
    match state {
        LogState::Loading => {
            lines.push(one_line("log: loading…".to_owned(), dim_look()));
            assert(lines_view(lines@) =~= seq![single("log: loading…"@, dimmed())]);
        },
        LogState::Failed(message) => {
            lines.push(one_line(concat("log: ", message.as_str()), tint(Tone::Red)));
            assert(lines_view(lines@) =~= seq![single("log: "@ + message@, tinted(Tone::Red))]);
        },
        LogState::Lines(text) => {
            lines.push(one_line("log".to_owned(), dim_look()));
            let ghost f = |l: String| single(l@, plain());
            let ghost head = lines_view(lines@);
            assert(head =~= seq![single("log"@, dimmed())]);
            let mut i: usize = 0;
            while i < text.len()
                invariant
                    0 <= i <= text@.len(),
                    f == (|l: String| single(l@, plain())),
                    head == seq![single("log"@, dimmed())],
                    lines_view(lines@) == head + text@.take(i as int).map_values(f),
                decreases text@.len() - i,
            {
                let ghost before = lines@;
                let line = one_line(text[i].clone(), plain_look());
                lines.push(line);
                proof {
                    assert(text@.take(i + 1) =~= text@.take(i as int).push(text@[i as int]));
                    assert(text@.take(i + 1).map_values(f) =~= text@.take(i as int).map_values(f).push(
                        f(text@[i as int]),
                    ));
                    assert(lines_view(lines@) =~= lines_view(before).push(line_view(line@)));
                }
                i = i + 1;
            }
            assert(text@.take(text@.len() as int) =~= text@);
        },
    }
    lines
}

} // verus!
