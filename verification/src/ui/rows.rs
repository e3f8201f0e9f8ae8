//! The cards the columns list: what each row of pull requests, queue entries, main builds
//! and deployed environments says, and in which colours.

use vstd::prelude::*;

use crate::app::JobsState;
use crate::model::builds::{Build, BuildStatus};
use crate::model::deployed::Deployment;
use crate::model::jobs::Job;
use crate::model::prs::{
    failures_first, merge_label, review_label, Check, CheckConclusion, MergeState, PullRequest,
    ReviewDecision,
};
use crate::model::queue::{queue_label, QueueEntry};
use crate::strs::{concat, decimal, decimal_string};
use crate::text::{age, duration, duration_text, truncate, truncated, whole_secs};
use crate::time::{since_spec, Stamp};
use crate::ui::card::{
    card, card_of, dim_look, dimmed, less, line_view, lines_view, meta, meta_of, plain,
    plain_look, segment, tint, tinted, Look, Segment, INDENT,
};
use crate::ui::style::{
    build_glyph, build_glyph_of, build_label, build_label_of, check_text, check_word,
    conclusion_glyph, conclusion_glyph_of, glyph, glyph_of, sha8, short_repo, short_repo_of,
    status_text, status_word, Tone,
};
use crate::wrap::{words_of, wrap, wrapped};

verus! {

/// How long ago `at` was at `now`, in its largest whole unit.
pub open spec fn ago(at: Stamp, now: Stamp) -> Seq<char> {
    duration_text(
        whole_secs(
            match since_spec(now, at) {
                Some(d) => d,
                None => 0,
            },
        ),
    )
}

/// `#` and the number, a space and the title.
pub open spec fn numbered(number: u64, title: Seq<char>) -> Seq<char> {
    "#"@ + decimal(number as nat) + " "@ + title
}

/// The first eight characters of a sha.
pub open spec fn short_sha(sha: Seq<char>) -> Seq<char> {
    sha.take(
        if sha.len() < 8 {
            sha.len() as int
        } else {
            8
        },
    )
}

/// A line of one segment.
pub open spec fn single(text: Seq<char>, look: Look) -> Seq<(Seq<char>, Look)> {
    seq![(text, look)]
}

/// Whether a check says anything worth a glance: it neither passed nor was skipped.
pub open spec fn unhappy(c: Check) -> bool {
    c.conclusion != CheckConclusion::Success && c.conclusion != CheckConclusion::Skipped
}

pub open spec fn unhappy_fn() -> spec_fn(Check) -> bool {
    |c: Check| unhappy(c)
}

/// The glyph and name of each check in turn while it fits in `room`, one space apart, each
/// in its conclusion's colour; `first` when none is written yet.
pub open spec fn check_spans(checks: Seq<Check>, room: nat, first: bool) -> Seq<(Seq<char>, Look)>
    decreases checks.len(),
{
    if checks.len() == 0 {
        Seq::empty()
    } else {
        let (g, tone) = conclusion_glyph_of(checks[0].conclusion);
        let text = seq![g, ' '] + truncated(checks[0].name@, less(room as int, 2));
        if text.len() + 1 > room {
            Seq::empty()
        } else if first {
            seq![(text, tinted(tone))] + check_spans(
                checks.drop_first(),
                (room - text.len()) as nat,
                false,
            )
        } else {
            seq![(" "@, dimmed()), (text, tinted(tone))] + check_spans(
                checks.drop_first(),
                (room - 1 - text.len()) as nat,
                false,
            )
        }
    }
}

/// The second line of a pull request card: the checks that did not pass, failures first;
/// when all passed, the merge state, else the rollup.
pub open spec fn pr_checks_of(pr: PullRequest, width: nat) -> Seq<(Seq<char>, Look)> {
    let bad = failures_first(pr.checks_detail@).filter(unhappy_fn());
    if bad.len() == 0 {
        meta_of(
            seq![
                if pr.merge_state == MergeState::Unknown {
                    "checks: "@ + check_text(pr.checks)
                } else {
                    "merge: "@ + merge_label(pr.merge_state)
                },
            ],
            width,
        )
    } else {
        check_spans(bad, less(width as int, INDENT as int), true)
    }
}

/// What the right of a pull request's title says: its queue position, and how long ago it
/// changed.
pub open spec fn pr_right(pr: PullRequest, now: Stamp) -> Seq<char> {
    let age_text = match pr.updated_at {
        Some(at) => ago(at, now),
        None => Seq::empty(),
    };
    match pr.queue_position {
        Some(p) => "⇥"@ + decimal(p as nat) + " "@ + age_text,
        None => age_text,
    }
}

/// The small print of a pull request: repository, branch, draft, review and size.
pub open spec fn pr_parts(pr: PullRequest) -> Seq<Seq<char>> {
    seq![
        short_repo_of(pr.repo@),
        pr.head_ref@,
        if pr.is_draft {
            "draft"@
        } else {
            Seq::empty()
        },
        if pr.review == ReviewDecision::NoDecision {
            Seq::empty()
        } else {
            review_label(pr.review)
        },
        if pr.additions > 0 || pr.deletions > 0 {
            "+"@ + decimal(pr.additions as nat) + " −"@ + decimal(pr.deletions as nat)
        } else {
            Seq::empty()
        },
    ]
}

/// A pull request's card: number and title, its queue position and age on the right, then
/// repository, branch, draft, review and size, then its checks.
pub open spec fn pr_row_of(pr: PullRequest, now: Stamp, selected: bool, width: nat) -> Seq<
    Seq<(Seq<char>, Look)>,
> {
    card_of(
        selected,
        glyph_of(pr.checks),
        numbered(pr.number, pr.title@),
        pr_right(pr, now),
        seq![meta_of(pr_parts(pr), width), pr_checks_of(pr, width)],
        width,
    )
}

/// The first failed job.
pub open spec fn first_failed(jobs: Seq<Job>) -> Option<Job>
    decreases jobs.len(),
{
    if jobs.len() == 0 {
        None
    } else if jobs[0].status == BuildStatus::Failure {
        Some(jobs[0])
    } else {
        first_failed(jobs.drop_first())
    }
}

/// The first job still queued or running.
pub open spec fn first_unsettled(jobs: Seq<Job>) -> Option<Job>
    decreases jobs.len(),
{
    if jobs.len() == 0 {
        None
    } else if !jobs[0].status.settled() {
        Some(jobs[0])
    } else {
        first_unsettled(jobs.drop_first())
    }
}

/// A job in its status colour: glyph, name and the step that failed, cut to the room.
pub open spec fn job_span_of(job: Job, width: nat) -> Seq<(Seq<char>, Look)> {
    let (g, tone) = build_glyph_of(job.status);
    let step = match job.failed_step {
        Some(s) => " · "@ + s@,
        None => Seq::empty(),
    };
    single(truncated(seq![g, ' '] + job.name@ + step, less(width as int, INDENT as int)), tinted(tone))
}

/// The jobs known of a run that counts: of a cancelled run none.
pub open spec fn counted_jobs(run: Build, jobs: Option<JobsState>) -> Option<JobsState> {
    if run.status == BuildStatus::Cancelled {
        None
    } else {
        jobs
    }
}

/// The failed job of a run, when its jobs are known and one failed.
pub open spec fn failed_job_of(run: Build, jobs: Option<JobsState>, width: nat) -> Option<
    Seq<(Seq<char>, Look)>,
> {
    match counted_jobs(run, jobs) {
        Some(JobsState::Ready(list)) => match first_failed(list@) {
            Some(job) => Some(job_span_of(job, width)),
            None => None,
        },
        _ => None,
    }
}

/// The small print of a queue entry: author, position and time in the queue.
pub open spec fn queue_parts(entry: QueueEntry, now: Stamp) -> Seq<Seq<char>> {
    seq![
        entry.author@,
        "position "@ + decimal(entry.position as nat),
        match entry.enqueued_at {
            Some(at) => "enqueued "@ + ago(at, now) + " ago"@,
            None => Seq::empty(),
        },
    ]
}

/// The second line of a queue entry: its merge-group run, its flags and its sha.
pub open spec fn queue_below(entry: QueueEntry) -> Seq<Seq<char>> {
    let flags = crate::ui::card::joined(
        seq![
            if entry.solo {
                "solo"@
            } else {
                Seq::empty()
            },
            if entry.jump {
                "jump"@
            } else {
                Seq::empty()
            },
        ],
        " "@,
    );
    let run = match entry.run {
        Some(r) => "run "@ + decimal(r.run_number as nat) + " · "@ + status_text(r.status),
        None => "no merge-group run yet"@,
    };
    seq![run, flags, short_sha(entry.head_sha@)]
}

/// The failed job of a queue entry's run, as a line of its own when there is one.
pub open spec fn queue_failed(entry: QueueEntry, jobs: Option<JobsState>, width: nat) -> Seq<
    Seq<(Seq<char>, Look)>,
> {
    match entry.run {
        Some(r) => match failed_job_of(r, jobs, width) {
            Some(line) => seq![line],
            None => Seq::empty(),
        },
        None => Seq::empty(),
    }
}

/// A queue entry's card: number and title, the estimate or the state on the right, then the
/// author, position and time in the queue, then the merge-group run, the flags and the sha,
/// then the run's failed job.
pub open spec fn queue_row_of(
    entry: QueueEntry,
    jobs: Option<JobsState>,
    now: Stamp,
    selected: bool,
    width: nat,
) -> Seq<Seq<(Seq<char>, Look)>> {
    let right = match entry.eta {
        Some(eta) => duration_text(whole_secs(eta)),
        None => queue_label(entry.state),
    };
    let failed = queue_failed(entry, jobs, width);
    card_of(
        selected,
        match entry.run {
            Some(r) => build_glyph_of(r.status),
            None => glyph_of(entry.checks),
        },
        numbered(entry.number, entry.title@),
        right,
        seq![meta_of(queue_parts(entry, now), width), meta_of(queue_below(entry), width)] + failed,
        width,
    )
}

/// The jobs line of a main build: the failed job, else a running one, else how many passed;
/// what went wrong fetching them, that they are on their way, or else the sha.
pub open spec fn build_jobs_of(build: Build, jobs: Option<JobsState>, width: nat) -> Seq<
    (Seq<char>, Look),
> {
    match counted_jobs(build, jobs) {
        Some(JobsState::Ready(list)) => match first_failed(list@) {
            Some(job) => job_span_of(job, width),
            None => match first_unsettled(list@) {
                Some(job) => job_span_of(job, width),
                None => meta_of(seq![decimal(list@.len()) + " jobs ok"@], width),
            },
        },
        Some(JobsState::Failed(m)) => meta_of(seq!["jobs: "@ + m@], width),
        Some(JobsState::Loading) => meta_of(seq!["jobs: loading…"@], width),
        None => meta_of(seq![short_sha(build.sha@)], width),
    }
}

/// How long a main build took, or has been running.
pub open spec fn build_took(build: Build, now: Stamp) -> Seq<char> {
    match build.took() {
        Some(d) => duration_text(whole_secs(d)),
        None => match build.running_for(now) {
            Some(d) => duration_text(whole_secs(d)),
            None => Seq::empty(),
        },
    }
}

/// The small print of a main build: who, the run number, the time taken and the status.
pub open spec fn build_parts(build: Build, now: Stamp) -> Seq<Seq<char>> {
    seq![
        build_label_of(build).1,
        "run "@ + decimal(build.run_number as nat),
        build_took(build, now),
        status_text(build.status),
    ]
}

/// The title of a main build: its pull request's, else the run's.
pub open spec fn build_title(build: Build) -> Seq<char> {
    match build.pull {
        Some(p) => p.title@,
        None => build.title@,
    }
}

/// A main build's card: its pull request or run, its age on the right, then the title, the
/// author, run number, time taken and status, then its jobs.
pub open spec fn build_row_of(
    build: Build,
    jobs: Option<JobsState>,
    now: Stamp,
    selected: bool,
    width: nat,
) -> Seq<Seq<(Seq<char>, Look)>> {
    card_of(
        selected,
        build_glyph_of(build.status),
        build_label_of(build).0,
        match build.started_at {
            Some(at) => ago(at, now),
            None => Seq::empty(),
        },
        seq![
            single(truncated(build_title(build), less(width as int, INDENT as int)), plain()),
            meta_of(build_parts(build, now), width),
            build_jobs_of(build, jobs, width),
        ],
        width,
    )
}

/// How many lines a deployed pull request's title may take.
pub const DEPLOYED_TITLE_LINES: usize = 2;

/// The glyph of an environment: failed to read, at the newest main build, behind it, or
/// unknown.
pub open spec fn deployed_glyph(row: Deployment, behind: Option<usize>) -> (char, Tone) {
    match (row.error, behind) {
        (Some(_), _) => ('✗', Tone::Red),
        (None, Some(n)) => if n == 0 {
            ('✓', Tone::Green)
        } else {
            ('◐', Tone::Yellow)
        },
        (None, None) => ('○', Tone::DarkGray),
    }
}

/// A deployed environment's card: its name, how far behind main it is, then the pull request
/// it runs (title wrapped, then author), the error reading it, the sha and when it was read;
/// `unknown` when nothing is known.
pub open spec fn deployed_row_of(
    row: Deployment,
    behind: Option<usize>,
    now: Stamp,
    selected: bool,
    width: nat,
) -> Seq<Seq<(Seq<char>, Look)>> {
    let right = match behind {
        Some(n) => if n == 0 {
            "at main"@
        } else {
            "↓"@ + decimal(n as nat)
        },
        None => Seq::empty(),
    };
    let below = deployed_pull_lines(row, width) + deployed_error_lines(row, width)
        + deployed_sha_lines(row, now, width);
    card_of(
        selected,
        deployed_glyph(row, behind),
        row.env@,
        right,
        if below.len() == 0 {
            seq![meta_of(seq!["unknown"@], width)]
        } else {
            below
        },
        width,
    )
}

/// The pull request an environment runs: its title wrapped into at most two dimmed lines,
/// then its author.
pub open spec fn deployed_pull_lines(row: Deployment, width: nat) -> Seq<Seq<(Seq<char>, Look)>> {
    match row.pull {
        Some(p) => wrapped(
            words_of(numbered(p.number, p.title@)),
            less(width as int, INDENT as int),
            DEPLOYED_TITLE_LINES as nat,
        ).map_values(|l: Seq<char>| single(l, dimmed())) + seq![meta_of(seq![p.author@], width)],
        None => Seq::empty(),
    }
}

/// The look of an error: dimmed red.
pub open spec fn error_look() -> Look {
    Look { tone: Some(Tone::Red), dim: true, bold: false }
}

/// Why an environment could not be read, cut to the room.
pub open spec fn deployed_error_lines(row: Deployment, width: nat) -> Seq<Seq<(Seq<char>, Look)>> {
    match row.error {
        Some(e) => seq![single(truncated(e@, less(width as int, INDENT as int)), error_look())],
        None => Seq::empty(),
    }
}

/// The sha an environment runs and how long ago it was read.
pub open spec fn deployed_sha_lines(row: Deployment, now: Stamp, width: nat) -> Seq<
    Seq<(Seq<char>, Look)>,
> {
    match row.sha {
        Some(s) => seq![
            meta_of(
                seq![
                    short_sha(s@),
                    match row.fetched_at {
                        Some(at) => "read "@ + ago(at, now) + " ago"@,
                        None => Seq::empty(),
                    },
                ],
                width,
            ),
        ],
        None => Seq::empty(),
    }
}

} // verus!

verus! {

fn single_line(text: String, look: Look) -> (r: Vec<Segment>)
    ensures
        line_view(r@) == single(text@, look),
{
    let mut line: Vec<Segment> = Vec::new();
    line.push(segment(text, look));
    assert(line_view(line@) =~= single(text@, look));
    line
}

pub open spec fn strings_view(v: Seq<String>) -> Seq<Seq<char>> {
    v.map_values(|p: String| p@)
}

proof fn lemma_first_failed(s: Seq<Job>, i: int)
    requires
        0 <= i <= s.len(),
        forall|j: int| 0 <= j < i ==> (#[trigger] s[j]).status != BuildStatus::Failure,
    ensures
        first_failed(s) == first_failed(s.subrange(i, s.len() as int)),
    decreases i,
{
    if i == 0 {
        assert(s.subrange(0, s.len() as int) =~= s);
    } else {
        let t = s.drop_first();
        assert forall|j: int| 0 <= j < i - 1 implies (#[trigger] t[j]).status
            != BuildStatus::Failure by {
            assert(t[j] == s[j + 1]);
        }
        lemma_first_failed(t, i - 1);
        assert(t.subrange(i - 1, t.len() as int) =~= s.subrange(i, s.len() as int));
    }
}

proof fn lemma_first_unsettled(s: Seq<Job>, i: int)
    requires
        0 <= i <= s.len(),
        forall|j: int| 0 <= j < i ==> (#[trigger] s[j]).status.settled(),
    ensures
        first_unsettled(s) == first_unsettled(s.subrange(i, s.len() as int)),
    decreases i,
{
    if i == 0 {
        assert(s.subrange(0, s.len() as int) =~= s);
    } else {
        let t = s.drop_first();
        assert forall|j: int| 0 <= j < i - 1 implies (#[trigger] t[j]).status.settled() by {
            assert(t[j] == s[j + 1]);
        }
        lemma_first_unsettled(t, i - 1);
        assert(t.subrange(i - 1, t.len() as int) =~= s.subrange(i, s.len() as int));
    }
}

pub(crate) fn find_failed(jobs: &Vec<Job>) -> (r: Option<&Job>)
    ensures
        match first_failed(jobs@) {
            Some(j) => r matches Some(x) && *x == j,
            None => r is None,
        },
{
    let mut i: usize = 0;
    while i < jobs.len()
        invariant
            0 <= i <= jobs@.len(),
            forall|j: int| 0 <= j < i ==> (#[trigger] jobs@[j]).status != BuildStatus::Failure,
        decreases jobs@.len() - i,
    {
        if jobs[i].status == BuildStatus::Failure {
            proof {
                lemma_first_failed(jobs@, i as int);
                assert(jobs@.subrange(i as int, jobs@.len() as int)[0] == jobs@[i as int]);
            }
            return Some(&jobs[i]);
        }
        i = i + 1;
    }
    proof {
        lemma_first_failed(jobs@, i as int);
    }
    None
}

fn find_unsettled(jobs: &Vec<Job>) -> (r: Option<&Job>)
    ensures
        match first_unsettled(jobs@) {
            Some(j) => r matches Some(x) && *x == j,
            None => r is None,
        },
{
    let mut i: usize = 0;
    while i < jobs.len()
        invariant
            0 <= i <= jobs@.len(),
            forall|j: int| 0 <= j < i ==> (#[trigger] jobs@[j]).status.settled(),
        decreases jobs@.len() - i,
    {
        if !jobs[i].status.is_settled() {
            proof {
                lemma_first_unsettled(jobs@, i as int);
                assert(jobs@.subrange(i as int, jobs@.len() as int)[0] == jobs@[i as int]);
            }
            return Some(&jobs[i]);
        }
        i = i + 1;
    }
    proof {
        lemma_first_unsettled(jobs@, i as int);
    }
    None
}

/// See `job_span_of`.
pub fn job_span(job: &Job, width: usize) -> (r: Vec<Segment>)
    ensures
        line_view(r@) == job_span_of(*job, width as nat),
{
    let (g, tone) = build_glyph(job.status);
    let mut head: Vec<char> = Vec::new();
    head.push(g);
    head.push(' ');
    let head_text = crate::strs::string_of(head.as_slice());
    let mut text = concat(head_text.as_str(), job.name.as_str());
    match &job.failed_step {
        Some(step) => {
            let with_dot = concat(text.as_str(), " · ");
            text = concat(with_dot.as_str(), step.as_str());
        },
        None => {},
    }
    proof {
        assert(head@ =~= seq![g, ' ']);
        assert(text@ =~= seq![g, ' '] + job.name@ + match job.failed_step {
            Some(s) => " · "@ + s@,
            None => Seq::<char>::empty(),
        });
    }
    single_line(truncate(text.as_str(), width.saturating_sub(INDENT)), tint(tone))
}

/// See `counted_jobs`.
fn counted<'a>(run: &Build, jobs: Option<&'a JobsState>) -> (r: Option<&'a JobsState>)
    ensures
        match r {
            Some(j) => counted_jobs(*run, Some(*j)) == Some(*j) && jobs == Some(j),
            None => counted_jobs(*run, match jobs {
                Some(j) => Some(*j),
                None => None,
            }) is None,
        },
{
    if run.status == BuildStatus::Cancelled {
        None
    } else {
        jobs
    }
}

pub open spec fn deref_jobs(jobs: Option<&JobsState>) -> Option<JobsState> {
    match jobs {
        Some(j) => Some(*j),
        None => None,
    }
}

/// See `failed_job_of`.
pub fn failed_job(run: &Build, jobs: Option<&JobsState>, width: usize) -> (r: Option<Vec<Segment>>)
    ensures
        match failed_job_of(*run, deref_jobs(jobs), width as nat) {
            Some(line) => r matches Some(v) && line_view(v@) == line,
            None => r is None,
        },
{
    match counted(run, jobs) {
        Some(JobsState::Ready(list)) => match find_failed(list) {
            Some(job) => Some(job_span(job, width)),
            None => None,
        },
        _ => None,
    }
}

/// See `build_jobs_of`.
pub fn build_jobs(build: &Build, jobs: Option<&JobsState>, width: usize) -> (r: Vec<Segment>)
    ensures
        line_view(r@) == build_jobs_of(*build, deref_jobs(jobs), width as nat),
{
    match counted(build, jobs) {
        Some(JobsState::Ready(list)) => match find_failed(list) {
            Some(job) => job_span(job, width),
            None => match find_unsettled(list) {
                Some(job) => job_span(job, width),
                None => {
                    let count = decimal_string(list.len() as u64);
                    let parts = vec![concat(count.as_str(), " jobs ok")];
                    assert(strings_view(parts@) =~= seq![decimal(list@.len()) + " jobs ok"@]);
                    meta(parts.as_slice(), width)
                },
            },
        },
        Some(JobsState::Failed(message)) => {
            let parts = vec![concat("jobs: ", message.as_str())];
            assert(strings_view(parts@) =~= seq!["jobs: "@ + message@]);
            meta(parts.as_slice(), width)
        },
        Some(JobsState::Loading) => {
            let parts = vec!["jobs: loading…".to_owned()];
            assert(strings_view(parts@) =~= seq!["jobs: loading…"@]);
            meta(parts.as_slice(), width)
        },
        None => {
            let parts = vec![sha8(build.sha.as_str())];
            assert(strings_view(parts@) =~= seq![short_sha(build.sha@)]);
            meta(parts.as_slice(), width)
        },
    }
}


/// See `pr_checks_of`.
pub fn pr_checks(pr: &PullRequest, width: usize) -> (r: Vec<Segment>)
    ensures
        line_view(r@) == pr_checks_of(*pr, width as nat),
{
    let all = pr.checks_failures_first();
    let ghost ff = failures_first(pr.checks_detail@);
    let ghost pred = unhappy_fn();
    let mut bad: Vec<&Check> = Vec::new();
    let mut i: usize = 0;
    while i < all.len()
        invariant
            0 <= i <= all@.len(),
            all@.len() == ff.len(),
            pred == unhappy_fn(),
            forall|k: int| 0 <= k < all@.len() ==> *all@[k] == ff[k],
            bad@.len() == ff.take(i as int).filter(pred).len(),
            forall|k: int| 0 <= k < bad@.len() ==> *bad@[k] == ff.take(i as int).filter(pred)[k],
        decreases all@.len() - i,
    {
        proof {
            assert(ff.take(i + 1) =~= ff.take(i as int).push(ff[i as int]));
            ff.take(i as int).lemma_filter_push(ff[i as int], pred);
        }
        let c = all[i];
        if c.conclusion != CheckConclusion::Success && c.conclusion != CheckConclusion::Skipped {
            bad.push(c);
        }
        i = i + 1;
    }
    assert(ff.take(all@.len() as int) =~= ff);
    let ghost fb = ff.filter(pred);
    if bad.len() == 0 {
        let text = if pr.merge_state == MergeState::Unknown {
            concat("checks: ", check_word(pr.checks))
        } else {
            concat("merge: ", pr.merge_state.label())
        };
        let parts = vec![text];
        assert(strings_view(parts@) =~= seq![
            if pr.merge_state == MergeState::Unknown {
                "checks: "@ + check_text(pr.checks)
            } else {
                "merge: "@ + merge_label(pr.merge_state)
            },
        ]);
        return meta(parts.as_slice(), width);
    }
    let room0 = width.saturating_sub(INDENT);
    let mut room = room0;
    let mut spans: Vec<Segment> = Vec::new();
    let mut k: usize = 0;
    assert(fb.skip(0) =~= fb);
    assert(line_view(spans@) =~= Seq::<(Seq<char>, Look)>::empty());
    assert(fb.skip(fb.len() as int) =~= Seq::<Check>::empty());
    while k < bad.len()
        invariant
            0 <= k <= bad@.len() == fb.len(),
            fb.skip(fb.len() as int) == Seq::<Check>::empty(),
            forall|j: int| 0 <= j < bad@.len() ==> *bad@[j] == fb[j],
            line_view(spans@) + check_spans(fb.skip(k as int), room as nat, spans@.len() == 0)
                == check_spans(fb, room0 as nat, true),
        ensures
            line_view(spans@) == check_spans(fb, room0 as nat, true),
        decreases bad@.len() - k,
    {
        let c = bad[k];
        let ghost here = fb.skip(k as int);
        assert(here[0] == *c);
        assert(here.drop_first() =~= fb.skip(k + 1));
        let (g, tone) = conclusion_glyph(c.conclusion);
        let cut = truncate(c.name.as_str(), room.saturating_sub(2));
        let cut_chars = crate::strs::chars_of(cut.as_str());
        let mut text_chars: Vec<char> = Vec::new();
        text_chars.push(g);
        text_chars.push(' ');
        let mut j: usize = 0;
        while j < cut_chars.len()
            invariant
                0 <= j <= cut_chars@.len(),
                text_chars@ == seq![g, ' '] + cut_chars@.take(j as int),
            decreases cut_chars@.len() - j,
        {
            text_chars.push(cut_chars[j]);
            assert(text_chars@ =~= seq![g, ' '] + cut_chars@.take(j + 1));
            j = j + 1;
        }
        assert(cut_chars@.take(j as int) =~= cut_chars@);
        let used = text_chars.len();
        if used >= room {
            proof {
                assert(text_chars@ =~= seq![g, ' '] + truncated(here[0].name@, less(room as int, 2)));
                assert(check_spans(here, room as nat, spans@.len() == 0) =~= Seq::<(Seq<char>, Look)>::empty());
                assert(line_view(spans@) + Seq::<(Seq<char>, Look)>::empty() =~= line_view(spans@));
            }
            break;
        }
        proof {
            assert(text_chars@ =~= seq![g, ' '] + truncated(here[0].name@, less(room as int, 2)));
        }
        let ghost before = spans@;
        let text = crate::strs::string_of(text_chars.as_slice());
        if spans.len() > 0 {
            spans.push(segment(" ".to_owned(), dim_look()));
            spans.push(segment(text, tint(tone)));
            proof {
                assert(line_view(spans@) =~= line_view(before) + seq![(" "@, dimmed()), (text@, tinted(tone))]);
            }
            room = room - 1 - used;
        } else {
            spans.push(segment(text, tint(tone)));
            proof {
                assert(line_view(spans@) =~= line_view(before) + seq![(text@, tinted(tone))]);
            }
            room = room - used;
        }
        k = k + 1;
    }
    spans
}


/// `#`, the number, a space and the title.
pub fn numbered_text(number: u64, title: &str) -> (r: String)
    ensures
        r@ == numbered(number, title@),
{
    let digits = decimal_string(number);
    let head = concat("#", digits.as_str());
    let head = concat(head.as_str(), " ");
    concat(head.as_str(), title)
}

fn age_or_empty(at: Option<Stamp>, now: Stamp) -> (r: String)
    ensures
        r@ == match at {
            Some(t) => ago(t, now),
            None => Seq::<char>::empty(),
        },
{
    match at {
        Some(t) => age(t, now),
        None => String::new(),
    }
}

/// See `pr_row_of`.
pub fn pr_row(pr: &PullRequest, now: Stamp, selected: bool, width: usize) -> (r: Vec<Vec<Segment>>)
    ensures
        lines_view(r@) == pr_row_of(*pr, now, selected, width as nat),
{
    let age_text = age_or_empty(pr.updated_at, now);
    let right = match pr.queue_position {
        Some(p) => {
            let digits = decimal_string(p);
            let head = concat("⇥", digits.as_str());
            let head = concat(head.as_str(), " ");
            concat(head.as_str(), age_text.as_str())
        },
        None => age_text,
    };
    let size = if pr.additions > 0 || pr.deletions > 0 {
        let adds = decimal_string(pr.additions);
        let dels = decimal_string(pr.deletions);
        let head = concat("+", adds.as_str());
        let head = concat(head.as_str(), " −");
        concat(head.as_str(), dels.as_str())
    } else {
        String::new()
    };
    let draft = if pr.is_draft {
        "draft".to_owned()
    } else {
        String::new()
    };
    let review = if pr.review == ReviewDecision::NoDecision {
        String::new()
    } else {
        pr.review.label().to_owned()
    };
    let parts = vec![short_repo(pr.repo.as_str()), pr.head_ref.clone(), draft, review, size];
    assert(strings_view(parts@) =~= pr_parts(*pr));
    assert(right@ =~= pr_right(*pr, now));
    let mut rest: Vec<Vec<Segment>> = Vec::new();
    rest.push(meta(parts.as_slice(), width));
    rest.push(pr_checks(pr, width));
    assert(lines_view(rest@) =~= seq![meta_of(pr_parts(*pr), width as nat), pr_checks_of(*pr, width as nat)]);
    card(selected, glyph(pr.checks), numbered_text(pr.number, pr.title.as_str()), right, rest, width)
}

/// See `queue_row_of`.
pub fn queue_row(
    entry: &QueueEntry,
    jobs: Option<&JobsState>,
    now: Stamp,
    selected: bool,
    width: usize,
) -> (r: Vec<Vec<Segment>>)
    ensures
        lines_view(r@) == queue_row_of(*entry, deref_jobs(jobs), now, selected, width as nat),
{
    let right = match entry.eta {
        Some(eta) => duration(eta),
        None => entry.state.label().to_owned(),
    };
    let enqueued = match entry.enqueued_at {
        Some(at) => {
            let a = age(at, now);
            let head = concat("enqueued ", a.as_str());
            concat(head.as_str(), " ago")
        },
        None => String::new(),
    };
    let position = concat("position ", decimal_string(entry.position).as_str());
    let parts = vec![entry.author.clone(), position, enqueued];
    assert(strings_view(parts@) =~= queue_parts(*entry, now));
    let flag_parts = vec![
        if entry.solo {
            "solo".to_owned()
        } else {
            String::new()
        },
        if entry.jump {
            "jump".to_owned()
        } else {
            String::new()
        },
    ];
    let flags = crate::ui::card::join_parts(flag_parts.as_slice(), " ");
    let run = match &entry.run {
        Some(r) => {
            let head = concat("run ", decimal_string(r.run_number).as_str());
            let head = concat(head.as_str(), " · ");
            concat(head.as_str(), status_word(r.status))
        },
        None => "no merge-group run yet".to_owned(),
    };
    proof {
        assert(strings_view(flag_parts@) =~= seq![
            if entry.solo {
                "solo"@
            } else {
                Seq::<char>::empty()
            },
            if entry.jump {
                "jump"@
            } else {
                Seq::<char>::empty()
            },
        ]);
    }
    let below = vec![run, flags, sha8(entry.head_sha.as_str())];
    assert(strings_view(below@) =~= queue_below(*entry));
    let mut rest: Vec<Vec<Segment>> = Vec::new();
    rest.push(meta(parts.as_slice(), width));
    rest.push(meta(below.as_slice(), width));
    match &entry.run {
        Some(r) => match failed_job(r, jobs, width) {
            Some(line) => {
                rest.push(line);
            },
            None => {},
        },
        None => {},
    }
    let glyph_of_entry = match &entry.run {
        Some(r) => build_glyph(r.status),
        None => glyph(entry.checks),
    };
    proof {
        let failed = queue_failed(*entry, deref_jobs(jobs), width as nat);
        assert(lines_view(rest@) =~= seq![
            meta_of(queue_parts(*entry, now), width as nat),
            meta_of(queue_below(*entry), width as nat),
        ] + failed);
    }
    card(
        selected,
        glyph_of_entry,
        numbered_text(entry.number, entry.title.as_str()),
        right,
        rest,
        width,
    )
}

/// See `build_row_of`.
pub fn build_row(
    build: &Build,
    jobs: Option<&JobsState>,
    now: Stamp,
    selected: bool,
    width: usize,
) -> (r: Vec<Vec<Segment>>)
    ensures
        lines_view(r@) == build_row_of(*build, deref_jobs(jobs), now, selected, width as nat),
{
    let (label, who) = build_label(build);
    let title = match &build.pull {
        Some(p) => p.title.clone(),
        None => build.title.clone(),
    };
    let took = match build.duration() {
        Some(d) => duration(d),
        None => match build.elapsed(now) {
            Some(d) => duration(d),
            None => String::new(),
        },
    };
    let run = concat("run ", decimal_string(build.run_number).as_str());
    let parts = vec![who, run, took, status_word(build.status).to_owned()];
    assert(strings_view(parts@) =~= build_parts(*build, now));
    let mut rest: Vec<Vec<Segment>> = Vec::new();
    rest.push(single_line(truncate(title.as_str(), width.saturating_sub(INDENT)), plain_look()));
    rest.push(meta(parts.as_slice(), width));
    rest.push(build_jobs(build, jobs, width));
    assert(lines_view(rest@) =~= seq![
        single(truncated(build_title(*build), less(width as int, INDENT as int)), plain()),
        meta_of(build_parts(*build, now), width as nat),
        build_jobs_of(*build, deref_jobs(jobs), width as nat),
    ]);
    card(selected, build_glyph(build.status), label, age_or_empty(build.started_at, now), rest, width)
}


/// See `deployed_glyph`.
fn deployed_glyph_of(row: &Deployment, behind: Option<usize>) -> (r: (char, Tone))
    ensures
        r == deployed_glyph(*row, behind),
{
    match (&row.error, behind) {
        (Some(_), _) => ('✗', Tone::Red),
        (None, Some(n)) => if n == 0 {
            ('✓', Tone::Green)
        } else {
            ('◐', Tone::Yellow)
        },
        (None, None) => ('○', Tone::DarkGray),
    }
}

/// See `deployed_row_of`.
pub fn deployed_row(
    row: &Deployment,
    behind: Option<usize>,
    now: Stamp,
    selected: bool,
    width: usize,
) -> (r: Vec<Vec<Segment>>)
    ensures
        lines_view(r@) == deployed_row_of(*row, behind, now, selected, width as nat),
{
    let room = width.saturating_sub(INDENT);
    let right = match behind {
        Some(n) => if n == 0 {
            "at main".to_owned()
        } else {
            concat("↓", decimal_string(n as u64).as_str())
        },
        None => String::new(),
    };
    let mut below: Vec<Vec<Segment>> = Vec::new();
    let ghost pull_lines = deployed_pull_lines(*row, width as nat);
    match &row.pull {
        Some(pull) => {
            let title = numbered_text(pull.number, pull.title.as_str());
            let lines = wrap(title.as_str(), room, DEPLOYED_TITLE_LINES);
            let ghost wv = lines@.map_values(|l: String| l@);
            let mut i: usize = 0;
            while i < lines.len()
                invariant
                    0 <= i <= lines@.len(),
                    wv == lines@.map_values(|l: String| l@),
                    lines_view(below@) == wv.take(i as int).map_values(
                        |l: Seq<char>| single(l, dimmed()),
                    ),
                decreases lines@.len() - i,
            {
                let ghost before = below@;
                below.push(single_line(lines[i].clone(), dim_look()));
                proof {
                    assert(wv.take(i + 1) =~= wv.take(i as int).push(wv[i as int]));
                    assert(lines_view(below@) =~= lines_view(before).push(single(wv[i as int], dimmed())));
                    assert(wv.take(i + 1).map_values(|l: Seq<char>| single(l, dimmed())) =~= wv.take(
                        i as int,
                    ).map_values(|l: Seq<char>| single(l, dimmed())).push(single(wv[i as int], dimmed())));
                }
                i = i + 1;
            }
            assert(wv.take(lines@.len() as int) =~= wv);
            let authors = vec![pull.author.clone()];
            assert(strings_view(authors@) =~= seq![pull.author@]);
            let ghost before = below@;
            below.push(meta(authors.as_slice(), width));
            assert(lines_view(below@) =~= lines_view(before).push(meta_of(seq![pull.author@], width as nat)));
            assert(lines_view(below@) =~= pull_lines);
        },
        None => {
            assert(lines_view(below@) =~= pull_lines);
        },
    }
    let ghost error_lines = deployed_error_lines(*row, width as nat);
    let ghost after_pull = lines_view(below@);
    match &row.error {
        Some(e) => {
            below.push(
                single_line(
                    truncate(e.as_str(), room),
                    Look { tone: Some(Tone::Red), dim: true, bold: false },
                ),
            );
        },
        None => {},
    }
    assert(lines_view(below@) =~= after_pull + error_lines);
    let ghost sha_lines = deployed_sha_lines(*row, now, width as nat);
    let ghost after_error = lines_view(below@);
    match &row.sha {
        Some(sha) => {
            let read = match row.fetched_at {
                Some(at) => {
                    let head = concat("read ", age(at, now).as_str());
                    concat(head.as_str(), " ago")
                },
                None => String::new(),
            };
            let parts = vec![sha8(sha.as_str()), read];
            assert(strings_view(parts@) =~= seq![
                short_sha(sha@),
                match row.fetched_at {
                    Some(at) => "read "@ + ago(at, now) + " ago"@,
                    None => Seq::<char>::empty(),
                },
            ]);
            below.push(meta(parts.as_slice(), width));
        },
        None => {},
    }
    assert(lines_view(below@) =~= after_error + sha_lines);
    if below.len() == 0 {
        let unknown = vec!["unknown".to_owned()];
        assert(strings_view(unknown@) =~= seq!["unknown"@]);
        below.push(meta(unknown.as_slice(), width));
        assert(lines_view(below@) =~= seq![meta_of(seq!["unknown"@], width as nat)]);
    }
    card(selected, deployed_glyph_of(row, behind), row.env.clone(), right, below, width)
}

} // verus!
