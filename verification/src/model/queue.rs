//! The merge queue of a repository and the merge-group runs of its entries.

use vstd::prelude::*;

use crate::app::{sort_by_rank, stably_sorted};
use crate::json::{at2, bool_at, filter_map_nodes, filter_mapped, get2, get_bool, get_items,
    get_str, get_u64, items_at, str_at, text, text2, text_at, text_at2, u64_at, Json};
use crate::model::builds::{get_stamp, parse_run, run_accepts, run_from, stamp_at, Build,
    BuildStatus};
use crate::model::prs::{check_state, check_state_of, u64_or, CheckState};
use crate::strs::{opt_is, opt_view, chars_of, find_char, first_index, last_index, parse_u64, parse_u64_spec,
    rfind_char, slice_vec, str_eq};
use crate::time::{from_secs, Nanos, Stamp, SECOND};

verus! {

#[derive(Debug, Clone, Copy, PartialEq, Eq, Structural, Default)]
pub enum QueueState {
    AwaitingChecks,
    Locked,
    Mergeable,
    Queued,
    Unmergeable,
    #[default]
    Unknown,
}

pub open spec fn queue_label(s: QueueState) -> Seq<char> {
    match s {
        QueueState::AwaitingChecks => "checks"@,
        QueueState::Locked => "locked"@,
        QueueState::Mergeable => "mergeable"@,
        QueueState::Queued => "queued"@,
        QueueState::Unmergeable => "unmergeable"@,
        QueueState::Unknown => "?"@,
    }
}

impl QueueState {
    /// How the state reads on screen.
    pub fn label(self) -> (r: &'static str)
        ensures
            r@ == queue_label(self),
    {
        match self {
            QueueState::AwaitingChecks => "checks",
            QueueState::Locked => "locked",
            QueueState::Mergeable => "mergeable",
            QueueState::Queued => "queued",
            QueueState::Unmergeable => "unmergeable",
            QueueState::Unknown => "?",
        }
    }
}

#[derive(Debug, PartialEq, Eq, Default)]
pub struct QueueEntry {
    pub position: u64,
    pub state: QueueState,
    pub number: u64,
    pub title: String,
    pub author: String,
    pub url: String,
    pub head_sha: String,
    pub checks: CheckState,
    pub eta: Option<Nanos>,
    pub enqueued_at: Option<Stamp>,
    pub solo: bool,
    pub jump: bool,
    pub run: Option<Build>,
}

impl Clone for QueueEntry {
    fn clone(&self) -> (r: Self)
        ensures
            r == *self,
    {
        QueueEntry {
            position: self.position,
            state: self.state,
            number: self.number,
            title: self.title.clone(),
            author: self.author.clone(),
            url: self.url.clone(),
            head_sha: self.head_sha.clone(),
            checks: self.checks,
            eta: self.eta,
            enqueued_at: self.enqueued_at,
            solo: self.solo,
            jump: self.jump,
            run: match &self.run {
                Some(b) => Some(b.clone()),
                None => None,
            },
        }
    }
}

#[derive(Debug, Clone, PartialEq, Eq, Default)]
pub struct Queue {
    pub repo: String,
    pub url: String,
    pub entries: Vec<QueueEntry>,
}

pub open spec fn queue_state_of(value: Option<Seq<char>>) -> QueueState {
    if value == Some("AWAITING_CHECKS"@) {
        QueueState::AwaitingChecks
    } else if value == Some("LOCKED"@) {
        QueueState::Locked
    } else if value == Some("MERGEABLE"@) {
        QueueState::Mergeable
    } else if value == Some("QUEUED"@) {
        QueueState::Queued
    } else if value == Some("UNMERGEABLE"@) {
        QueueState::Unmergeable
    } else {
        QueueState::Unknown
    }
}

fn state(value: Option<&str>) -> (r: QueueState)
    ensures
        r == queue_state_of(opt_view(value)),
{
    if opt_is(value, "AWAITING_CHECKS") {
        QueueState::AwaitingChecks
    } else if opt_is(value, "LOCKED") {
        QueueState::Locked
    } else if opt_is(value, "MERGEABLE") {
        QueueState::Mergeable
    } else if opt_is(value, "QUEUED") {
        QueueState::Queued
    } else if opt_is(value, "UNMERGEABLE") {
        QueueState::Unmergeable
    } else {
        QueueState::Unknown
    }
}

} // verus!

verus! {

/// A merge-queue entry is read when its pull request has a number.
pub open spec fn entry_accepts(node: Json) -> bool {
    at2(node, "pullRequest"@, "number"@) matches Some(v) && v.unsigned() is Some
}

/// The check rollup of an entry's head commit, unless missing or null.
pub open spec fn entry_rollup(node: Json) -> Option<Json> {
    match at2(node, "headCommit"@, "statusCheckRollup"@) {
        Some(r) => if r.null() {
            None
        } else {
            Some(r)
        },
        None => None,
    }
}

pub open spec fn secs_to_nanos(secs: Option<u64>) -> Option<Nanos> {
    match secs {
        Some(s) => Some((s * SECOND) as Nanos),
        None => None,
    }
}

/// What an entry read from the API holds.
pub open spec fn entry_from(e: QueueEntry, node: Json) -> bool {
    let pr = node.member("pullRequest"@)->0;
    &&& e.position == u64_or(u64_at(node, "position"@), 0)
    &&& e.state == queue_state_of(str_at(node, "state"@))
    &&& u64_at(pr, "number"@) == Some(e.number)
    &&& e.title@ == text_at(pr, "title"@)
    &&& e.author@ == text_at2(pr, "author"@, "login"@)
    &&& e.url@ == text_at(pr, "url"@)
    &&& e.head_sha@ == text_at2(node, "headCommit"@, "oid"@)
    &&& e.checks == match entry_rollup(node) {
        Some(r) => check_state_of(str_at(r, "state"@)),
        None => CheckState::NoChecks,
    }
    &&& e.eta == secs_to_nanos(u64_at(node, "estimatedTimeToMerge"@))
    &&& e.enqueued_at == stamp_at(node, "enqueuedAt"@)
    &&& e.solo == (bool_at(node, "solo"@) == Some(true))
    &&& e.jump == (bool_at(node, "jump"@) == Some(true))
    &&& e.run is None
}

pub open spec fn entry_accepts_fn() -> spec_fn(Json) -> bool {
    |n: Json| entry_accepts(n)
}

pub open spec fn entry_from_fn() -> spec_fn(QueueEntry, Json) -> bool {
    |e: QueueEntry, n: Json| entry_from(e, n)
}

fn parse_entry(node: &Json) -> (r: Option<QueueEntry>)
    ensures
        r is Some <==> entry_accepts(*node),
        r matches Some(e) ==> entry_from(e, *node),
{
    let pr = node.get("pullRequest")?;
    let number = get_u64(pr, "number")?;
    let rollup = match get2(node, "headCommit", "statusCheckRollup") {
        Some(r) => if r.is_null() {
            None
        } else {
            Some(r)
        },
        None => None,
    };
    let checks = match rollup {
        Some(r) => check_state(get_str(r, "state")),
        None => CheckState::NoChecks,
    };
    let eta = match get_u64(node, "estimatedTimeToMerge") {
        Some(s) => Some(from_secs(s)),
        None => None,
    };
    Some(
        QueueEntry {
            position: match get_u64(node, "position") {
                Some(p) => p,
                None => 0,
            },
            state: state(get_str(node, "state")),
            number,
            title: text(pr, "title"),
            author: text2(pr, "author", "login"),
            url: text(pr, "url"),
            head_sha: text2(node, "headCommit", "oid"),
            checks,
            eta,
            enqueued_at: get_stamp(node, "enqueuedAt"),
            solo: match get_bool(node, "solo") {
                Some(b) => b,
                None => false,
            },
            jump: match get_bool(node, "jump") {
                Some(b) => b,
                None => false,
            },
            run: None,
        },
    )
}

/// The merge queue of a repository response: `data.repository.mergeQueue`.
pub open spec fn merge_queue_node(value: Json) -> Option<Json> {
    match at2(value, "data"@, "repository"@) {
        Some(r) => r.member("mergeQueue"@),
        None => None,
    }
}

/// The entry nodes of a merge queue, or none.
pub open spec fn entry_nodes(queue: Json) -> Seq<Json> {
    match at2(queue, "entries"@, "nodes"@) {
        Some(v) => match v.items() {
            Some(items) => items,
            None => Seq::empty(),
        },
        None => Seq::empty(),
    }
}

/// What a queue read from a merge-queue node holds: no repository name (the caller knows
/// it), the queue's URL, and the entries read (those whose pull request has a number) in
/// position order.
pub open spec fn queue_from(queue: Queue, q: Json) -> bool {
    &&& queue.repo@ == Seq::<char>::empty()
    &&& queue.url@ == text_at(q, "url"@)
    &&& exists|read: Seq<QueueEntry>|
        filter_mapped(read, entry_nodes(q), entry_accepts_fn(), entry_from_fn())
            && stably_sorted(queue.entries@, read, false)
}

/// Reads the merge queue of a repository: its URL and its entries in position order (entries
/// of equal position in the order the API listed them). A response without a merge queue is
/// one error, a repository whose merge queue is null another.
pub fn parse(value: &Json) -> (r: Result<Queue, String>)
    ensures
        r is Ok <==> (merge_queue_node(*value) matches Some(q) && !q.null()),
        merge_queue_node(*value) is None ==> (r matches Err(e) && e@
            == "gh response has no data.repository.mergeQueue"@),
        (merge_queue_node(*value) matches Some(q) && q.null()) ==> (r matches Err(e) && e@
            == "no merge queue on this repository"@),
        r matches Ok(queue) ==> queue_from(queue, merge_queue_node(*value)->0),
{
    let queue = match get2(value, "data", "repository") {
        Some(r) => r.get("mergeQueue"),
        None => None,
    };
    let queue = match queue {
        Some(q) => q,
        None => {
            return Err("gh response has no data.repository.mergeQueue".to_owned());
        },
    };
    if queue.is_null() {
        return Err("no merge queue on this repository".to_owned());
    }
    let read = match get2(queue, "entries", "nodes") {
        Some(v) => match v.as_array() {
            Some(items) => filter_map_nodes(
                items,
                parse_entry,
                Ghost(entry_accepts_fn()),
                Ghost(entry_from_fn()),
            ),
            None => {
                assert(Seq::<Json>::empty().filter(entry_accepts_fn()).len() == 0) by {
                    reveal(Seq::filter);
                }
                Vec::new()
            },
        },
        None => {
            assert(Seq::<Json>::empty().filter(entry_accepts_fn()).len() == 0) by {
                reveal(Seq::filter);
            }
            Vec::new()
        },
    };
    let ghost read_view = read@;
    let entries = sort_by_rank(read, false);
    assert(filter_mapped(read_view, entry_nodes(*queue), entry_accepts_fn(), entry_from_fn()));
    let result = Queue { repo: String::new(), url: text(queue, "url"), entries };
    assert(filter_mapped(read_view, entry_nodes(*queue), entry_accepts_fn(), entry_from_fn())
        && stably_sorted(result.entries@, read_view, false));
    assert(queue_from(result, *queue));
    Ok(result)
}

} // verus!

verus! {

/// The workflow run of a merge group, and the number of the pull request it tests.
#[derive(Debug, PartialEq, Eq)]
pub struct MergeGroupRun {
    pub number: u64,
    pub build: Build,
}

impl Clone for MergeGroupRun {
    fn clone(&self) -> (r: Self)
        ensures
            r == *self,
    {
        MergeGroupRun { number: self.number, build: self.build.clone() }
    }
}

/// The pull request a merge-group branch such as `gh-readonly-queue/main/pr-4821-<sha>`
/// tests: after the last `/`, past `pr-`, up to the next `-`.
pub open spec fn branch_number(branch: Seq<char>) -> Option<u64> {
    let last = match last_index(branch, '/') {
        Some(i) => branch.skip(i + 1),
        None => branch,
    };
    if last.len() >= 3 && last[0] == 'p' && last[1] == 'r' && last[2] == '-' {
        let rest = last.skip(3);
        let first = match first_index(rest, '-') {
            Some(j) => rest.take(j),
            None => rest,
        };
        parse_u64_spec(first)
    } else {
        None
    }
}

fn number_of_branch(branch: &str) -> (r: Option<u64>)
    ensures
        r == branch_number(branch@),
{
    let chars = chars_of(branch);
    let s = chars.as_slice();
    let start = match rfind_char(s, '/') {
        Some(i) => i + 1,
        None => 0,
    };
    let ghost last = s@.skip(start as int);
    assert(start == 0 ==> last =~= s@);
    if !(s.len() - start >= 3 && s[start] == 'p' && s[start + 1] == 'r' && s[start + 2] == '-') {
        return None;
    }
    let ghost rest = last.skip(3);
    assert(rest =~= s@.skip(start + 3));
    let end = match find_char(s, start + 3, '-') {
        Some(j) => j,
        None => s.len(),
    };
    let digits = slice_vec(s, start + 3, end);
    assert(digits@ =~= match first_index(rest, '-') {
        Some(j) => rest.take(j),
        None => rest,
    });
    parse_u64(digits.as_slice())
}

/// A run counts as a merge-group run when its branch names a pull request and it has an id.
pub open spec fn group_run_accepts(run: Json) -> bool {
    &&& str_at(run, "head_branch"@) matches Some(b) && branch_number(b) is Some
    &&& run_accepts(run)
}

pub open spec fn group_run_from(g: MergeGroupRun, run: Json) -> bool {
    &&& Some(g.number) == branch_number(str_at(run, "head_branch"@)->0)
    &&& run_from(g.build, run)
}

pub open spec fn group_run_accepts_fn() -> spec_fn(Json) -> bool {
    |n: Json| group_run_accepts(n)
}

pub open spec fn group_run_from_fn() -> spec_fn(MergeGroupRun, Json) -> bool {
    |g: MergeGroupRun, n: Json| group_run_from(g, n)
}

fn parse_group_run(run: &Json) -> (r: Option<MergeGroupRun>)
    ensures
        r is Some <==> group_run_accepts(*run),
        r matches Some(g) ==> group_run_from(g, *run),
{
    let branch = get_str(run, "head_branch")?;
    let number = number_of_branch(branch)?;
    let build = parse_run(run)?;
    Some(MergeGroupRun { number, build })
}

/// Reads the merge-group runs of a workflow-runs response, in the order listed; runs on other
/// branches are skipped.
pub fn parse_merge_group_runs(value: &Json) -> (r: Vec<MergeGroupRun>)
    ensures
        filter_mapped(
            r@,
            crate::model::builds::workflow_runs(*value),
            group_run_accepts_fn(),
            group_run_from_fn(),
        ),
{
    match get_items(value, "workflow_runs") {
        Some(items) => filter_map_nodes(
            items,
            parse_group_run,
            Ghost(group_run_accepts_fn()),
            Ghost(group_run_from_fn()),
        ),
        None => {
            assert(Seq::<Json>::empty().filter(group_run_accepts_fn()).len() == 0) by {
                reveal(Seq::filter);
            }
            Vec::new()
        },
    }
}

/// What the checks of an entry read once its merge-group run is known: the run's outcome,
/// where a cancelled run or one of unknown status says nothing.
pub open spec fn run_checks(status: BuildStatus) -> CheckState {
    match status {
        BuildStatus::Success => CheckState::Success,
        BuildStatus::Failure => CheckState::Failure,
        BuildStatus::Running | BuildStatus::Queued => CheckState::Pending,
        BuildStatus::Cancelled | BuildStatus::Unknown => CheckState::Unknown,
    }
}

fn checks_of_run(status: BuildStatus) -> (r: CheckState)
    ensures
        r == run_checks(status),
{
    match status {
        BuildStatus::Success => CheckState::Success,
        BuildStatus::Failure => CheckState::Failure,
        BuildStatus::Running | BuildStatus::Queued => CheckState::Pending,
        BuildStatus::Cancelled | BuildStatus::Unknown => CheckState::Unknown,
    }
}

/// The newest run for pull request `number`: the one with the greatest id, the earlier one
/// of two with the same id.
pub open spec fn run_for(runs: Seq<MergeGroupRun>, number: u64) -> Option<MergeGroupRun>
    decreases runs.len(),
{
    if runs.len() == 0 {
        None
    } else {
        let later = run_for(runs.drop_first(), number);
        if runs[0].number == number && match later {
            Some(r) => r.build.id <= runs[0].build.id,
            None => true,
        } {
            Some(runs[0])
        } else {
            later
        }
    }
}

/// The run attached for a pull request is one of its runs, and none of its runs is newer;
/// a pull request without a run gets none.
pub proof fn lemma_newest_run_wins(runs: Seq<MergeGroupRun>, number: u64)
    ensures
        match run_for(runs, number) {
            Some(r) => {
                &&& runs.contains(r)
                &&& r.number == number
                &&& forall|j: int|
                    0 <= j < runs.len() && (#[trigger] runs[j]).number == number ==> runs[j].build.id
                        <= r.build.id
            },
            None => forall|j: int| 0 <= j < runs.len() ==> (#[trigger] runs[j]).number != number,
        },
    decreases runs.len(),
{
    if runs.len() > 0 {
        let rest = runs.drop_first();
        lemma_newest_run_wins(rest, number);
        assert forall|j: int| 0 < j < runs.len() implies #[trigger] runs[j] == rest[j - 1] by {}
        match run_for(runs, number) {
            Some(r) => {
                if r == runs[0] && runs[0].number == number {
                    assert(runs[0] == runs[0]);
                    assert(runs.contains(r));
                } else {
                    assert(rest.contains(r));
                    let k = choose|k: int| 0 <= k < rest.len() && rest[k] == r;
                    assert(runs[k + 1] == r);
                }
            },
            None => {},
        }
    }
}

/// An entry after its run is attached: the run and the checks it says, all else as before.
pub open spec fn attached(new: QueueEntry, old: QueueEntry, runs: Seq<MergeGroupRun>) -> bool {
    match run_for(runs, old.number) {
        Some(run) => {
            &&& new.run == Some(run.build)
            &&& new.checks == run_checks(run.build.status)
            &&& new.position == old.position && new.state == old.state && new.number == old.number
            &&& new.title == old.title && new.author == old.author && new.url == old.url
            &&& new.head_sha == old.head_sha && new.eta == old.eta && new.enqueued_at
                == old.enqueued_at && new.solo == old.solo && new.jump == old.jump
        },
        None => new == old,
    }
}

fn find_run(runs: &[MergeGroupRun], number: u64) -> (r: Option<&MergeGroupRun>)
    ensures
        match r {
            Some(g) => run_for(runs@, number) == Some(*g),
            None => run_for(runs@, number) is None,
        },
{
    let mut best: Option<&MergeGroupRun> = None;
    let mut i: usize = runs.len();
    assert(runs@.skip(runs@.len() as int) =~= Seq::<MergeGroupRun>::empty());
    while i > 0
        invariant
            0 <= i <= runs@.len(),
            match best {
                Some(g) => run_for(runs@.skip(i as int), number) == Some(*g),
                None => run_for(runs@.skip(i as int), number) is None,
            },
        decreases i,
    {
        i = i - 1;
        assert(runs@.skip(i as int).drop_first() =~= runs@.skip(i + 1));
        assert(runs@.skip(i as int)[0] == runs@[i as int]);
        let run = &runs[i];
        if run.number == number {
            match best {
                Some(g) => {
                    if g.build.id <= run.build.id {
                        best = Some(run);
                    }
                },
                None => {
                    best = Some(run);
                },
            }
        }
    }
    assert(runs@.skip(0) =~= runs@);
    best
}

impl Queue {
    /// Gives each entry the newest merge-group run for its pull request, whose outcome then
    /// stands for the entry's checks.
    pub fn attach_runs(&mut self, runs: &[MergeGroupRun])
        ensures
            final(self).repo == old(self).repo,
            final(self).url == old(self).url,
            final(self).entries@.len() == old(self).entries@.len(),
            forall|i: int|
                0 <= i < final(self).entries@.len() ==> attached(
                    #[trigger] final(self).entries@[i],
                    old(self).entries@[i],
                    runs@,
                ),
    {
        let mut i: usize = 0;
        let ghost before = self.entries@;
        while i < self.entries.len()
            invariant
                0 <= i <= self.entries@.len(),
                self.entries@.len() == before.len(),
                self.repo == old(self).repo,
                self.url == old(self).url,
                before == old(self).entries@,
                forall|k: int| 0 <= k < i ==> attached(#[trigger] self.entries@[k], before[k], runs@),
                forall|k: int| i <= k < before.len() ==> #[trigger] self.entries@[k] == before[k],
            decreases before.len() - i,
        {
            let number = self.entries[i].number;
            match find_run(runs, number) {
                Some(run) => {
                    let mut entry = self.entries[i].clone();
                    entry.run = Some(run.build.clone());
                    entry.checks = checks_of_run(run.build.status);
                    self.entries.set(i, entry);
                },
                None => {},
            }
            i = i + 1;
        }
    }
}

} // verus!

verus! {

/// Each merge-queue state GitHub reports reads as its own state, and no other text does.
pub proof fn lemma_queue_states(value: Option<Seq<char>>)
    ensures
        queue_state_of(value) == QueueState::AwaitingChecks <==> value == Some("AWAITING_CHECKS"@),
        queue_state_of(value) == QueueState::Locked <==> value == Some("LOCKED"@),
        queue_state_of(value) == QueueState::Mergeable <==> value == Some("MERGEABLE"@),
        queue_state_of(value) == QueueState::Queued <==> value == Some("QUEUED"@),
        queue_state_of(value) == QueueState::Unmergeable <==> value == Some("UNMERGEABLE"@),
{
    reveal_strlit("AWAITING_CHECKS");
    reveal_strlit("LOCKED");
    reveal_strlit("MERGEABLE");
    reveal_strlit("QUEUED");
    reveal_strlit("UNMERGEABLE");
    assert("AWAITING_CHECKS"@.len() != "LOCKED"@.len());
    assert("AWAITING_CHECKS"@.len() != "MERGEABLE"@.len());
    assert("AWAITING_CHECKS"@.len() != "QUEUED"@.len());
    assert("AWAITING_CHECKS"@.len() != "UNMERGEABLE"@.len());
    assert("LOCKED"@.len() != "MERGEABLE"@.len());
    assert("LOCKED"@[0] != "QUEUED"@[0]);
    assert("LOCKED"@.len() != "UNMERGEABLE"@.len());
    assert("MERGEABLE"@.len() != "QUEUED"@.len());
    assert("MERGEABLE"@.len() != "UNMERGEABLE"@.len());
    assert("QUEUED"@.len() != "UNMERGEABLE"@.len());
}

} // verus!

verus! {

/// Each merge-queue state reads as its own word on screen.
pub proof fn lemma_queue_words(s: QueueState)
    ensures
        queue_label(s) == "checks"@ <==> s == QueueState::AwaitingChecks,
        queue_label(s) == "locked"@ <==> s == QueueState::Locked,
        queue_label(s) == "mergeable"@ <==> s == QueueState::Mergeable,
        queue_label(s) == "queued"@ <==> s == QueueState::Queued,
        queue_label(s) == "unmergeable"@ <==> s == QueueState::Unmergeable,
        queue_label(s) == "?"@ <==> s == QueueState::Unknown,
{
    reveal_strlit("checks");
    reveal_strlit("locked");
    reveal_strlit("mergeable");
    reveal_strlit("queued");
    reveal_strlit("unmergeable");
    reveal_strlit("?");
    assert("checks"@[0] != "locked"@[0]);
    assert("checks"@.len() != "mergeable"@.len());
    assert("checks"@[0] != "queued"@[0]);
    assert("checks"@.len() != "unmergeable"@.len());
    assert("checks"@.len() != "?"@.len());
    assert("locked"@.len() != "mergeable"@.len());
    assert("locked"@[0] != "queued"@[0]);
    assert("locked"@.len() != "unmergeable"@.len());
    assert("locked"@.len() != "?"@.len());
    assert("mergeable"@.len() != "queued"@.len());
    assert("mergeable"@.len() != "unmergeable"@.len());
    assert("mergeable"@.len() != "?"@.len());
    assert("queued"@.len() != "unmergeable"@.len());
    assert("queued"@.len() != "?"@.len());
    assert("unmergeable"@.len() != "?"@.len());
}

} // verus!
