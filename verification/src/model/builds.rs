//! Workflow runs on the main branch, as the GitHub Actions API describes them.

use vstd::prelude::*;

use crate::json::{
    at2, filter_map_nodes, filter_mapped, get2, get_items, get_str, get_u64, items_at, str_at,
    text, text2, text_at, text_at2, u64_at, Json,
};
use crate::model::prs::{parse_timestamp, timestamp_of, u64_or};
use crate::strs::{
    chars_of, opt_is, opt_view, parse_u64, parse_u64_spec, slice_vec, trim_end_len,
    trimmed_end, decimal, is_digit, is_space, lemma_decimal_parses, lemma_trimmed_end_of_spaces,
};
use crate::time::{since, since_spec, Nanos, Stamp};

verus! {

#[derive(Debug, Clone, Copy, PartialEq, Eq, Structural, Default)]
pub enum BuildStatus {
    Success,
    Failure,
    Running,
    Queued,
    Cancelled,
    #[default]
    Unknown,
}

impl BuildStatus {
    /// Whether the run has come to an end (it is neither running nor queued).
    pub open spec fn settled(self) -> bool {
        !(self is Running || self is Queued)
    }

    pub fn is_settled(self) -> (r: bool)
        ensures
            r == self.settled(),
    {
        match self {
            BuildStatus::Running | BuildStatus::Queued => false,
            _ => true,
        }
    }
}

#[derive(Debug, PartialEq, Eq, Default)]
pub struct PullRef {
    pub number: u64,
    pub title: String,
    pub author: String,
    pub url: String,
}

impl Clone for PullRef {
    fn clone(&self) -> (r: Self)
        ensures
            r == *self,
    {
        PullRef {
            number: self.number,
            title: self.title.clone(),
            author: self.author.clone(),
            url: self.url.clone(),
        }
    }
}

#[derive(Debug, PartialEq, Eq, Default)]
pub struct Build {
    pub id: u64,
    pub run_number: u64,
    pub status: BuildStatus,
    pub sha: String,
    pub title: String,
    pub actor: String,
    pub url: String,
    pub started_at: Option<Stamp>,
    pub finished_at: Option<Stamp>,
    pub pr_number: Option<u64>,
    pub pull: Option<PullRef>,
}

impl Clone for Build {
    fn clone(&self) -> (r: Self)
        ensures
            r == *self,
    {
        Build {
            id: self.id,
            run_number: self.run_number,
            status: self.status,
            sha: self.sha.clone(),
            title: self.title.clone(),
            actor: self.actor.clone(),
            url: self.url.clone(),
            started_at: self.started_at,
            finished_at: self.finished_at,
            pr_number: self.pr_number,
            pull: match &self.pull {
                Some(p) => Some(p.clone()),
                None => None,
            },
        }
    }
}

/// The builds of one repository's main branch.
#[derive(Debug, Clone, PartialEq, Eq, Default)]
pub struct Builds {
    pub repo: String,
    pub builds: Vec<Build>,
}

impl Build {
    /// How long a settled run took, from its start to its last update.
    pub open spec fn took(self) -> Option<Nanos> {
        if self.status.settled() {
            match (self.finished_at, self.started_at) {
                (Some(f), Some(s)) => since_spec(f, s),
                _ => None,
            }
        } else {
            None
        }
    }

    /// How long an unsettled run has been going at `now`.
    pub open spec fn running_for(self, now: Stamp) -> Option<Nanos> {
        if self.status.settled() {
            None
        } else {
            match self.started_at {
                Some(s) => since_spec(now, s),
                None => None,
            }
        }
    }

    pub fn duration(&self) -> (r: Option<Nanos>)
        ensures
            r == self.took(),
    {
        match self.status {
            BuildStatus::Running | BuildStatus::Queued => None,
            _ => match (self.finished_at, self.started_at) {
                (Some(f), Some(s)) => since(f, s),
                _ => None,
            },
        }
    }

    pub fn elapsed(&self, now: Stamp) -> (r: Option<Nanos>)
        ensures
            r == self.running_for(now),
    {
        match self.status {
            BuildStatus::Running | BuildStatus::Queued => match self.started_at {
                Some(s) => since(now, s),
                None => None,
            },
            _ => None,
        }
    }

    pub fn is_settled(&self) -> (r: bool)
        ensures
            r == self.status.settled(),
    {
        self.status.is_settled()
    }
}

/// The status of a run or job from the API's `status` and `conclusion`.
pub open spec fn build_status_of(status: Option<Seq<char>>, conclusion: Option<Seq<char>>) -> BuildStatus {
    let done = status == Some("completed"@);
    if done && (conclusion == Some("success"@) || conclusion == Some("neutral"@) || conclusion
        == Some("skipped"@)) {
        BuildStatus::Success
    } else if done && (conclusion == Some("failure"@) || conclusion == Some("timed_out"@)
        || conclusion == Some("action_required"@) || conclusion == Some("startup_failure"@)) {
        BuildStatus::Failure
    } else if done && conclusion == Some("cancelled"@) {
        BuildStatus::Cancelled
    } else if status == Some("in_progress"@) {
        BuildStatus::Running
    } else if status == Some("queued"@) || status == Some("waiting"@) || status == Some(
        "pending"@,
    ) || status == Some("requested"@) {
        BuildStatus::Queued
    } else {
        BuildStatus::Unknown
    }
}

/// Whether a conclusion is one of those that count as a failure.
pub open spec fn failing_conclusion(conclusion: Option<Seq<char>>) -> bool {
    conclusion == Some("failure"@) || conclusion == Some("timed_out"@) || conclusion == Some(
        "action_required"@,
    ) || conclusion == Some("startup_failure"@)
}

pub fn is_failing_conclusion(conclusion: Option<&str>) -> (r: bool)
    ensures
        r == failing_conclusion(opt_view(conclusion)),
{
    opt_is(conclusion, "failure") || opt_is(conclusion, "timed_out") || opt_is(
        conclusion,
        "action_required",
    ) || opt_is(conclusion, "startup_failure")
}

pub fn status(state: Option<&str>, conclusion: Option<&str>) -> (r: BuildStatus)
    ensures
        r == build_status_of(opt_view(state), opt_view(conclusion)),
{
    let done = opt_is(state, "completed");
    if done && (opt_is(conclusion, "success") || opt_is(conclusion, "neutral") || opt_is(
        conclusion,
        "skipped",
    )) {
        BuildStatus::Success
    } else if done && is_failing_conclusion(conclusion) {
        BuildStatus::Failure
    } else if done && opt_is(conclusion, "cancelled") {
        BuildStatus::Cancelled
    } else if opt_is(state, "in_progress") {
        BuildStatus::Running
    } else if opt_is(state, "queued") || opt_is(state, "waiting") || opt_is(state, "pending")
        || opt_is(state, "requested") {
        BuildStatus::Queued
    } else {
        BuildStatus::Unknown
    }
}

/// Whether `(#` starts at `q` in `s`.
pub open spec fn hash_paren_at(s: Seq<char>, q: int) -> bool {
    s[q] == '(' && s[q + 1] == '#'
}

/// The start of the last `(#` in `s`.
pub open spec fn last_hash_paren(s: Seq<char>) -> Option<int>
    decreases s.len(),
{
    if s.len() < 2 {
        None
    } else if hash_paren_at(s, s.len() - 2) {
        Some(s.len() - 2)
    } else {
        last_hash_paren(s.drop_last())
    }
}

/// The number of a squash-merged pull request from the `(#N)` that ends a commit title.
pub open spec fn squash_number(title: Seq<char>) -> Option<u64> {
    let t = trimmed_end(title);
    if t.len() > 0 && t.last() == ')' {
        let body = t.drop_last();
        match last_hash_paren(body) {
            Some(p) => parse_u64_spec(body.skip(p + 2)),
            None => None,
        }
    } else {
        None
    }
}

proof fn lemma_last_hash_paren(s: Seq<char>, p: int)
    requires
        -1 <= p,
        p == -1 || p <= s.len() - 2,
        forall|q: int| p < q <= s.len() - 2 ==> !#[trigger] hash_paren_at(s, q),
    ensures
        p >= 0 && hash_paren_at(s, p) ==> last_hash_paren(s) == Some(p),
        p == -1 ==> last_hash_paren(s) is None,
    decreases s.len(),
{
    if s.len() >= 2 && p < s.len() - 2 {
        assert forall|q: int| p < q <= s.drop_last().len() - 2 implies !#[trigger] hash_paren_at(
            s.drop_last(),
            q,
        ) by {
            assert(s.drop_last()[q] == s[q]);
            assert(s.drop_last()[q + 1] == s[q + 1]);
            assert(!hash_paren_at(s, q));
        }
        lemma_last_hash_paren(s.drop_last(), p);
    }
}

/// The `(#n)` that a squash merge appends to a title, followed by any whitespace, reads back
/// as `n`, whatever the title before it.
pub proof fn lemma_squash_suffix_reads_back(title: Seq<char>, n: u64, w: Seq<char>)
    requires
        forall|i: int| 0 <= i < w.len() ==> is_space(#[trigger] w[i]),
    ensures
        squash_number(title + " (#"@ + decimal(n as nat) + ")"@ + w) == Some(n),
{
    reveal_strlit(" (#");
    reveal_strlit(")");
    let digits = decimal(n as nat);
    lemma_decimal_parses(n as nat);
    let head = title + " (#"@;
    let body = head + digits;
    let x = body + ")"@;
    assert(title + " (#"@ + digits + ")"@ + w =~= x + w);
    assert(x.last() == ')');
    lemma_trimmed_end_of_spaces(x, w);
    assert(x.drop_last() =~= body);
    let p: int = title.len() as int + 1;
    assert(body[p] == '(' && body[p + 1] == '#');
    assert forall|q: int| p < q <= body.len() - 2 implies !#[trigger] hash_paren_at(body, q) by {
        if q == p + 1 {
            assert(body[q] == '#');
        } else {
            assert(body[q] == digits[q - head.len()]);
            assert(is_digit(digits[q - head.len()]));
        }
    }
    lemma_last_hash_paren(body, p);
    assert(body.skip(p + 2) =~= digits);
}

/// The pull request number at the end of a squash-merge title such as `fix: it (#4821)`.
pub fn pr_number_from_title(title: &str) -> (r: Option<u64>)
    ensures
        r == squash_number(title@),
{
    let chars = chars_of(title);
    let s = chars.as_slice();
    let n = trim_end_len(s);
    if n == 0 || s[n - 1] != ')' {
        return None;
    }
    let ghost body = s@.take(n - 1);
    assert(s@.take(n as int).drop_last() =~= body);
    let m = n - 1;
    let mut p = m;
    while p >= 2
        invariant
            2 <= m + 2,
            p <= m,
            m < s@.len(),
            body == s@.take(m as int),
            s@ == title@,
            s@.take(m + 1) == trimmed_end(title@),
            s@[m as int] == ')',
            forall|q: int| p - 1 <= q <= body.len() - 2 ==> !#[trigger] hash_paren_at(body, q),
        decreases p,
    {
        if s[p - 2] == '(' && s[p - 1] == '#' {
            assert(body[p - 2] == s@[p - 2]);
            assert(body[p - 1] == s@[p - 1]);
            assert(hash_paren_at(body, p - 2));
            proof {
                lemma_last_hash_paren(body, p - 2);
            }
            let digits = slice_vec(s, p, m);
            assert(digits@ =~= body.skip(p as int));
            let ghost t = trimmed_end(title@);
            assert(t.len() == m + 1);
            assert(t.last() == ')');
            assert(t.drop_last() =~= body);
            assert(last_hash_paren(body) == Some(p - 2));
            return parse_u64(digits.as_slice());
        }
        assert(body[p - 2] == s@[p - 2]);
        assert(body[p - 1] == s@[p - 1]);
        assert(!hash_paren_at(body, p - 2));
        p = p - 1;
    }
    proof {
        lemma_last_hash_paren(body, -1);
    }
    None
}

/// A run is read when it has an id.
pub open spec fn run_accepts(run: Json) -> bool {
    u64_at(run, "id"@) is Some
}

pub open spec fn stamp_at(node: Json, key: Seq<char>) -> Option<Stamp> {
    match str_at(node, key) {
        Some(t) => timestamp_of(t),
        None => None,
    }
}

pub fn get_stamp(node: &Json, key: &str) -> (r: Option<Stamp>)
    ensures
        r == stamp_at(*node, key@),
{
    match get_str(node, key) {
        Some(t) => parse_timestamp(t),
        None => None,
    }
}

/// What a build read from a workflow run holds.
pub open spec fn run_from(b: Build, run: Json) -> bool {
    &&& u64_at(run, "id"@) == Some(b.id)
    &&& b.run_number == u64_or(u64_at(run, "run_number"@), 0)
    &&& b.status == build_status_of(str_at(run, "status"@), str_at(run, "conclusion"@))
    &&& b.sha@ == text_at(run, "head_sha"@)
    &&& b.title@ == text_at(run, "display_title"@)
    &&& b.actor@ == text_at2(run, "actor"@, "login"@)
    &&& b.url@ == text_at(run, "html_url"@)
    &&& b.started_at == stamp_at(run, "run_started_at"@)
    &&& b.finished_at == stamp_at(run, "updated_at"@)
    &&& b.pr_number == squash_number(text_at(run, "display_title"@))
    &&& b.pull is None
}

pub open spec fn run_accepts_fn() -> spec_fn(Json) -> bool {
    |n: Json| run_accepts(n)
}

pub open spec fn run_from_fn() -> spec_fn(Build, Json) -> bool {
    |b: Build, n: Json| run_from(b, n)
}

pub fn parse_run(run: &Json) -> (r: Option<Build>)
    ensures
        r is Some <==> run_accepts(*run),
        r matches Some(b) ==> run_from(b, *run),
{
    let id = get_u64(run, "id")?;
    let title = text(run, "display_title");
    let pr_number = pr_number_from_title(title.as_str());
    Some(
        Build {
            id,
            run_number: match get_u64(run, "run_number") {
                Some(n) => n,
                None => 0,
            },
            status: status(get_str(run, "status"), get_str(run, "conclusion")),
            sha: text(run, "head_sha"),
            actor: text2(run, "actor", "login"),
            url: text(run, "html_url"),
            started_at: get_stamp(run, "run_started_at"),
            finished_at: get_stamp(run, "updated_at"),
            pr_number,
            pull: None,
            title,
        },
    )
}

/// The runs listed under `workflow_runs`, or none when there is no such list.
pub open spec fn workflow_runs(value: Json) -> Seq<Json> {
    match items_at(value, "workflow_runs"@) {
        Some(v) => v,
        None => Seq::empty(),
    }
}

/// Reads the builds of a workflow-runs response, in the order the API listed them; a run
/// without an id is skipped.
pub fn parse_runs(value: &Json) -> (r: Vec<Build>)
    ensures
        filter_mapped(r@, workflow_runs(*value), run_accepts_fn(), run_from_fn()),
{
    match get_items(value, "workflow_runs") {
        Some(items) => filter_map_nodes(items, parse_run, Ghost(run_accepts_fn()), Ghost(run_from_fn())),
        None => {
            assert(Seq::<Json>::empty().filter(run_accepts_fn()).len() == 0) by {
                reveal(Seq::filter);
            }
            Vec::new()
        },
    }
}

/// What the pull request read from the first entry of a commit's pulls list holds.
pub open spec fn pull_ref_from(p: PullRef, node: Json) -> bool {
    &&& u64_at(node, "number"@) == Some(p.number)
    &&& p.title@ == text_at(node, "title"@)
    &&& p.author@ == text_at2(node, "user"@, "login"@)
    &&& p.url@ == text_at(node, "html_url"@)
}

/// The pull request a commit belongs to: the first of the list the API gives, if it has a
/// number.
pub fn parse_pull_numbers(value: &Json) -> (r: Option<PullRef>)
    ensures
        r is Some <==> (value.items() matches Some(items) && items.len() > 0 && u64_at(
            items[0],
            "number"@,
        ) is Some),
        r matches Some(p) ==> pull_ref_from(p, value.items()->0[0]),
{
    let items = value.as_array()?;
    if items.len() == 0 {
        return None;
    }
    let pr = &items[0];
    Some(
        PullRef {
            number: get_u64(pr, "number")?,
            title: text(pr, "title"),
            author: text2(pr, "user", "login"),
            url: text(pr, "html_url"),
        },
    )
}

} // verus!

verus! {

/// A workflow run reads as its status and conclusion say, over every input: it succeeded
/// when it completed as `success`, `neutral` or `skipped`; failed when it completed as
/// `failure`, `timed_out`, `action_required` or `startup_failure`; was cancelled when it
/// completed as `cancelled`; runs while `in_progress`; and waits while `queued`, `waiting`,
/// `pending` or `requested`, whatever its conclusion.
pub proof fn lemma_run_statuses(status: Option<Seq<char>>, conclusion: Option<Seq<char>>)
    ensures
        build_status_of(status, conclusion) == BuildStatus::Success <==> (status == Some(
            "completed"@,
        ) && (conclusion == Some("success"@) || conclusion == Some("neutral"@) || conclusion == Some("skipped"@))),
        build_status_of(status, conclusion) == BuildStatus::Failure <==> (status == Some(
            "completed"@,
        ) && (conclusion == Some("failure"@) || conclusion == Some("timed_out"@) || conclusion == Some("action_required"@) || conclusion == Some("startup_failure"@))),
        build_status_of(status, conclusion) == BuildStatus::Cancelled <==> (status == Some(
            "completed"@,
        ) && conclusion == Some("cancelled"@)),
        build_status_of(status, conclusion) == BuildStatus::Running <==> status == Some(
            "in_progress"@,
        ),
        build_status_of(status, conclusion) == BuildStatus::Queued <==> (status == Some("queued"@) || status == Some("waiting"@) || status == Some("pending"@) || status == Some("requested"@)),
{
    reveal_strlit("completed");
    reveal_strlit("success");
    reveal_strlit("neutral");
    reveal_strlit("skipped");
    reveal_strlit("failure");
    reveal_strlit("timed_out");
    reveal_strlit("action_required");
    reveal_strlit("startup_failure");
    reveal_strlit("cancelled");
    reveal_strlit("in_progress");
    reveal_strlit("queued");
    reveal_strlit("waiting");
    reveal_strlit("pending");
    reveal_strlit("requested");
    assert("completed"@.len() != "success"@.len());
    assert("completed"@.len() != "neutral"@.len());
    assert("completed"@.len() != "skipped"@.len());
    assert("completed"@.len() != "failure"@.len());
    assert("completed"@[0] != "timed_out"@[0]);
    assert("completed"@.len() != "action_required"@.len());
    assert("completed"@.len() != "startup_failure"@.len());
    assert("completed"@[1] != "cancelled"@[1]);
    assert("completed"@.len() != "in_progress"@.len());
    assert("completed"@.len() != "queued"@.len());
    assert("completed"@.len() != "waiting"@.len());
    assert("completed"@.len() != "pending"@.len());
    assert("completed"@[0] != "requested"@[0]);
    assert("success"@[0] != "neutral"@[0]);
    assert("success"@[1] != "skipped"@[1]);
    assert("success"@[0] != "failure"@[0]);
    assert("success"@.len() != "timed_out"@.len());
    assert("success"@.len() != "action_required"@.len());
    assert("success"@.len() != "startup_failure"@.len());
    assert("success"@.len() != "cancelled"@.len());
    assert("success"@.len() != "in_progress"@.len());
    assert("success"@.len() != "queued"@.len());
    assert("success"@[0] != "waiting"@[0]);
    assert("success"@[0] != "pending"@[0]);
    assert("success"@.len() != "requested"@.len());
    assert("neutral"@[0] != "skipped"@[0]);
    assert("neutral"@[0] != "failure"@[0]);
    assert("neutral"@.len() != "timed_out"@.len());
    assert("neutral"@.len() != "action_required"@.len());
    assert("neutral"@.len() != "startup_failure"@.len());
    assert("neutral"@.len() != "cancelled"@.len());
    assert("neutral"@.len() != "in_progress"@.len());
    assert("neutral"@.len() != "queued"@.len());
    assert("neutral"@[0] != "waiting"@[0]);
    assert("neutral"@[0] != "pending"@[0]);
    assert("neutral"@.len() != "requested"@.len());
    assert("skipped"@[0] != "failure"@[0]);
    assert("skipped"@.len() != "timed_out"@.len());
    assert("skipped"@.len() != "action_required"@.len());
    assert("skipped"@.len() != "startup_failure"@.len());
    assert("skipped"@.len() != "cancelled"@.len());
    assert("skipped"@.len() != "in_progress"@.len());
    assert("skipped"@.len() != "queued"@.len());
    assert("skipped"@[0] != "waiting"@[0]);
    assert("skipped"@[0] != "pending"@[0]);
    assert("skipped"@.len() != "requested"@.len());
    assert("failure"@.len() != "timed_out"@.len());
    assert("failure"@.len() != "action_required"@.len());
    assert("failure"@.len() != "startup_failure"@.len());
    assert("failure"@.len() != "cancelled"@.len());
    assert("failure"@.len() != "in_progress"@.len());
    assert("failure"@.len() != "queued"@.len());
    assert("failure"@[0] != "waiting"@[0]);
    assert("failure"@[0] != "pending"@[0]);
    assert("failure"@.len() != "requested"@.len());
    assert("timed_out"@.len() != "action_required"@.len());
    assert("timed_out"@.len() != "startup_failure"@.len());
    assert("timed_out"@[0] != "cancelled"@[0]);
    assert("timed_out"@.len() != "in_progress"@.len());
    assert("timed_out"@.len() != "queued"@.len());
    assert("timed_out"@.len() != "waiting"@.len());
    assert("timed_out"@.len() != "pending"@.len());
    assert("timed_out"@[0] != "requested"@[0]);
    assert("action_required"@[0] != "startup_failure"@[0]);
    assert("action_required"@.len() != "cancelled"@.len());
    assert("action_required"@.len() != "in_progress"@.len());
    assert("action_required"@.len() != "queued"@.len());
    assert("action_required"@.len() != "waiting"@.len());
    assert("action_required"@.len() != "pending"@.len());
    assert("action_required"@.len() != "requested"@.len());
    assert("startup_failure"@.len() != "cancelled"@.len());
    assert("startup_failure"@.len() != "in_progress"@.len());
    assert("startup_failure"@.len() != "queued"@.len());
    assert("startup_failure"@.len() != "waiting"@.len());
    assert("startup_failure"@.len() != "pending"@.len());
    assert("startup_failure"@.len() != "requested"@.len());
    assert("cancelled"@.len() != "in_progress"@.len());
    assert("cancelled"@.len() != "queued"@.len());
    assert("cancelled"@.len() != "waiting"@.len());
    assert("cancelled"@.len() != "pending"@.len());
    assert("cancelled"@[0] != "requested"@[0]);
    assert("in_progress"@.len() != "queued"@.len());
    assert("in_progress"@.len() != "waiting"@.len());
    assert("in_progress"@.len() != "pending"@.len());
    assert("in_progress"@.len() != "requested"@.len());
    assert("queued"@.len() != "waiting"@.len());
    assert("queued"@.len() != "pending"@.len());
    assert("queued"@.len() != "requested"@.len());
    assert("waiting"@[0] != "pending"@[0]);
    assert("waiting"@.len() != "requested"@.len());
    assert("pending"@.len() != "requested"@.len());
}

} // verus!
