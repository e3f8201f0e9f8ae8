//! The jobs of one workflow run.

use vstd::prelude::*;

use crate::json::{filter_map_nodes, filter_mapped, get_items, get_str, get_u64, items_at,
    str_at, text, text_at, u64_at, Json};
use crate::model::builds::{
    build_status_of, failing_conclusion, get_stamp, is_failing_conclusion, stamp_at, status,
    BuildStatus,
};
use crate::time::{since, since_spec, Nanos, Stamp};

verus! {

#[derive(Debug, PartialEq, Eq, Default)]
pub struct Job {
    pub id: u64,
    pub name: String,
    pub status: BuildStatus,
    pub started_at: Option<Stamp>,
    pub completed_at: Option<Stamp>,
    pub url: String,
    pub failed_step: Option<String>,
}

impl Clone for Job {
    fn clone(&self) -> (r: Self)
        ensures
            r == *self,
    {
        Job {
            id: self.id,
            name: self.name.clone(),
            status: self.status,
            started_at: self.started_at,
            completed_at: self.completed_at,
            url: self.url.clone(),
            failed_step: match &self.failed_step {
                Some(s) => Some(s.clone()),
                None => None,
            },
        }
    }
}

impl Job {
    /// From start to completion, when the job has both.
    pub open spec fn took(self) -> Option<Nanos> {
        match (self.completed_at, self.started_at) {
            (Some(c), Some(s)) => since_spec(c, s),
            _ => None,
        }
    }

    pub fn duration(&self) -> (r: Option<Nanos>)
        ensures
            r == self.took(),
    {
        match (self.completed_at, self.started_at) {
            (Some(c), Some(s)) => since(c, s),
            _ => None,
        }
    }
}

/// Where a job sorts: failed first, then running or queued, unknown, passed, cancelled.
pub open spec fn job_rank(s: BuildStatus) -> int {
    match s {
        BuildStatus::Failure => 0,
        BuildStatus::Running | BuildStatus::Queued => 1,
        BuildStatus::Unknown => 2,
        BuildStatus::Success => 3,
        BuildStatus::Cancelled => 4,
    }
}

fn rank_of(s: BuildStatus) -> (r: u8)
    ensures
        r == job_rank(s),
{
    match s {
        BuildStatus::Failure => 0,
        BuildStatus::Running | BuildStatus::Queued => 1,
        BuildStatus::Unknown => 2,
        BuildStatus::Success => 3,
        BuildStatus::Cancelled => 4,
    }
}

pub open spec fn job_has_rank(k: int) -> spec_fn(Job) -> bool {
    |j: Job| job_rank(j.status) == k
}

/// The jobs stably sorted by `job_rank`.
pub open spec fn jobs_by_rank(jobs: Seq<Job>) -> Seq<Job> {
    jobs.filter(job_has_rank(0)) + jobs.filter(job_has_rank(1)) + jobs.filter(job_has_rank(2))
        + jobs.filter(job_has_rank(3)) + jobs.filter(job_has_rank(4))
}

fn push_rank(jobs: &Vec<Job>, k: u8, out: &mut Vec<Job>)
    ensures
        final(out)@ == old(out)@ + jobs@.filter(job_has_rank(k as int)),
{
    let ghost start = out@;
    let mut i: usize = 0;
    while i < jobs.len()
        invariant
            0 <= i <= jobs@.len(),
            out@ == start + jobs@.take(i as int).filter(job_has_rank(k as int)),
        decreases jobs@.len() - i,
    {
        proof {
            assert(jobs@.take(i + 1) =~= jobs@.take(i as int).push(jobs@[i as int]));
            jobs@.take(i as int).lemma_filter_push(jobs@[i as int], job_has_rank(k as int));
        }
        if rank_of(jobs[i].status) == k {
            out.push(jobs[i].clone());
        }
        i = i + 1;
        assert(out@ =~= start + jobs@.take(i as int).filter(job_has_rank(k as int)));
    }
    assert(jobs@.take(jobs@.len() as int) =~= jobs@);
}

/// The jobs with failures first, then those still going, unknown, passed and cancelled
/// ones; within each group in their given order.
pub fn sort_failures_first(jobs: &Vec<Job>) -> (r: Vec<Job>)
    ensures
        r@ == jobs_by_rank(jobs@),
{
    let mut out: Vec<Job> = Vec::new();
    push_rank(jobs, 0, &mut out);
    push_rank(jobs, 1, &mut out);
    push_rank(jobs, 2, &mut out);
    push_rank(jobs, 3, &mut out);
    push_rank(jobs, 4, &mut out);
    assert(out@ =~= jobs_by_rank(jobs@));
    out
}

/// The first step of a job whose conclusion counts as a failure.
pub open spec fn first_failed_step(steps: Seq<Json>) -> Option<Json>
    decreases steps.len(),
{
    if steps.len() == 0 {
        None
    } else if failing_conclusion(str_at(steps[0], "conclusion"@)) {
        Some(steps[0])
    } else {
        first_failed_step(steps.drop_first())
    }
}

/// The name of the step the job failed at.
pub open spec fn failed_step_of(job: Json) -> Option<Seq<char>> {
    match items_at(job, "steps"@) {
        Some(steps) => match first_failed_step(steps) {
            Some(step) => Some(text_at(step, "name"@)),
            None => None,
        },
        None => None,
    }
}

fn failed_step(job: &Json) -> (r: Option<String>)
    ensures
        match r {
            Some(s) => failed_step_of(*job) == Some(s@),
            None => failed_step_of(*job) is None,
        },
{
    let steps = get_items(job, "steps")?;
    let mut i: usize = 0;
    assert(steps@.skip(0) =~= steps@);
    while i < steps.len()
        invariant
            0 <= i <= steps@.len(),
            items_at(*job, "steps"@) == Some(steps@),
            first_failed_step(steps@) == first_failed_step(steps@.skip(i as int)),
        decreases steps@.len() - i,
    {
        assert(steps@.skip(i as int).drop_first() =~= steps@.skip(i + 1));
        if is_failing_conclusion(get_str(&steps[i], "conclusion")) {
            assert(steps@.skip(i as int)[0] == steps@[i as int]);
            return Some(text(&steps[i], "name"));
        }
        i = i + 1;
    }
    None
}

pub open spec fn job_accepts(job: Json) -> bool {
    u64_at(job, "id"@) is Some
}

/// What a job read from the API holds.
pub open spec fn job_from(j: Job, job: Json) -> bool {
    &&& u64_at(job, "id"@) == Some(j.id)
    &&& j.name@ == text_at(job, "name"@)
    &&& j.status == build_status_of(str_at(job, "status"@), str_at(job, "conclusion"@))
    &&& j.started_at == stamp_at(job, "started_at"@)
    &&& j.completed_at == stamp_at(job, "completed_at"@)
    &&& j.url@ == text_at(job, "html_url"@)
    &&& match j.failed_step {
        Some(s) => failed_step_of(job) == Some(s@),
        None => failed_step_of(job) is None,
    }
}

pub open spec fn job_accepts_fn() -> spec_fn(Json) -> bool {
    |n: Json| job_accepts(n)
}

pub open spec fn job_from_fn() -> spec_fn(Job, Json) -> bool {
    |j: Job, n: Json| job_from(j, n)
}

fn parse_job(job: &Json) -> (r: Option<Job>)
    ensures
        r is Some <==> job_accepts(*job),
        r matches Some(j) ==> job_from(j, *job),
{
    Some(
        Job {
            id: get_u64(job, "id")?,
            name: text(job, "name"),
            status: status(get_str(job, "status"), get_str(job, "conclusion")),
            started_at: get_stamp(job, "started_at"),
            completed_at: get_stamp(job, "completed_at"),
            url: text(job, "html_url"),
            failed_step: failed_step(job),
        },
    )
}

/// The jobs listed under `jobs`, or none.
pub open spec fn job_nodes(value: Json) -> Seq<Json> {
    match items_at(value, "jobs"@) {
        Some(v) => v,
        None => Seq::empty(),
    }
}

/// Reads the jobs of a run, failures first: the jobs read (those with an id), then sorted
/// by `job_rank`, keeping the API's order within a rank.
pub fn parse_jobs(value: &Json) -> (r: Vec<Job>)
    ensures
        exists|read: Seq<Job>|
            filter_mapped(read, job_nodes(*value), job_accepts_fn(), job_from_fn()) && r@
                == jobs_by_rank(read),
{
    let read = match get_items(value, "jobs") {
        Some(items) => filter_map_nodes(items, parse_job, Ghost(job_accepts_fn()), Ghost(job_from_fn())),
        None => {
            assert(Seq::<Json>::empty().filter(job_accepts_fn()).len() == 0) by {
                reveal(Seq::filter);
            }
            Vec::new()
        },
    };
    let sorted = sort_failures_first(&read);
    assert(filter_mapped(read@, job_nodes(*value), job_accepts_fn(), job_from_fn()));
    sorted
}

} // verus!
