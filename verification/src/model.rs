//! What the columns show: pull requests, merge-queue entries, builds, jobs, deployments.

pub mod prs;
pub mod builds;
pub mod jobs;
pub mod deployed;
pub mod log;
pub mod queue;
