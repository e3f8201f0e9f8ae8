use conveyor::model::builds::BuildStatus;
use conveyor::model::prs::CheckState;
use conveyor::model::queue::{parse, parse_merge_group_runs, MergeGroupRun, QueueState};
use conveyor::json::Json;

const SECOND: u128 = 1_000_000_000;

fn to_json(value: &serde_json::Value) -> Json {
    match value {
        serde_json::Value::Null => Json::Null,
        serde_json::Value::Bool(b) => Json::Bool(*b),
        serde_json::Value::Number(n) => Json::Number(n.as_u64()),
        serde_json::Value::String(s) => Json::Text(s.clone()),
        serde_json::Value::Array(items) => Json::Array(items.iter().map(to_json).collect()),
        serde_json::Value::Object(map) => {
            Json::Object(map.iter().map(|(k, v)| (k.clone(), to_json(v))).collect())
        }
    }
}

fn json(text: &str) -> Json {
    to_json(&serde_json::from_str(text).unwrap())
}

/// A merge-queue response of the shape `gh api graphql` returns, entries out of order.
const QUEUE: &str = r#"{"data":{"repository":{"mergeQueue":{
    "url": "https://github.com/acme/webapp/queue/main",
    "entries": {"nodes": [
        {"position": 2, "state": "QUEUED", "estimatedTimeToMerge": null,
         "enqueuedAt": "2026-09-10T15:05:00Z", "solo": false, "jump": true,
         "headCommit": {"oid": "1111111111111111111111111111111111111111", "statusCheckRollup": null},
         "pullRequest": {"number": 4830, "title": "Bump deps", "author": {"login": "bob"},
                         "url": "https://github.com/acme/webapp/pull/4830"}},
        {"position": 1, "state": "AWAITING_CHECKS", "estimatedTimeToMerge": 720,
         "enqueuedAt": "2026-09-10T15:00:00Z", "solo": false, "jump": false,
         "headCommit": {"oid": "6babeb79d61cce5208232c669505ea4b42300c6d",
                        "statusCheckRollup": {"state": "PENDING"}},
         "pullRequest": {"number": 4821, "title": "Retry webhook delivery with backoff",
                         "author": {"login": "alice"},
                         "url": "https://github.com/acme/webapp/pull/4821"}}
    ]}
}}}}"#;

const EMPTY_QUEUE: &str = r#"{"data":{"repository":{"mergeQueue":{
    "url": "https://github.com/acme/webapp/queue/main", "entries": {"nodes": []}}}}}"#;

#[test]
fn parses_the_queue_entries_in_position_order() {
    let queue = parse(&json(QUEUE)).unwrap();

    assert_eq!(queue.url, "https://github.com/acme/webapp/queue/main");
    assert_eq!(queue.entries.len(), 2);
    let first = &queue.entries[0];
    assert_eq!(first.position, 1);
    assert_eq!(first.state, QueueState::AwaitingChecks);
    assert_eq!(first.number, 4821);
    assert_eq!(first.title, "Retry webhook delivery with backoff");
    assert_eq!(first.author, "alice");
    assert_eq!(first.url, "https://github.com/acme/webapp/pull/4821");
    assert_eq!(first.head_sha, "6babeb79d61cce5208232c669505ea4b42300c6d");
    assert_eq!(first.checks, CheckState::Pending);
    assert_eq!(first.eta, Some(720 * SECOND));
    assert_eq!(first.enqueued_at, Some(1_789_052_400 * SECOND));
    assert!(!first.jump);
    let second = &queue.entries[1];
    assert_eq!(second.state, QueueState::Queued);
    assert_eq!(second.checks, CheckState::NoChecks);
    assert_eq!(second.eta, None);
    assert!(second.jump);
}

#[test]
fn an_empty_queue_parses_to_no_entries() {
    let queue = parse(&json(EMPTY_QUEUE)).unwrap();
    assert!(queue.entries.is_empty());
}

#[test]
fn a_repository_without_a_merge_queue_is_an_error_naming_it() {
    let err = parse(&json(r#"{"data":{"repository":{"mergeQueue":null}}}"#)).unwrap_err();
    assert!(err.contains("no merge queue"), "{err}");
}

#[test]
fn unknown_states_degrade_to_unknown() {
    let queue = parse(&json(
        r#"{"data":{"repository":{"mergeQueue":{"url":"u","entries":{"nodes":[
            {"position":1,"state":"SOMETHING_NEW","pullRequest":{"number":1,"title":"t","author":null}}]}}}}}"#,
    ))
    .unwrap();
    assert_eq!(queue.entries[0].state, QueueState::Unknown);
    assert_eq!(queue.entries[0].author, "");
}

#[test]
fn a_merge_group_run_carries_the_whole_run_and_outranks_the_rollup() {
    let runs = parse_merge_group_runs(&json(
        r#"{"workflow_runs": [
        {"id": 4242, "run_number": 313, "status": "completed", "conclusion": "failure",
         "head_branch": "gh-readonly-queue/main/pr-4821-0000000000000000000000000000000000000000",
         "display_title": "CI/CD", "actor": {"login": "merge-bot"},
         "html_url": "https://github.com/acme/webapp/actions/runs/4242"},
        {"id": 7, "head_branch": "main", "status": "completed", "conclusion": "success"}
    ]}"#,
    ));

    assert_eq!(runs.len(), 1, "only merge-group branches count");
    assert_eq!(runs[0].number, 4821, "the pull request number");
    assert_eq!(runs[0].build.run_number, 313, "the run number");
    assert_eq!(runs[0].build.id, 4242);
    assert_eq!(runs[0].build.status, BuildStatus::Failure);
    assert_eq!(runs[0].build.actor, "merge-bot");

    let mut queue = parse(&json(QUEUE)).unwrap();
    assert_eq!(queue.entries[0].checks, CheckState::Pending, "the rollup");

    queue.attach_runs(&runs);

    assert_eq!(
        queue.entries[0].checks,
        CheckState::Failure,
        "the run outranks the rollup"
    );
    assert_eq!(queue.entries[0].run.as_ref().map(|run| run.id), Some(4242));
    assert!(queue.entries[1].run.is_none(), "no run for this entry");
}

fn runs_concluding(conclusion: &str) -> Vec<MergeGroupRun> {
    parse_merge_group_runs(&json(&format!(
        r#"{{"workflow_runs": [
            {{"id": 1, "run_number": 1, "status": "completed", "conclusion": {conclusion},
             "head_branch": "gh-readonly-queue/main/pr-4821-0000000000000000000000000000000000000000"}}
        ]}}"#
    )))
}

fn checks_after(runs: &[MergeGroupRun]) -> CheckState {
    let mut queue = parse(&json(QUEUE)).unwrap();
    queue.attach_runs(runs);
    queue.entries[0].checks
}

#[test]
fn a_cancelled_or_unrecognised_run_never_claims_the_checks_failed() {
    assert_eq!(
        checks_after(&runs_concluding(r#""cancelled""#)),
        CheckState::Unknown,
        "a re-batched queue cancels runs; that is not a failure"
    );
    assert_eq!(
        checks_after(&runs_concluding(r#""neither_here_nor_there""#)),
        CheckState::Unknown,
        "a conclusion we do not know is not a failure either"
    );
    assert_eq!(
        checks_after(&runs_concluding(r#""failure""#)),
        CheckState::Failure,
        "a real failure still reads as one"
    );
    assert_eq!(
        checks_after(&runs_concluding("null")),
        CheckState::Unknown,
        "completed with no conclusion is unknown, not failed"
    );
}

#[test]
fn a_response_without_the_merge_queue_key_is_an_error() {
    let err = parse(&json(r#"{"data":{"repository":{}}}"#)).unwrap_err();
    assert_eq!(err, "gh response has no data.repository.mergeQueue");
    let err = parse(&json(r#"{"data":{"repository":{"mergeQueue":null}}}"#)).unwrap_err();
    assert_eq!(err, "no merge queue on this repository");
}

#[test]
fn a_successful_or_running_run_reads_as_passed_or_pending() {
    let running = parse_merge_group_runs(&json(
        r#"{"workflow_runs": [
            {"id": 1, "run_number": 1, "status": "in_progress",
             "head_branch": "gh-readonly-queue/main/pr-4821-00"},
            {"id": 2, "run_number": 2, "status": "completed", "conclusion": "success",
             "head_branch": "gh-readonly-queue/main/pr-4830-00"}
        ]}"#,
    ));
    let mut queue = parse(&json(QUEUE)).unwrap();
    queue.attach_runs(&running);
    assert_eq!(queue.entries[0].checks, CheckState::Pending);
    assert_eq!(queue.entries[1].checks, CheckState::Success);
}

#[test]
fn a_re_batched_queue_shows_the_newest_run_whatever_order_the_api_sent() {
    let runs = parse_merge_group_runs(&json(
        r#"{"workflow_runs": [
        {"id": 4242, "run_number": 313, "status": "completed", "conclusion": "cancelled",
         "head_branch": "gh-readonly-queue/main/pr-4821-0000000000000000000000000000000000000000"},
        {"id": 4300, "run_number": 314, "status": "in_progress",
         "head_branch": "gh-readonly-queue/main/pr-4821-1111111111111111111111111111111111111111"},
        {"id": 4250, "run_number": 315, "status": "completed", "conclusion": "failure",
         "head_branch": "gh-readonly-queue/main/pr-4821-2222222222222222222222222222222222222222"}
    ]}"#,
    ));
    assert_eq!(runs.len(), 3);
    let mut queue = parse(&json(QUEUE)).unwrap();
    queue.attach_runs(&runs);
    assert_eq!(queue.entries[0].run.as_ref().map(|run| run.id), Some(4300), "the greatest id wins");
    assert_eq!(queue.entries[0].checks, CheckState::Pending);
    let mut reversed = runs.clone();
    reversed.reverse();
    let mut queue = parse(&json(QUEUE)).unwrap();
    queue.attach_runs(&reversed);
    assert_eq!(queue.entries[0].run.as_ref().map(|run| run.id), Some(4300), "in either order");
}
