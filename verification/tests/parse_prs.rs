use conveyor::json::Json;
use conveyor::model::prs::{parse, CheckConclusion, CheckState, MergeState, PullRequest, ReviewDecision};

const SECOND: u128 = 1_000_000_000;

fn to_json(value: &serde_json::Value) -> Json {
    match value {
        serde_json::Value::Null => Json::Null,
        serde_json::Value::Bool(b) => Json::Bool(*b),
        serde_json::Value::Number(n) => Json::Number(n.as_u64()),
        serde_json::Value::String(s) => Json::Text(s.clone()),
        serde_json::Value::Array(items) => Json::Array(items.iter().map(to_json).collect()),
        serde_json::Value::Object(map) => {
            Json::Object(map.iter().map(|(k, v)| (k.clone(), to_json(v))).collect())
        }
    }
}

fn json(text: &str) -> Json {
    to_json(&serde_json::from_str(text).unwrap())
}

/// A search response of the shape `gh api graphql` returns for the pull request query.
const SEARCH: &str = r#"{"data":{"search":{"nodes":[{
    "number": 1,
    "title": "Phase 0: setup",
    "url": "https://github.com/piacsek/conveyor/pull/1",
    "repository": {"nameWithOwner": "piacsek/conveyor"},
    "headRefName": "phase-0-setup",
    "isDraft": false,
    "reviewDecision": null,
    "mergeStateStatus": "UNKNOWN",
    "additions": 1007,
    "deletions": 1,
    "updatedAt": "2026-09-10T15:25:43Z",
    "mergeQueueEntry": null,
    "statusCheckRollup": {"state": "SUCCESS", "contexts": {"nodes": [
        {"name": "check", "status": "COMPLETED", "conclusion": "SUCCESS",
         "detailsUrl": "https://github.com/piacsek/conveyor/actions/runs/34497/job/102931850230"},
        {"name": "audit", "status": "COMPLETED", "conclusion": "SUCCESS",
         "detailsUrl": "https://github.com/piacsek/conveyor/actions/runs/34497/job/102931850231"},
        {"name": "fmt", "status": "COMPLETED", "conclusion": "SUCCESS",
         "detailsUrl": "https://github.com/piacsek/conveyor/actions/runs/34497/job/102931850232"}
    ]}}
}]}}}"#;

#[test]
fn parses_the_verbatim_search_response() {
    let prs = parse(&json(SEARCH)).unwrap();

    assert_eq!(prs.len(), 1);
    let pr = &prs[0];
    assert_eq!(pr.number, 1);
    assert_eq!(pr.title, "Phase 0: setup");
    assert_eq!(pr.url, "https://github.com/piacsek/conveyor/pull/1");
    assert_eq!(pr.repo, "piacsek/conveyor");
    assert_eq!(pr.head_ref, "phase-0-setup");
    assert!(!pr.is_draft);
    assert_eq!(pr.checks, CheckState::Success);
    assert_eq!(pr.review, ReviewDecision::NoDecision);
    assert_eq!(pr.merge_state, MergeState::Unknown);
    assert_eq!((pr.additions, pr.deletions), (1007, 1));
    assert_eq!(pr.updated_at, Some(1_789_053_943 * SECOND));
    assert_eq!(pr.checks_detail.len(), 3);
    assert_eq!(pr.checks_detail[0].name, "check");
    assert_eq!(pr.checks_detail[0].conclusion, CheckConclusion::Success);
    assert!(pr.checks_detail[0].url.contains("/job/102931850230"));
}

fn one(node: &str) -> PullRequest {
    let value = json(&format!(r#"{{"data":{{"search":{{"nodes":[{node}]}}}}}}"#));
    parse(&value).unwrap().remove(0)
}

#[test]
fn unknown_enum_values_and_null_rollups_degrade_instead_of_failing() {
    let pr = one(
        r#"{"number": 7, "title": "x", "reviewDecision": "SOMETHING_NEW",
            "mergeStateStatus": "BEHIND", "statusCheckRollup": null, "updatedAt": "garbage"}"#,
    );
    assert_eq!(pr.review, ReviewDecision::Unknown);
    assert_eq!(pr.merge_state, MergeState::Behind);
    assert_eq!(pr.checks, CheckState::NoChecks);
    assert!(pr.checks_detail.is_empty());
    assert_eq!(pr.updated_at, None);
}

#[test]
fn status_contexts_and_running_check_runs_are_read() {
    let pr = one(
        r#"{"number": 8, "statusCheckRollup": {"state": "PENDING", "contexts": {"nodes": [
            {"context": "ci/circleci", "state": "FAILURE", "targetUrl": "https://ci/1"},
            {"name": "build", "status": "IN_PROGRESS", "conclusion": null, "detailsUrl": "https://ci/2"},
            {"name": "docs", "status": "COMPLETED", "conclusion": "SKIPPED", "detailsUrl": ""},
            {"name": "e2e", "status": "COMPLETED", "conclusion": "CANCELLED", "detailsUrl": ""}
        ]}}}"#,
    );
    assert_eq!(pr.checks, CheckState::Pending);
    let conclusions: Vec<_> = pr
        .checks_detail
        .iter()
        .map(|c| (c.name.as_str(), c.conclusion))
        .collect();
    assert_eq!(
        conclusions,
        vec![
            ("ci/circleci", CheckConclusion::Failure),
            ("build", CheckConclusion::Pending),
            ("docs", CheckConclusion::Skipped),
            ("e2e", CheckConclusion::Failure),
        ]
    );
    assert_eq!(pr.checks_detail[0].url, "https://ci/1");
}

#[test]
fn a_response_without_search_nodes_is_an_error() {
    let err = parse(&json(r#"{"errors":[{"message":"boom"}]}"#)).unwrap_err();
    assert!(err.contains("data.search.nodes"), "{err}");
}

#[test]
fn the_merge_queue_position_is_read_when_present() {
    let queued = one(r#"{"number": 9, "mergeQueueEntry": {"position": 3, "state": "QUEUED"}}"#);
    assert_eq!(queued.queue_position, Some(3));
    let plain = one(r#"{"number": 9, "mergeQueueEntry": null}"#);
    assert_eq!(plain.queue_position, None);
}

#[test]
fn nodes_without_a_number_are_skipped_and_the_order_is_kept() {
    let value = json(
        r#"{"data":{"search":{"nodes":[{"number": 5}, {"title": "no number"}, {"number": 2}]}}}"#,
    );
    let prs = parse(&value).unwrap();
    assert_eq!(prs.iter().map(|pr| pr.number).collect::<Vec<_>>(), vec![5, 2]);
    assert_eq!(prs[0].title, "");
    assert_eq!(prs[0].checks, CheckState::NoChecks);
}

#[test]
fn the_checks_list_puts_failures_first_then_pending_unknown_passed_skipped() {
    let pr = one(
        r#"{"number": 3, "statusCheckRollup": {"state": "FAILURE", "contexts": {"nodes": [
            {"name": "ok", "status": "COMPLETED", "conclusion": "SUCCESS"},
            {"name": "skip", "status": "COMPLETED", "conclusion": "SKIPPED"},
            {"name": "bad", "status": "COMPLETED", "conclusion": "FAILURE"},
            {"name": "wait", "status": "QUEUED", "conclusion": null},
            {"name": "bad2", "status": "COMPLETED", "conclusion": "TIMED_OUT"}
        ]}}}"#,
    );
    let names: Vec<&str> = pr
        .checks_failures_first()
        .into_iter()
        .map(|c| c.name.as_str())
        .collect();
    assert_eq!(names, vec!["bad", "bad2", "wait", "ok", "skip"]);
}
