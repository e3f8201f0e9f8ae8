use conveyor::model::builds::{parse_pull_numbers, parse_runs, pr_number_from_title, BuildStatus};
use conveyor::json::Json;

const SECOND: u128 = 1_000_000_000;

fn to_json(value: &serde_json::Value) -> Json {
    match value {
        serde_json::Value::Null => Json::Null,
        serde_json::Value::Bool(b) => Json::Bool(*b),
        serde_json::Value::Number(n) => Json::Number(n.as_u64()),
        serde_json::Value::String(s) => Json::Text(s.clone()),
        serde_json::Value::Array(items) => Json::Array(items.iter().map(to_json).collect()),
        serde_json::Value::Object(map) => {
            Json::Object(map.iter().map(|(k, v)| (k.clone(), to_json(v))).collect())
        }
    }
}

fn json(text: &str) -> Json {
    to_json(&serde_json::from_str(text).unwrap())
}

/// A workflow-runs response of the shape the Actions API returns, newest first.
const RUNS: &str = r#"{"total_count": 4, "workflow_runs": [
    {"id": 34509123916, "run_number": 24, "status": "completed", "conclusion": "failure",
     "head_sha": "b0b5136548f2d7c37a7c09c03e39e34aadad16bd",
     "display_title": "docs: merge queue column in README",
     "actor": {"login": "piacsek"},
     "html_url": "https://github.com/piacsek/conveyor/actions/runs/34509123916",
     "run_started_at": "2026-09-10T17:35:19Z", "updated_at": "2026-09-10T17:39:07Z"},
    {"id": 34508000001, "run_number": 23, "status": "completed", "conclusion": "success",
     "head_sha": "a1", "display_title": "Phase 2: merge queue column", "actor": {"login": "piacsek"},
     "html_url": "https://github.com/piacsek/conveyor/actions/runs/34508000001",
     "run_started_at": "2026-09-10T16:00:00Z", "updated_at": "2026-09-10T16:03:00Z"},
    {"id": 34507000001, "run_number": 22, "status": "completed", "conclusion": "success",
     "head_sha": "a2", "display_title": "Phase 1", "actor": {"login": "piacsek"},
     "html_url": "u", "run_started_at": "2026-09-10T15:00:00Z", "updated_at": "2026-09-10T15:03:00Z"},
    {"id": 34506000001, "run_number": 21, "status": "completed", "conclusion": "success",
     "head_sha": "a3", "display_title": "Phase 0", "actor": {"login": "piacsek"},
     "html_url": "u", "run_started_at": "2026-09-10T14:00:00Z", "updated_at": "2026-09-10T14:03:00Z"}
]}"#;

#[test]
fn parses_the_verbatim_runs_response_newest_first() {
    let builds = parse_runs(&json(RUNS));

    assert_eq!(builds.len(), 4);
    let latest = &builds[0];
    assert_eq!(latest.id, 34_509_123_916);
    assert_eq!(latest.run_number, 24);
    assert_eq!(latest.status, BuildStatus::Failure);
    assert_eq!(
        latest.sha,
        "b0b5136548f2d7c37a7c09c03e39e34aadad16bd"[..8].to_string() + &latest.sha[8..]
    );
    assert!(latest.sha.starts_with("b0b51365"));
    assert!(latest.title.starts_with("docs: merge queue column in README"));
    assert_eq!(latest.actor, "piacsek");
    assert_eq!(
        latest.url,
        "https://github.com/piacsek/conveyor/actions/runs/34509123916"
    );
    assert_eq!(latest.started_at, Some(1_789_061_719 * SECOND));
    assert_eq!(latest.finished_at, Some(1_789_061_947 * SECOND));
    assert_eq!(latest.duration(), Some(228 * SECOND));
    assert_eq!(latest.pr_number, None, "rebase merges carry no (#N) suffix");
    assert_eq!(builds[1].status, BuildStatus::Success);
}

#[test]
fn statuses_map_from_status_and_conclusion() {
    let value = json(
        r#"{"workflow_runs": [
        {"id": 1, "run_number": 1, "status": "in_progress", "conclusion": null, "head_sha": "a", "display_title": "x", "html_url": "u", "actor": {"login": "me"}, "run_started_at": "2026-09-10T17:35:19Z", "updated_at": "2026-09-10T17:36:19Z"},
        {"id": 2, "run_number": 2, "status": "queued", "conclusion": null, "head_sha": "b", "display_title": "y", "html_url": "u"},
        {"id": 3, "run_number": 3, "status": "completed", "conclusion": "cancelled", "head_sha": "c", "display_title": "z (#77)", "html_url": "u"},
        {"id": 4, "run_number": 4, "status": "completed", "conclusion": "something_new", "head_sha": "d", "display_title": "w", "html_url": "u"}
    ]}"#,
    );
    let builds = parse_runs(&value);
    let statuses: Vec<_> = builds.iter().map(|b| b.status).collect();
    assert_eq!(
        statuses,
        vec![
            BuildStatus::Running,
            BuildStatus::Queued,
            BuildStatus::Cancelled,
            BuildStatus::Unknown
        ]
    );
    assert_eq!(builds[0].duration(), None, "a running build has no duration yet");
    assert_eq!(
        builds[0].elapsed((1_789_061_719 + 90) * SECOND),
        Some(90 * SECOND)
    );
    assert_eq!(builds[2].pr_number, Some(77));
    assert_eq!(builds[2].actor, "");
}

#[test]
fn the_squash_suffix_gives_the_pull_request_number() {
    assert_eq!(pr_number_from_title("feat: thing (#4821)"), Some(4821));
    assert_eq!(pr_number_from_title("feat: thing (#4821) trailing"), None);
    assert_eq!(pr_number_from_title("no number"), None);
}

#[test]
fn the_commit_pulls_response_gives_the_first_pull_request() {
    let value = json(
        r#"[{"number": 3, "title": "Phase 2: merge queue column", "user": {"login": "piacsek"},
             "html_url": "https://github.com/piacsek/conveyor/pull/3", "state": "closed"},
            {"number": 9, "title": "later", "user": {"login": "other"}, "html_url": "x"}]"#,
    );
    let pr = parse_pull_numbers(&value).unwrap();
    assert_eq!(pr.number, 3);
    assert_eq!(pr.title, "Phase 2: merge queue column");
    assert_eq!(pr.author, "piacsek");
    assert_eq!(pr.url, "https://github.com/piacsek/conveyor/pull/3");
    assert!(parse_pull_numbers(&json("[]")).is_none());
}

#[test]
fn a_run_without_an_id_is_skipped_and_a_response_without_runs_is_empty() {
    let value = json(r#"{"workflow_runs": [{"run_number": 1}, {"id": 5, "run_number": 2}]}"#);
    let builds = parse_runs(&value);
    assert_eq!(builds.len(), 1);
    assert_eq!(builds[0].id, 5);
    assert_eq!(builds[0].status, BuildStatus::Unknown);
    assert!(parse_runs(&json(r#"{"total_count": 0}"#)).is_empty());
}

#[test]
fn a_squash_number_needs_digits_between_the_hash_and_the_parenthesis() {
    assert_eq!(pr_number_from_title("x (#)"), None);
    assert_eq!(pr_number_from_title("x (#12a)"), None);
    assert_eq!(pr_number_from_title("(#1) and (#2)"), Some(2));
    assert_eq!(pr_number_from_title("x (#99999999999999999999)"), None);
}
