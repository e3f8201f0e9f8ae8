use conveyor::command::command_output;
use conveyor::github::{graphql_answer, CliGh, Variable, MISSING};
use conveyor::json::Json;

#[test]
fn graphql_argv_passes_the_query_file_and_typed_variables() {
    let args = CliGh::graphql_args(
        "query($q: String!, $first: Int!) { x }",
        &[("q", "is:pr".into()), ("first", 20u64.into())],
    );
    assert_eq!(
        args,
        vec![
            "api",
            "graphql",
            "-f",
            "query=query($q: String!, $first: Int!) { x }",
            "-f",
            "q=is:pr",
            "-F",
            "first=20",
        ]
    );
}

#[test]
fn variables_convert_from_text_and_numbers() {
    assert_eq!(Variable::from("a"), Variable::Text("a".to_string()));
    assert_eq!(Variable::from("b".to_string()), Variable::Text("b".to_string()));
    assert_eq!(Variable::from(7u64), Variable::Number(7));
    assert_eq!(Variable::from(9usize), Variable::Number(9));
    assert_eq!(Variable::text("c"), Variable::Text("c".to_string()));
}

#[test]
fn the_current_repo_is_asked_for_by_name_with_owner() {
    assert_eq!(
        CliGh::current_repo_args(),
        vec!["repo", "view", "--json", "nameWithOwner", "--jq", ".nameWithOwner"]
    );
    assert_eq!(
        MISSING,
        "gh not found on PATH; install gh (brew install gh) and run gh auth login"
    );
    assert_eq!(CliGh::graphql_args("q", &[]), vec!["api", "graphql", "-f", "query=q"]);
}

#[test]
fn the_failed_step_log_is_read_with_run_view() {
    assert_eq!(
        CliGh::log_failed_args(34509123916, 102978569297, "acme/webapp"),
        vec![
            "run",
            "view",
            "34509123916",
            "--job",
            "102978569297",
            "--log-failed",
            "-R",
            "acme/webapp",
        ]
    );
}

#[test]
fn graphql_returns_the_parsed_json_from_stdout() {
    let value = graphql_answer(true, "{\"data\":{\"ok\":true}}\n", "", "exit status: 0").unwrap();
    let ok = value.get("data").and_then(|data| data.get("ok"));
    assert!(matches!(ok, Some(Json::Bool(true))));
}

#[test]
fn a_failing_gh_reports_its_stderr() {
    let err = graphql_answer(false, "", "gh: HTTP 401: Bad credentials\n", "exit status: 1").unwrap_err();
    assert_eq!(err, "gh: HTTP 401: Bad credentials");
    let err = command_output(false, String::new(), "gh: HTTP 401: Bad credentials\n", "gh", "exit status: 1")
        .unwrap_err();
    assert_eq!(err, "gh: HTTP 401: Bad credentials");
}

#[test]
fn an_answer_that_is_not_json_says_so() {
    let err = graphql_answer(true, "<html>rate limited</html>", "", "exit status: 0").unwrap_err();
    assert!(err.starts_with("gh returned invalid JSON: "), "{err}");
    assert!(err.len() > "gh returned invalid JSON: ".len(), "with the parser's message: {err}");
    assert_eq!(
        graphql_answer(false, "", "", "exit status: 4").unwrap_err(),
        "gh exited with exit status: 4"
    );
}
