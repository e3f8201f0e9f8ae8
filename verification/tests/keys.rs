use conveyor::app::{Action, App, Input, Key, KeyCode, Mode, Request, Rows, Stage};
use conveyor::config::Config;
use conveyor::model::builds::{Build, BuildStatus, Builds};
use conveyor::model::deployed::{Deployed, Deployment};
use conveyor::model::prs::{Check, CheckConclusion, PullRequest};

const SECOND: u128 = 1_000_000_000;
const NOW: u128 = 1_789_052_400 * SECOND;

fn pr(number: u64, title: &str) -> PullRequest {
    PullRequest {
        number,
        title: title.to_string(),
        url: format!("https://github.com/acme/webapp/pull/{number}"),
        repo: "acme/webapp".to_string(),
        ..PullRequest::default()
    }
}

fn three() -> Vec<PullRequest> {
    vec![pr(1, "alpha"), pr(2, "beta"), pr(3, "gamma")]
}

fn app() -> App {
    App::at(NOW, Config::default())
}

fn key(code: KeyCode) -> Key {
    Key { code, control: false }
}

fn ch(c: char) -> Key {
    key(KeyCode::Char(c))
}

fn ctrl(c: char) -> Key {
    Key { code: KeyCode::Char(c), control: true }
}

fn press(app: &mut App, keys: &[Key]) -> Vec<Action> {
    keys.iter().map(|k| app.handle_key(*k)).collect()
}

fn with_prs(prs: Vec<PullRequest>) -> App {
    let mut app = app();
    app.receive(Stage::Prs, Ok(Rows::Prs(prs)));
    app
}

fn selected_number(app: &App) -> Option<u64> {
    app.prs.selected().map(|pr| pr.number)
}

fn build(id: u64, run_number: u64, status: BuildStatus, sha: &str) -> Build {
    Build {
        id,
        run_number,
        status,
        sha: sha.to_string(),
        url: format!("https://github.com/acme/webapp/actions/runs/{id}"),
        ..Build::default()
    }
}

#[test]
fn j_k_g_and_gg_move_the_selection_and_stop_at_the_ends() {
    let mut app = with_prs(three());
    assert_eq!(selected_number(&app), Some(1));
    press(&mut app, &[ch('j'), ch('j'), ch('j')]);
    assert_eq!(selected_number(&app), Some(3), "the last row holds");
    press(&mut app, &[ch('k')]);
    assert_eq!(selected_number(&app), Some(2));
    press(&mut app, &[ch('g'), ch('g')]);
    assert_eq!(selected_number(&app), Some(1));
    press(&mut app, &[ch('G')]);
    assert_eq!(selected_number(&app), Some(3));
    press(&mut app, &[key(KeyCode::Up), key(KeyCode::Up), key(KeyCode::Up)]);
    assert_eq!(selected_number(&app), Some(1), "the first row holds");
    press(&mut app, &[key(KeyCode::Down)]);
    assert_eq!(selected_number(&app), Some(2));
}

#[test]
fn a_single_g_waits_and_any_other_key_cancels_it() {
    let mut app = with_prs(three());
    press(&mut app, &[ch('G'), ch('g')]);
    assert!(app.pending_g);
    assert_eq!(selected_number(&app), Some(3));
    press(&mut app, &[ch('z'), ch('g')]);
    assert_eq!(selected_number(&app), Some(3), "the z in between cancelled the first g");
    press(&mut app, &[ch('g')]);
    assert_eq!(selected_number(&app), Some(1));
    assert!(!app.pending_g);
}

#[test]
fn p_opens_the_selected_pull_request_once_per_second() {
    let mut app = with_prs(three());
    let actions = press(&mut app, &[ch('j'), ch('p'), ch('p')]);
    assert_eq!(
        actions,
        vec![
            Action::Continue,
            Action::Open("https://github.com/acme/webapp/pull/2".to_string()),
            Action::Continue,
        ],
        "the second press within a second is debounced"
    );
    app.step(Input::Tick(NOW + 2 * SECOND));
    assert_eq!(
        app.handle_key(ch('p')),
        Action::Open("https://github.com/acme/webapp/pull/2".to_string())
    );
    assert_eq!(
        app.handle_key(ch('k')),
        Action::Continue
    );
    assert_eq!(
        app.handle_key(ch('p')),
        Action::Open("https://github.com/acme/webapp/pull/1".to_string()),
        "another address is not held back"
    );
}

#[test]
fn y_copies_the_url_and_the_footer_confirms_it() {
    let mut app = with_prs(three());
    assert_eq!(
        app.handle_key(ch('y')),
        Action::Copy("https://github.com/acme/webapp/pull/1".to_string())
    );
    assert_eq!(app.notice.as_deref(), Some("copied #1"));
    app.handle_key(ch('j'));
    assert_eq!(app.notice, None, "the next key clears the notice");
}

#[test]
fn b_opens_the_failing_check_first_and_says_when_there_are_none() {
    let mut with_checks = pr(5, "checks");
    with_checks.checks_detail = vec![
        Check { name: "ok".into(), conclusion: CheckConclusion::Success, url: "https://ci/ok".into() },
        Check { name: "bad".into(), conclusion: CheckConclusion::Failure, url: String::new() },
        Check { name: "bad2".into(), conclusion: CheckConclusion::Failure, url: "https://ci/bad2".into() },
    ];
    let mut app = with_prs(vec![with_checks, pr(6, "none")]);
    assert_eq!(app.handle_key(ch('b')), Action::Open("https://ci/bad2".to_string()));
    app.handle_key(ch('j'));
    assert_eq!(app.handle_key(ch('b')), Action::Continue);
    assert_eq!(app.notice.as_deref(), Some("no checks yet"));
    assert_eq!(app.handle_key(ch('Y')), Action::Continue);
    assert_eq!(app.notice.as_deref(), Some("no checks yet"));
}

#[test]
fn nothing_selected_is_said_in_the_footer() {
    let mut app = app();
    assert_eq!(app.handle_key(ch('p')), Action::Continue);
    assert_eq!(app.notice.as_deref(), Some("nothing selected"));
    app.handle_key(ch('3'));
    app.handle_key(ch('b'));
    assert_eq!(app.notice.as_deref(), Some("nothing selected"));
}

#[test]
fn main_builds_link_their_pull_request_by_number_when_the_squash_title_has_one() {
    let mut app = app();
    let mut squashed = build(11, 26, BuildStatus::Success, "abc");
    squashed.pr_number = Some(4840);
    let plain = build(12, 25, BuildStatus::Failure, "def");
    app.receive(
        Stage::Builds,
        Ok(Rows::Builds(Builds { repo: "acme/webapp".to_string(), builds: vec![squashed, plain] })),
    );
    app.handle_key(ch('3'));
    assert_eq!(app.focus, Stage::Builds);
    assert_eq!(
        app.handle_key(ch('p')),
        Action::Open("https://github.com/acme/webapp/pull/4840".to_string())
    );
    assert_eq!(
        app.handle_key(ch('Y')),
        Action::Copy("https://github.com/acme/webapp/actions/runs/11".to_string())
    );
    assert_eq!(app.notice.as_deref(), Some("copied the build URL"));
    app.handle_key(ch('j'));
    assert_eq!(app.handle_key(ch('p')), Action::Continue);
    assert_eq!(app.notice.as_deref(), Some("no pull request for this run"));
}

#[test]
fn deployed_b_opens_the_main_build_of_the_deployed_sha() {
    let mut app = app();
    app.receive(
        Stage::Builds,
        Ok(Rows::Builds(Builds {
            repo: "acme/webapp".to_string(),
            builds: vec![build(21, 30, BuildStatus::Success, "aaaa"), build(20, 29, BuildStatus::Success, "bbbb")],
        })),
    );
    let env = |name: &str, sha: Option<&str>| Deployment {
        env: name.to_string(),
        sha: sha.map(str::to_string),
        ..Deployment::default()
    };
    app.receive(
        Stage::Deployed,
        Ok(Rows::Deployed(Deployed {
            system: "api".to_string(),
            rows: vec![
                env("staging", Some("bbbb")),
                env("prod", Some("0123456789abcdef")),
                env("dev", None),
            ],
        })),
    );
    app.handle_key(ch('4'));
    assert_eq!(
        app.handle_key(ch('b')),
        Action::Open("https://github.com/acme/webapp/actions/runs/20".to_string())
    );
    let staging = app.deployed.selected().unwrap().clone();
    assert_eq!(app.behind_main(&staging), Some(1));
    app.handle_key(ch('j'));
    app.handle_key(ch('b'));
    assert_eq!(app.notice.as_deref(), Some("no main build found for 01234567"));
    app.handle_key(ch('j'));
    app.handle_key(ch('b'));
    assert_eq!(app.notice.as_deref(), Some("no deployed sha to look up"));
    app.handle_key(ch('p'));
    assert_eq!(app.notice.as_deref(), Some("no pull request for this commit"));
}

#[test]
fn focus_moves_with_h_l_tab_and_the_digits() {
    let mut app = app();
    press(&mut app, &[ch('h')]);
    assert_eq!(app.focus, Stage::Prs, "h stops at the first column");
    press(&mut app, &[ch('l'), ch('l'), ch('l'), ch('l')]);
    assert_eq!(app.focus, Stage::Deployed, "l stops at the last column");
    press(&mut app, &[key(KeyCode::Tab)]);
    assert_eq!(app.focus, Stage::Prs, "Tab wraps round");
    press(&mut app, &[key(KeyCode::BackTab)]);
    assert_eq!(app.focus, Stage::Deployed, "BackTab wraps round");
    press(&mut app, &[ch('2')]);
    assert_eq!(app.focus, Stage::Queue);
    press(&mut app, &[ch('1')]);
    assert_eq!(app.focus, Stage::Prs);
    press(&mut app, &[ch('5')]);
    assert_eq!(app.focus, Stage::Prs, "there is no fifth column");
}

#[test]
fn the_filter_applies_while_typed_is_kept_by_enter_and_cleared_by_esc() {
    let mut app = with_prs(vec![pr(1, "alpha"), pr(2, "beta"), pr(3, "gamma"), pr(12, "delta")]);
    press(&mut app, &[ch('/'), ch('A'), ch('m')]);
    assert_eq!(app.mode, Mode::Filter("Am".to_string()));
    assert_eq!(app.filter(), Some("Am"));
    assert_eq!(app.focused_counts(), (1, 4), "the query matches in lowercase");
    assert_eq!(selected_number(&app), Some(3));
    press(&mut app, &[key(KeyCode::Backspace), key(KeyCode::Backspace), ch('#'), ch('1')]);
    assert_eq!(app.focused_counts(), (2, 4), "#1 and #12");
    press(&mut app, &[key(KeyCode::Enter)]);
    assert_eq!(app.mode, Mode::Normal);
    assert_eq!(app.query.as_deref(), Some("#1"));
    press(&mut app, &[ch('j')]);
    assert_eq!(selected_number(&app), Some(12), "j moves again once the query is kept");
    assert_eq!(app.queue.filter.as_deref(), Some("#1"), "every column takes the query");
    press(&mut app, &[ch('/')]);
    assert_eq!(app.mode, Mode::Filter("#1".to_string()), "/ reopens the kept query");
    press(&mut app, &[key(KeyCode::Esc)]);
    assert_eq!(app.mode, Mode::Normal);
    assert_eq!(app.query, None);
    assert_eq!(app.focused_counts(), (4, 4));
    assert_eq!(app.prs.filter, None);
}

#[test]
fn esc_closes_the_details_then_the_zoom_then_the_kept_filter() {
    let mut app = with_prs(three());
    press(&mut app, &[ch('/'), ch('a'), key(KeyCode::Enter), ch('z'), ch('d')]);
    assert!(app.details && app.zoom && app.query.is_some());
    press(&mut app, &[key(KeyCode::Esc)]);
    assert!(!app.details && app.zoom && app.query.is_some());
    press(&mut app, &[key(KeyCode::Esc)]);
    assert!(!app.zoom && app.query.is_some());
    press(&mut app, &[key(KeyCode::Esc)]);
    assert_eq!(app.query, None);
    assert_eq!(app.focused_counts(), (3, 3));
    press(&mut app, &[key(KeyCode::Esc)]);
    assert_eq!(app.query, None);
}

#[test]
fn an_empty_query_kept_by_enter_is_no_query() {
    let mut app = with_prs(three());
    press(&mut app, &[ch('/'), key(KeyCode::Enter)]);
    assert_eq!(app.query, None);
    assert_eq!(app.mode, Mode::Normal);
}

#[test]
fn ctrl_d_and_ctrl_u_scroll_half_a_page_and_stop_at_the_top() {
    let mut app = with_prs(three());
    app.details_page = 10;
    press(&mut app, &[ctrl('d')]);
    assert_eq!(app.details_scroll, 5, "half a page");
    press(&mut app, &[ctrl('d'), ctrl('u'), ctrl('u'), ctrl('u')]);
    assert_eq!(app.details_scroll, 0, "the top holds");
    app.details_page = 1;
    press(&mut app, &[ctrl('d')]);
    assert_eq!(app.details_scroll, 1, "at least a line");
    press(&mut app, &[ctrl('d'), ch('j')]);
    assert_eq!(app.details_scroll, 0, "a selection move returns to the top");
    press(&mut app, &[ctrl('d'), ch('l')]);
    assert_eq!(app.details_scroll, 0, "a focus change too");
}

#[test]
fn the_scroll_keys_work_while_a_filter_is_typed_and_never_reach_the_query() {
    let mut app = with_prs(three());
    app.details_page = 10;
    press(&mut app, &[ch('/'), ch('4'), ctrl('d'), ctrl('u'), ctrl('d')]);
    assert_eq!(app.details_scroll, 5);
    assert_eq!(app.mode, Mode::Filter("4".to_string()));
}

#[test]
fn any_key_closes_the_help_and_does_nothing_else() {
    let mut app = with_prs(three());
    app.details_page = 10;
    press(&mut app, &[ch('?')]);
    assert_eq!(app.mode, Mode::Help);
    assert_eq!(app.handle_key(ctrl('d')), Action::Continue);
    assert_eq!(app.mode, Mode::Normal);
    assert_eq!(app.details_scroll, 0, "the help key did not scroll");
    assert_eq!(app.handle_key(ch('q')), Action::Quit);
}

#[test]
fn ctrl_c_quits_in_any_mode_and_q_outside_the_filter() {
    let mut app = with_prs(three());
    press(&mut app, &[ch('/')]);
    assert_eq!(app.handle_key(ch('q')), Action::Continue, "q is typed into the query");
    assert_eq!(app.handle_key(ctrl('c')), Action::Quit);
    let mut app = with_prs(three());
    assert_eq!(app.handle_key(ch('q')), Action::Quit);
}

#[test]
fn r_and_shift_r_ask_for_refreshes_through_the_step() {
    let mut app = with_prs(three());
    let turn = app.step(Input::Key(ch('r')));
    assert_eq!(turn.action, Action::Refresh(Stage::Prs));
    assert_eq!(turn.requests, vec![Request::Refresh(Stage::Prs)]);
    let turn = app.step(Input::Key(ch('R')));
    assert_eq!(
        turn.requests,
        vec![
            Request::Refresh(Stage::Prs),
            Request::Refresh(Stage::Queue),
            Request::Refresh(Stage::Builds),
            Request::Refresh(Stage::Deployed),
        ]
    );
    let turn = app.step(Input::Key(ch('q')));
    assert_eq!(turn.action, Action::Quit);
    assert!(turn.requests.is_empty());
}

#[test]
fn the_step_asks_once_for_the_jobs_of_the_selected_run_then_of_failing_builds() {
    let mut app = app();
    let turn = app.step(Input::Data(
        Stage::Builds,
        Ok(Rows::Builds(Builds {
            repo: "acme/webapp".to_string(),
            builds: vec![
                build(31, 3, BuildStatus::Success, "c"),
                build(30, 2, BuildStatus::Failure, "b"),
                build(29, 1, BuildStatus::Failure, "a"),
            ],
        })),
    ));
    assert_eq!(turn.requests, vec![Request::Jobs { run_id: 30 }], "a failing build first");
    let turn = app.step(Input::Key(ch('3')));
    assert_eq!(turn.requests, vec![Request::Jobs { run_id: 31 }], "then the selected run");
    let turn = app.step(Input::Tick(NOW + SECOND));
    assert_eq!(turn.requests, vec![Request::Jobs { run_id: 29 }]);
    let turn = app.step(Input::Tick(NOW + 2 * SECOND));
    assert!(turn.requests.is_empty(), "every one is on its way");
    assert_eq!(app.now, NOW + 2 * SECOND);
}

#[test]
fn a_refresh_keeps_the_row_order_and_the_selection_follows_the_number() {
    let mut app = with_prs(three());
    press(&mut app, &[ch('j')]);
    app.receive(Stage::Prs, Ok(Rows::Prs(vec![pr(4, "d"), pr(3, "c"), pr(2, "b")])));
    let numbers: Vec<u64> = app.prs.all().iter().map(|pr| pr.number).collect();
    assert_eq!(numbers, vec![2, 3, 4], "kept order, the new one appended");
    assert_eq!(selected_number(&app), Some(2), "the selection follows #2");
    app.receive(Stage::Prs, Ok(Rows::Prs(vec![pr(4, "d")])));
    assert_eq!(selected_number(&app), Some(4), "falls back to the first row");
}

#[test]
fn a_failed_fetch_keeps_the_rows_and_the_next_success_clears_the_error() {
    let mut app = with_prs(three());
    app.step(Input::Fetching(Stage::Prs));
    assert!(app.any_refreshing());
    app.receive(Stage::Prs, Err("gh: HTTP 401: Bad credentials".to_string()));
    assert!(!app.any_refreshing());
    assert_eq!(app.prs.all().len(), 3);
    assert_eq!(app.focused_error(), Some("gh: HTTP 401: Bad credentials"));
    app.receive(Stage::Prs, Ok(Rows::Prs(three())));
    assert_eq!(app.focused_error(), None);
    assert_eq!(app.focused_fetched_at(), Some(NOW));
}

#[test]
fn a_failed_outside_action_shows_in_the_footer() {
    let mut app = with_prs(three());
    app.outside_failed("open: exec failed".to_string());
    assert_eq!(app.notice.as_deref(), Some("open: exec failed"));
    assert_eq!(app.prs.all().len(), 3);
}

#[test]
fn typing_a_character_and_erasing_it_leaves_the_filter_as_it_was() {
    let mut app = with_prs(three());
    press(&mut app, &[ch('/'), ch('a'), ch('l')]);
    let before = (app.mode.clone(), app.prs.filter.clone(), app.focused_counts());
    press(&mut app, &[ch('x'), key(KeyCode::Backspace)]);
    assert_eq!((app.mode.clone(), app.prs.filter.clone(), app.focused_counts()), before);
    assert_eq!(app.queue.filter.as_deref(), Some("al"));
}

#[test]
fn moves_keep_the_selection_on_a_shown_row() {
    let mut app = with_prs(three());
    press(&mut app, &[ch('j'), ch('j'), ch('j'), ch('j')]);
    assert_eq!(app.prs.list.selected, Some(2));
    press(&mut app, &[ch('G'), ch('k'), ch('k'), ch('k'), ch('k')]);
    assert_eq!(app.prs.list.selected, Some(0));
    assert!(app.prs.selected().is_some());
}
