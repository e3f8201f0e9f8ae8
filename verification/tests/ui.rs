use conveyor::app::{App, JobsState, Key, KeyCode, Rows, Stage};
use conveyor::config::Config;
use conveyor::model::builds::{Build, BuildStatus, Builds, PullRef};
use conveyor::model::deployed::{Deployed, Deployment};
use conveyor::model::jobs::Job;
use conveyor::model::prs::{Check, CheckConclusion, CheckState, MergeState, PullRequest, ReviewDecision};
use conveyor::model::queue::{Queue, QueueEntry, QueueState};
use conveyor::text::{clock, refreshed, wrap};
use conveyor::ui::card::{card, meta, Look, Segment};
use conveyor::ui::columns::{column_cards, column_message, column_title};
use conveyor::ui::details::{details, scroll_marks};
use conveyor::ui::footer::footer_text;
use conveyor::ui::rows::{build_jobs, build_row, deployed_row, pr_checks, pr_row, queue_row};
use conveyor::ui::style::Tone;

const SECOND: u128 = 1_000_000_000;
const NOW: u128 = 1_800_000_000 * SECOND;

fn text(line: &[Segment]) -> String {
    line.iter().map(|s| s.text.as_str()).collect()
}

fn texts(lines: &[Vec<Segment>]) -> Vec<String> {
    lines.iter().map(|l| text(l)).collect()
}

fn look(tone: Option<Tone>, dim: bool, bold: bool) -> Look {
    Look { tone, dim, bold }
}

#[test]
fn wrap_fills_words_greedily_up_to_the_width() {
    assert_eq!(wrap("one two three", 9, 3), vec!["one two", "three"]);
    assert_eq!(wrap("one two three", 40, 2), vec!["one two three"]);
}

#[test]
fn wrap_marks_the_last_line_when_it_runs_out_of_lines() {
    assert_eq!(
        wrap("alpha beta gamma delta", 11, 2),
        vec!["alpha beta", "gamma delta"],
        "two lines is exactly enough, so nothing is marked"
    );
    assert_eq!(
        wrap("alpha beta gamma delta epsilon", 11, 2),
        vec!["alpha beta", "gamma delt…"],
        "the dropped words leave an ellipsis"
    );
}

#[test]
fn wrap_hard_cuts_a_word_longer_than_the_width() {
    assert_eq!(wrap("abcdefghij", 4, 3), vec!["abcd", "efgh", "ij"]);
    assert_eq!(wrap("abcdefghij", 4, 2), vec!["abcd", "efg…"]);
}

#[test]
fn wrap_of_nothing_is_nothing() {
    assert!(wrap("", 10, 2).is_empty());
    assert!(wrap("   ", 10, 2).is_empty());
    assert!(wrap("text", 0, 2).is_empty());
    assert!(wrap("text", 10, 0).is_empty());
}

#[test]
fn wrap_collapses_runs_of_whitespace() {
    assert_eq!(wrap("  a \t b\n c  ", 3, 3), vec!["a b", "c"]);
}

#[test]
fn the_footer_says_just_now_for_three_seconds_then_the_wall_clock_time() {
    assert_eq!(refreshed(NOW, NOW + 2 * SECOND, 0), "refreshed just now");
    assert_eq!(refreshed(NOW, NOW + 12 * SECOND, 0), "refreshed at 08:00:00");
    assert_eq!(refreshed(NOW, NOW + 13 * SECOND, -3 * 3600), "refreshed at 05:00:00");
    assert_eq!(refreshed(NOW + SECOND, NOW, 0), "refreshed just now", "a stamp from the future");
    assert_eq!(clock(NOW + 3599 * SECOND, 0), "08:59:59");
    assert_eq!(clock(0, -1), "23:59:59");
    assert_eq!(clock(0, 0), "00:00:00");
}

#[test]
fn a_card_pads_its_title_to_the_room_the_right_text_leaves() {
    let lines = card(
        true,
        ('✓', Tone::Green),
        "#1 title".to_string(),
        "2h".to_string(),
        vec![meta(&["a".to_string(), String::new(), "b".to_string()], 20)],
        20,
    );
    assert_eq!(texts(&lines), vec!["▌ ✓ #1 title      2h", "    a · b"]);
    assert_eq!(text(&lines[0]).chars().count(), 20);
    assert_eq!(lines[0][0].look, look(Some(Tone::Cyan), false, false));
    assert_eq!(lines[0][4].look, look(None, false, true), "the selected title is bold");
    assert_eq!(lines[0][6].look, look(None, true, false), "the right text is dim");
    let plain = card(false, ('✗', Tone::Red), "a very long title".to_string(), "x".to_string(), vec![], 12);
    assert_eq!(texts(&plain), vec!["  ✗ a ver… x"]);
}

fn pr(number: u64, title: &str) -> PullRequest {
    PullRequest {
        number,
        title: title.to_string(),
        url: format!("https://github.com/acme/webapp/pull/{number}"),
        repo: "acme/webapp".to_string(),
        head_ref: "retry-hooks".to_string(),
        ..PullRequest::default()
    }
}

#[test]
fn a_pull_request_card_shows_the_repo_branch_review_size_and_checks() {
    let mut p = pr(4821, "Retry hooks");
    p.review = ReviewDecision::Approved;
    p.additions = 12;
    p.deletions = 3;
    p.is_draft = true;
    p.checks = CheckState::Failure;
    p.updated_at = Some(NOW - 2 * 3600 * SECOND);
    p.queue_position = Some(2);
    p.checks_detail = vec![
        Check { name: "lint".into(), conclusion: CheckConclusion::Success, url: String::new() },
        Check { name: "test".into(), conclusion: CheckConclusion::Failure, url: String::new() },
        Check { name: "e2e".into(), conclusion: CheckConclusion::Pending, url: String::new() },
    ];
    let lines = pr_row(&p, NOW, false, 60);
    let t = texts(&lines);
    assert!(t[0].starts_with("  ✗ #4821 Retry hooks"), "{t:?}");
    assert!(t[0].ends_with("⇥2 2h"), "{t:?}");
    assert_eq!(t[1], "    webapp · retry-hooks · draft · approved · +12 −3");
    assert_eq!(t[2], "    ✗ test ● e2e");
    assert_eq!(lines[2][1].look, look(Some(Tone::Red), false, false));
}

#[test]
fn the_checks_line_stops_when_the_next_check_does_not_fit() {
    let mut p = pr(1, "x");
    p.checks_detail = vec![
        Check { name: "first".into(), conclusion: CheckConclusion::Failure, url: String::new() },
        Check { name: "second".into(), conclusion: CheckConclusion::Failure, url: String::new() },
    ];
    assert_eq!(text(&pr_checks(&p, 4 + 10)), "✗ first");
    p.checks_detail.clear();
    p.checks = CheckState::Success;
    assert_eq!(text(&pr_checks(&p, 40)), "checks: success");
    p.merge_state = MergeState::Blocked;
    assert_eq!(text(&pr_checks(&p, 40)), "merge: blocked");
}

fn build(id: u64, run_number: u64, status: BuildStatus) -> Build {
    Build {
        id,
        run_number,
        status,
        sha: "0123456789abcdef".to_string(),
        title: "Speed up CI".to_string(),
        actor: "bot".to_string(),
        url: format!("https://ci/{id}"),
        started_at: Some(NOW - 90 * SECOND),
        ..Build::default()
    }
}

fn job(name: &str, status: BuildStatus, step: Option<&str>) -> Job {
    Job {
        id: 1,
        name: name.to_string(),
        status,
        failed_step: step.map(str::to_string),
        ..Job::default()
    }
}

#[test]
fn a_build_card_shows_the_title_the_run_and_the_failed_job() {
    let b = build(9, 26, BuildStatus::Running);
    let t = texts(&build_row(&b, None, NOW, true, 50));
    assert!(t[0].starts_with("▌ ● run 26"), "{t:?}");
    assert!(t[0].ends_with("1m"), "{t:?}");
    assert_eq!(t[1], "    Speed up CI");
    assert_eq!(t[2], "    bot · run 26 · 1m · running");
    assert_eq!(t[3], "    01234567", "no jobs known: the sha");
    let failed = JobsState::Ready(vec![
        job("audit", BuildStatus::Success, None),
        job("check", BuildStatus::Failure, Some("Run cargo test")),
    ]);
    assert_eq!(text(&build_jobs(&b, Some(&failed), 50)), "✗ check · Run cargo test");
    let ok = JobsState::Ready(vec![job("a", BuildStatus::Success, None), job("b", BuildStatus::Success, None)]);
    assert_eq!(text(&build_jobs(&b, Some(&ok), 50)), "2 jobs ok");
    assert_eq!(text(&build_jobs(&b, Some(&JobsState::Loading), 50)), "jobs: loading…");
    assert_eq!(
        text(&build_jobs(&b, Some(&JobsState::Failed("boom".into())), 50)),
        "jobs: boom"
    );
    let cancelled = build(10, 27, BuildStatus::Cancelled);
    assert_eq!(text(&build_jobs(&cancelled, Some(&failed), 50)), "01234567", "a cancelled run's jobs do not count");
}

#[test]
fn a_queue_card_shows_the_merge_group_run_and_its_failed_job() {
    let mut entry = QueueEntry {
        position: 1,
        state: QueueState::AwaitingChecks,
        number: 4821,
        title: "Retry".to_string(),
        author: "alice".to_string(),
        head_sha: "6babeb79d61cce52".to_string(),
        checks: CheckState::Pending,
        eta: Some(720 * SECOND),
        enqueued_at: Some(NOW - 20 * 60 * SECOND),
        jump: true,
        ..QueueEntry::default()
    };
    let t = texts(&queue_row(&entry, None, NOW, false, 60));
    assert!(t[0].starts_with("  ● #4821 Retry"), "{t:?}");
    assert!(t[0].ends_with("12m"), "{t:?}");
    assert_eq!(t[1], "    alice · position 1 · enqueued 20m ago");
    assert_eq!(t[2], "    no merge-group run yet · jump · 6babeb79");
    assert_eq!(t.len(), 3);
    entry.run = Some(build(42, 313, BuildStatus::Failure));
    let failed = JobsState::Ready(vec![job("check", BuildStatus::Failure, None)]);
    let t = texts(&queue_row(&entry, Some(&failed), NOW, false, 60));
    assert!(t[0].starts_with("  ✗ #4821"), "{t:?}");
    assert_eq!(t[2], "    run 313 · failure · jump · 6babeb79");
    assert_eq!(t[3], "    ✗ check");
}

#[test]
fn a_deployed_card_wraps_the_pull_request_title_and_says_how_far_behind_it_is() {
    let row = Deployment {
        env: "prod".to_string(),
        sha: Some("0123456789abcdef".to_string()),
        pull: Some(PullRef {
            number: 4840,
            title: "Speed up the whole CI pipeline a lot".to_string(),
            author: "bob".to_string(),
            url: "u".to_string(),
        }),
        fetched_at: Some(NOW - 6 * 86_400 * SECOND),
        ..Deployment::default()
    };
    let t = texts(&deployed_row(&row, Some(2), NOW, false, 24));
    assert!(t[0].starts_with("  ◐ prod"), "{t:?}");
    assert!(t[0].ends_with("↓2"), "{t:?}");
    assert_eq!(t[1], "    #4840 Speed up the");
    assert_eq!(t[2], "    whole CI pipeline a…");
    assert_eq!(t[3], "    bob");
    assert_eq!(t[4], "    01234567 · read 6d …", "cut to the room");
    let t = texts(&deployed_row(&row, Some(0), NOW, false, 24));
    assert!(t[0].starts_with("  ✓ prod") && t[0].ends_with("at main"), "{t:?}");
    let unknown = Deployment { env: "dev".to_string(), ..Deployment::default() };
    assert_eq!(texts(&deployed_row(&unknown, None, NOW, false, 24))[1], "    unknown");
    let failed = Deployment {
        env: "dev".to_string(),
        error: Some("ERROR: Active profile expired.".to_string()),
        ..Deployment::default()
    };
    let lines = deployed_row(&failed, None, NOW, false, 24);
    assert!(text(&lines[0]).starts_with("  ✗ dev"));
    assert_eq!(text(&lines[1]), "    ERROR: Active profi…");
    assert_eq!(lines[1][1].look, look(Some(Tone::Red), true, false));
}

fn app_with_prs() -> App {
    let mut app = App::at(NOW, Config::default());
    app.receive(Stage::Prs, Ok(Rows::Prs(vec![pr(1, "alpha"), pr(2, "beta"), pr(3, "gamma")])));
    app
}

#[test]
fn column_titles_count_rows_and_flag_errors_and_running_fetches() {
    let mut app = App::at(NOW, Config::default());
    assert_eq!(column_title(&app, Stage::Prs), "My PRs");
    assert_eq!(column_message(&app, Stage::Prs).as_deref(), Some("fetching…"));
    assert_eq!(column_message(&app, Stage::Deployed).as_deref(), Some("no [[repo.deploy]] configured"));
    app.receive(Stage::Prs, Ok(Rows::Prs(vec![pr(1, "alpha"), pr(2, "beta"), pr(3, "gamma")])));
    assert_eq!(column_title(&app, Stage::Prs), "My PRs (3)");
    app.receive(Stage::Prs, Err("gh: HTTP 401".to_string()));
    assert_eq!(column_title(&app, Stage::Prs), "My PRs (3) ⚠");
    app.fetching(Stage::Prs);
    let title = column_title(&app, Stage::Prs);
    assert!(title.starts_with("My PRs (3) ⚠ "), "{title}");
    assert_eq!(title.chars().count(), "My PRs (3) ⚠ ".chars().count() + 1, "a spinner frame");
    app.receive(Stage::Queue, Ok(Rows::Queue(Queue { repo: "acme/webapp".into(), url: String::new(), entries: vec![] })));
    assert_eq!(column_title(&app, Stage::Queue), "Queue webapp (0)");
    assert_eq!(column_message(&app, Stage::Queue).as_deref(), Some("queue empty"));
    app.receive(Stage::Builds, Ok(Rows::Builds(Builds { repo: "acme/api".into(), builds: vec![] })));
    assert_eq!(column_title(&app, Stage::Builds), "Main api (0)");
    app.receive(Stage::Deployed, Ok(Rows::Deployed(Deployed { system: "api".into(), rows: vec![] })));
    assert_eq!(column_title(&app, Stage::Deployed), "Deployed api (0)");
    assert_eq!(column_message(&app, Stage::Deployed).as_deref(), Some("no environments"));
}

#[test]
fn the_focused_column_draws_its_selected_card_with_the_bar() {
    let mut app = app_with_prs();
    app.handle_key(Key { code: KeyCode::Char('j'), control: false });
    let cards = column_cards(&app, Stage::Prs, 40);
    assert_eq!(cards.len(), 3);
    assert!(text(&cards[1][0]).starts_with("▌"));
    assert!(text(&cards[0][0]).starts_with(" "));
    app.handle_key(Key { code: KeyCode::Char('l'), control: false });
    let cards = column_cards(&app, Stage::Prs, 40);
    assert!(cards.iter().all(|c| text(&c[0]).starts_with("  ")), "no bar without the focus");
}

#[test]
fn the_footer_shows_the_notice_the_filter_or_when_the_data_came() {
    let mut app = app_with_prs();
    app.now = NOW + 12 * SECOND;
    assert_eq!(footer_text(&app), "refreshed at 08:00:00");
    for c in ['/', 'a', 'm'] {
        app.handle_key(Key { code: KeyCode::Char(c), control: false });
    }
    assert_eq!(footer_text(&app), "/am  1/3");
    app.handle_key(Key { code: KeyCode::Char('z'), control: false });
    assert_eq!(column_message(&app, Stage::Prs).as_deref(), Some("no matches for /amz"));
    app.notice = Some("copied #1".to_string());
    assert_eq!(footer_text(&app), "copied #1");
}

#[test]
fn the_details_pane_lists_the_selected_row() {
    let mut app = app_with_prs();
    let (title, lines) = details(&app);
    assert_eq!(title, "#1 alpha");
    assert_eq!(texts(&lines)[0], "#1 acme/webapp  retry-hooks  +0 −0");
    assert_eq!(texts(&lines)[1], "review: —  merge: —");
    app.handle_key(Key { code: KeyCode::Char('3'), control: false });
    let (title, lines) = details(&app);
    assert_eq!(title, "Details");
    assert_eq!(texts(&lines), vec!["nothing selected"]);
    let mut b = build(7, 26, BuildStatus::Success);
    b.finished_at = Some(NOW - 30 * SECOND);
    app.receive(Stage::Builds, Ok(Rows::Builds(Builds { repo: "acme/webapp".into(), builds: vec![b] })));
    app.receive_jobs(7, Ok(vec![job("check", BuildStatus::Success, None), job("audit", BuildStatus::Success, None)]));
    let (title, lines) = details(&app);
    assert_eq!(title, "run 26 run 26");
    let t = texts(&lines);
    assert_eq!(t[0], "run 26  success  1m  started at 07:58:30  by bot");
    assert_eq!(t[1], "Speed up CI");
    assert_eq!(t[2], "0123456789abcdef");
    assert_eq!(t.len(), 5, "a line for each job");
    assert_eq!(t[3], "✓ check  ");
    assert_eq!(scroll_marks(0, 10, 27), " ↓");
    assert_eq!(scroll_marks(5, 10, 27), " ↑↓");
    assert_eq!(scroll_marks(17, 10, 27), " ↑");
    assert_eq!(scroll_marks(0, 10, 5), "");
}

#[test]
fn the_details_scroll_stops_where_the_last_line_shows() {
    let mut app = app_with_prs();
    app.details_scroll = 30;
    app.fit_details(10, 27);
    assert_eq!((app.details_page, app.details_scroll), (10, 17));
    app.fit_details(10, 4);
    assert_eq!(app.details_scroll, 0);
}
