use conveyor::app::{Action, App, Input, Key, KeyCode, Mode, Request, Rows, Stage};
use conveyor::config::Config;
use conveyor::model::builds::{Build, BuildStatus, Builds, PullRef};
use conveyor::model::deployed::{Deployed, Deployment};
use conveyor::model::jobs::Job;
use conveyor::model::prs::{Check, CheckConclusion, CheckState, MergeState, PullRequest, ReviewDecision};
use conveyor::model::queue::{Queue, QueueEntry, QueueState};
use conveyor::ui::columns::{arrangement, column_cards, column_message, column_title, tab_bar, Arrangement};
use conveyor::ui::style::Tone;
use conveyor::ui::details::{details, scroll_marks};
use conveyor::ui::footer::footer_text;

const SECOND: u128 = 1_000_000_000;
const NOW: u128 = 1_800_000_000 * SECOND;

/// The view fed inputs the way the program's loop feeds them: what it opened, copied and
/// asked for.
struct Harness {
    app: App,
    opened: Vec<String>,
    copied: Vec<String>,
    requests: Vec<Request>,
    fail_next: Option<String>,
}

impl Harness {
    fn new() -> Self {
        Harness {
            app: App::at(NOW, Config::default()),
            opened: vec![],
            copied: vec![],
            requests: vec![],
            fail_next: None,
        }
    }

    fn run(&mut self, inputs: Vec<Input>) -> bool {
        for input in inputs {
            let turn = self.app.step(input);
            match turn.action {
                Action::Quit => return true,
                Action::Open(url) => match self.fail_next.take() {
                    Some(message) => self.app.outside_failed(message),
                    None => self.opened.push(url),
                },
                Action::Copy(text) => self.copied.push(text),
                _ => {}
            }
            self.requests.extend(turn.requests);
        }
        false
    }

    fn jobs_asked(&self) -> Vec<Request> {
        self.requests
            .iter()
            .cloned()
            .filter(|r| matches!(r, Request::Jobs { .. }))
            .collect()
    }
}

fn key(c: char) -> Input {
    Input::Key(Key { code: KeyCode::Char(c), control: false })
}

fn prs(prs: Vec<PullRequest>) -> Input {
    Input::Data(Stage::Prs, Ok(Rows::Prs(prs)))
}

fn queue(entries: Vec<QueueEntry>) -> Input {
    Input::Data(
        Stage::Queue,
        Ok(Rows::Queue(Queue {
            repo: "acme/webapp".to_string(),
            url: "https://github.com/acme/webapp/queue/main".to_string(),
            entries,
        })),
    )
}

fn builds(builds: Vec<Build>) -> Input {
    Input::Data(Stage::Builds, Ok(Rows::Builds(Builds { repo: "acme/webapp".to_string(), builds })))
}

fn jobs(run_id: u64, jobs: Vec<Job>) -> Input {
    Input::Jobs(run_id, Ok(jobs))
}

fn job(id: u64, name: &str, status: BuildStatus) -> Job {
    Job { id, name: name.to_string(), status, ..Job::default() }
}

fn pr(number: u64, title: &str) -> PullRequest {
    PullRequest {
        number,
        title: title.to_string(),
        url: format!("https://github.com/acme/webapp/pull/{number}"),
        repo: "acme/webapp".to_string(),
        checks: CheckState::Success,
        updated_at: Some(NOW - 2 * 3600 * SECOND),
        ..PullRequest::default()
    }
}

fn three_prs() -> Vec<PullRequest> {
    vec![pr(1, "a"), pr(2, "b"), pr(3, "c")]
}

fn build(run_number: u64, status: BuildStatus, pull: Option<(u64, &str, &str)>) -> Build {
    let started = NOW - 2 * 3600 * SECOND;
    Build {
        id: 1000 + run_number,
        run_number,
        status,
        sha: format!("{run_number:040x}"),
        title: pull.map(|(_, _, t)| t.to_string()).unwrap_or_else(|| format!("run {run_number}")),
        actor: "bot".to_string(),
        url: format!("https://github.com/acme/webapp/actions/runs/{}", 1000 + run_number),
        started_at: Some(started),
        finished_at: Some(started + 228 * SECOND),
        pr_number: pull.map(|(n, _, _)| n),
        pull: pull.map(|(number, author, title)| PullRef {
            number,
            title: title.to_string(),
            author: author.to_string(),
            url: format!("https://github.com/acme/webapp/pull/{number}"),
        }),
    }
}

fn three_builds() -> Vec<Build> {
    let mut running = build(26, BuildStatus::Running, Some((4840, "bob", "Speed up CI")));
    running.finished_at = None;
    running.started_at = Some(NOW - 90 * SECOND);
    vec![running, build(25, BuildStatus::Failure, Some((4821, "alice", "Retry hooks"))), build(24, BuildStatus::Success, None)]
}

fn focus_builds() -> Vec<Input> {
    vec![builds(three_builds()), key('l'), key('l')]
}

fn entry(position: u64, number: u64, author: &str, title: &str) -> QueueEntry {
    QueueEntry {
        position,
        state: QueueState::Queued,
        number,
        title: title.to_string(),
        author: author.to_string(),
        url: format!("https://github.com/acme/webapp/pull/{number}"),
        head_sha: format!("{number:040x}"),
        checks: CheckState::NoChecks,
        eta: None,
        enqueued_at: Some(NOW - 20 * 60 * SECOND),
        solo: false,
        jump: false,
        run: None,
    }
}

fn two_entries() -> Vec<QueueEntry> {
    let mut first = entry(1, 4821, "alice", "Retry webhooks");
    first.state = QueueState::AwaitingChecks;
    first.checks = CheckState::Pending;
    first.eta = Some(12 * 60 * SECOND);
    vec![first, entry(2, 4830, "carol", "Rate limits")]
}

fn queued_run() -> Vec<QueueEntry> {
    let mut entries = two_entries();
    let mut run = build(312, BuildStatus::Failure, None);
    run.id = 4242;
    run.actor = "github-merge-queue[bot]".to_string();
    entries[0].run = Some(run);
    entries
}

fn titles(app: &App, stage: Stage) -> Vec<String> {
    column_cards(app, stage, 60)
        .iter()
        .map(|card| card[0].iter().map(|s| s.text.as_str()).collect::<String>())
        .collect()
}

#[test]
fn no_pull_requests_shows_an_empty_column_and_q_quits() {
    let mut h = Harness::new();
    assert!(!h.run(vec![prs(vec![])]));
    assert_eq!(column_title(&h.app, Stage::Prs), "My PRs (0)");
    assert!(h.run(vec![key('q')]));
}

#[test]
fn moving_the_selection_asks_for_each_runs_jobs_once() {
    let mut h = Harness::new();
    let mut inputs = focus_builds();
    inputs.extend([key('d'), key('j'), key('k'), key('j')]);
    h.run(inputs);
    assert_eq!(
        h.jobs_asked(),
        vec![Request::Jobs { run_id: 1025 }, Request::Jobs { run_id: 1026 }],
        "each run is asked for once"
    );
}

#[test]
fn a_refresh_asks_again_for_an_unsettled_runs_jobs_and_keeps_the_settled_ones() {
    let mut h = Harness::new();
    let mut inputs = focus_builds();
    let running = || jobs(1026, vec![job(1, "check", BuildStatus::Running)]);
    inputs.extend([running(), builds(three_builds()), running(), builds(three_builds()), builds(three_builds())]);
    h.run(inputs);
    let asked = |run_id| h.requests.iter().filter(|r| **r == Request::Jobs { run_id }).count();
    assert_eq!(asked(1026), 3, "asked again after each answer, but never while one is in flight");
    assert_eq!(asked(1025), 1, "the settled run keeps its jobs");
}

#[test]
fn main_builds_stay_newest_first_across_refreshes() {
    let mut h = Harness::new();
    let older = vec![
        build(25, BuildStatus::Success, Some((4821, "alice", "Retry"))),
        build(24, BuildStatus::Success, None),
    ];
    let mut running = build(26, BuildStatus::Running, Some((4840, "bob", "Speed up")));
    running.finished_at = None;
    let with_new = vec![older[1].clone(), running, older[0].clone()];
    h.run(vec![builds(older), builds(with_new)]);
    let t = titles(&h.app, Stage::Builds);
    assert!(t[0].contains("#4840"), "the new run leads, whatever order the API sent: {t:?}");
    assert!(t[1].contains("#4821"), "{t:?}");
    assert!(t[2].contains("run 24"), "{t:?}");
}

#[test]
fn queue_entries_stay_in_position_order_across_refreshes() {
    let mut h = Harness::new();
    let mut jumped = entry(1, 4830, "carol", "Rate limits");
    let mut demoted = entry(2, 4821, "alice", "Retry webhooks");
    jumped.jump = true;
    demoted.state = QueueState::Queued;
    h.run(vec![queue(two_entries()), queue(vec![demoted, jumped])]);
    let t = titles(&h.app, Stage::Queue);
    assert!(t[0].contains("#4830 Rate limits"), "the entry that jumped to position 1 leads: {t:?}");
    assert!(t[1].contains("#4821 Retry webhooks"), "{t:?}");
}

#[test]
fn keys_act_on_the_focused_queue_column() {
    let mut h = Harness::new();
    h.run(vec![queue(two_entries()), key('l'), key('j'), key('p'), key('y')]);
    assert_eq!(h.opened, vec!["https://github.com/acme/webapp/pull/4830".to_string()]);
    assert_eq!(h.copied, vec!["https://github.com/acme/webapp/pull/4830".to_string()]);
    assert!(titles(&h.app, Stage::Queue)[1].starts_with("▌ ○ #4830"));
    assert_eq!(footer_text(&h.app), "copied #4830");
}

#[test]
fn b_opens_the_merge_group_run_of_the_selected_entry() {
    let mut h = Harness::new();
    let mut entries = two_entries();
    let mut run = build(99, BuildStatus::Running, None);
    run.url = "https://github.com/acme/webapp/actions/runs/99".to_string();
    entries[0].run = Some(run);
    h.run(vec![queue(entries), key('l'), key('b')]);
    assert_eq!(h.opened, vec!["https://github.com/acme/webapp/actions/runs/99".to_string()]);
    h.run(vec![key('j'), key('b')]);
    assert_eq!(h.opened.len(), 1);
    assert_eq!(footer_text(&h.app), "no merge-group run yet");
}

#[test]
fn an_entry_without_a_run_says_so_in_the_pane_and_asks_for_no_jobs() {
    let mut h = Harness::new();
    h.run(vec![queue(vec![entry(1, 4821, "alice", "Retry webhooks")]), key('l'), key('d')]);
    assert!(h.requests.is_empty(), "{:?}", h.requests);
    let card = rows_of(&h.app, Stage::Queue).join("\n");
    let pane = pane_text(&mut h, 12);
    assert_eq!(
        card.matches("no merge-group run yet").count() + pane.matches("no merge-group run yet").count(),
        2,
        "on the card and in the pane: {card}\n{pane}"
    );
}

#[test]
fn selecting_a_queue_entry_asks_for_its_runs_jobs_pane_or_no_pane() {
    let mut h = Harness::new();
    let mut entries = queued_run();
    let mut second = build(313, BuildStatus::Running, None);
    second.id = 4343;
    entries[1].run = Some(second);
    h.run(vec![queue(entries), key('l'), key('d'), key('j')]);
    assert_eq!(h.requests, vec![Request::Jobs { run_id: 4242 }, Request::Jobs { run_id: 4343 }]);
}

#[test]
fn a_queue_refresh_asks_again_for_an_unsettled_run_and_keeps_a_settled_one() {
    let mut h = Harness::new();
    let mut settled = queued_run();
    let mut running = build(313, BuildStatus::Running, None);
    running.id = 4343;
    settled[1].run = Some(running);
    h.run(vec![
        queue(settled.clone()),
        key('l'),
        jobs(4242, vec![job(1, "audit", BuildStatus::Success)]),
        key('j'),
        jobs(4343, vec![job(2, "check", BuildStatus::Success)]),
        queue(settled),
    ]);
    assert_eq!(
        h.requests,
        vec![
            Request::Jobs { run_id: 4242 },
            Request::Jobs { run_id: 4343 },
            Request::Jobs { run_id: 4343 },
        ],
        "only the run still in flight is asked again"
    );
}

#[test]
fn a_refresh_while_the_jobs_are_in_flight_does_not_ask_twice() {
    let mut h = Harness::new();
    let mut entries = two_entries();
    let mut running = build(313, BuildStatus::Running, None);
    running.id = 4343;
    entries[0].run = Some(running);
    h.run(vec![queue(entries.clone()), key('l'), queue(entries.clone()), queue(entries)]);
    assert_eq!(h.requests, vec![Request::Jobs { run_id: 4343 }], "the answer is still on its way");
}

#[test]
fn r_requests_a_refresh_and_the_footer_shows_the_data_age() {
    let mut h = Harness::new();
    h.run(vec![prs(three_prs()), Input::Tick(NOW + 12 * SECOND)]);
    assert_eq!(footer_text(&h.app), "refreshed at 08:00:00");
    h.run(vec![key('r')]);
    assert_eq!(h.requests, vec![Request::Refresh(Stage::Prs)]);
}

#[test]
fn a_failed_fetch_keeps_the_old_rows_and_flags_the_column_until_the_next_success() {
    let mut h = Harness::new();
    h.run(vec![prs(three_prs()), Input::Data(Stage::Prs, Err("gh: HTTP 401: Bad credentials".into()))]);
    assert_eq!(column_title(&h.app, Stage::Prs), "My PRs (3) ⚠");
    assert_eq!(titles(&h.app, Stage::Prs).len(), 3, "rows kept");
    assert_eq!(footer_text(&h.app), "gh: HTTP 401: Bad credentials");
    h.run(vec![prs(three_prs())]);
    assert_eq!(column_title(&h.app, Stage::Prs), "My PRs (3)");
    assert!(!footer_text(&h.app).contains("Bad credentials"));
}

#[test]
fn a_failed_open_shows_in_the_footer_and_the_app_stays_up() {
    let mut h = Harness::new();
    h.fail_next = Some("open: exec failed".to_string());
    assert!(!h.run(vec![prs(three_prs()), key('p')]));
    assert_eq!(footer_text(&h.app), "open: exec failed");
    assert_eq!(titles(&h.app, Stage::Prs).len(), 3);
}

#[test]
fn a_failure_before_any_data_flags_the_column_and_shows_the_message_in_the_body() {
    let mut h = Harness::new();
    h.run(vec![Input::Data(Stage::Prs, Err("gh not found on PATH".into()))]);
    assert_eq!(column_title(&h.app, Stage::Prs), "My PRs ⚠");
    assert_eq!(
        conveyor::ui::columns::column_message(&h.app, Stage::Prs).as_deref(),
        Some("gh not found on PATH")
    );
}

#[test]
fn a_pull_request_in_the_merge_queue_shows_its_position_on_the_row() {
    let mut h = Harness::new();
    let mut queued = pr(4821, "Retry hooks");
    queued.queue_position = Some(2);
    h.run(vec![prs(vec![queued, pr(4830, "Rate limits")])]);
    let t = titles(&h.app, Stage::Prs);
    assert!(t[0].ends_with("⇥2 2h"), "{t:?}");
    assert!(!t[1].contains('⇥'), "{t:?}");
}

#[test]
fn shift_l_asks_for_the_failed_steps_log_and_shows_its_last_lines() {
    let mut h = Harness::new();
    let mut inputs = focus_builds();
    inputs.push(key('j'));
    inputs.push(jobs(1025, vec![job(7, "audit", BuildStatus::Success), job(8, "check", BuildStatus::Failure)]));
    h.run(inputs);
    h.requests.clear();
    h.run(vec![key('L')]);
    assert_eq!(
        h.requests,
        vec![Request::Log { run_id: 1025, job_id: 8, repo: "acme/webapp".to_string() }]
    );
    assert!(h.app.details, "the pane opens to show it");
    let (_, lines) = details(&h.app);
    let texts: Vec<String> = lines.iter().map(|l| l.iter().map(|s| s.text.as_str()).collect()).collect();
    assert_eq!(texts.last().map(String::as_str), Some("log: loading…"));
    h.run(vec![Input::Log(8, Ok("check\tRun cargo test\t\u{1b}[31mboom\u{1b}[0m\nlast line\n".to_string()))]);
    let (_, lines) = details(&h.app);
    let texts: Vec<String> = lines.iter().map(|l| l.iter().map(|s| s.text.as_str()).collect()).collect();
    let n = texts.len();
    assert_eq!(&texts[n - 3..], &["log".to_string(), "boom".to_string(), "last line".to_string()]);
    h.run(vec![key('L')]);
    assert!(h.app.log.is_none(), "L again hides it");
}

#[test]
fn shift_l_without_a_failed_job_says_so() {
    let mut h = Harness::new();
    h.run(focus_builds());
    h.requests.clear();
    h.run(vec![key('L')]);
    assert!(h.requests.is_empty());
    assert_eq!(footer_text(&h.app), "no failed job to show");
    h.run(vec![jobs(1026, vec![job(1, "check", BuildStatus::Running)]), key('L')]);
    assert_eq!(footer_text(&h.app), "no failed job to show", "a running job has no failed step yet");
}

#[test]
fn a_log_for_another_job_is_ignored() {
    let mut h = Harness::new();
    let mut inputs = focus_builds();
    inputs.push(key('j'));
    inputs.push(jobs(1025, vec![job(8, "check", BuildStatus::Failure)]));
    inputs.push(key('L'));
    inputs.push(Input::Log(9, Ok("other".to_string())));
    h.run(inputs);
    assert_eq!(h.app.log, Some((8, conveyor::app::LogState::Loading)));
    h.run(vec![Input::Log(8, Err("gh: HTTP 404".to_string()))]);
    assert_eq!(h.app.log, Some((8, conveyor::app::LogState::Failed("gh: HTTP 404".to_string()))));
}

fn deployed(rows: Vec<Deployment>) -> Input {
    Input::Data(Stage::Deployed, Ok(Rows::Deployed(Deployed { system: "api".to_string(), rows })))
}

fn deployment(env: &str, sha_seed: u64, pull: Option<(u64, &str, &str)>) -> Deployment {
    Deployment {
        env: env.to_string(),
        image: Some(format!("ghcr.io/acme/api:{sha_seed:040x}")),
        sha: Some(format!("{sha_seed:040x}")),
        pull: pull.map(|(number, author, title)| PullRef {
            number,
            title: title.to_string(),
            author: author.to_string(),
            url: format!("https://github.com/acme/webapp/pull/{number}"),
        }),
        error: None,
        fetched_at: Some(NOW - 6 * 86_400 * SECOND),
    }
}

fn envs() -> Vec<Deployment> {
    let mut prod = deployment("prod", 24, Some((4790, "dave", "Spike tests")));
    prod.fetched_at = None;
    let mut failing = deployment("uat", 0, None);
    failing.sha = None;
    failing.image = None;
    failing.error = Some("ERROR: Active profile expired.".to_string());
    vec![deployment("staging", 26, Some((4840, "bob", "Speed up CI"))), prod, failing]
}

fn main_builds() -> Vec<Build> {
    vec![
        build(26, BuildStatus::Success, Some((4840, "bob", "Speed up CI"))),
        build(25, BuildStatus::Failure, Some((4821, "alice", "Retry hooks"))),
        build(24, BuildStatus::Success, Some((4790, "dave", "Spike tests"))),
    ]
}

#[test]
fn b_opens_the_main_build_that_matches_the_deployed_sha() {
    let mut h = Harness::new();
    let rows = vec![
        deployment("staging", 26, Some((4840, "bob", "Speed up CI"))),
        deployment("dev", 99, Some((4999, "erin", "Unbuilt"))),
    ];
    h.run(vec![builds(main_builds()), deployed(rows), key('l'), key('l'), key('l'), key('b')]);
    assert_eq!(h.opened, vec!["https://github.com/acme/webapp/actions/runs/1026".to_string()]);
    h.run(vec![key('j'), key('b')]);
    assert_eq!(h.opened.len(), 1);
    assert_eq!(footer_text(&h.app), "no main build found for 00000000");
}

#[test]
fn a_failed_env_keeps_its_last_known_sha_from_the_previous_fetch() {
    let mut h = Harness::new();
    let mut later = envs();
    later[0].sha = None;
    later[0].image = None;
    later[0].pull = None;
    later[0].error = Some("kubectl exited with exit status: 1".to_string());
    h.run(vec![deployed(envs()), deployed(later), key('l'), key('l'), key('l')]);
    let staging = h.app.deployed.selected().unwrap();
    assert_eq!(staging.env, "staging");
    assert_eq!(staging.sha.as_deref(), Some(format!("{:040x}", 26).as_str()), "old sha kept");
    assert_eq!(staging.pull.as_ref().map(|p| p.number), Some(4840), "old row kept");
    assert_eq!(staging.error.as_deref(), Some("kubectl exited with exit status: 1"));
    let card = &column_cards(&h.app, Stage::Deployed, 60)[0];
    assert!(card[0].iter().map(|s| s.text.as_str()).collect::<String>().contains("✗ staging"));
    assert_eq!(footer_text(&h.app), "kubectl exited with exit status: 1");
}

#[test]
fn without_deploy_config_the_column_says_so_and_a_failed_fetch_flags_it() {
    let mut h = Harness::new();
    h.run(vec![]);
    assert_eq!(
        conveyor::ui::columns::column_message(&h.app, Stage::Deployed).as_deref(),
        Some("no [[repo.deploy]] configured")
    );
    h.run(vec![Input::Data(Stage::Deployed, Err("no repository to watch".into()))]);
    assert_eq!(column_title(&h.app, Stage::Deployed), "Deployed ⚠");
}

#[test]
fn deployed_cards_say_how_far_behind_main_each_environment_is() {
    let mut h = Harness::new();
    h.run(vec![builds(main_builds()), deployed(envs())]);
    assert_eq!(column_title(&h.app, Stage::Deployed), "Deployed api (3)");
    let t = titles(&h.app, Stage::Deployed);
    assert!(t[0].contains("✓ staging") && t[0].ends_with("at main"), "{t:?}");
    assert!(t[1].contains("◐ prod") && t[1].ends_with("↓2"), "two builds behind: {t:?}");
    assert!(t[2].contains("✗ uat"), "{t:?}");
}

fn ctrl(c: char) -> Input {
    Input::Key(Key { code: KeyCode::Char(c), control: true })
}

fn failed(stage: Stage, message: &str) -> Input {
    Input::Data(stage, Err(message.to_string()))
}

/// A job that ran for 19 s, with the step it failed at.
fn step_job(id: u64, name: &str, status: BuildStatus, step: Option<&str>) -> Job {
    Job {
        id,
        name: name.to_string(),
        status,
        started_at: Some(NOW - 3600 * SECOND),
        completed_at: Some(NOW - 3600 * SECOND + 19 * SECOND),
        url: format!("https://github.com/acme/webapp/actions/runs/1/job/{id}"),
        failed_step: step.map(str::to_string),
    }
}

fn line_text(line: &[conveyor::ui::card::Segment]) -> String {
    line.iter().map(|s| s.text.as_str()).collect()
}

/// The card lines of a column of a 160-wide screen, one after the other.
fn rows_of(app: &App, stage: Stage) -> Vec<String> {
    column_cards(app, stage, 38).iter().flat_map(|card| card.iter().map(|l| line_text(l))).collect()
}

/// Lays the details pane out in `height` rows the way the drawing does: it fits the
/// scroll to the page, and gives the title with its arrows and the lines on show.
fn pane(h: &mut Harness, height: usize) -> (String, Vec<String>) {
    let (title, lines) = details(&h.app);
    let page = (height - 2) as u16;
    h.app.fit_details(page, lines.len());
    let marks = scroll_marks(h.app.details_scroll, page, lines.len());
    let shown = lines
        .iter()
        .skip(usize::from(h.app.details_scroll))
        .take(usize::from(page))
        .map(|l| line_text(l))
        .collect();
    (format!("{title}{marks}"), shown)
}

fn pane_text(h: &mut Harness, height: usize) -> String {
    let (title, lines) = pane(h, height);
    format!("{title}\n{}", lines.join("\n"))
}

#[test]
fn build_cards_show_the_pull_request_the_run_and_the_sha() {
    let mut h = Harness::new();
    h.run(vec![builds(three_builds()), Input::Tick(NOW)]);
    assert!(column_title(&h.app, Stage::Builds).contains("Main webapp (3)"));
    let col = rows_of(&h.app, Stage::Builds);
    assert!(col[0].contains("● #4840"), "{col:?}");
    assert!(col[0].contains("1m"), "elapsed age: {col:?}");
    assert!(col[1].contains("Speed up CI"), "the title: {col:?}");
    assert!(col[2].contains("bob · run 26 · 1m · running"), "{col:?}");
    assert!(col[3].contains("00000000"), "the sha: {col:?}");
    assert!(col[4].contains("✗ #4821"), "{col:?}");
    assert!(col[5].contains("Retry hooks"), "{col:?}");
    assert!(col[6].contains("alice · run 25 · 3m · failure"), "{col:?}");
    assert!(col[8].contains("✓ run 24"), "no PR known: {col:?}");
    assert!(col[10].contains("bot · run 24 · 3m · success"), "{col:?}");
}

#[test]
fn p_opens_the_pull_request_b_opens_the_run_and_d_shows_its_details() {
    let mut h = Harness::new();
    let mut inputs = focus_builds();
    inputs.extend([key('j'), key('p'), key('b'), key('d')]);
    h.run(inputs);
    assert_eq!(
        h.opened,
        vec![
            "https://github.com/acme/webapp/pull/4821".to_string(),
            "https://github.com/acme/webapp/actions/runs/1025".to_string(),
        ]
    );
    let screen = pane_text(&mut h, 8);
    assert!(screen.contains("run 25  failure  3m"), "{screen}");
    assert!(screen.contains("#4821 alice  Retry hooks"), "{screen}");
    assert!(!screen.contains("https://"), "no URLs in the pane: {screen}");
    assert!(screen.contains("started at 06:00:00"), "{screen}");
}

#[test]
fn a_failed_builds_fetch_flags_the_column() {
    let mut h = Harness::new();
    h.run(vec![failed(Stage::Builds, "main_workflow `Nope` not found")]);
    assert!(column_title(&h.app, Stage::Builds).contains("Main builds ⚠"));
    assert!(column_message(&h.app, Stage::Builds).unwrap().contains("main_workflow `Nope` not found"));
}

#[test]
fn p_says_so_when_no_pull_request_is_known_and_b_still_opens_the_run() {
    let mut h = Harness::new();
    let mut inputs = focus_builds();
    inputs.extend([key('G'), key('p')]);
    h.run(inputs);
    assert!(footer_text(&h.app).contains("no pull request for this run"), "{}", footer_text(&h.app));
    assert!(h.opened.is_empty(), "p opened nothing");
    h.run(vec![key('b')]);
    assert_eq!(h.opened, vec!["https://github.com/acme/webapp/actions/runs/1024".to_string()]);
}

#[test]
fn d_on_a_build_asks_for_its_jobs_and_lists_them_failures_first() {
    let mut h = Harness::new();
    let mut inputs = focus_builds();
    inputs.push(key('d'));
    h.run(inputs);
    assert_eq!(
        h.requests,
        vec![Request::Jobs { run_id: 1025 }, Request::Jobs { run_id: 1026 }],
        "the failing run is asked for without being selected, then the selected one"
    );
    assert!(pane_text(&mut h, 12).contains("jobs: loading…"));
    h.run(vec![jobs(
        1026,
        vec![
            step_job(1, "check", BuildStatus::Failure, Some("Run cargo test")),
            step_job(2, "audit", BuildStatus::Success, None),
        ],
    )]);
    let screen = pane_text(&mut h, 12);
    assert!(screen.contains("✗ check  19s  failed at: Run cargo test"), "{screen}");
    assert!(screen.contains("✓ audit  19s"), "{screen}");
    assert!(!screen.contains("https://"), "no job URLs: {screen}");
    let col = rows_of(&h.app, Stage::Builds);
    assert!(col.iter().any(|l| l.contains("✗ check · Run cargo test")), "and on the card itself: {col:?}");
}

#[test]
fn a_failed_jobs_fetch_shows_the_message_in_the_details_pane() {
    let mut h = Harness::new();
    let mut inputs = focus_builds();
    inputs.push(key('d'));
    inputs.push(Input::Jobs(1026, Err("gh: HTTP 404: Not Found".to_string())));
    h.run(inputs);
    let screen = pane_text(&mut h, 12);
    assert!(screen.contains("jobs: gh: HTTP 404: Not Found"), "{screen}");
}

#[test]
fn a_failing_build_shows_its_failed_step_on_the_card() {
    let mut h = Harness::new();
    h.run(vec![
        builds(three_builds()),
        jobs(1025, vec![step_job(1, "check", BuildStatus::Failure, Some("Run cargo test"))]),
    ]);
    let col = rows_of(&h.app, Stage::Builds);
    assert!(col[7].contains("✗ check · Run cargo test"), "{col:?}");
}

#[test]
fn y_copies_the_pull_request_url_and_shift_y_the_build_url() {
    let mut h = Harness::new();
    let mut inputs = focus_builds();
    inputs.extend([key('j'), key('y'), key('Y')]);
    h.run(inputs);
    assert_eq!(
        h.copied,
        vec![
            "https://github.com/acme/webapp/pull/4821".to_string(),
            "https://github.com/acme/webapp/actions/runs/1025".to_string(),
        ]
    );
    assert!(footer_text(&h.app).contains("copied the build URL"), "{}", footer_text(&h.app));
}

#[test]
fn p_falls_back_to_the_squash_number_while_the_pull_request_is_unassociated() {
    let mut h = Harness::new();
    let mut pending = build(26, BuildStatus::Success, Some((4840, "bob", "Speed up CI")));
    pending.pull = None;
    h.run(vec![builds(vec![pending]), key('l'), key('l'), key('p')]);
    assert_eq!(
        h.opened,
        vec!["https://github.com/acme/webapp/pull/4840".to_string()],
        "the card shows #4840, so p opens #4840"
    );
}

fn many_jobs(count: u64) -> Vec<Job> {
    (1..=count).map(|i| step_job(i, &format!("job {i}"), BuildStatus::Success, None)).collect()
}

fn long_details() -> Vec<Input> {
    let mut inputs = focus_builds();
    inputs.push(key('d'));
    inputs.push(jobs(1026, many_jobs(24)));
    inputs.push(jobs(1025, many_jobs(24)));
    inputs
}

/// A 160 × 30 screen gives the pane twelve rows: ten inside its border.
const PANE: usize = 12;

#[test]
fn ctrl_d_and_ctrl_u_scroll_the_details_pane_and_stop_at_both_ends() {
    let mut h = Harness::new();
    h.run(long_details());
    let screen = pane_text(&mut h, PANE);
    assert_eq!(h.app.details_page, 10);
    assert_eq!(h.app.details_scroll, 0);
    assert!(screen.contains("bob  Speed up CI"), "the head: {screen}");
    assert!(screen.contains("job 1  19s"), "{screen}");
    assert!(!screen.contains("job 24  19s"), "below the fold: {screen}");

    h.run(vec![ctrl('d')]);
    let screen = pane_text(&mut h, PANE);
    assert_eq!(h.app.details_scroll, 5, "half a page");
    assert!(!screen.contains("bob  Speed up CI"), "the head left: {screen}");
    assert!(screen.contains("job 3  19s"), "{screen}");

    h.run(vec![ctrl('d')]);
    pane(&mut h, PANE);
    assert_eq!(h.app.details_scroll, 10);

    h.run(vec![ctrl('d'), ctrl('d'), ctrl('d')]);
    let (_, shown) = pane(&mut h, PANE);
    assert_eq!(h.app.details_scroll, 17, "the bottom holds");
    assert!(
        shown.last().unwrap().contains("job 24  19s"),
        "the last line sits on the last row, no blank tail: {shown:?}"
    );

    h.run(vec![ctrl('u'), ctrl('u'), ctrl('u')]);
    pane(&mut h, PANE);
    assert_eq!(h.app.details_scroll, 2);

    h.run(vec![ctrl('u'), ctrl('u')]);
    let screen = pane_text(&mut h, PANE);
    assert_eq!(h.app.details_scroll, 0, "the top holds");
    assert!(screen.contains("bob  Speed up CI"), "back at the top: {screen}");
}

#[test]
fn moving_the_selection_changing_focus_and_closing_the_pane_return_it_to_the_top() {
    let mut h = Harness::new();
    h.run(long_details());
    pane(&mut h, PANE);
    h.run(vec![ctrl('d')]);
    assert_eq!(h.app.details_scroll, 5);

    h.run(vec![key('j')]);
    assert_eq!(h.app.details_scroll, 0, "a selection move");

    pane(&mut h, PANE);
    h.run(vec![ctrl('d'), key('h')]);
    assert_eq!(h.app.details_scroll, 0, "a focus change");

    h.run(vec![key('l')]);
    pane(&mut h, PANE);
    h.run(vec![ctrl('d'), key('d')]);
    assert_eq!(h.app.details_scroll, 0, "closing the pane");
}

#[test]
fn a_refresh_that_drops_the_selected_run_returns_the_pane_to_the_top() {
    let mut h = Harness::new();
    h.run(long_details());
    pane(&mut h, PANE);
    h.run(vec![ctrl('d')]);
    assert_eq!(h.app.details_scroll, 5);
    h.run(vec![builds(vec![build(27, BuildStatus::Success, Some((4850, "erin", "Cache the toolchain")))])]);
    assert_eq!(h.app.details_scroll, 0, "another run is selected now");
}

#[test]
fn the_scroll_keys_work_while_a_filter_is_being_typed_and_never_reach_the_query() {
    let mut h = Harness::new();
    h.run(long_details());
    pane(&mut h, PANE);
    h.run(vec![key('/'), key('4'), ctrl('d'), ctrl('u'), ctrl('d')]);
    assert_eq!(h.app.details_scroll, 5);
    assert_eq!(h.app.mode, Mode::Filter("4".to_string()), "the query is still /4");
    assert!(footer_text(&h.app).starts_with("/4"), "{}", footer_text(&h.app));
    assert!(!footer_text(&h.app).contains("/4d"));
}

#[test]
fn the_scroll_keys_close_the_help_pane_like_any_other_key() {
    let mut h = Harness::new();
    h.run(long_details());
    pane(&mut h, PANE);
    h.run(vec![key('?')]);
    assert_eq!(h.app.mode, Mode::Help);
    h.run(vec![ctrl('d')]);
    assert_eq!(h.app.mode, Mode::Normal);
    assert_eq!(h.app.details_scroll, 0, "the help key did not scroll");
}

#[test]
fn the_details_title_says_which_way_there_is_more_to_scroll() {
    let mut h = Harness::new();
    h.run(long_details());
    let (title, _) = pane(&mut h, PANE);
    assert!(title.ends_with("run 26 ↓"), "{title}");
    assert!(!title.contains('↑'), "nothing above yet: {title}");
    h.run(vec![ctrl('d')]);
    let (title, _) = pane(&mut h, PANE);
    assert!(title.ends_with("run 26 ↑↓"), "{title}");
    h.run(vec![ctrl('d'), ctrl('d'), ctrl('d'), ctrl('d')]);
    let (title, _) = pane(&mut h, PANE);
    assert!(title.ends_with("run 26 ↑"), "{title}");
    assert!(!title.contains("↑↓"), "nothing below any more: {title}");
}

#[test]
fn a_cancelled_main_build_gets_its_own_glyph_not_the_skipped_dash() {
    let mut h = Harness::new();
    h.run(vec![builds(vec![build(26, BuildStatus::Cancelled, Some((4840, "bob", "Speed up CI")))])]);
    let col = rows_of(&h.app, Stage::Builds);
    assert!(col[0].contains("⊘ #4840"), "{col:?}");
    assert!(col[2].contains("cancelled"), "{col:?}");
}

#[test]
fn a_cancelled_build_does_not_blame_the_job_the_cancellation_killed() {
    let mut h = Harness::new();
    let cancelled = build(26, BuildStatus::Cancelled, Some((4840, "bob", "Speed up CI")));
    h.run(vec![
        builds(vec![cancelled]),
        jobs(1026, vec![step_job(1, "Nx / Status", BuildStatus::Failure, Some("Check Nx workflow status"))]),
    ]);
    let col = rows_of(&h.app, Stage::Builds);
    assert!(col[0].contains("⊘ #4840"), "{col:?}");
    assert!(!col[3].contains("Nx / Status"), "the job died with the run, it did not fail on its own: {col:?}");
    assert!(col[3].contains("00000000"), "the sha instead: {col:?}");
}

#[test]
fn a_build_card_gives_the_title_its_own_line_under_the_number() {
    let mut h = Harness::new();
    let long = build(26, BuildStatus::Success, Some((7108, "rvargas", "[AIE-65] Remove commit and push permission gate")));
    h.run(vec![builds(vec![long])]);
    let col = rows_of(&h.app, Stage::Builds);
    assert!(col[0].contains("✓ #7108"), "{col:?}");
    assert!(!col[0].contains("AIE-65"), "the first line is the number and the age: {col:?}");
    assert!(col[0].contains("2h"), "{col:?}");
    assert!(col[1].contains("[AIE-65] Remove commit and push"), "the title, on its own line: {col:?}");
    assert!(col[2].contains("rvargas · run 26"), "then the meta line: four lines to a card: {col:?}");
}

#[test]
fn queue_cards_show_the_entry_its_position_age_and_eta_or_state() {
    let mut h = Harness::new();
    h.run(vec![queue(two_entries())]);
    assert!(column_title(&h.app, Stage::Queue).contains("Queue webapp (2)"));
    let col = rows_of(&h.app, Stage::Queue);
    assert!(col[0].contains("● #4821 Retry webhooks"), "{col:?}");
    assert!(col[0].contains("12m"), "{col:?}");
    assert!(col[1].contains("alice · position 1 · enqueued 20m"), "{col:?}");
    assert!(col[2].contains("no merge-group run yet"), "{col:?}");
    assert!(col[3].contains("○ #4830 Rate limits"), "{col:?}");
    assert!(col[3].contains("queued"), "{col:?}");
}

#[test]
fn an_empty_queue_says_so() {
    let mut h = Harness::new();
    h.run(vec![queue(vec![])]);
    assert!(column_title(&h.app, Stage::Queue).contains("Queue webapp (0)"));
    assert!(column_message(&h.app, Stage::Queue).unwrap().contains("queue empty"));
}

#[test]
fn a_failed_queue_fetch_flags_the_column_and_shows_the_message() {
    let mut h = Harness::new();
    h.run(vec![failed(Stage::Queue, "no merge queue on this repository")]);
    assert!(column_title(&h.app, Stage::Queue).contains("Merge queue ⚠"));
    assert!(column_message(&h.app, Stage::Queue).unwrap().contains("no merge queue on this repository"));
}

#[test]
fn d_shows_queue_entry_details_for_the_focused_queue_column() {
    let mut h = Harness::new();
    let mut entries = two_entries();
    entries[0].jump = true;
    h.run(vec![queue(entries), key('l'), key('d')]);
    let screen = pane_text(&mut h, 8);
    assert!(screen.contains("#4821 by alice  position 1  checks  eta 12m  jump"), "{screen}");
    assert!(screen.contains("enqueued 20m ago  checks: pending"), "{screen}");
    assert!(!screen.contains("https://"), "no URLs in the pane: {screen}");
}

#[test]
fn the_pane_shows_the_merge_group_run_of_the_selected_entry_and_its_jobs() {
    let mut h = Harness::new();
    h.run(vec![
        queue(queued_run()),
        key('l'),
        key('d'),
        jobs(
            4242,
            vec![
                step_job(1, "audit", BuildStatus::Success, None),
                step_job(2, "check", BuildStatus::Failure, Some("Run cargo test")),
            ],
        ),
    ]);
    assert_eq!(h.requests, vec![Request::Jobs { run_id: 4242 }], "the selected entry's run is asked for");
    let screen = pane_text(&mut h, 10);
    assert!(screen.contains("run 312  failure"), "the run line: {screen}");
    assert!(screen.contains("by github-merge-queue[bot]"), "{screen}");
    assert!(screen.contains("✗ check  19s  failed at: Run cargo test"), "the failed job and step: {screen}");
    assert!(screen.contains("✓ audit  19s"), "{screen}");
    assert!(!screen.contains("https://"), "still no URLs: {screen}");
}

#[test]
fn a_failing_merge_group_run_shows_its_failed_job_on_the_card() {
    let mut h = Harness::new();
    h.run(vec![
        queue(queued_run()),
        key('l'),
        jobs(
            4242,
            vec![
                step_job(1, "audit", BuildStatus::Success, None),
                step_job(2, "check", BuildStatus::Failure, Some("Run cargo test")),
            ],
        ),
    ]);
    let col = rows_of(&h.app, Stage::Queue);
    assert!(col[3].contains("✗ check · Run cargo test"), "the card, not just the pane: {col:?}");
}

fn with_run(status: BuildStatus) -> Vec<QueueEntry> {
    let mut entries = vec![entry(1, 4821, "alice", "Retry webhooks")];
    let mut run = build(312, status, None);
    run.id = 4242;
    entries[0].run = Some(run);
    entries
}

#[test]
fn a_cancelled_run_reads_as_cancelled_and_never_as_a_failure() {
    let mut h = Harness::new();
    h.run(vec![queue(with_run(BuildStatus::Cancelled))]);
    let cards = column_cards(&h.app, Stage::Queue, 38);
    let col = rows_of(&h.app, Stage::Queue);
    assert!(col[0].contains("⊘ #4821"), "its own glyph, not the skipped dash: {col:?}");
    assert!(col[2].contains("run 312 · cancelled"), "{col:?}");
    assert!(!col.concat().contains('✗'), "nothing failed: {col:?}");
    let glyph = cards[0][0].iter().find(|s| s.text.contains('⊘')).unwrap();
    assert_eq!(glyph.look.tone, Some(Tone::DarkGray), "grey, not red");
}

#[test]
fn a_failed_run_still_reads_as_a_failure() {
    let mut h = Harness::new();
    h.run(vec![queue(with_run(BuildStatus::Failure))]);
    let col = rows_of(&h.app, Stage::Queue);
    assert!(col[0].contains("✗ #4821"), "{col:?}");
    assert!(col[2].contains("run 312 · failure"), "{col:?}");
}

#[test]
fn an_entry_with_no_run_still_reads_from_the_rollup() {
    let mut h = Harness::new();
    let mut entries = vec![entry(1, 4821, "alice", "Retry webhooks")];
    entries[0].checks = CheckState::Success;
    h.run(vec![queue(entries)]);
    let col = rows_of(&h.app, Stage::Queue);
    assert!(col[0].contains("✓ #4821"), "{col:?}");
    assert!(col[2].contains("no merge-group run yet"), "{col:?}");
}

#[test]
fn the_column_says_fetching_until_the_first_data_arrives() {
    let mut h = Harness::new();
    assert!(h.run(vec![key('q')]));
    let message = column_message(&h.app, Stage::Prs).unwrap();
    assert!(message.contains("fetching…"), "{message}");
    assert!(!message.contains("no open pull requests"), "{message}");
}

#[test]
fn j_k_arrows_gg_and_g_move_the_highlight_and_clamp() {
    let arrow = |code| Input::Key(Key { code, control: false });
    let mut h = Harness::new();
    h.run(vec![prs(three_prs()), key('j'), arrow(KeyCode::Down)]);
    assert_eq!(h.app.prs.list.selected(), Some(2));
    h.run(vec![key('j'), key('j')]);
    assert_eq!(h.app.prs.list.selected(), Some(2), "clamps at the end");
    h.run(vec![key('k'), arrow(KeyCode::Up), arrow(KeyCode::Up)]);
    assert_eq!(h.app.prs.list.selected(), Some(0), "clamps at the start");
    h.run(vec![key('G')]);
    assert_eq!(h.app.prs.list.selected(), Some(2));
    h.run(vec![key('g'), key('g')]);
    assert_eq!(h.app.prs.list.selected(), Some(0));
}

#[test]
fn slash_filters_rows_by_number_title_or_repo_and_shows_the_count() {
    let mut h = Harness::new();
    h.run(vec![prs(vec![pr(1, "alpha"), pr(2, "beta"), pr(3, "gamma")]), key('/'), key('a'), key('m')]);
    let t = titles(&h.app, Stage::Prs);
    assert_eq!(t.len(), 1, "{t:?}");
    assert!(t[0].contains("#3 gamma"), "{t:?}");
    assert!(!t[0].contains("alpha"), "{t:?}");
    assert_eq!(footer_text(&h.app), "/am  1/3");
    h.run(vec![key('z')]);
    assert_eq!(column_message(&h.app, Stage::Prs).as_deref(), Some("no matches for /amz"));
    h.run(vec![Input::Key(Key { code: KeyCode::Esc, control: false })]);
    let t = titles(&h.app, Stage::Prs).concat();
    assert!(t.contains("alpha") && t.contains("gamma"), "{t}");
    assert!(!footer_text(&h.app).contains("/amz"));
}

#[test]
fn check_glyphs_are_colored_by_state_and_the_age_is_dim() {
    let mut h = Harness::new();
    let mut failing = pr(1, "a");
    failing.checks = CheckState::Failure;
    let mut pending = pr(2, "b");
    pending.checks = CheckState::Pending;
    h.run(vec![prs(vec![failing, pending, pr(3, "c")])]);
    let cards = column_cards(&h.app, Stage::Prs, 38);
    let glyph_tone = |i: usize| {
        cards[i][0].iter().find(|s| s.text.contains(['✗', '●', '✓'])).map(|s| s.look.tone).unwrap()
    };
    assert_eq!(glyph_tone(0), Some(Tone::Red));
    assert_eq!(glyph_tone(1), Some(Tone::Yellow));
    assert_eq!(glyph_tone(2), Some(Tone::Green));
    let age = cards[0][0].iter().find(|s| s.text.contains("2h")).unwrap();
    assert!(age.look.dim, "age is dim");
}

const BRAILLE: [char; 10] = ['⠋', '⠙', '⠹', '⠸', '⠼', '⠴', '⠦', '⠧', '⠇', '⠏'];

fn spinner_in(text: &str) -> Option<char> {
    text.chars().find(|c| BRAILLE.contains(c))
}

#[test]
fn a_refreshing_column_spins_a_braille_glyph_in_its_title_until_data_arrives() {
    let mut h = Harness::new();
    h.run(vec![prs(three_prs()), Input::Fetching(Stage::Prs)]);
    let title = column_title(&h.app, Stage::Prs);
    let first = spinner_in(&title).expect("a spinner in the title");
    assert!(title.contains("My PRs (3)"), "{title}");
    h.run(vec![Input::Tick(NOW + 100_000_000)]);
    let second = spinner_in(&column_title(&h.app, Stage::Prs)).unwrap();
    assert_ne!(first, second, "the spinner advances with time");
    h.run(vec![prs(three_prs())]);
    assert_eq!(spinner_in(&column_title(&h.app, Stage::Prs)), None);
}

#[test]
fn the_initial_fetch_spins_too() {
    let mut h = Harness::new();
    h.run(vec![Input::Fetching(Stage::Prs)]);
    let title = column_title(&h.app, Stage::Prs);
    let body = column_message(&h.app, Stage::Prs).unwrap();
    assert!(spinner_in(&title).is_some() && body.contains("fetching…"), "{title}: {body}");
}

#[test]
fn a_static_dim_logo_with_the_version_sits_at_the_bottom_right() {
    let mut h = Harness::new();
    h.run(vec![prs(three_prs()), Input::Tick(NOW)]);
    let logo = conveyor::ui::footer::logo("0.13.0");
    assert!(logo.ends_with("conveyor v0.13.0"), "{logo:?}");
    assert!(logo.contains('\u{25a3}'), "a conveyor logo: {logo:?}");
    let footer = footer_text(&h.app);
    assert!(footer.starts_with("refreshed just now"), "{footer:?}");
    h.run(vec![Input::Tick(NOW + 250_000_000)]);
    assert_eq!(footer_text(&h.app), footer, "the footer does not move between ticks");
}

#[test]
fn b_opens_the_check_run_behind_a_pull_request_and_says_so_when_there_is_none() {
    let mut h = Harness::new();
    let mut checked = pr(4821, "Retry hooks");
    checked.checks_detail = vec![
        Check { name: "lint".to_string(), conclusion: CheckConclusion::Success, url: "https://ci/lint".to_string() },
        Check { name: "api / test".to_string(), conclusion: CheckConclusion::Failure, url: "https://ci/test".to_string() },
    ];
    h.run(vec![prs(vec![checked, pr(4830, "Rate limits")]), key('b')]);
    assert_eq!(h.opened, vec!["https://ci/test".to_string()], "the failing check wins");
    h.run(vec![key('j'), key('b')]);
    assert_eq!(h.opened.len(), 1, "no second open");
    assert!(footer_text(&h.app).contains("no checks yet"), "{}", footer_text(&h.app));
}

#[test]
fn an_address_that_is_not_a_web_url_is_refused_in_the_footer_and_not_opened() {
    let mut h = Harness::new();
    let mut odd = pr(7, "odd");
    odd.checks_detail = vec![Check {
        name: "lint".to_string(),
        conclusion: CheckConclusion::Failure,
        url: "file:///etc/passwd".to_string(),
    }];
    h.run(vec![prs(vec![odd]), key('b')]);
    assert!(h.opened.is_empty());
    assert_eq!(footer_text(&h.app), "refusing to open `file:///etc/passwd`: not an http(s) URL");
    assert!(h.app.last_open.is_none(), "a refused address is not remembered");
    h.run(vec![key('p')]);
    assert_eq!(h.opened, vec!["https://github.com/acme/webapp/pull/7".to_string()]);
}

fn tab_text(app: &App) -> String {
    line_text(&tab_bar(app))
}

#[test]
fn narrow_terminals_collapse_the_columns_into_tabs_and_h_l_switch_them() {
    let mut h = Harness::new();
    h.run(vec![prs(three_prs())]);
    assert_eq!(arrangement(&h.app, 80), Arrangement::Tabs, "four columns of 36 do not fit in 80");
    assert_eq!(arrangement(&h.app, 160), Arrangement::Side);
    assert_eq!(tab_text(&h.app), "My PRs (3) │ Merge queue │ Main builds │ Deployed");
    assert!(titles(&h.app, Stage::Prs)[0].contains("#1 a"));
    assert_eq!(column_message(&h.app, Stage::Prs), None, "no fetching… once rows came");
    h.run(vec![key('l')]);
    assert_eq!(h.app.focus, Stage::Queue);
    assert_eq!(column_message(&h.app, Stage::Queue).as_deref(), Some("fetching…"), "the queue column");
    h.run(vec![key('h'), key('h')]);
    assert_eq!(h.app.focus, Stage::Prs, "clamps at the first column");
    let tab = || Input::Key(Key { code: KeyCode::Tab, control: false });
    h.run(vec![tab(), tab(), tab(), tab()]);
    assert_eq!(h.app.focus, Stage::Prs, "Tab wraps around");
}

#[test]
fn the_tab_layout_does_not_repeat_the_column_title() {
    let mut h = Harness::new();
    h.run(vec![prs(three_prs())]);
    assert_eq!(arrangement(&h.app, 80), Arrangement::Tabs);
    assert_eq!(tab_text(&h.app).matches("My PRs (3)").count(), 1, "{}", tab_text(&h.app));
    let bar = tab_bar(&h.app);
    assert!(bar[0].look.bold && bar[2].look.dim, "the focused tab stands out");
}

#[test]
fn p_toggles_a_details_pane_with_failed_checks_first() {
    let mut h = Harness::new();
    let mut detailed = pr(4821, "Retry hooks");
    detailed.head_ref = "webhook-retry".to_string();
    detailed.additions = 12;
    detailed.deletions = 3;
    detailed.review = ReviewDecision::Approved;
    detailed.merge_state = MergeState::Blocked;
    detailed.checks_detail = vec![
        Check { name: "lint".to_string(), conclusion: CheckConclusion::Success, url: "https://ci/lint".to_string() },
        Check { name: "api / test".to_string(), conclusion: CheckConclusion::Failure, url: "https://ci/test".to_string() },
    ];
    h.run(vec![prs(vec![detailed]), key('d')]);
    let screen = pane_text(&mut h, 9);
    assert!(screen.contains("#4821 acme/webapp  webhook-retry  +12 −3"), "{screen}");
    assert!(screen.contains("review: approved"), "{screen}");
    assert!(screen.contains("merge: blocked"), "{screen}");
    let test_line = screen.lines().position(|l| l.contains("✗ api / test")).unwrap();
    let lint_line = screen.lines().position(|l| l.contains("✓ lint")).unwrap();
    assert!(test_line < lint_line, "failures first: {screen}");
    h.run(vec![key('d')]);
    assert!(!h.app.details, "the same key closes the pane");
}

#[test]
fn enter_opens_the_pull_request_and_p_shows_the_image_and_target() {
    let mut h = Harness::new();
    h.run(vec![deployed(envs()), key('l'), key('l'), key('l'), key('p'), key('d')]);
    assert_eq!(h.opened, vec!["https://github.com/acme/webapp/pull/4840".to_string()]);
    let screen = pane_text(&mut h, 8);
    assert!(screen.contains("staging  ghcr.io/acme/api:000000000000000000000000000000000000001a"), "{screen}");
    assert!(screen.contains("#4840 bob  Speed up CI"), "{screen}");
    assert!(screen.contains("deployed 6d ago"), "{screen}");
}
