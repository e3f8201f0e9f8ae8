use conveyor::cli::{parse, Command, USAGE};
use conveyor::config::{Config, DeployEnv, Fetcher};
use conveyor::model::builds::{Build, BuildStatus, PullRef};
use conveyor::model::prs::{days_from_civil, parse_timestamp, CheckConclusion, CheckState};
use conveyor::text::{age, duration, pad_right, truncate};
use conveyor::ui::footer::logo;
use conveyor::ui::style::{
    build_glyph, build_label, check_word, conclusion_glyph, glyph, sha8, short_repo, status_word,
    Tone,
};

const SECOND: u128 = 1_000_000_000;

fn args(list: &[&str]) -> Vec<String> {
    list.iter().map(|a| a.to_string()).collect()
}

#[test]
fn truncate_marks_a_cut_with_an_ellipsis_and_pad_right_fills_to_the_width() {
    assert_eq!(truncate("hello", 10), "hello");
    assert_eq!(truncate("hello", 5), "hello");
    assert_eq!(truncate("hello world", 5), "hell…");
    assert_eq!(truncate("hello", 0), "");
    assert_eq!(truncate("héllo", 2), "h…");
    assert_eq!(pad_right("ab", 4), "ab  ");
    assert_eq!(pad_right("abcdef", 4), "abc…");
    assert_eq!(pad_right("", 0), "");
    assert_eq!(pad_right("✓", 3).chars().count(), 3);
}

#[test]
fn durations_use_their_largest_whole_unit() {
    assert_eq!(duration(0), "0s");
    assert_eq!(duration(45 * SECOND + SECOND / 2), "45s");
    assert_eq!(duration(60 * SECOND), "1m");
    assert_eq!(duration(3599 * SECOND), "59m");
    assert_eq!(duration(2 * 3600 * SECOND), "2h");
    assert_eq!(duration(6 * 86_400 * SECOND + 5), "6d");
    assert_eq!(age(100 * SECOND, 280 * SECOND), "3m");
    assert_eq!(age(300 * SECOND, 280 * SECOND), "0s", "the future is no time ago");
}

#[test]
fn timestamps_read_as_utc_seconds_since_the_epoch() {
    assert_eq!(parse_timestamp("1970-01-01T00:00:00Z"), Some(0));
    assert_eq!(parse_timestamp("2026-09-10T15:00:00Z"), Some(1_789_052_400 * SECOND));
    assert_eq!(parse_timestamp("2000-02-29T12:30:05Z"), Some(951_827_405 * SECOND));
    assert_eq!(parse_timestamp("garbage"), None);
    assert_eq!(parse_timestamp("1969-12-31T23:59:59Z"), None, "before the epoch");
    assert_eq!(days_from_civil(1970, 1, 1), 0);
    assert_eq!(days_from_civil(2000, 3, 1), 11_017);
    assert_eq!(days_from_civil(1969, 12, 31), -1);
    assert_eq!(days_from_civil(2026, 9, 10), 20_706);
}

#[test]
fn the_command_line_takes_one_word_or_flag() {
    assert_eq!(parse(&args(&[])), Ok(Command::Tui));
    assert_eq!(parse(&args(&["config"])), Ok(Command::Config));
    assert_eq!(parse(&args(&["--help"])), Ok(Command::Help));
    assert_eq!(parse(&args(&["-h"])), Ok(Command::Help));
    assert_eq!(parse(&args(&["--version", "x"])), Ok(Command::Version));
    assert_eq!(parse(&args(&["-V"])), Ok(Command::Version));
    let err = parse(&args(&["--bogus"])).unwrap_err();
    assert_eq!(err, format!("unknown argument '--bogus'\n{USAGE}"));
    assert!(USAGE.starts_with("usage: conveyor"));
}

#[test]
fn the_default_configuration_is_the_documented_one() {
    let config = Config::default();
    assert_eq!(config.prs.query, "is:pr is:open author:@me archived:false");
    assert_eq!(config.prs.limit, 20);
    assert_eq!(config.prs.refresh_secs, 60);
    assert_eq!(config.ui.min_column_width, 36);
    assert_eq!(config.ui.details_percent, 40);
    assert!(config.repo.is_empty());
    assert!(!config.deploy_configured());
    let env = DeployEnv::default();
    assert_eq!(env.fetcher, Fetcher::Kubectl);
}

#[test]
fn glyphs_and_words_name_each_state() {
    assert_eq!(glyph(CheckState::Success), ('✓', Tone::Green));
    assert_eq!(glyph(CheckState::Failure), ('✗', Tone::Red));
    assert_eq!(glyph(CheckState::NoChecks), ('○', Tone::DarkGray));
    assert_eq!(build_glyph(BuildStatus::Cancelled), ('⊘', Tone::DarkGray));
    assert_eq!(build_glyph(BuildStatus::Queued), ('○', Tone::Yellow));
    assert_eq!(conclusion_glyph(CheckConclusion::Skipped), ('-', Tone::DarkGray));
    assert_eq!(status_word(BuildStatus::Running), "running");
    assert_eq!(status_word(BuildStatus::Unknown), "?");
    assert_eq!(check_word(CheckState::NoChecks), "none");
    assert_eq!(short_repo("acme/webapp"), "webapp");
    assert_eq!(short_repo("plain"), "plain");
    assert_eq!(sha8("0123456789abcdef"), "01234567");
    assert_eq!(sha8("abc"), "abc");
}

#[test]
fn a_build_card_is_headed_by_its_pull_request_else_its_run() {
    let mut build = Build { run_number: 26, actor: "bot".to_string(), ..Build::default() };
    assert_eq!(build_label(&build), ("run 26".to_string(), "bot".to_string()));
    build.pr_number = Some(4821);
    assert_eq!(build_label(&build), ("#4821".to_string(), "bot".to_string()));
    build.pull = Some(PullRef {
        number: 4840,
        title: "Speed up CI".to_string(),
        author: "bob".to_string(),
        url: "u".to_string(),
    });
    assert_eq!(build_label(&build), ("#4840".to_string(), "bob".to_string()));
}

#[test]
fn the_logo_names_the_version() {
    assert_eq!(logo("0.13.0"), "⟦▣⟧━⟦▣⟧━⟦▣⟧━▸ conveyor v0.13.0");
}

#[test]
fn help_flags_print_usage_on_stdout_and_exit_zero() {
    for flag in ["--help", "-h", "help"] {
        assert_eq!(parse(&args(&[flag])), Ok(Command::Help), "{flag}");
    }
    assert!(USAGE.contains("usage: conveyor"));
    assert!(USAGE.contains("config"));
}

#[test]
fn version_flags_print_the_crate_version() {
    for flag in ["--version", "-V", "version"] {
        assert_eq!(parse(&args(&[flag])), Ok(Command::Version), "{flag}");
    }
}

#[test]
fn an_unknown_argument_prints_usage_on_stderr_and_exits_one() {
    let err = parse(&args(&["bogus"])).unwrap_err();
    assert!(err.contains("unknown argument 'bogus'"), "{err}");
    assert!(err.contains("usage: conveyor"), "{err}");
}
