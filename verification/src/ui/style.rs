//! The words and glyphs that stand for states.

use vstd::prelude::*;

use crate::model::builds::{Build, BuildStatus};
use crate::model::prs::{CheckConclusion, CheckState};
use crate::strs::{chars_of, last_index, rfind_char, slice_string};

verus! {

/// The colour a glyph or a word is drawn in.
#[derive(Debug, Clone, Copy, PartialEq, Eq, Structural)]
pub enum Tone {
    Green,
    Red,
    Yellow,
    DarkGray,
    Cyan,
}

/// The glyph and colour of a check rollup.
pub open spec fn glyph_of(checks: CheckState) -> (char, Tone) {
    match checks {
        CheckState::Success => ('✓', Tone::Green),
        CheckState::Failure => ('✗', Tone::Red),
        CheckState::Pending => ('●', Tone::Yellow),
        CheckState::NoChecks => ('○', Tone::DarkGray),
        CheckState::Unknown => ('?', Tone::DarkGray),
    }
}

/// The glyph and colour of a build status.
pub open spec fn build_glyph_of(status: BuildStatus) -> (char, Tone) {
    match status {
        BuildStatus::Success => ('✓', Tone::Green),
        BuildStatus::Failure => ('✗', Tone::Red),
        BuildStatus::Running => ('●', Tone::Yellow),
        BuildStatus::Queued => ('○', Tone::Yellow),
        BuildStatus::Cancelled => ('⊘', Tone::DarkGray),
        BuildStatus::Unknown => ('?', Tone::DarkGray),
    }
}

/// The glyph and colour of one check's conclusion.
pub open spec fn conclusion_glyph_of(conclusion: CheckConclusion) -> (char, Tone) {
    match conclusion {
        CheckConclusion::Success => ('✓', Tone::Green),
        CheckConclusion::Failure => ('✗', Tone::Red),
        CheckConclusion::Pending => ('●', Tone::Yellow),
        CheckConclusion::Skipped => ('-', Tone::DarkGray),
        CheckConclusion::Unknown => ('?', Tone::DarkGray),
    }
}

pub fn glyph(checks: CheckState) -> (r: (char, Tone))
    ensures
        r == glyph_of(checks),
{
    match checks {
        CheckState::Success => ('✓', Tone::Green),
        CheckState::Failure => ('✗', Tone::Red),
        CheckState::Pending => ('●', Tone::Yellow),
        CheckState::NoChecks => ('○', Tone::DarkGray),
        CheckState::Unknown => ('?', Tone::DarkGray),
    }
}

pub fn build_glyph(status: BuildStatus) -> (r: (char, Tone))
    ensures
        r == build_glyph_of(status),
{
    match status {
        BuildStatus::Success => ('✓', Tone::Green),
        BuildStatus::Failure => ('✗', Tone::Red),
        BuildStatus::Running => ('●', Tone::Yellow),
        BuildStatus::Queued => ('○', Tone::Yellow),
        BuildStatus::Cancelled => ('⊘', Tone::DarkGray),
        BuildStatus::Unknown => ('?', Tone::DarkGray),
    }
}

pub fn conclusion_glyph(conclusion: CheckConclusion) -> (r: (char, Tone))
    ensures
        r == conclusion_glyph_of(conclusion),
{
    match conclusion {
        CheckConclusion::Success => ('✓', Tone::Green),
        CheckConclusion::Failure => ('✗', Tone::Red),
        CheckConclusion::Pending => ('●', Tone::Yellow),
        CheckConclusion::Skipped => ('-', Tone::DarkGray),
        CheckConclusion::Unknown => ('?', Tone::DarkGray),
    }
}

pub open spec fn status_text(status: BuildStatus) -> Seq<char> {
    match status {
        BuildStatus::Success => "success"@,
        BuildStatus::Failure => "failure"@,
        BuildStatus::Running => "running"@,
        BuildStatus::Queued => "queued"@,
        BuildStatus::Cancelled => "cancelled"@,
        BuildStatus::Unknown => "?"@,
    }
}

pub fn status_word(status: BuildStatus) -> (r: &'static str)
    ensures
        r@ == status_text(status),
{
    match status {
        BuildStatus::Success => "success",
        BuildStatus::Failure => "failure",
        BuildStatus::Running => "running",
        BuildStatus::Queued => "queued",
        BuildStatus::Cancelled => "cancelled",
        BuildStatus::Unknown => "?",
    }
}

pub open spec fn check_text(checks: CheckState) -> Seq<char> {
    match checks {
        CheckState::Success => "success"@,
        CheckState::Failure => "failure"@,
        CheckState::Pending => "pending"@,
        CheckState::NoChecks => "none"@,
        CheckState::Unknown => "?"@,
    }
}

pub fn check_word(checks: CheckState) -> (r: &'static str)
    ensures
        r@ == check_text(checks),
{
    match checks {
        CheckState::Success => "success",
        CheckState::Failure => "failure",
        CheckState::Pending => "pending",
        CheckState::NoChecks => "none",
        CheckState::Unknown => "?",
    }
}

/// The name of a repository without its owner: what follows the last `/`.
pub open spec fn short_repo_of(repo: Seq<char>) -> Seq<char> {
    match last_index(repo, '/') {
        Some(i) => repo.skip(i + 1),
        None => repo,
    }
}

pub fn short_repo(repo: &str) -> (r: String)
    ensures
        r@ == short_repo_of(repo@),
{
    let chars = chars_of(repo);
    let s = chars.as_slice();
    match rfind_char(s, '/') {
        Some(i) => slice_string(s, i + 1, s.len()),
        None => {
            assert(s@.subrange(0, s@.len() as int) =~= s@);
            slice_string(s, 0, s.len())
        },
    }
}

/// The first eight characters of a sha.
pub fn sha8(sha: &str) -> (r: String)
    ensures
        r@ == sha@.take(if sha@.len() < 8 { sha@.len() as int } else { 8 }),
{
    let chars = chars_of(sha);
    let end = if chars.len() < 8 { chars.len() } else { 8 };
    slice_string(chars.as_slice(), 0, end)
}

/// A cancelled build: its jobs died with it and do not count as failures.
pub fn cancelled(build: &Build) -> (r: bool)
    ensures
        r == (build.status == BuildStatus::Cancelled),
{
    build.status == BuildStatus::Cancelled
}

} // verus!

verus! {

/// How a build card is headed and whom it names: its pull request and that pull request's
/// author, else the squash number and the actor, else the run number and the actor.
pub open spec fn build_label_of(build: Build) -> (Seq<char>, Seq<char>) {
    match (build.pull, build.pr_number) {
        (Some(pull), _) => (seq!['#'] + crate::strs::decimal(pull.number as nat), pull.author@),
        (None, Some(n)) => (seq!['#'] + crate::strs::decimal(n as nat), build.actor@),
        (None, None) => ("run "@ + crate::strs::decimal(build.run_number as nat), build.actor@),
    }
}

pub fn build_label(build: &Build) -> (r: (String, String))
    ensures
        (r.0@, r.1@) == build_label_of(*build),
{
    proof {
        reveal_strlit("#");
        assert("#"@ =~= seq!['#']);
    }
    match (&build.pull, build.pr_number) {
        (Some(pull), _) => (
            crate::strs::concat("#", crate::strs::decimal_string(pull.number).as_str()),
            pull.author.clone(),
        ),
        (None, Some(n)) => (
            crate::strs::concat("#", crate::strs::decimal_string(n).as_str()),
            build.actor.clone(),
        ),
        (None, None) => (
            crate::strs::concat("run ", crate::strs::decimal_string(build.run_number).as_str()),
            build.actor.clone(),
        ),
    }
}

} // verus!

verus! {

/// A checks rollup is drawn by its own glyph and colour: a green tick for success, a red
/// cross for failure, a yellow dot while pending, a grey ring for no checks, a grey `?`.
pub proof fn lemma_check_glyphs(c: CheckState)
    ensures
        glyph_of(c) == ('✓', Tone::Green) <==> c == CheckState::Success,
        glyph_of(c) == ('✗', Tone::Red) <==> c == CheckState::Failure,
        glyph_of(c) == ('●', Tone::Yellow) <==> c == CheckState::Pending,
        glyph_of(c) == ('○', Tone::DarkGray) <==> c == CheckState::NoChecks,
        glyph_of(c) == ('?', Tone::DarkGray) <==> c == CheckState::Unknown,
{
}

/// A run is drawn by its own glyph and colour: a green tick for success, a red cross for
/// failure, a yellow dot while running, a yellow ring while queued, a grey `⊘` when
/// cancelled, a grey `?`.
pub proof fn lemma_build_glyphs(s: BuildStatus)
    ensures
        build_glyph_of(s) == ('✓', Tone::Green) <==> s == BuildStatus::Success,
        build_glyph_of(s) == ('✗', Tone::Red) <==> s == BuildStatus::Failure,
        build_glyph_of(s) == ('●', Tone::Yellow) <==> s == BuildStatus::Running,
        build_glyph_of(s) == ('○', Tone::Yellow) <==> s == BuildStatus::Queued,
        build_glyph_of(s) == ('⊘', Tone::DarkGray) <==> s == BuildStatus::Cancelled,
        build_glyph_of(s) == ('?', Tone::DarkGray) <==> s == BuildStatus::Unknown,
{
}

/// A check's conclusion is drawn by its own glyph and colour; a skipped check is a grey dash.
pub proof fn lemma_conclusion_glyphs(k: CheckConclusion)
    ensures
        conclusion_glyph_of(k) == ('✓', Tone::Green) <==> k == CheckConclusion::Success,
        conclusion_glyph_of(k) == ('✗', Tone::Red) <==> k == CheckConclusion::Failure,
        conclusion_glyph_of(k) == ('●', Tone::Yellow) <==> k == CheckConclusion::Pending,
        conclusion_glyph_of(k) == ('-', Tone::DarkGray) <==> k == CheckConclusion::Skipped,
        conclusion_glyph_of(k) == ('?', Tone::DarkGray) <==> k == CheckConclusion::Unknown,
{
}

/// Each run status reads as its own word on screen.
pub proof fn lemma_status_words(s: BuildStatus)
    ensures
        status_text(s) == "success"@ <==> s == BuildStatus::Success,
        status_text(s) == "failure"@ <==> s == BuildStatus::Failure,
        status_text(s) == "running"@ <==> s == BuildStatus::Running,
        status_text(s) == "queued"@ <==> s == BuildStatus::Queued,
        status_text(s) == "cancelled"@ <==> s == BuildStatus::Cancelled,
        status_text(s) == "?"@ <==> s == BuildStatus::Unknown,
{
    reveal_strlit("success");
    reveal_strlit("failure");
    reveal_strlit("running");
    reveal_strlit("queued");
    reveal_strlit("cancelled");
    reveal_strlit("?");
    assert("success"@[0] != "failure"@[0]);
    assert("success"@[0] != "running"@[0]);
    assert("success"@.len() != "queued"@.len());
    assert("success"@.len() != "cancelled"@.len());
    assert("success"@.len() != "?"@.len());
    assert("failure"@[0] != "running"@[0]);
    assert("failure"@.len() != "queued"@.len());
    assert("failure"@.len() != "cancelled"@.len());
    assert("failure"@.len() != "?"@.len());
    assert("running"@.len() != "queued"@.len());
    assert("running"@.len() != "cancelled"@.len());
    assert("running"@.len() != "?"@.len());
    assert("queued"@.len() != "cancelled"@.len());
    assert("queued"@.len() != "?"@.len());
    assert("cancelled"@.len() != "?"@.len());
}

/// Each checks rollup reads as its own word on screen.
pub proof fn lemma_check_words(c: CheckState)
    ensures
        check_text(c) == "success"@ <==> c == CheckState::Success,
        check_text(c) == "failure"@ <==> c == CheckState::Failure,
        check_text(c) == "pending"@ <==> c == CheckState::Pending,
        check_text(c) == "none"@ <==> c == CheckState::NoChecks,
        check_text(c) == "?"@ <==> c == CheckState::Unknown,
{
    reveal_strlit("success");
    reveal_strlit("failure");
    reveal_strlit("pending");
    reveal_strlit("none");
    reveal_strlit("?");
    assert("success"@[0] != "failure"@[0]);
    assert("success"@[0] != "pending"@[0]);
    assert("success"@.len() != "none"@.len());
    assert("success"@.len() != "?"@.len());
    assert("failure"@[0] != "pending"@[0]);
    assert("failure"@.len() != "none"@.len());
    assert("failure"@.len() != "?"@.len());
    assert("pending"@.len() != "none"@.len());
    assert("pending"@.len() != "?"@.len());
    assert("none"@.len() != "?"@.len());
}

} // verus!
