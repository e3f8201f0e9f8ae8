//! Open pull requests, as the GitHub search API describes them.

use vstd::prelude::*;

use crate::json::{
    at2, bool_at, filter_map_nodes, filter_mapped, get2, get_bool, get_items, get_str, get_u64,
    items_at, str_at, text, text_at, text_at2, text2, u64_at, Json,
};
use crate::strs::{opt_is, opt_view, split_three, strip_trailing, strip_trailing_end, three_pieces,
    chars_of, find_char, first_index, lemma_first_index_bounds, parse_i64, parse_i64_spec,
    str_eq,
};
use crate::time::{Stamp, SECOND};

verus! {

#[derive(Debug, Clone, Copy, PartialEq, Eq, Structural, Default)]
pub enum CheckState {
    Success,
    Failure,
    Pending,
    #[default]
    NoChecks,
    Unknown,
}

#[derive(Debug, Clone, Copy, PartialEq, Eq, Structural, Default)]
pub enum CheckConclusion {
    Success,
    Failure,
    Pending,
    Skipped,
    #[default]
    Unknown,
}

#[derive(Debug, Clone, PartialEq, Eq, Default)]
pub struct Check {
    pub name: String,
    pub conclusion: CheckConclusion,
    pub url: String,
}

#[derive(Debug, Clone, Copy, PartialEq, Eq, Structural, Default)]
pub enum ReviewDecision {
    Approved,
    ChangesRequested,
    ReviewRequired,
    #[default]
    NoDecision,
    Unknown,
}

impl ReviewDecision {
    /// How the decision reads on screen.
    pub fn label(self) -> (r: &'static str)
        ensures
            r@ == review_label(self),
    {
        match self {
            ReviewDecision::Approved => "approved",
            ReviewDecision::ChangesRequested => "changes requested",
            ReviewDecision::ReviewRequired => "review required",
            ReviewDecision::NoDecision => "—",
            ReviewDecision::Unknown => "?",
        }
    }
}

pub open spec fn review_label(r: ReviewDecision) -> Seq<char> {
    match r {
        ReviewDecision::Approved => "approved"@,
        ReviewDecision::ChangesRequested => "changes requested"@,
        ReviewDecision::ReviewRequired => "review required"@,
        ReviewDecision::NoDecision => "—"@,
        ReviewDecision::Unknown => "?"@,
    }
}

#[derive(Debug, Clone, Copy, PartialEq, Eq, Structural, Default)]
pub enum MergeState {
    Clean,
    Blocked,
    Behind,
    Dirty,
    Draft,
    HasHooks,
    Unstable,
    #[default]
    Unknown,
}

pub open spec fn merge_label(m: MergeState) -> Seq<char> {
    match m {
        MergeState::Clean => "clean"@,
        MergeState::Blocked => "blocked"@,
        MergeState::Behind => "behind"@,
        MergeState::Dirty => "dirty"@,
        MergeState::Draft => "draft"@,
        MergeState::HasHooks => "has hooks"@,
        MergeState::Unstable => "unstable"@,
        MergeState::Unknown => "—"@,
    }
}

impl MergeState {
    /// How the merge state reads on screen.
    pub fn label(self) -> (r: &'static str)
        ensures
            r@ == merge_label(self),
    {
        match self {
            MergeState::Clean => "clean",
            MergeState::Blocked => "blocked",
            MergeState::Behind => "behind",
            MergeState::Dirty => "dirty",
            MergeState::Draft => "draft",
            MergeState::HasHooks => "has hooks",
            MergeState::Unstable => "unstable",
            MergeState::Unknown => "—",
        }
    }
}

#[derive(Debug, Clone, PartialEq, Eq, Default)]
pub struct PullRequest {
    pub number: u64,
    pub title: String,
    pub url: String,
    pub repo: String,
    pub head_ref: String,
    pub is_draft: bool,
    pub checks: CheckState,
    pub checks_detail: Vec<Check>,
    pub review: ReviewDecision,
    pub merge_state: MergeState,
    pub additions: u64,
    pub deletions: u64,
    pub updated_at: Option<Stamp>,
    pub queue_position: Option<u64>,
}

/// Where a check conclusion sorts: failures first, then pending, unknown, success, skipped.
pub open spec fn conclusion_rank(c: CheckConclusion) -> int {
    match c {
        CheckConclusion::Failure => 0,
        CheckConclusion::Pending => 1,
        CheckConclusion::Unknown => 2,
        CheckConclusion::Success => 3,
        CheckConclusion::Skipped => 4,
    }
}

pub open spec fn has_rank(k: int) -> spec_fn(Check) -> bool {
    |c: Check| conclusion_rank(c.conclusion) == k
}

/// The checks stably sorted by `conclusion_rank`: those of rank 0 in their order, then
/// those of rank 1, and so on.
pub open spec fn failures_first(checks: Seq<Check>) -> Seq<Check> {
    checks.filter(has_rank(0)) + checks.filter(has_rank(1)) + checks.filter(has_rank(2))
        + checks.filter(has_rank(3)) + checks.filter(has_rank(4))
}

fn rank_of(c: CheckConclusion) -> (r: u8)
    ensures
        r == conclusion_rank(c),
{
    match c {
        CheckConclusion::Failure => 0,
        CheckConclusion::Pending => 1,
        CheckConclusion::Unknown => 2,
        CheckConclusion::Success => 3,
        CheckConclusion::Skipped => 4,
    }
}

/// Appends to `out` the checks of rank `k`, in their order.
fn push_rank<'a>(checks: &'a Vec<Check>, k: u8, out: &mut Vec<&'a Check>)
    ensures
        final(out)@.len() == old(out)@.len() + checks@.filter(has_rank(k as int)).len(),
        forall|i: int| 0 <= i < old(out)@.len() ==> *final(out)@[i] == *old(out)@[i],
        forall|i: int|
            0 <= i < checks@.filter(has_rank(k as int)).len() ==> *final(out)@[old(out)@.len()
                + i] == checks@.filter(has_rank(k as int))[i],
{
    let ghost start = out@;
    let mut i: usize = 0;
    while i < checks.len()
        invariant
            0 <= i <= checks@.len(),
            out@.len() == start.len() + checks@.take(i as int).filter(has_rank(k as int)).len(),
            forall|j: int| 0 <= j < start.len() ==> *out@[j] == *start[j],
            forall|j: int|
                0 <= j < checks@.take(i as int).filter(has_rank(k as int)).len() ==> *out@[start.len()
                    + j] == checks@.take(i as int).filter(has_rank(k as int))[j],
        decreases checks@.len() - i,
    {
        proof {
            assert(checks@.take(i + 1) =~= checks@.take(i as int).push(checks@[i as int]));
            checks@.take(i as int).lemma_filter_push(checks@[i as int], has_rank(k as int));
        }
        if rank_of(checks[i].conclusion) == k {
            out.push(&checks[i]);
        }
        i = i + 1;
    }
    assert(checks@.take(checks@.len() as int) =~= checks@);
}

impl PullRequest {
    /// The checks with failures first, then pending, unknown, passed and skipped ones;
    /// within each group in the order the API listed them.
    pub fn checks_failures_first(&self) -> (r: Vec<&Check>)
        ensures
            r@.len() == failures_first(self.checks_detail@).len(),
            forall|i: int| 0 <= i < r@.len() ==> *r@[i] == failures_first(self.checks_detail@)[i],
    {
        let mut out: Vec<&Check> = Vec::new();
        push_rank(&self.checks_detail, 0, &mut out);
        push_rank(&self.checks_detail, 1, &mut out);
        push_rank(&self.checks_detail, 2, &mut out);
        push_rank(&self.checks_detail, 3, &mut out);
        push_rank(&self.checks_detail, 4, &mut out);
        let ghost s = self.checks_detail@;
        assert forall|i: int| 0 <= i < out@.len() implies *out@[i] == failures_first(s)[i] by {
            let a = s.filter(has_rank(0));
            let b = s.filter(has_rank(1));
            let c = s.filter(has_rank(2));
            let d = s.filter(has_rank(3));
            let e = s.filter(has_rank(4));
            assert(failures_first(s) == a + b + c + d + e);
            if i < a.len() {
            } else if i < a.len() + b.len() {
            } else if i < a.len() + b.len() + c.len() {
            } else if i < a.len() + b.len() + c.len() + d.len() {
            } else {
            }
        }
        out
    }
}

} // verus!

verus! {

/// The rollup state of all checks.
pub open spec fn check_state_of(state: Option<Seq<char>>) -> CheckState {
    if state == Some("SUCCESS"@) {
        CheckState::Success
    } else if state == Some("FAILURE"@) || state == Some("ERROR"@) {
        CheckState::Failure
    } else if state == Some("PENDING"@) || state == Some("EXPECTED"@) {
        CheckState::Pending
    } else if state is None {
        CheckState::NoChecks
    } else {
        CheckState::Unknown
    }
}

pub fn check_state(state: Option<&str>) -> (r: CheckState)
    ensures
        r == check_state_of(opt_view(state)),
{
    if opt_is(state, "SUCCESS") {
        CheckState::Success
    } else if opt_is(state, "FAILURE") || opt_is(state, "ERROR") {
        CheckState::Failure
    } else if opt_is(state, "PENDING") || opt_is(state, "EXPECTED") {
        CheckState::Pending
    } else if state.is_none() {
        CheckState::NoChecks
    } else {
        CheckState::Unknown
    }
}

/// The conclusion of a check run from its status and conclusion.
pub open spec fn check_run_conclusion_of(
    status: Option<Seq<char>>,
    conclusion: Option<Seq<char>>,
) -> CheckConclusion {
    if status == Some("COMPLETED"@) && (conclusion == Some("SUCCESS"@) || conclusion == Some(
        "NEUTRAL"@,
    )) {
        CheckConclusion::Success
    } else if status == Some("COMPLETED"@) && conclusion == Some("SKIPPED"@) {
        CheckConclusion::Skipped
    } else if status == Some("COMPLETED"@) && conclusion is Some {
        CheckConclusion::Failure
    } else if status == Some("QUEUED"@) || status == Some("IN_PROGRESS"@) || status == Some(
        "WAITING"@,
    ) || status == Some("PENDING"@) || status == Some("REQUESTED"@) {
        CheckConclusion::Pending
    } else {
        CheckConclusion::Unknown
    }
}

pub fn check_run_conclusion(status: Option<&str>, conclusion: Option<&str>) -> (r:
    CheckConclusion)
    ensures
        r == check_run_conclusion_of(opt_view(status), opt_view(conclusion)),
{
    let completed = opt_is(status, "COMPLETED");
    if completed && (opt_is(conclusion, "SUCCESS") || opt_is(conclusion, "NEUTRAL")) {
        CheckConclusion::Success
    } else if completed && opt_is(conclusion, "SKIPPED") {
        CheckConclusion::Skipped
    } else if completed && conclusion.is_some() {
        CheckConclusion::Failure
    } else if opt_is(status, "QUEUED") || opt_is(status, "IN_PROGRESS") || opt_is(
        status,
        "WAITING",
    ) || opt_is(status, "PENDING") || opt_is(status, "REQUESTED") {
        CheckConclusion::Pending
    } else {
        CheckConclusion::Unknown
    }
}

/// The conclusion of a commit status context from its state.
pub open spec fn context_conclusion_of(state: Option<Seq<char>>) -> CheckConclusion {
    if state == Some("SUCCESS"@) {
        CheckConclusion::Success
    } else if state == Some("FAILURE"@) || state == Some("ERROR"@) {
        CheckConclusion::Failure
    } else if state == Some("PENDING"@) || state == Some("EXPECTED"@) {
        CheckConclusion::Pending
    } else {
        CheckConclusion::Unknown
    }
}

fn context_conclusion(state: Option<&str>) -> (r: CheckConclusion)
    ensures
        r == context_conclusion_of(opt_view(state)),
{
    if opt_is(state, "SUCCESS") {
        CheckConclusion::Success
    } else if opt_is(state, "FAILURE") || opt_is(state, "ERROR") {
        CheckConclusion::Failure
    } else if opt_is(state, "PENDING") || opt_is(state, "EXPECTED") {
        CheckConclusion::Pending
    } else {
        CheckConclusion::Unknown
    }
}

/// The review decision; a value that is not text counts as no decision.
pub open spec fn review_decision_of(value: Option<Seq<char>>) -> ReviewDecision {
    if value == Some("APPROVED"@) {
        ReviewDecision::Approved
    } else if value == Some("CHANGES_REQUESTED"@) {
        ReviewDecision::ChangesRequested
    } else if value == Some("REVIEW_REQUIRED"@) {
        ReviewDecision::ReviewRequired
    } else if value is Some {
        ReviewDecision::Unknown
    } else {
        ReviewDecision::NoDecision
    }
}

pub fn review_decision(value: Option<&str>) -> (r: ReviewDecision)
    ensures
        r == review_decision_of(opt_view(value)),
{
    if opt_is(value, "APPROVED") {
        ReviewDecision::Approved
    } else if opt_is(value, "CHANGES_REQUESTED") {
        ReviewDecision::ChangesRequested
    } else if opt_is(value, "REVIEW_REQUIRED") {
        ReviewDecision::ReviewRequired
    } else if value.is_some() {
        ReviewDecision::Unknown
    } else {
        ReviewDecision::NoDecision
    }
}

pub open spec fn merge_state_of(value: Option<Seq<char>>) -> MergeState {
    if value == Some("CLEAN"@) {
        MergeState::Clean
    } else if value == Some("BLOCKED"@) {
        MergeState::Blocked
    } else if value == Some("BEHIND"@) {
        MergeState::Behind
    } else if value == Some("DIRTY"@) {
        MergeState::Dirty
    } else if value == Some("DRAFT"@) {
        MergeState::Draft
    } else if value == Some("HAS_HOOKS"@) {
        MergeState::HasHooks
    } else if value == Some("UNSTABLE"@) {
        MergeState::Unstable
    } else {
        MergeState::Unknown
    }
}

pub fn merge_state(value: Option<&str>) -> (r: MergeState)
    ensures
        r == merge_state_of(opt_view(value)),
{
    if opt_is(value, "CLEAN") {
        MergeState::Clean
    } else if opt_is(value, "BLOCKED") {
        MergeState::Blocked
    } else if opt_is(value, "BEHIND") {
        MergeState::Behind
    } else if opt_is(value, "DIRTY") {
        MergeState::Dirty
    } else if opt_is(value, "DRAFT") {
        MergeState::Draft
    } else if opt_is(value, "HAS_HOOKS") {
        MergeState::HasHooks
    } else if opt_is(value, "UNSTABLE") {
        MergeState::Unstable
    } else {
        MergeState::Unknown
    }
}

} // verus!

verus! {

/// Division rounding toward zero, as Rust's `/` on signed integers does (`b > 0`).
pub open spec fn tdiv(a: int, b: int) -> int {
    if a >= 0 {
        a / b
    } else {
        -((-a) / b)
    }
}

/// The remainder that goes with `tdiv`, as Rust's `%` on signed integers gives it.
pub open spec fn trem(a: int, b: int) -> int {
    a - b * tdiv(a, b)
}

/// The day number, counted from 1970-01-01, of a proleptic Gregorian date (the civil-days
/// algorithm; any month and day are taken as they come).
pub open spec fn civil_days(year: int, month: int, day: int) -> int {
    let y = if month <= 2 {
        year - 1
    } else {
        year
    };
    let era = y / 400;
    let year_of_era = y - era * 400;
    let month_index = trem(month + 9, 12);
    let day_of_year = tdiv(153 * month_index + 2, 5) + day - 1;
    let day_of_era = year_of_era * 365 + year_of_era / 4 - year_of_era / 100 + day_of_year;
    era * 146_097 + day_of_era - 719_468
}

/// Whether `year` is a leap year of the proleptic Gregorian calendar.
pub open spec fn leap(year: int) -> bool {
    year % 4 == 0 && (year % 100 != 0 || year % 400 == 0)
}

/// The number of days of a month.
pub open spec fn month_days(year: int, month: int) -> int {
    if month == 2 {
        if leap(year) {
            29
        } else {
            28
        }
    } else if month == 4 || month == 6 || month == 9 || month == 11 {
        30
    } else {
        31
    }
}

/// Whether `year-month-day` is a date of the proleptic Gregorian calendar.
pub open spec fn valid_date(year: int, month: int, day: int) -> bool {
    1 <= month <= 12 && 1 <= day <= month_days(year, month)
}

/// The date after `year-month-day`.
pub open spec fn next_date(year: int, month: int, day: int) -> (int, int, int) {
    if day < month_days(year, month) {
        (year, month, day + 1)
    } else if month < 12 {
        (year, month + 1, 1)
    } else {
        (year + 1, 1, 1)
    }
}

/// The days from 1 March of year 0 to 1 March of `year`, as `civil_days` counts them.
spec fn march_days(year: int) -> int {
    let era = year / 400;
    let year_of_era = year - era * 400;
    era * 146_097 + year_of_era * 365 + year_of_era / 4 - year_of_era / 100
}

/// The days from 1 March to the first of `month`, as `civil_days` counts them.
spec fn month_start(month: int) -> int {
    tdiv(153 * trem(month + 9, 12) + 2, 5)
}

proof fn lemma_month_starts(month: int)
    requires
        1 <= month <= 12,
    ensures
        3 <= month < 12 ==> month_start(month + 1) == month_start(month) + month_days(0, month),
        month == 12 ==> month_start(1) == month_start(12) + 31,
        month == 1 ==> month_start(2) == month_start(1) + 31,
        month == 2 ==> month_start(2) == 337 && month_start(3) == 0,
{
    assert(month_start(1) == 306);
    assert(month_start(2) == 337);
    assert(month_start(3) == 0);
    assert(month_start(4) == 31);
    assert(month_start(5) == 61);
    assert(month_start(6) == 92);
    assert(month_start(7) == 122);
    assert(month_start(8) == 153);
    assert(month_start(9) == 184);
    assert(month_start(10) == 214);
    assert(month_start(11) == 245);
    assert(month_start(12) == 275);
}

/// A year from March to March has 366 days when the February in it is a leap one.
proof fn lemma_march_to_march(year: int)
    ensures
        march_days(year + 1) == march_days(year) + if leap(year + 1) {
            366int
        } else {
            365int
        },
{
    let era = year / 400;
    let yoe = year - era * 400;
    assert(0 <= yoe < 400);
    assert(year + 1 == era * 400 + yoe + 1);
    if yoe < 399 {
        assert((year + 1) / 400 == era) by (nonlinear_arith)
            requires
                year + 1 == era * 400 + yoe + 1,
                0 <= yoe < 399,
        ;
        assert((year + 1) % 4 == (yoe + 1) % 4) by (nonlinear_arith)
            requires
                year + 1 == era * 400 + yoe + 1,
        ;
        assert((year + 1) % 100 == (yoe + 1) % 100) by (nonlinear_arith)
            requires
                year + 1 == era * 400 + yoe + 1,
        ;
        assert((year + 1) % 400 == yoe + 1) by (nonlinear_arith)
            requires
                year + 1 == era * 400 + yoe + 1,
                0 <= yoe < 399,
        ;
    } else {
        assert((year + 1) / 400 == era + 1) by (nonlinear_arith)
            requires
                year + 1 == era * 400 + 400,
        ;
        assert((year + 1) % 400 == 0) by (nonlinear_arith)
            requires
                year + 1 == era * 400 + 400,
        ;
    }
}

/// `civil_days` counts days from 1970-01-01: that date is day 0, and the date after a valid
/// date is the next day.
pub proof fn lemma_civil_days_count(year: int, month: int, day: int)
    requires
        valid_date(year, month, day),
    ensures
        civil_days(1970, 1, 1) == 0,
        civil_days(next_date(year, month, day).0, next_date(year, month, day).1, next_date(year, month, day).2)
            == civil_days(year, month, day) + 1,
{
    assert(civil_days(1970, 1, 1) == 0);
    let shifted = if month <= 2 {
        year - 1
    } else {
        year
    };
    assert(civil_days(year, month, day) == march_days(shifted) + month_start(month) + day - 1
        - 719_468);
    lemma_month_starts(month);
    if day < month_days(year, month) {
    } else if month < 12 {
        if month == 2 {
            lemma_march_to_march(year - 1);
            assert(civil_days(year, 3, 1) == march_days(year) + month_start(3) - 719_468);
        } else {
            assert(civil_days(year, month + 1, 1) == march_days(shifted) + month_start(month + 1)
                - 719_468);
        }
    } else {
        assert(civil_days(year + 1, 1, 1) == march_days(year) + month_start(1) - 719_468);
    }
}

const LIMIT: i128 = 0x1_0000_0000_0000_0000;

fn div_toward_zero(a: i128, b: i128) -> (r: i128)
    requires
        0 < b < LIMIT,
        -0x4000_0000_0000_0000_0000_0000_0000 < a < 0x4000_0000_0000_0000_0000_0000_0000,
    ensures
        r == tdiv(a as int, b as int),
{
    if a >= 0 {
        ((a as u128) / (b as u128)) as i128
    } else {
        let q = ((-a) as u128) / (b as u128);
        assert(q <= (-a)) by (nonlinear_arith)
            requires
                q == ((-a) as u128) / (b as u128),
                b > 0,
                -a > 0,
        ;
        -(q as i128)
    }
}

/// The days since 1970-01-01 of `year-month-day`.
pub fn days_from_civil(year: i64, month: i64, day: i64) -> (r: i128)
    ensures
        r == civil_days(year as int, month as int, day as int),
{
    let y: i128 = if month <= 2 {
        year as i128 - 1
    } else {
        year as i128
    };
    let era = y.checked_div_euclid(400).unwrap();
    assert(-0x8000_0000_0000_0000 <= era <= 0x8000_0000_0000_0000) by (nonlinear_arith)
        requires
            era == y / 400,
            -0x8000_0000_0000_0001 <= y <= 0x8000_0000_0000_0000,
    ;
    let year_of_era = y - era * 400;
    assert(0 <= year_of_era < 400) by (nonlinear_arith)
        requires
            era == y / 400,
            year_of_era == y - era * 400,
    ;
    let m9 = month as i128 + 9;
    let month_index = m9 - 12 * div_toward_zero(m9, 12);
    assert(-12 < month_index < 12) by (nonlinear_arith)
        requires
            month_index == m9 - 12 * tdiv(m9 as int, 12),
    ;
    let day_of_year = div_toward_zero(153 * month_index + 2, 5) + day as i128 - 1;
    let day_of_era = year_of_era * 365 + year_of_era / 4 - year_of_era / 100 + day_of_year;
    era * 146_097 + day_of_era - 719_468
}

/// When a timestamp such as `2026-09-10T17:35:19Z` falls: the date and the time split at the
/// first `T`, trailing `Z`s dropped, the first three `-`- and `:`-separated fields read as
/// numbers; `None` when any of that fails or the moment is before 1970 or more than
/// `u64::MAX` seconds after it.
pub open spec fn timestamp_of(text: Seq<char>) -> Option<Stamp> {
    match first_index(text, 'T') {
        None => None,
        Some(k) => {
            let date = text.take(k);
            let time = strip_trailing(text.skip(k + 1), 'Z');
            match (three_pieces(date, '-'), three_pieces(time, ':')) {
                (Some((ys, ms, ds)), Some((hs, mins, ss))) => match (
                    parse_i64_spec(ys),
                    parse_i64_spec(ms),
                    parse_i64_spec(ds),
                    parse_i64_spec(hs),
                    parse_i64_spec(mins),
                    parse_i64_spec(ss),
                ) {
                    (Some(y), Some(mo), Some(d), Some(h), Some(mi), Some(s)) => {
                        let secs = civil_days(y as int, mo as int, d as int) * 86_400 + h * 3600
                            + mi * 60 + s;
                        if 0 <= secs <= u64::MAX {
                            Some((secs * SECOND) as Stamp)
                        } else {
                            None
                        }
                    },
                    _ => None,
                },
                _ => None,
            }
        },
    }
}

/// Reads an ISO-8601 UTC timestamp such as `2026-09-10T17:35:19Z`.
pub fn parse_timestamp(text: &str) -> (r: Option<Stamp>)
    ensures
        r == timestamp_of(text@),
{
    let chars = chars_of(text);
    let s = chars.as_slice();
    assert(s@.skip(0) =~= s@);
    let k = match find_char(s, 0, 'T') {
        Some(k) => k,
        None => {
            return None;
        },
    };
    let end = strip_trailing_end(s, k + 1, 'Z');
    assert(s@.subrange(0, k as int) =~= s@.take(k as int));
    let date = split_three(s, 0, k, '-');
    let time = split_three(s, k + 1, end, ':');
    let (ys, ms, ds) = match date {
        Some(p) => p,
        None => {
            return None;
        },
    };
    let (hs, mins, ss) = match time {
        Some(p) => p,
        None => {
            return None;
        },
    };
    let y = parse_i64(ys.as_slice());
    let mo = parse_i64(ms.as_slice());
    let d = parse_i64(ds.as_slice());
    let h = parse_i64(hs.as_slice());
    let mi = parse_i64(mins.as_slice());
    let sec = parse_i64(ss.as_slice());
    match (y, mo, d, h, mi, sec) {
        (Some(y), Some(mo), Some(d), Some(h), Some(mi), Some(sec)) => {
            let days = days_from_civil(y, mo, d);
            assert(-0x40_0000_0000_0000_0000_0000 < days < 0x40_0000_0000_0000_0000_0000)
                by (nonlinear_arith)
                requires
                    days == civil_days(y as int, mo as int, d as int),
                    -0x8000_0000_0000_0000 <= y < 0x8000_0000_0000_0000,
                    -0x8000_0000_0000_0000 <= mo < 0x8000_0000_0000_0000,
                    -0x8000_0000_0000_0000 <= d < 0x8000_0000_0000_0000,
            ;
            let secs = days * 86_400 + (h as i128) * 3600 + (mi as i128) * 60 + sec as i128;
            if 0 <= secs && secs <= u64::MAX as i128 {
                Some((secs as u128) * SECOND)
            } else {
                None
            }
        },
        _ => None,
    }
}

} // verus!

verus! {

/// A status-check node is read when it names a check run (`name`) or a status context
/// (`context`).
pub open spec fn check_accepts(node: Json) -> bool {
    str_at(node, "name"@) is Some || str_at(node, "context"@) is Some
}

/// What a check read from `node` holds: a check run's name, the conclusion from its status
/// and conclusion, and its details URL; else a status context's name, the conclusion from
/// its state, and its target URL.
pub open spec fn check_from(c: Check, node: Json) -> bool {
    match str_at(node, "name"@) {
        Some(name) => {
            &&& c.name@ == name
            &&& c.conclusion == check_run_conclusion_of(
                str_at(node, "status"@),
                str_at(node, "conclusion"@),
            )
            &&& c.url@ == text_at(node, "detailsUrl"@)
        },
        None => {
            &&& Some(c.name@) == str_at(node, "context"@)
            &&& c.conclusion == context_conclusion_of(str_at(node, "state"@))
            &&& c.url@ == text_at(node, "targetUrl"@)
        },
    }
}

pub open spec fn check_accepts_fn() -> spec_fn(Json) -> bool {
    |n: Json| check_accepts(n)
}

pub open spec fn check_from_fn() -> spec_fn(Check, Json) -> bool {
    |c: Check, n: Json| check_from(c, n)
}

fn parse_check(node: &Json) -> (r: Option<Check>)
    ensures
        r is Some <==> check_accepts(*node),
        r matches Some(c) ==> check_from(c, *node),
{
    if let Some(name) = get_str(node, "name") {
        let status = get_str(node, "status");
        let conclusion = get_str(node, "conclusion");
        return Some(
            Check {
                name: name.to_owned(),
                conclusion: check_run_conclusion(status, conclusion),
                url: text(node, "detailsUrl"),
            },
        );
    }
    let context = get_str(node, "context")?;
    Some(
        Check {
            name: context.to_owned(),
            conclusion: context_conclusion(get_str(node, "state")),
            url: text(node, "targetUrl"),
        },
    )
}

/// The check rollup of a pull request node, unless it is missing or null.
pub open spec fn rollup_of(node: Json) -> Option<Json> {
    match node.member("statusCheckRollup"@) {
        Some(r) => if r.null() {
            None
        } else {
            Some(r)
        },
        None => None,
    }
}

/// The status-check nodes of the rollup, if the rollup has a list of them.
pub open spec fn context_nodes(node: Json) -> Seq<Json> {
    match rollup_of(node) {
        Some(r) => match at2(r, "contexts"@, "nodes"@) {
            Some(v) => match v.items() {
                Some(items) => items,
                None => Seq::empty(),
            },
            None => Seq::empty(),
        },
        None => Seq::empty(),
    }
}

pub open spec fn u64_or(v: Option<u64>, default: u64) -> u64 {
    match v {
        Some(n) => n,
        None => default,
    }
}

/// A pull request node is read when it has a number.
pub open spec fn pull_request_accepts(node: Json) -> bool {
    u64_at(node, "number"@) is Some
}

/// What a pull request read from a search node holds.
pub open spec fn pull_request_from(pr: PullRequest, node: Json) -> bool {
    &&& u64_at(node, "number"@) == Some(pr.number)
    &&& pr.title@ == text_at(node, "title"@)
    &&& pr.url@ == text_at(node, "url"@)
    &&& pr.repo@ == text_at2(node, "repository"@, "nameWithOwner"@)
    &&& pr.head_ref@ == text_at(node, "headRefName"@)
    &&& pr.is_draft == (bool_at(node, "isDraft"@) == Some(true))
    &&& pr.checks == match rollup_of(node) {
        Some(r) => check_state_of(str_at(r, "state"@)),
        None => CheckState::NoChecks,
    }
    &&& filter_mapped(pr.checks_detail@, context_nodes(node), check_accepts_fn(), check_from_fn())
    &&& pr.review == review_decision_of(str_at(node, "reviewDecision"@))
    &&& pr.merge_state == merge_state_of(str_at(node, "mergeStateStatus"@))
    &&& pr.additions == u64_or(u64_at(node, "additions"@), 0)
    &&& pr.deletions == u64_or(u64_at(node, "deletions"@), 0)
    &&& pr.updated_at == match str_at(node, "updatedAt"@) {
        Some(t) => timestamp_of(t),
        None => None,
    }
    &&& pr.queue_position == match at2(node, "mergeQueueEntry"@, "position"@) {
        Some(v) => v.unsigned(),
        None => None,
    }
}

pub open spec fn pull_request_accepts_fn() -> spec_fn(Json) -> bool {
    |n: Json| pull_request_accepts(n)
}

pub open spec fn pull_request_from_fn() -> spec_fn(PullRequest, Json) -> bool {
    |pr: PullRequest, n: Json| pull_request_from(pr, n)
}

fn parse_pull_request(node: &Json) -> (r: Option<PullRequest>)
    ensures
        r is Some <==> pull_request_accepts(*node),
        r matches Some(pr) ==> pull_request_from(pr, *node),
{
    let number = get_u64(node, "number")?;
    let rollup = match node.get("statusCheckRollup") {
        Some(r) => if r.is_null() {
            None
        } else {
            Some(r)
        },
        None => None,
    };
    let checks = match rollup {
        Some(r) => check_state(get_str(r, "state")),
        None => CheckState::NoChecks,
    };
    let checks_detail = match rollup {
        Some(r) => match get2(r, "contexts", "nodes") {
            Some(v) => match v.as_array() {
                Some(items) => filter_map_nodes(
                    items,
                    parse_check,
                    Ghost(check_accepts_fn()),
                    Ghost(check_from_fn()),
                ),
                None => Vec::new(),
            },
            None => Vec::new(),
        },
        None => Vec::new(),
    };
    proof {
        if context_nodes(*node).len() == 0 {
            assert(context_nodes(*node).filter(check_accepts_fn()).len() == 0) by {
                reveal(Seq::filter);
            }
        }
    }
    let updated_at = match get_str(node, "updatedAt") {
        Some(t) => parse_timestamp(t),
        None => None,
    };
    let queue_position = match get2(node, "mergeQueueEntry", "position") {
        Some(v) => v.as_u64(),
        None => None,
    };
    Some(
        PullRequest {
            number,
            title: text(node, "title"),
            url: text(node, "url"),
            repo: text2(node, "repository", "nameWithOwner"),
            head_ref: text(node, "headRefName"),
            is_draft: match get_bool(node, "isDraft") {
                Some(b) => b,
                None => false,
            },
            checks,
            checks_detail,
            review: review_decision(get_str(node, "reviewDecision")),
            merge_state: merge_state(get_str(node, "mergeStateStatus")),
            additions: match get_u64(node, "additions") {
                Some(n) => n,
                None => 0,
            },
            deletions: match get_u64(node, "deletions") {
                Some(n) => n,
                None => 0,
            },
            updated_at,
            queue_position,
        },
    )
}

/// The nodes of a search response: `data.search.nodes`, if it is a list.
pub open spec fn search_nodes(value: Json) -> Option<Seq<Json>> {
    match at2(value, "data"@, "search"@) {
        Some(s) => match s.member("nodes"@) {
            Some(n) => n.items(),
            None => None,
        },
        None => None,
    }
}

/// Reads the pull requests of a search response. A node without a number is skipped; a
/// response without `data.search.nodes` is an error.
pub fn parse(value: &Json) -> (r: Result<Vec<PullRequest>, String>)
    ensures
        r is Err <==> search_nodes(*value) is None,
        r matches Err(e) ==> e@ == "gh response has no data.search.nodes"@,
        r matches Ok(prs) ==> filter_mapped(
            prs@,
            search_nodes(*value)->0,
            pull_request_accepts_fn(),
            pull_request_from_fn(),
        ),
{
    let nodes = match get2(value, "data", "search") {
        Some(s) => match s.get("nodes") {
            Some(n) => n.as_array(),
            None => None,
        },
        None => None,
    };
    match nodes {
        Some(items) => Ok(
            filter_map_nodes(
                items,
                parse_pull_request,
                Ghost(pull_request_accepts_fn()),
                Ghost(pull_request_from_fn()),
            ),
        ),
        None => Err("gh response has no data.search.nodes".to_owned()),
    }
}

} // verus!

verus! {

/// The rollup states GitHub reports read as the states they name, over every input: only
/// `SUCCESS` passes; `FAILURE` and `ERROR`, and only they, fail; only `PENDING` and `EXPECTED`
/// wait; only a missing rollup means no checks; any other text is unknown.
pub proof fn lemma_rollup_states(state: Option<Seq<char>>)
    ensures
        check_state_of(state) == CheckState::Success <==> state == Some("SUCCESS"@),
        check_state_of(state) == CheckState::Failure <==> (state == Some("FAILURE"@) || state == Some("ERROR"@)),
        check_state_of(state) == CheckState::Pending <==> (state == Some("PENDING"@) || state == Some("EXPECTED"@)),
        check_state_of(state) == CheckState::NoChecks <==> state is None,
        check_state_of(state) == CheckState::Unknown <==> (state is Some && !(state == Some("SUCCESS"@) || state == Some("FAILURE"@) || state == Some("ERROR"@) || state == Some("PENDING"@) || state == Some("EXPECTED"@))),
{
    reveal_strlit("SUCCESS");
    reveal_strlit("FAILURE");
    reveal_strlit("ERROR");
    reveal_strlit("PENDING");
    reveal_strlit("EXPECTED");
    assert("SUCCESS"@[0] != "FAILURE"@[0]);
    assert("SUCCESS"@.len() != "ERROR"@.len());
    assert("SUCCESS"@[0] != "PENDING"@[0]);
    assert("SUCCESS"@.len() != "EXPECTED"@.len());
    assert("FAILURE"@.len() != "ERROR"@.len());
    assert("FAILURE"@[0] != "PENDING"@[0]);
    assert("FAILURE"@.len() != "EXPECTED"@.len());
    assert("ERROR"@.len() != "PENDING"@.len());
    assert("ERROR"@.len() != "EXPECTED"@.len());
    assert("PENDING"@.len() != "EXPECTED"@.len());
}

/// A commit status context reads as its state says: `SUCCESS` passes, `FAILURE` and `ERROR`
/// fail, `PENDING` and `EXPECTED` wait, anything else (or nothing) is unknown.
pub proof fn lemma_context_states(state: Option<Seq<char>>)
    ensures
        context_conclusion_of(state) == CheckConclusion::Success <==> state == Some("SUCCESS"@),
        context_conclusion_of(state) == CheckConclusion::Failure <==> (state == Some("FAILURE"@) || state == Some("ERROR"@)),
        context_conclusion_of(state) == CheckConclusion::Pending <==> (state == Some("PENDING"@) || state == Some("EXPECTED"@)),
        context_conclusion_of(state) == CheckConclusion::Unknown <==> !(state == Some("SUCCESS"@) || state == Some("FAILURE"@) || state == Some("ERROR"@) || state == Some("PENDING"@) || state == Some("EXPECTED"@)),
{
    reveal_strlit("SUCCESS");
    reveal_strlit("FAILURE");
    reveal_strlit("ERROR");
    reveal_strlit("PENDING");
    reveal_strlit("EXPECTED");
    assert("SUCCESS"@[0] != "FAILURE"@[0]);
    assert("SUCCESS"@.len() != "ERROR"@.len());
    assert("SUCCESS"@[0] != "PENDING"@[0]);
    assert("SUCCESS"@.len() != "EXPECTED"@.len());
    assert("FAILURE"@.len() != "ERROR"@.len());
    assert("FAILURE"@[0] != "PENDING"@[0]);
    assert("FAILURE"@.len() != "EXPECTED"@.len());
    assert("ERROR"@.len() != "PENDING"@.len());
    assert("ERROR"@.len() != "EXPECTED"@.len());
    assert("PENDING"@.len() != "EXPECTED"@.len());
}

/// A check run passes when it completed as `SUCCESS` or `NEUTRAL`, is skipped when it
/// completed as `SKIPPED`, fails when it completed with any other conclusion, waits while it
/// is queued, in progress, waiting, pending or requested, and is unknown otherwise.
pub proof fn lemma_check_run_conclusions(status: Option<Seq<char>>, conclusion: Option<Seq<char>>)
    ensures
        check_run_conclusion_of(status, conclusion) == CheckConclusion::Success <==> (status
            == Some("COMPLETED"@) && (conclusion == Some("SUCCESS"@) || conclusion == Some("NEUTRAL"@))),
        check_run_conclusion_of(status, conclusion) == CheckConclusion::Skipped <==> (status
            == Some("COMPLETED"@) && conclusion == Some("SKIPPED"@)),
        check_run_conclusion_of(status, conclusion) == CheckConclusion::Failure <==> (status
            == Some("COMPLETED"@) && conclusion is Some && !(conclusion == Some("SUCCESS"@) || conclusion == Some("NEUTRAL"@) || conclusion == Some("SKIPPED"@))),
        check_run_conclusion_of(status, conclusion) == CheckConclusion::Pending <==> (status == Some("QUEUED"@) || status == Some("IN_PROGRESS"@) || status == Some("WAITING"@) || status == Some("PENDING"@) || status == Some("REQUESTED"@)),
{
    reveal_strlit("COMPLETED");
    reveal_strlit("SUCCESS");
    reveal_strlit("NEUTRAL");
    reveal_strlit("SKIPPED");
    reveal_strlit("QUEUED");
    reveal_strlit("IN_PROGRESS");
    reveal_strlit("WAITING");
    reveal_strlit("PENDING");
    reveal_strlit("REQUESTED");
    assert("COMPLETED"@.len() != "SUCCESS"@.len());
    assert("COMPLETED"@.len() != "NEUTRAL"@.len());
    assert("COMPLETED"@.len() != "SKIPPED"@.len());
    assert("COMPLETED"@.len() != "QUEUED"@.len());
    assert("COMPLETED"@.len() != "IN_PROGRESS"@.len());
    assert("COMPLETED"@.len() != "WAITING"@.len());
    assert("COMPLETED"@.len() != "PENDING"@.len());
    assert("COMPLETED"@[0] != "REQUESTED"@[0]);
    assert("SUCCESS"@[0] != "NEUTRAL"@[0]);
    assert("SUCCESS"@[1] != "SKIPPED"@[1]);
    assert("SUCCESS"@.len() != "QUEUED"@.len());
    assert("SUCCESS"@.len() != "IN_PROGRESS"@.len());
    assert("SUCCESS"@[0] != "WAITING"@[0]);
    assert("SUCCESS"@[0] != "PENDING"@[0]);
    assert("SUCCESS"@.len() != "REQUESTED"@.len());
    assert("NEUTRAL"@[0] != "SKIPPED"@[0]);
    assert("NEUTRAL"@.len() != "QUEUED"@.len());
    assert("NEUTRAL"@.len() != "IN_PROGRESS"@.len());
    assert("NEUTRAL"@[0] != "WAITING"@[0]);
    assert("NEUTRAL"@[0] != "PENDING"@[0]);
    assert("NEUTRAL"@.len() != "REQUESTED"@.len());
    assert("SKIPPED"@.len() != "QUEUED"@.len());
    assert("SKIPPED"@.len() != "IN_PROGRESS"@.len());
    assert("SKIPPED"@[0] != "WAITING"@[0]);
    assert("SKIPPED"@[0] != "PENDING"@[0]);
    assert("SKIPPED"@.len() != "REQUESTED"@.len());
    assert("QUEUED"@.len() != "IN_PROGRESS"@.len());
    assert("QUEUED"@.len() != "WAITING"@.len());
    assert("QUEUED"@.len() != "PENDING"@.len());
    assert("QUEUED"@.len() != "REQUESTED"@.len());
    assert("IN_PROGRESS"@.len() != "WAITING"@.len());
    assert("IN_PROGRESS"@.len() != "PENDING"@.len());
    assert("IN_PROGRESS"@.len() != "REQUESTED"@.len());
    assert("WAITING"@[0] != "PENDING"@[0]);
    assert("WAITING"@.len() != "REQUESTED"@.len());
    assert("PENDING"@.len() != "REQUESTED"@.len());
}

/// Each review decision GitHub reports reads as its own decision: `APPROVED`,
/// `CHANGES_REQUESTED` and `REVIEW_REQUIRED` each as the one it names and no other text as
/// them; any other text is unknown, and no value is no decision.
pub proof fn lemma_review_decisions(value: Option<Seq<char>>)
    ensures
        review_decision_of(value) == ReviewDecision::Approved <==> value == Some("APPROVED"@),
        review_decision_of(value) == ReviewDecision::ChangesRequested <==> value == Some(
            "CHANGES_REQUESTED"@,
        ),
        review_decision_of(value) == ReviewDecision::ReviewRequired <==> value == Some(
            "REVIEW_REQUIRED"@,
        ),
        review_decision_of(value) == ReviewDecision::NoDecision <==> value is None,
{
    reveal_strlit("APPROVED");
    reveal_strlit("CHANGES_REQUESTED");
    reveal_strlit("REVIEW_REQUIRED");
    assert("APPROVED"@.len() != "CHANGES_REQUESTED"@.len());
    assert("APPROVED"@.len() != "REVIEW_REQUIRED"@.len());
    assert("CHANGES_REQUESTED"@.len() != "REVIEW_REQUIRED"@.len());
}

/// Each merge state GitHub reports reads as its own state, and no other text does.
pub proof fn lemma_merge_states(value: Option<Seq<char>>)
    ensures
        merge_state_of(value) == MergeState::Clean <==> value == Some("CLEAN"@),
        merge_state_of(value) == MergeState::Blocked <==> value == Some("BLOCKED"@),
        merge_state_of(value) == MergeState::Behind <==> value == Some("BEHIND"@),
        merge_state_of(value) == MergeState::Dirty <==> value == Some("DIRTY"@),
        merge_state_of(value) == MergeState::Draft <==> value == Some("DRAFT"@),
        merge_state_of(value) == MergeState::HasHooks <==> value == Some("HAS_HOOKS"@),
        merge_state_of(value) == MergeState::Unstable <==> value == Some("UNSTABLE"@),
{
    reveal_strlit("CLEAN");
    reveal_strlit("BLOCKED");
    reveal_strlit("BEHIND");
    reveal_strlit("DIRTY");
    reveal_strlit("DRAFT");
    reveal_strlit("HAS_HOOKS");
    reveal_strlit("UNSTABLE");
    assert("CLEAN"@.len() != "BLOCKED"@.len());
    assert("CLEAN"@.len() != "BEHIND"@.len());
    assert("CLEAN"@[0] != "DIRTY"@[0]);
    assert("CLEAN"@[0] != "DRAFT"@[0]);
    assert("CLEAN"@.len() != "HAS_HOOKS"@.len());
    assert("CLEAN"@.len() != "UNSTABLE"@.len());
    assert("BLOCKED"@.len() != "BEHIND"@.len());
    assert("BLOCKED"@.len() != "DIRTY"@.len());
    assert("BLOCKED"@.len() != "DRAFT"@.len());
    assert("BLOCKED"@.len() != "HAS_HOOKS"@.len());
    assert("BLOCKED"@.len() != "UNSTABLE"@.len());
    assert("BEHIND"@.len() != "DIRTY"@.len());
    assert("BEHIND"@.len() != "DRAFT"@.len());
    assert("BEHIND"@.len() != "HAS_HOOKS"@.len());
    assert("BEHIND"@.len() != "UNSTABLE"@.len());
    assert("DIRTY"@[1] != "DRAFT"@[1]);
    assert("DIRTY"@.len() != "HAS_HOOKS"@.len());
    assert("DIRTY"@.len() != "UNSTABLE"@.len());
    assert("DRAFT"@.len() != "HAS_HOOKS"@.len());
    assert("DRAFT"@.len() != "UNSTABLE"@.len());
    assert("HAS_HOOKS"@.len() != "UNSTABLE"@.len());
}

} // verus!

verus! {

/// Each review decision reads as its own words on screen: approved, changes requested,
/// review required, a dash for none and `?` for one not known.
pub proof fn lemma_review_words(r: ReviewDecision)
    ensures
        review_label(r) == "approved"@ <==> r == ReviewDecision::Approved,
        review_label(r) == "changes requested"@ <==> r == ReviewDecision::ChangesRequested,
        review_label(r) == "review required"@ <==> r == ReviewDecision::ReviewRequired,
        review_label(r) == "—"@ <==> r == ReviewDecision::NoDecision,
        review_label(r) == "?"@ <==> r == ReviewDecision::Unknown,
{
    reveal_strlit("approved");
    reveal_strlit("changes requested");
    reveal_strlit("review required");
    reveal_strlit("—");
    reveal_strlit("?");
    assert("approved"@.len() != "changes requested"@.len());
    assert("approved"@.len() != "review required"@.len());
    assert("approved"@.len() != "—"@.len());
    assert("approved"@.len() != "?"@.len());
    assert("changes requested"@.len() != "review required"@.len());
    assert("changes requested"@.len() != "—"@.len());
    assert("changes requested"@.len() != "?"@.len());
    assert("review required"@.len() != "—"@.len());
    assert("review required"@.len() != "?"@.len());
    assert("—"@[0] != "?"@[0]);
}

/// Each merge state reads as its own word on screen, a dash when it is not known.
pub proof fn lemma_merge_words(m: MergeState)
    ensures
        merge_label(m) == "clean"@ <==> m == MergeState::Clean,
        merge_label(m) == "blocked"@ <==> m == MergeState::Blocked,
        merge_label(m) == "behind"@ <==> m == MergeState::Behind,
        merge_label(m) == "dirty"@ <==> m == MergeState::Dirty,
        merge_label(m) == "draft"@ <==> m == MergeState::Draft,
        merge_label(m) == "has hooks"@ <==> m == MergeState::HasHooks,
        merge_label(m) == "unstable"@ <==> m == MergeState::Unstable,
        merge_label(m) == "—"@ <==> m == MergeState::Unknown,
{
    reveal_strlit("clean");
    reveal_strlit("blocked");
    reveal_strlit("behind");
    reveal_strlit("dirty");
    reveal_strlit("draft");
    reveal_strlit("has hooks");
    reveal_strlit("unstable");
    reveal_strlit("—");
    assert("clean"@.len() != "blocked"@.len());
    assert("clean"@.len() != "behind"@.len());
    assert("clean"@[0] != "dirty"@[0]);
    assert("clean"@[0] != "draft"@[0]);
    assert("clean"@.len() != "has hooks"@.len());
    assert("clean"@.len() != "unstable"@.len());
    assert("clean"@.len() != "—"@.len());
    assert("blocked"@.len() != "behind"@.len());
    assert("blocked"@.len() != "dirty"@.len());
    assert("blocked"@.len() != "draft"@.len());
    assert("blocked"@.len() != "has hooks"@.len());
    assert("blocked"@.len() != "unstable"@.len());
    assert("blocked"@.len() != "—"@.len());
    assert("behind"@.len() != "dirty"@.len());
    assert("behind"@.len() != "draft"@.len());
    assert("behind"@.len() != "has hooks"@.len());
    assert("behind"@.len() != "unstable"@.len());
    assert("behind"@.len() != "—"@.len());
    assert("dirty"@[1] != "draft"@[1]);
    assert("dirty"@.len() != "has hooks"@.len());
    assert("dirty"@.len() != "unstable"@.len());
    assert("dirty"@.len() != "—"@.len());
    assert("draft"@.len() != "has hooks"@.len());
    assert("draft"@.len() != "unstable"@.len());
    assert("draft"@.len() != "—"@.len());
    assert("has hooks"@.len() != "unstable"@.len());
    assert("has hooks"@.len() != "—"@.len());
    assert("unstable"@.len() != "—"@.len());
}

} // verus!
