//! The arguments with which `gh` is asked for data.

use std::path::PathBuf;

use vstd::prelude::*;

use crate::command::{complaint, complaint_of};
use crate::json::{parse_json, parsed_json, Json};
use crate::strs::{concat, decimal, decimal_string, trim, trimmed};

verus! {

/// A GraphQL variable: text is passed with `-f`, a number with `-F`.
#[derive(Debug, Clone, PartialEq, Eq)]
pub enum Variable {
    Text(String),
    Number(u64),
}

impl From<String> for Variable {
    fn from(text: String) -> Self {
        Variable::Text(text)
    }
}

impl vstd::std_specs::convert::FromSpecImpl<String> for Variable {
    open spec fn obeys_from_spec() -> bool {
        true
    }

    open spec fn from_spec(v: String) -> Variable {
        Variable::Text(v)
    }
}

impl From<u64> for Variable {
    fn from(number: u64) -> Self {
        Variable::Number(number)
    }
}

impl vstd::std_specs::convert::FromSpecImpl<u64> for Variable {
    open spec fn obeys_from_spec() -> bool {
        true
    }

    open spec fn from_spec(v: u64) -> Variable {
        Variable::Number(v)
    }
}

impl From<usize> for Variable {
    fn from(number: usize) -> Self {
        Variable::Number(number as u64)
    }
}

impl vstd::std_specs::convert::FromSpecImpl<usize> for Variable {
    open spec fn obeys_from_spec() -> bool {
        true
    }

    open spec fn from_spec(v: usize) -> Variable {
        Variable::Number(v as u64)
    }
}

impl From<&str> for Variable {
    fn from(text: &str) -> Self {
        Variable::text(text)
    }
}

/// No spec value can hold a `String` made from a `&str`, so this conversion states its
/// result through `Variable::text` instead.
impl vstd::std_specs::convert::FromSpecImpl<&str> for Variable {
    open spec fn obeys_from_spec() -> bool {
        false
    }

    open spec fn from_spec(v: &str) -> Variable {
        choose|r: Variable| #[trigger] holds_text(r, v@)
    }
}

/// Whether a variable is the text `s`.
pub open spec fn holds_text(r: Variable, s: Seq<char>) -> bool {
    r matches Variable::Text(t) && t@ == s
}

impl Variable {
    /// A text variable holding `text`.
    pub fn text(text: &str) -> (r: Variable)
        ensures
            holds_text(r, text@),
    {
        Variable::Text(text.to_owned())
    }
}

pub const MISSING: &'static str = "gh not found on PATH; install gh (brew install gh) and run gh auth login";

/// The `gh` program to run.
pub struct CliGh {
    pub program: PathBuf,
}

/// The value `gh` is given for a variable: `name=value`.
pub open spec fn assignment(name: Seq<char>, value: Variable) -> Seq<char> {
    name + seq!['='] + match value {
        Variable::Text(t) => t@,
        Variable::Number(n) => decimal(n as nat),
    }
}

/// The flag that passes a variable: `-f` for text, `-F` for a number.
pub open spec fn flag(value: Variable) -> Seq<char> {
    match value {
        Variable::Text(_) => "-f"@,
        Variable::Number(_) => "-F"@,
    }
}

/// `gh api graphql -f query=<query>`, then a flag and an assignment per variable.
pub open spec fn graphql_argv(query: Seq<char>, vars: Seq<(Seq<char>, Variable)>) -> Seq<Seq<char>>
    decreases vars.len(),
{
    if vars.len() == 0 {
        seq!["api"@, "graphql"@, "-f"@, "query="@ + query]
    } else {
        let (name, value) = vars.last();
        graphql_argv(query, vars.drop_last()) + seq![flag(value), assignment(name, value)]
    }
}

pub open spec fn vars_view(vars: Seq<(&str, Variable)>) -> Seq<(Seq<char>, Variable)> {
    vars.map_values(|v: (&str, Variable)| (v.0@, v.1))
}

impl CliGh {
    pub fn with_program(program: PathBuf) -> (r: CliGh)
        ensures
            r.program == program,
    {
        CliGh { program }
    }

    /// The arguments of a GraphQL call with its variables.
    pub fn graphql_args(query: &str, vars: &[(&str, Variable)]) -> (r: Vec<String>)
        ensures
            r@.map_values(|s: String| s@) == graphql_argv(query@, vars_view(vars@)),
    {
        let mut args: Vec<String> = Vec::new();
        args.push("api".to_owned());
        args.push("graphql".to_owned());
        args.push("-f".to_owned());
        args.push(concat("query=", query));
        let mut i: usize = 0;
        assert(vars_view(vars@).take(0) =~= Seq::<(Seq<char>, Variable)>::empty());
        assert(args@.map_values(|s: String| s@) =~= graphql_argv(query@, vars_view(vars@).take(0)));
        while i < vars.len()
            invariant
                0 <= i <= vars@.len(),
                args@.map_values(|s: String| s@) == graphql_argv(query@, vars_view(vars@).take(i as int)),
            decreases vars@.len() - i,
        {
            let (name, value) = &vars[i];
            let (f, text) = match value {
                Variable::Text(t) => ("-f", concat(concat(name, "=").as_str(), t.as_str())),
                Variable::Number(n) => {
                    let digits = decimal_string(*n);
                    ("-F", concat(concat(name, "=").as_str(), digits.as_str()))
                },
            };
            proof {
                reveal_strlit("=");
                assert("="@ =~= seq!['=']);
            }
            args.push(f.to_owned());
            args.push(text);
            assert(vars_view(vars@).take(i + 1).drop_last() =~= vars_view(vars@).take(i as int));
            assert(args@.map_values(|s: String| s@) =~= graphql_argv(query@, vars_view(vars@).take(i + 1)));
            i = i + 1;
        }
        assert(vars_view(vars@).take(vars@.len() as int) =~= vars_view(vars@));
        args
    }

    /// `gh run view <run> --job <job> --log-failed -R <repo>`: the log of a job's failed step.
    pub fn log_failed_args(run_id: u64, job_id: u64, repo: &str) -> (r: Vec<String>)
        ensures
            r@.map_values(|s: String| s@) == seq![
                "run"@,
                "view"@,
                decimal(run_id as nat),
                "--job"@,
                decimal(job_id as nat),
                "--log-failed"@,
                "-R"@,
                repo@,
            ],
    {
        let mut args: Vec<String> = Vec::new();
        args.push("run".to_owned());
        args.push("view".to_owned());
        args.push(decimal_string(run_id));
        args.push("--job".to_owned());
        args.push(decimal_string(job_id));
        args.push("--log-failed".to_owned());
        args.push("-R".to_owned());
        args.push(repo.to_owned());
        assert(args@.map_values(|s: String| s@) =~= seq![
            "run"@,
            "view"@,
            decimal(run_id as nat),
            "--job"@,
            decimal(job_id as nat),
            "--log-failed"@,
            "-R"@,
            repo@,
        ]);
        args
    }

    /// `gh repo view --json nameWithOwner --jq .nameWithOwner`.
    pub fn current_repo_args() -> (r: Vec<String>)
        ensures
            r@.map_values(|s: String| s@) == seq![
                "repo"@,
                "view"@,
                "--json"@,
                "nameWithOwner"@,
                "--jq"@,
                ".nameWithOwner"@,
            ],
    {
        let mut args: Vec<String> = Vec::new();
        args.push("repo".to_owned());
        args.push("view".to_owned());
        args.push("--json".to_owned());
        args.push("nameWithOwner".to_owned());
        args.push("--jq".to_owned());
        args.push(".nameWithOwner".to_owned());
        assert(args@.map_values(|s: String| s@) =~= seq![
            "repo"@,
            "view"@,
            "--json"@,
            "nameWithOwner"@,
            "--jq"@,
            ".nameWithOwner"@,
        ]);
        args
    }
}

/// What `gh api graphql` answered, as JSON.
pub open spec fn graphql_answer_of(success: bool, stdout: Seq<char>, stderr: Seq<char>, status: Seq<char>) -> Result<
    Json,
    Seq<char>,
> {
    if !success {
        Err(complaint_of(trimmed(stderr), "gh"@, status))
    } else {
        match parsed_json(stdout) {
            Ok(j) => Ok(j),
            Err(e) => Err("gh returned invalid JSON: "@ + e),
        }
    }
}

/// What a finished `gh api graphql` answered: the JSON it printed when it succeeded, else its
/// complaint; a text that is not JSON is an error that says so.
pub fn graphql_answer(success: bool, stdout: &str, stderr: &str, status: &str) -> (r: Result<
    Json,
    String,
>)
    ensures
        match r {
            Ok(j) => graphql_answer_of(success, stdout@, stderr@, status@) == Ok::<Json, Seq<char>>(j),
            Err(e) => graphql_answer_of(success, stdout@, stderr@, status@) == Err::<Json, Seq<char>>(e@),
        },
{
    if !success {
        let said = trim(stderr);
        return Err(complaint(said.as_str(), "gh", status));
    }
    match parse_json(stdout) {
        Ok(j) => Ok(j),
        Err(e) => Err(concat("gh returned invalid JSON: ", e.as_str())),
    }
}

} // verus!
