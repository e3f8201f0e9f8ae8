//! The key help.

use vstd::prelude::*;

use crate::app::Stage;
use crate::strs::str_eq;

verus! {

/// The keys and what they do.
pub const KEYS: [(&'static str, &'static str); 13] = [
    ("q", "quit"),
    ("j/k ↓/↑", "move"),
    ("h/l Tab 1-4", "focus column"),
    ("p", "open pull request"),
    ("b", "open build"),
    ("y/Y", "copy pull request / build URL"),
    ("d C-d/C-u", "details / scroll them"),
    ("L", "log of the failed step"),
    ("z", "zoom the column"),
    ("Esc", "close details / zoom / filter"),
    ("/", "filter (Enter keeps, Esc clears)"),
    ("r/R", "refresh focused / all"),
    ("?", "help"),
];

pub open spec fn column_title_of(stage: Stage) -> Seq<char> {
    match stage {
        Stage::Prs => "My PRs"@,
        Stage::Queue => "Merge queue"@,
        Stage::Builds => "Main builds"@,
        Stage::Deployed => "Deployed"@,
    }
}

/// The name of a column.
pub fn column_name(stage: Stage) -> (r: &'static str)
    ensures
        r@ == column_title_of(stage),
{
    match stage {
        Stage::Prs => "My PRs",
        Stage::Queue => "Merge queue",
        Stage::Builds => "Main builds",
        Stage::Deployed => "Deployed",
    }
}

/// What a key does in a column: `p` and `b` name their target there, the others read as in
/// `KEYS`.
pub open spec fn key_purpose(key: Seq<char>, stage: Stage, what: Seq<char>) -> Seq<char> {
    if key == "p"@ && (stage == Stage::Builds || stage == Stage::Deployed) {
        "open the merged pull request"@
    } else if key == "b"@ && stage == Stage::Prs {
        "open the failing check, else the first"@
    } else if key == "b"@ && stage == Stage::Queue {
        "open the merge-group run"@
    } else if key == "b"@ && stage == Stage::Builds {
        "open the run"@
    } else if key == "b"@ && stage == Stage::Deployed {
        "open the main build for this sha"@
    } else {
        what
    }
}

fn purpose(key: &'static str, stage: Stage, what: &'static str) -> (r: &'static str)
    ensures
        r@ == key_purpose(key@, stage, what@),
{
    let p = str_eq(key, "p");
    let b = str_eq(key, "b");
    if p && (stage == Stage::Builds || stage == Stage::Deployed) {
        "open the merged pull request"
    } else if b && stage == Stage::Prs {
        "open the failing check, else the first"
    } else if b && stage == Stage::Queue {
        "open the merge-group run"
    } else if b && stage == Stage::Builds {
        "open the run"
    } else if b && stage == Stage::Deployed {
        "open the main build for this sha"
    } else {
        what
    }
}

/// `KEYS` with `p` and `b` saying what they do in the focused column: the keys are the same
/// everywhere, their target is not.
pub fn keys_for(stage: Stage) -> (r: Vec<(&'static str, &'static str)>)
    ensures
        r@.len() == KEYS@.len(),
        forall|i: int|
            0 <= i < r@.len() ==> (#[trigger] r@[i]).0 == KEYS@[i].0 && r@[i].1@ == key_purpose(
                KEYS@[i].0@,
                stage,
                KEYS@[i].1@,
            ),
{
    let keys = KEYS;
    let mut out: Vec<(&'static str, &'static str)> = Vec::new();
    let mut i: usize = 0;
    while i < 13
        invariant
            0 <= i <= 13,
            keys@ == KEYS@,
            keys@.len() == 13,
            out@.len() == i,
            forall|k: int|
                0 <= k < i ==> (#[trigger] out@[k]).0 == keys@[k].0 && out@[k].1@ == key_purpose(
                    keys@[k].0@,
                    stage,
                    keys@[k].1@,
                ),
        decreases 13 - i,
    {
        let (key, what) = keys[i];
        out.push((key, purpose(key, stage, what)));
        i = i + 1;
    }
    out
}

} // verus!
