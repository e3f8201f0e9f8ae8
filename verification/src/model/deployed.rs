//! What each environment of a deployed system runs.

use vstd::prelude::*;

use crate::model::builds::PullRef;
use crate::strs::{chars_of, concat, find_char, first_index, last_index, rfind_char, slice_string,
    string_of, lemma_first_index, lemma_last_index};
use crate::time::Stamp;

verus! {

#[derive(Debug, PartialEq, Eq, Default)]
pub struct Deployment {
    pub env: String,
    pub image: Option<String>,
    pub sha: Option<String>,
    pub pull: Option<PullRef>,
    pub error: Option<String>,
    pub fetched_at: Option<Stamp>,
}

fn clone_text(s: &Option<String>) -> (r: Option<String>)
    ensures
        r == *s,
{
    match s {
        Some(t) => Some(t.clone()),
        None => None,
    }
}

impl Clone for Deployment {
    fn clone(&self) -> (r: Self)
        ensures
            r == *self,
    {
        Deployment {
            env: self.env.clone(),
            image: clone_text(&self.image),
            sha: clone_text(&self.sha),
            pull: match &self.pull {
                Some(p) => Some(p.clone()),
                None => None,
            },
            error: clone_text(&self.error),
            fetched_at: self.fetched_at,
        }
    }
}

/// The environments of one deployed system.
#[derive(Debug, Clone, PartialEq, Eq, Default)]
pub struct Deployed {
    pub system: String,
    pub rows: Vec<Deployment>,
}

pub open spec fn is_hex(c: char) -> bool {
    ('0' <= c && c <= '9') || ('a' <= c && c <= 'f') || ('A' <= c && c <= 'F')
}

pub open spec fn all_hex(s: Seq<char>) -> bool {
    forall|i: int| 0 <= i < s.len() ==> is_hex(#[trigger] s[i])
}

/// The commit sha an image reference names: its tag after the last `:` (the part before must
/// not hold a `@` digest), and of the tag the part after its last `-`, which must be 40 hex
/// digits.
pub open spec fn image_sha(image: Seq<char>) -> Result<Seq<char>, Seq<char>> {
    let no_tag = "unexpected image tag in `"@ + image + "`: no tag"@;
    match last_index(image, ':') {
        None => Err(no_tag),
        Some(p) => if first_index(image.take(p), '@') is Some {
            Err(no_tag)
        } else {
            let tag = image.skip(p + 1);
            let candidate = match last_index(tag, '-') {
                Some(q) => tag.skip(q + 1),
                None => tag,
            };
            if candidate.len() == 40 && all_hex(candidate) {
                Ok(candidate)
            } else {
                Err("unexpected image tag `"@ + tag + "`: expected a 40-hex commit sha"@)
            }
        },
    }
}

/// The commit sha in an image reference such as `ghcr.io/acme/api:preview-<sha>`.
pub fn sha_from_image(image: &str) -> (r: Result<String, String>)
    ensures
        match r {
            Ok(s) => image_sha(image@) == Ok::<Seq<char>, Seq<char>>(s@),
            Err(e) => image_sha(image@) == Err::<Seq<char>, Seq<char>>(e@),
        },
{
    let chars = chars_of(image);
    let s = chars.as_slice();
    let no_tag = concat(&concat("unexpected image tag in `", image), "`: no tag");
    let p = match rfind_char(s, ':') {
        Some(p) => p,
        None => {
            return Err(no_tag);
        },
    };
    let repo = slice_string(s, 0, p);
    let repo_chars = chars_of(repo.as_str());
    assert(repo_chars@.skip(0) =~= repo_chars@);
    if find_char(repo_chars.as_slice(), 0, '@').is_some() {
        return Err(no_tag);
    }
    let tag_chars = slice_string(s, p + 1, s.len());
    let tag = chars_of(tag_chars.as_str());
    assert(tag@ =~= s@.skip(p + 1));
    let t = tag.as_slice();
    let start = match rfind_char(t, '-') {
        Some(q) => q + 1,
        None => 0,
    };
    assert(start == 0 ==> t@.skip(0) =~= t@);
    let candidate = slice_string(t, start, t.len());
    assert(candidate@ =~= t@.skip(start as int));
    let mut ok = t.len() - start == 40;
    if ok {
        let mut i = start;
        while i < t.len() && ok
            invariant
                start <= i <= t@.len(),
                t@.len() - start == 40,
                candidate@ =~= t@.skip(start as int),
                ok ==> forall|j: int| 0 <= j < i - start ==> is_hex(#[trigger] candidate@[j]),
                !ok ==> exists|j: int| 0 <= j < 40 && !is_hex(#[trigger] candidate@[j]),
            decreases t@.len() - i,
        {
            let c = t[i];
            if !(('0' <= c && c <= '9') || ('a' <= c && c <= 'f') || ('A' <= c && c <= 'F')) {
                assert(!is_hex(candidate@[i - start]));
                ok = false;
            }
            i = i + 1;
        }
    }
    proof {
        assert(image@ == s@);
        assert(last_index(image@, ':') == Some(p as int));
        assert(repo_chars@ =~= image@.take(p as int));
        assert(first_index(image@.take(p as int), '@') is None);
        assert(tag@ =~= image@.skip(p + 1));
    }
    if ok {
        assert(forall|j: int| 0 <= j < 40 ==> is_hex(#[trigger] candidate@[j]));
        Ok(candidate)
    } else {
        Err(concat(&concat("unexpected image tag `", tag_chars.as_str()), "`: expected a 40-hex commit sha"))
    }
}

} // verus!

verus! {

/// An image tagged with a commit sha, as the whole tag or after a `-` in it, reads as that
/// sha, whatever the path before the tag (without a digest) and the start of the tag
/// (without a `:`); and whatever an image reads as is a 40-hex sha.
pub proof fn lemma_tagged_image_reads_its_sha(
    image: Seq<char>,
    name: Seq<char>,
    prefix: Seq<char>,
    sha: Seq<char>,
)
    requires
        sha.len() == 40,
        all_hex(sha),
        forall|i: int| 0 <= i < name.len() ==> name[i] != '@',
        forall|i: int| 0 <= i < prefix.len() ==> prefix[i] != ':',
    ensures
        image_sha(name + ":"@ + sha) == Ok::<Seq<char>, Seq<char>>(sha),
        image_sha(name + ":"@ + prefix + "-"@ + sha) == Ok::<Seq<char>, Seq<char>>(sha),
        image_sha(image) matches Ok(s) ==> s.len() == 40 && all_hex(s),
{
    reveal_strlit(":");
    reveal_strlit("-");
    assert forall|i: int| 0 <= i < sha.len() implies sha[i] != ':' && sha[i] != '-' by {
        assert(is_hex(sha[i]));
    }
    lemma_first_index(name, '@', name.len() as int);
    let p = name.len() as int;
    // The whole tag is the sha.
    let one = name + ":"@ + sha;
    assert forall|j: int| p < j < one.len() implies one[j] != ':' by {
        assert(one[j] == sha[j - p - 1]);
    }
    lemma_last_index(one, ':', p);
    assert(one.take(p) =~= name);
    assert(one.skip(p + 1) =~= sha);
    lemma_last_index(sha, '-', -1);
    // The sha after a `-`.
    let two = name + ":"@ + prefix + "-"@ + sha;
    let tag = prefix + "-"@ + sha;
    assert forall|j: int| p < j < two.len() implies two[j] != ':' by {
        if j <= p + prefix.len() {
            assert(two[j] == prefix[j - p - 1]);
        } else if j > p + prefix.len() + 1 {
            assert(two[j] == sha[j - p - prefix.len() - 2]);
        }
    }
    lemma_last_index(two, ':', p);
    assert(two.take(p) =~= name);
    assert(two.skip(p + 1) =~= tag);
    let q = prefix.len() as int;
    assert forall|j: int| q < j < tag.len() implies tag[j] != '-' by {
        assert(tag[j] == sha[j - q - 1]);
    }
    lemma_last_index(tag, '-', q);
    assert(tag.skip(q + 1) =~= sha);
}

} // verus!
