//! Paths of programs to run, carried through as `std` keeps them.

use vstd::prelude::*;

verus! {

#[verifier::external_type_specification]
#[verifier::external_body]
pub struct ExPathBuf(std::path::PathBuf);

} // verus!

verus! {

/// What `Path::join` gives for a base and a relative part: the base with the part appended.
/// The result is only named: how paths are put together is `std`'s.
pub uninterp spec fn path_joined(base: std::path::PathBuf, part: Seq<char>) -> std::path::PathBuf;

/// `Path::join`, on a base path and a relative part.
#[verifier::external_body]
pub(crate) fn join(base: &std::path::PathBuf, part: &str) -> (r: std::path::PathBuf)
    ensures
        r == path_joined(*base, part@),
{
    base.join(part)
}

} // verus!
