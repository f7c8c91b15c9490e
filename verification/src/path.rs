//! The two operations on file system paths that a path column rests on.
//!
//! Verus knows nothing of `std::path`. A path is carried through as an opaque
//! value; what the standard library computes from it is given a name here,
//! and the two functions below are believed to return what their names say.

use std::borrow::Cow;
use std::path::PathBuf;
use vstd::prelude::*;

verus! {

#[verifier::external_type_specification]
#[verifier::external_body]
pub struct ExPathBuf(PathBuf);

/// What is left of `path` below `base`: the path that `Path::strip_prefix`
/// returns for the two, `None` where it reports that `base` is no prefix of
/// `path`.
pub uninterp spec fn path_below(path: PathBuf, base: PathBuf) -> Option<PathBuf>;

/// The text of `path`: what `Path::to_string_lossy` returns for it.
pub uninterp spec fn path_text(path: PathBuf) -> Seq<char>;

/// Calls `Path::strip_prefix` on `path` with `base`. Believed: the result is
/// a function of the two paths alone, named `path_below`; an error of the
/// standard library comes back as `None`.
#[verifier::external_body]
pub(crate) fn strip_prefix(path: &PathBuf, base: &PathBuf) -> (rest: Option<PathBuf>)
    ensures
        rest == path_below(*path, *base),
{
    match path.strip_prefix(base) {
        Ok(rest) => Some(rest.to_path_buf()),
        Err(_) => None,
    }
}

/// Calls `Path::to_string_lossy` on `path`. Believed: the text that comes
/// back is a function of the path alone, named `path_text`.
#[verifier::external_body]
pub(crate) fn to_string_lossy<'a>(path: &'a PathBuf) -> (text: Cow<'a, str>)
    ensures
        text@ == path_text(*path),
{
    path.to_string_lossy()
}

} // verus!
