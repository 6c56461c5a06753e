//! File paths as text. What a path's parts are is left to `std::path`.

use crate::text::option_text;
use vstd::prelude::*;

verus! {

/// The final component of the path `path`, as `Path::file_name` gives it for
/// the platform the library is built for; none where the path ends in the root
/// or in `..`.
pub uninterp spec fn path_file_name(path: Seq<char>) -> Option<Seq<char>>;

/// The path `base` with `rel` adjoined, as `Path::join` gives it for the
/// platform the library is built for.
pub uninterp spec fn joined_path(base: Seq<char>, rel: Seq<char>) -> Seq<char>;

/// `Path::file_name` on a path given as text. Nothing is claimed of the
/// result but that it is [`path_file_name`] of the text.
#[verifier::external_body]
pub(crate) fn file_name_of(path: &str) -> (name: Option<String>)
    ensures
        option_text(name) == path_file_name(path@),
{
    match std::path::Path::new(path).file_name() {
        Some(name) => match name.to_str() {
            Some(text) => Some(text.to_owned()),
            None => None,
        },
        None => None,
    }
}

/// `Path::join` on paths given as text. Nothing is claimed of the result but
/// that it is [`joined_path`] of the two texts.
#[verifier::external_body]
pub(crate) fn join_path(base: &str, rel: &str) -> (joined: String)
    ensures
        joined@ == joined_path(base@, rel@),
{
    std::path::Path::new(base).join(rel).to_string_lossy().into_owned()
}

} // verus!
