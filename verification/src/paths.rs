//! Path operations the store relies on, each a call into `std::path` or
//! `path_clean`, with the facts the library needs of their results.

use vstd::prelude::*;

verus! {

/// What `path_clean::clean` makes of a path: the lexically cleaned form.
pub uninterp spec fn spec_path_clean(path: Seq<char>) -> Seq<char>;

/// What `std::path::Path::parent` gives for a path.
pub uninterp spec fn spec_path_parent(path: Seq<char>) -> Option<Seq<char>>;

/// What `std::path::Path::join` gives for a base path and a path to append.
pub uninterp spec fn spec_path_join(base: Seq<char>, rest: Seq<char>) -> Seq<char>;

/// Calls `path_clean::clean`: the result is the cleaned form of `path`, and
/// a cleaned path is already clean (cleaning it again changes nothing).
#[verifier::external_body]
pub(crate) fn clean_path(path: &str) -> (res: String)
    ensures
        res@ == spec_path_clean(path@),
        spec_path_clean(res@) == res@,
{
    path_clean::clean(path).to_string_lossy().into_owned()
}

/// Calls `std::path::Path::parent`: the path without its final component, if
/// it has one. The parent is what remains of `path` once that component is
/// taken off, so it is shorter than `path`.
#[verifier::external_body]
pub(crate) fn parent_path(path: &str) -> (res: Option<String>)
    ensures
        match res {
            Some(p) => spec_path_parent(path@) == Some(p@) && p@.len() < path@.len(),
            None => spec_path_parent(path@) is None,
        },
{
    std::path::Path::new(path).parent().map(|p| p.to_string_lossy().into_owned())
}

/// Calls `std::path::Path::join`: `rest` appended to `base`.
#[verifier::external_body]
pub(crate) fn join_path(base: &str, rest: &str) -> (res: String)
    ensures
        res@ == spec_path_join(base@, rest@),
{
    std::path::Path::new(base).join(rest).to_string_lossy().into_owned()
}

} // verus!
