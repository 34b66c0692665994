use vstd::prelude::*;

verus! {

/// `std::path::PathBuf`, declared so that configurations can carry paths;
/// such a path is opaque here and nothing is stated of what it holds.
#[verifier::external_type_specification]
#[verifier::external_body]
pub struct ExPathBuf(std::path::PathBuf);

/// `PathBuf::clone`; nothing is stated of the copy, which is opaque here.
pub assume_specification[ <std::path::PathBuf as Clone>::clone ](p: &std::path::PathBuf) -> (r:
    std::path::PathBuf);

/// The text of the path `Path::new(base).join(name)`, for paths given as text.
pub uninterp spec fn joined_path(base: Seq<char>, name: Seq<char>) -> Seq<char>;

/// `base` joined with `name`, from `Path::join`, as text. Both are text, so
/// the joined path is text and is written out without loss. The text is
/// named by `joined_path`, not spelled out (`Path::join` depends on whether
/// `name` is absolute and on the platform's separator).
#[verifier::external_body]
pub fn path_join(base: &str, name: &str) -> (r: String)
    ensures
        r@ == joined_path(base@, name@),
{
    std::path::Path::new(base).join(name).to_string_lossy().into_owned()
}

} // verus!
