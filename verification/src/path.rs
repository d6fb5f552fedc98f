//! File-system paths held as text. The path operations are those of
//! `std::path`; `Path::join` is written out (as on Unix), the others are
//! named.
use vstd::prelude::*;

verus! {

/// What `Path::components` yields for a path, each component as text.
pub uninterp spec fn components_of(path: Seq<char>) -> Seq<Seq<char>>;

/// What collecting components into a `PathBuf` gives, as text.
pub uninterp spec fn collected_path_of(components: Seq<Seq<char>>) -> Seq<char>;

/// What `Path::file_name` gives for a path, as text.
pub uninterp spec fn file_name_of(path: Seq<char>) -> Option<Seq<char>>;

/// What `Path::join` gives for a base and a tail on Unix, as text: an
/// absolute tail replaces the base; otherwise the tail follows the base,
/// after a `/` unless the base is empty or already ends in one.
pub open spec fn joined_path_of(base: Seq<char>, tail: Seq<char>) -> Seq<char> {
    if tail.len() > 0 && tail[0] == '/' {
        tail
    } else if base.len() == 0 || base.last() == '/' {
        base + tail
    } else {
        base + seq!['/'] + tail
    }
}

/// A plain file name: not empty, without `/`, and neither `.` nor `..`.
pub open spec fn is_plain_name(s: Seq<char>) -> bool {
    &&& s.len() > 0
    &&& forall|i: int| 0 <= i < s.len() ==> s[i] != '/'
    &&& s != seq!['.']
    &&& s != seq!['.', '.']
}

/// The views of a sequence of strings.
pub open spec fn strings_view(v: Seq<String>) -> Seq<Seq<char>> {
    v.map_values(|s: String| s@)
}

/// Calls `Path::components` and turns each component into text (lossily, as
/// `to_string_lossy` does). Claimed: the texts are `components_of` the path.
#[verifier::external_body]
pub fn path_components(path: &str) -> (r: Vec<String>)
    ensures
        strings_view(r@) == components_of(path@),
{
    std::path::Path::new(path).components().map(|c| c.as_os_str().to_string_lossy().into_owned()).collect()
}

/// Collects components into a `PathBuf` and gives it as text. Claimed: the
/// text is `collected_path_of` the components; and when the last component
/// is a plain name, it is the file name of the collected path (pushing a
/// relative name appends it as the final component, and `Path::file_name`
/// gives the final component when it is a normal one).
#[verifier::external_body]
pub fn collect_path(components: &[String]) -> (r: String)
    ensures
        r@ == collected_path_of(strings_view(components@)),
        components@.len() > 0 && is_plain_name(components@.last()@) ==> file_name_of(r@) == Some(
            components@.last()@,
        ),
{
    components.iter().collect::<std::path::PathBuf>().to_string_lossy().into_owned()
}

/// Calls `Path::file_name`. Claimed: the result is `file_name_of` the path.
#[verifier::external_body]
pub fn path_file_name(path: &str) -> (r: Option<String>)
    ensures
        match r {
            Some(n) => file_name_of(path@) == Some(n@),
            None => file_name_of(path@) is None,
        },
{
    std::path::Path::new(path).file_name().map(|n| n.to_string_lossy().into_owned())
}

/// Calls `Path::join`. Claimed: the result is `joined_path_of` base and tail
/// (the Unix rule).
#[verifier::external_body]
pub fn join_path(base: &str, tail: &str) -> (r: String)
    ensures
        r@ == joined_path_of(base@, tail@),
{
    std::path::Path::new(base).join(tail).to_string_lossy().into_owned()
}

} // verus!
