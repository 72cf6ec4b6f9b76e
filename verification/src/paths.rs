//! Path handling, provided by `std::path`, and lower-casing of text. Paths
//! are held as strings.
use vstd::prelude::*;

verus! {

/// `Path::file_name` of the path.
pub uninterp spec fn path_file_name(p: Seq<char>) -> Option<Seq<char>>;

/// Index of the last `.` of a file name, if it has one.
pub open spec fn last_dot(n: Seq<char>) -> Option<int>
    decreases n.len(),
{
    if n.len() == 0 {
        None
    } else if n.last() == '.' {
        Some(n.len() - 1)
    } else {
        last_dot(n.drop_last())
    }
}

/// The extension of a file name: what follows its last `.`, unless it has
/// no `.` or its only `.` is its first character.
pub open spec fn name_extension(n: Seq<char>) -> Option<Seq<char>> {
    match last_dot(n) {
        Some(i) => if i > 0 {
            Some(n.skip(i + 1))
        } else {
            None
        },
        None => None,
    }
}

/// The stem of a file name: what precedes its last `.`, or the whole name
/// when it has no `.` or its only `.` is its first character.
pub open spec fn name_stem(n: Seq<char>) -> Seq<char> {
    match last_dot(n) {
        Some(i) => if i > 0 {
            n.take(i)
        } else {
            n
        },
        None => n,
    }
}

/// `Path::extension` of the path: the extension of its file name.
pub open spec fn path_extension(p: Seq<char>) -> Option<Seq<char>> {
    match path_file_name(p) {
        Some(n) => name_extension(n),
        None => None,
    }
}

/// `Path::file_stem` of the path: the stem of its file name.
pub open spec fn path_file_stem(p: Seq<char>) -> Option<Seq<char>> {
    match path_file_name(p) {
        Some(n) => Some(name_stem(n)),
        None => None,
    }
}

/// `Path::parent` of the path.
pub uninterp spec fn path_parent(p: Seq<char>) -> Option<Seq<char>>;

/// `Path::join` of the two paths.
pub uninterp spec fn path_join(base: Seq<char>, part: Seq<char>) -> Seq<char>;

/// `str::to_lowercase` of the string.
pub uninterp spec fn lowercase(s: Seq<char>) -> Seq<char>;

/// `std::path::Path::file_name`: the final component, unless the path ends
/// in `..` or has no component. The contract claims only that the outcome
/// is a function of the path, named `path_file_name`.
#[verifier::external_body]
pub(crate) fn file_name(p: &str) -> (r: Option<String>)
    ensures
        r.deep_view() == path_file_name(p@),
{
    std::path::Path::new(p).file_name().map(|s| s.to_string_lossy().into_owned())
}

/// `std::path::Path::extension`: as documented, `None` without a file name,
/// without a `.` in it, or when its only `.` begins it; else what follows its
/// last `.` (`path_extension`, over the file name that `path_file_name`
/// names).
#[verifier::external_body]
pub(crate) fn extension(p: &str) -> (r: Option<String>)
    ensures
        r.deep_view() == path_extension(p@),
{
    std::path::Path::new(p).extension().map(|s| s.to_string_lossy().into_owned())
}

/// `std::path::Path::file_stem`: as documented, `None` without a file name;
/// the whole file name without a `.` in it or when its only `.` begins it;
/// else what precedes its last `.` (`path_file_stem`, over the file name that
/// `path_file_name` names).
#[verifier::external_body]
pub(crate) fn file_stem(p: &str) -> (r: Option<String>)
    ensures
        r.deep_view() == path_file_stem(p@),
{
    std::path::Path::new(p).file_stem().map(|s| s.to_string_lossy().into_owned())
}

/// `std::path::Path::parent`: the path without its final component. The
/// contract claims only that the outcome is a function of the path, named
/// `path_parent`.
#[verifier::external_body]
pub(crate) fn parent(p: &str) -> (r: Option<String>)
    ensures
        r.deep_view() == path_parent(p@),
{
    std::path::Path::new(p).parent().map(|s| s.to_string_lossy().into_owned())
}

/// `std::path::Path::join`: `part` appended to `base` with a separator, or
/// `part` alone when it is absolute. The contract claims only that the
/// outcome is a function of the two paths, named `path_join`.
#[verifier::external_body]
pub(crate) fn join(base: &str, part: &str) -> (r: String)
    ensures
        r@ == path_join(base@, part@),
{
    std::path::Path::new(base).join(part).to_string_lossy().into_owned()
}

/// `str::to_lowercase`: each character replaced by its Unicode lowercase
/// mapping. The contract claims only that the outcome is a function of the
/// string, named `lowercase`.
#[verifier::external_body]
pub(crate) fn to_lowercase(s: &str) -> (r: String)
    ensures
        r@ == lowercase(s@),
{
    s.to_lowercase()
}

/// A path's optional part, or the empty string (`unwrap_or_default`).
pub open spec fn or_empty(o: Option<Seq<char>>) -> Seq<char> {
    match o {
        Some(s) => s,
        None => Seq::empty(),
    }
}

/// `Option<String>::unwrap_or_default`.
pub fn unwrap_or_empty(o: Option<String>) -> (r: String)
    ensures
        r@ == or_empty(o.deep_view()),
{
    match o {
        Some(s) => s,
        None => String::new(),
    }
}

} // verus!
