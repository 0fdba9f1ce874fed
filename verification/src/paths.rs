//! Path helpers over string paths: extension and file-stem lookups
//! through `std::path::Path`, and the partial-download rule shared by the
//! model loaders.

use vstd::prelude::*;

verus! {

/// The extension `std::path::Path::extension` reports for a path: the
/// part of the file name after its last `.`, when there is one.
pub uninterp spec fn path_extension(p: Seq<char>) -> Option<Seq<char>>;

/// The stem `std::path::Path::file_stem` reports for a path: the file
/// name without its extension, when there is a file name.
pub uninterp spec fn path_file_stem(p: Seq<char>) -> Option<Seq<char>>;

/// `Path::new(path).extension()` (std), as a string. Claims only that
/// the result is std's answer for this path.
#[verifier::external_body]
fn extension_of(path: &str) -> (r: Option<String>)
    ensures
        match r {
            Some(e) => path_extension(path@) == Some(e@),
            None => path_extension(path@) is None,
        },
{
    std::path::Path::new(path).extension().and_then(|e| e.to_str()).map(|e| e.to_owned())
}

/// `Path::new(path).file_stem()` (std), as a string. Claims only that
/// the result is std's answer for this path.
#[verifier::external_body]
pub(crate) fn file_stem_of(path: &str) -> (r: Option<String>)
    ensures
        match r {
            Some(s) => path_file_stem(path@) == Some(s@),
            None => path_file_stem(path@) is None,
        },
{
    std::path::Path::new(path).file_stem().and_then(|s| s.to_str()).map(|s| s.to_owned())
}

/// The parent `std::path::Path::parent` reports for a path.
pub uninterp spec fn path_parent(p: Seq<char>) -> Option<Seq<char>>;

/// The final component `std::path::Path::file_name` reports for a path.
pub uninterp spec fn path_file_name(p: Seq<char>) -> Option<Seq<char>>;

/// `a` joined with `b` by `std::path::Path::join`.
pub uninterp spec fn path_join(a: Seq<char>, b: Seq<char>) -> Seq<char>;

/// `Path::new(path).parent()` (std), as a string. Claims only that the
/// result is std's answer for this path.
#[verifier::external_body]
pub(crate) fn parent_of(path: &str) -> (r: Option<String>)
    ensures
        match r {
            Some(s) => path_parent(path@) == Some(s@),
            None => path_parent(path@) is None,
        },
{
    std::path::Path::new(path).parent().and_then(|p| p.to_str()).map(|p| p.to_owned())
}

/// `Path::new(path).file_name()` (std), as a string. Claims only that
/// the result is std's answer for this path.
#[verifier::external_body]
pub(crate) fn file_name_of(path: &str) -> (r: Option<String>)
    ensures
        match r {
            Some(s) => path_file_name(path@) == Some(s@),
            None => path_file_name(path@) is None,
        },
{
    std::path::Path::new(path).file_name().and_then(|s| s.to_str()).map(|s| s.to_owned())
}

/// `Path::new(a).join(b)` (std), as a string. Claims only that the
/// result is std's answer for these two paths.
#[verifier::external_body]
pub(crate) fn join_path(a: &str, b: &str) -> (r: String)
    ensures
        r@ == path_join(a@, b@),
{
    std::path::Path::new(a).join(b).to_string_lossy().into_owned()
}

/// The character with ASCII uppercase letters mapped to lowercase, as a
/// code point.
pub open spec fn ascii_lower(c: char) -> u32 {
    if 'A' <= c && c <= 'Z' {
        (c as u32 + 32) as u32
    } else {
        c as u32
    }
}

/// `str::eq_ignore_ascii_case`: same length and equal characters once
/// ASCII letters are lowercased.
pub open spec fn eq_ignore_ascii_case(a: Seq<char>, b: Seq<char>) -> bool {
    a.len() == b.len() && forall|i: int| 0 <= i < a.len() ==> #[trigger] ascii_lower(a[i])
        == ascii_lower(b[i])
}

fn lower_code(c: char) -> (r: u32)
    ensures
        r == ascii_lower(c),
{
    if 'A' <= c && c <= 'Z' {
        c as u32 + 32
    } else {
        c as u32
    }
}

/// Whether two strings are equal ignoring ASCII case.
pub fn eq_ignore_case(a: &str, b: &str) -> (r: bool)
    ensures
        r == eq_ignore_ascii_case(a@, b@),
{
    let x = crate::text::chars_of(a);
    let y = crate::text::chars_of(b);
    if x.len() != y.len() {
        return false;
    }
    let mut i: usize = 0;
    while i < x.len()
        invariant
            x@ == a@,
            y@ == b@,
            x@.len() == y@.len(),
            i <= x@.len(),
            forall|j: int| 0 <= j < i ==> #[trigger] ascii_lower(x@[j]) == ascii_lower(y@[j]),
        decreases x@.len() - i,
    {
        if lower_code(x[i]) != lower_code(y[i]) {
            return false;
        }
        i = i + 1;
    }
    true
}

/// Whether a model path is a `*.partial` download in progress (extension
/// `partial`, any ASCII case).
pub open spec fn is_partial_path(p: Seq<char>) -> bool {
    path_extension(p) matches Some(e) && eq_ignore_ascii_case(e, "partial"@)
}

/// Whether a model path is a `*.partial` download in progress; loaders
/// reject such paths to surface model corruption early.
pub fn is_partial(path: &str) -> (b: bool)
    ensures
        b == is_partial_path(path@),
{
    match extension_of(path) {
        Some(e) => eq_ignore_case(e.as_str(), "partial"),
        None => false,
    }
}

} // verus!
