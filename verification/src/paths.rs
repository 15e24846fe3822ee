//! What the standard library says about paths and letter case, as far as
//! the rest of the crate relies on it.

use vstd::prelude::*;

verus! {

/// The extension of a path (`Path::extension`): the part of its file name
/// after the last dot, if the file name has a dot that is not its first
/// character.
pub uninterp spec fn path_extension_of(path: Seq<char>) -> Option<Seq<char>>;

/// The file name of a path (`Path::file_name`): its last component, unless
/// the path ends in `..` or has no component.
pub uninterp spec fn path_file_name_of(path: Seq<char>) -> Option<Seq<char>>;

/// Whether two paths are equal as `Path`s, that is, component by component
/// (`Path::eq`), so that `a/b` and `a/b/` are the same path.
pub uninterp spec fn same_path_of(a: Seq<char>, b: Seq<char>) -> bool;

/// The lowercase form of a string (`str::to_lowercase`), by the Unicode
/// `Lowercase` mapping.
pub uninterp spec fn lowercase_of(s: Seq<char>) -> Seq<char>;

/// `Path::extension` of `path`, converted to a string (the extension of a
/// `&str` path is valid UTF-8, so the conversion is exact). Claims only that
/// the result is `path_extension_of` of the path.
#[verifier::external_body]
pub(crate) fn path_extension(path: &str) -> (r: Option<String>)
    ensures
        r.deep_view() == path_extension_of(path@),
{
    match std::path::Path::new(path).extension() {
        Some(e) => Some(e.to_string_lossy().into_owned()),
        None => None,
    }
}

/// `Path::file_name` of `path`, converted with `to_string_lossy`. Claims
/// only that the result is `path_file_name_of` of the path.
#[verifier::external_body]
pub(crate) fn path_file_name(path: &str) -> (r: Option<String>)
    ensures
        r.deep_view() == path_file_name_of(path@),
{
    match std::path::Path::new(path).file_name() {
        Some(n) => Some(n.to_string_lossy().into_owned()),
        None => None,
    }
}

/// `Path::eq` on two paths given as strings. Claims that the result is
/// `same_path_of` of the two strings, and that a path equals itself (`Path`
/// implements `Eq`).
#[verifier::external_body]
pub(crate) fn same_path(a: &str, b: &str) -> (r: bool)
    ensures
        r == same_path_of(a@, b@),
        a@ == b@ ==> r,
{
    std::path::Path::new(a) == std::path::Path::new(b)
}

/// Whether every character of `s` is ASCII.
pub open spec fn is_ascii_text(s: Seq<char>) -> bool {
    forall|i: int| 0 <= i < s.len() ==> (s[i] as u32) < 128
}

/// An ASCII upper-case letter in lower case; any other character as it is.
pub open spec fn ascii_lower_char(c: char) -> char {
    if 65 <= (c as u32) <= 90 { ((c as u32) + 32) as char } else { c }
}

/// Each ASCII upper-case letter of `s` in lower case.
pub open spec fn ascii_lower(s: Seq<char>) -> Seq<char> {
    s.map_values(|c: char| ascii_lower_char(c))
}

/// `str::to_lowercase`. Claims that the result is `lowercase_of` of the
/// argument, and that on ASCII text it maps `A`..`Z` to `a`..`z` and keeps
/// every other character, as the Unicode lower-case mapping does on ASCII
/// (the documentation of `str::to_ascii_lowercase` points to
/// `to_lowercase` for the same mapping on ASCII and more). What it does
/// beyond ASCII is left to the name.
#[verifier::external_body]
pub(crate) fn to_lowercase(s: &str) -> (r: String)
    ensures
        r@ == lowercase_of(s@),
        is_ascii_text(s@) ==> r@ == ascii_lower(s@),
{
    s.to_lowercase()
}

/// The extension of a path in lower case, the empty string when the path
/// has none.
pub open spec fn lower_extension_spec(path: Seq<char>) -> Seq<char> {
    lowercase_of(
        match path_extension_of(path) {
            Some(e) => e,
            None => ""@,
        },
    )
}

/// Computes `lower_extension_spec`: an ASCII extension comes back with its
/// upper-case letters in lower case, and a path without one gives the empty
/// string.
pub fn lower_extension(path: &str) -> (r: String)
    ensures
        r@ == lower_extension_spec(path@),
        match path_extension_of(path@) {
            Some(e) => is_ascii_text(e) ==> r@ == ascii_lower(e),
            None => r@.len() == 0,
        },
{
    match path_extension(path) {
        Some(e) => to_lowercase(e.as_str()),
        None => {
            let r = to_lowercase("");
            proof {
                reveal_strlit("");
                assert(is_ascii_text(""@));
            }
            r
        },
    }
}

/// The views of a sequence of string slices.
pub open spec fn str_views(s: Seq<&str>) -> Seq<Seq<char>> {
    s.map_values(|x: &str| x@)
}

/// Whether `s` is one of `options`.
pub fn is_one_of(s: &str, options: &[&str]) -> (b: bool)
    ensures
        b == str_views(options@).contains(s@),
{
    let owned = s.to_owned();
    let mut i: usize = 0;
    while i < options.len()
        invariant
            owned@ == s@,
            i <= options@.len(),
            forall|k: int| 0 <= k < i ==> (#[trigger] options@[k])@ != s@,
        decreases options@.len() - i,
    {
        let o = options[i].to_owned();
        if owned == o {
            assert(str_views(options@)[i as int] == s@);
            return true;
        }
        i += 1;
    }
    assert forall|k: int| 0 <= k < str_views(options@).len() implies #[trigger] str_views(options@)[k] != s@ by {
        assert(options@[k]@ != s@);
    }
    false
}

} // verus!
