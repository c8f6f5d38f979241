//! The paths of imported files: how one is resolved against the path of the
//! importing file, and when it is accepted.

use vstd::prelude::*;
use vstd::string::*;
use huff_utils::files::FileSource;
use crate::ast::opt_text;

verus! {

/// Whether `pattern` stands in `text` at index `i`.
pub open spec fn occurs_at(text: Seq<char>, pattern: Seq<char>, i: int) -> bool {
    0 <= i && i + pattern.len() <= text.len() && text.subrange(i, i + pattern.len()) == pattern
}

/// The least index from `i` on at which `pattern` stands in `text`.
pub open spec fn first_occurrence_from(text: Seq<char>, pattern: Seq<char>, i: int) -> Option<int>
    decreases text.len() - i,
{
    if i < 0 || i + pattern.len() > text.len() {
        None
    } else if occurs_at(text, pattern, i) {
        Some(i)
    } else if i < text.len() {
        first_occurrence_from(text, pattern, i + 1)
    } else {
        None
    }
}

/// `text` with the leftmost occurrence of `pattern` replaced by
/// `replacement`; `text` itself where `pattern` does not occur.
pub open spec fn replace_first(
    text: Seq<char>,
    pattern: Seq<char>,
    replacement: Seq<char>,
) -> Seq<char> {
    match first_occurrence_from(text, pattern, 0) {
        Some(i) => text.subrange(0, i) + replacement + text.subrange(
            i + pattern.len(),
            text.len() as int,
        ),
        None => text,
    }
}

/// Whether `text` ends with `suffix`.
pub open spec fn has_suffix(text: Seq<char>, suffix: Seq<char>) -> bool {
    suffix.len() <= text.len() && text.subrange(text.len() - suffix.len(), text.len() as int)
        == suffix
}

/// Whether the `len` characters of `text` from `i` on are those of `pattern`.
fn matches_at(text: &str, pattern: &str, i: usize, len: usize) -> (b: bool)
    requires
        len == pattern@.len(),
        i + len <= text@.len() <= usize::MAX,
    ensures
        b == occurs_at(text@, pattern@, i as int),
{
    let part = String::from_str(text.substring_char(i, i + len));
    let wanted = String::from_str(pattern);
    part == wanted
}

/// Replaces the leftmost occurrence of `pattern` in `text`.
pub fn replace_first_in(text: &str, pattern: &str, replacement: &str) -> (r: String)
    ensures
        r@ == replace_first(text@, pattern@, replacement@),
{
    let n = text.unicode_len();
    let m = pattern.unicode_len();
    if m > n {
        return String::from_str(text);
    }
    let mut i: usize = 0;
    loop
        invariant
            n == text@.len(),
            m == pattern@.len(),
            i <= n - m,
            first_occurrence_from(text@, pattern@, 0) == first_occurrence_from(
                text@,
                pattern@,
                i as int,
            ),
        decreases n - m - i,
    {
        if matches_at(text, pattern, i, m) {
            let mut r = String::from_str(text.substring_char(0, i));
            r.append(replacement);
            r.append(text.substring_char(i + m, n));
            return r;
        }
        if i == n - m {
            assert(first_occurrence_from(text@, pattern@, i + 1) is None);
            return String::from_str(text);
        }
        i += 1;
    }
}

/// Whether `text` ends with `suffix`.
pub fn ends_with(text: &str, suffix: &str) -> (b: bool)
    ensures
        b == has_suffix(text@, suffix@),
{
    let n = text.unicode_len();
    let m = suffix.unicode_len();
    if m > n {
        return false;
    }
    let b = matches_at(text, suffix, n - m, m);
    b
}

/// What `huff_utils` makes of the path `child`, written in an import of the
/// file at `parent`.
pub uninterp spec fn localized(parent: Seq<char>, child: Seq<char>) -> Option<Seq<char>>;

/// `FileSource::localize_file` of `huff_utils`: the path `child` as seen from
/// the directory of the file `parent`. It works on the two strings alone and
/// touches no file, so the contract names the result by them.
#[verifier::external_body]
fn localize(parent: &str, child: &str) -> (r: Option<String>)
    ensures
        opt_text(r) == localized(parent@, child@),
{
    FileSource::localize_file(parent, child)
}

/// The path under which a localized import is looked for: empty where the
/// import could not be localized, and with the first `contracts/contracts`
/// in it shortened to `contracts`.
pub open spec fn rewritten(localized: Option<Seq<char>>) -> Seq<char> {
    replace_first(
        match localized {
            Some(p) => p,
            None => Seq::empty(),
        },
        "contracts/contracts"@,
        "contracts"@,
    )
}

/// Shortens the first `contracts/contracts` of a localized path.
pub fn rewrite(localized: Option<String>) -> (r: String)
    ensures
        r@ == rewritten(opt_text(localized)),
{
    let p = match localized {
        Some(p) => p,
        None => String::new(),
    };
    replace_first_in(p.as_str(), "contracts/contracts", "contracts")
}

/// The path that an import of `path` stands for, in a file at `base`:
/// `path` itself where no base is given.
pub open spec fn resolved_path(base: Option<Seq<char>>, path: Seq<char>) -> Seq<char> {
    match base {
        Some(b) => rewritten(localized(b, path)),
        None => path,
    }
}

/// Resolves the path of an import.
pub fn resolve_import(base: &Option<String>, path: &str) -> (r: String)
    ensures
        r@ == resolved_path(opt_text(*base), path@),
{
    match base {
        Some(b) => rewrite(localize(b.as_str(), path)),
        None => String::from_str(path),
    }
}

/// Whether a resolved path may be imported: it ends in `.huff` and is among
/// `files`, the paths that are regular files.
pub open spec fn import_ok(path: Seq<char>, files: Seq<Seq<char>>) -> bool {
    has_suffix(path, ".huff"@) && files.contains(path)
}

/// Whether a resolved path may be imported.
pub fn accept_import(path: &str, files: &Vec<String>) -> (b: bool)
    ensures
        b == import_ok(path@, crate::text::texts(files@)),
{
    if !ends_with(path, ".huff") {
        return false;
    }
    let wanted = String::from_str(path);
    let mut i: usize = 0;
    while i < files.len()
        invariant
            i <= files.len(),
            wanted@ == path@,
            has_suffix(path@, ".huff"@),
            forall|j: int| 0 <= j < i ==> crate::text::texts(files@)[j] != path@,
        decreases files.len() - i,
    {
        if files[i] == wanted {
            assert(crate::text::texts(files@)[i as int] == path@);
            assert(crate::text::texts(files@).contains(path@));
            return true;
        }
        i += 1;
    }
    false
}

} // verus!
