//! File names, extensions and destination paths, over `String` paths.

use vstd::prelude::*;
use vstd::string::StrSliceExecFns;

verus! {

/// The final component of a path, as `std::path::Path::file_name` gives it.
pub uninterp spec fn file_name_of(p: Seq<char>) -> Option<Seq<char>>;

/// The lower-case form of a string, as `str::to_lowercase` gives it.
pub uninterp spec fn lowercase_of(s: Seq<char>) -> Seq<char>;

/// A file name joined onto a directory, as `std::path::Path::join` gives it.
pub uninterp spec fn joined_of(dir: Seq<char>, name: Seq<char>) -> Seq<char>;

pub open spec fn opt_view(o: Option<String>) -> Option<Seq<char>> {
    match o {
        Some(s) => Some(s@),
        None => None,
    }
}

/// Relies on `std::path::Path::file_name`: the final component, or `None`
/// where the path ends in `..` or is a root.
#[verifier::external_body]
pub(crate) fn file_name(p: &str) -> (r: Option<String>)
    ensures
        opt_view(r) == file_name_of(p@),
{
    std::path::Path::new(p).file_name().and_then(|s| s.to_str()).map(|s| s.to_string())
}

/// Relies on `str::to_lowercase`: the result depends on the characters alone,
/// and the empty string stays empty.
#[verifier::external_body]
pub(crate) fn lowercase(s: &str) -> (r: String)
    ensures
        r@ == lowercase_of(s@),
        s@.len() == 0 ==> r@.len() == 0,
{
    s.to_lowercase()
}

/// Relies on `std::path::Path::join`: the path of `name` inside `dir`.
#[verifier::external_body]
pub(crate) fn join(dir: &str, name: &str) -> (r: String)
    ensures
        r@ == joined_of(dir@, name@),
{
    std::path::Path::new(dir).join(name).to_string_lossy().into_owned()
}

/// Whether position `k` holds the last `.` of `name`.
pub open spec fn is_last_dot(name: Seq<char>, k: int) -> bool {
    &&& 0 <= k < name.len()
    &&& name[k] == '.'
    &&& forall|j: int| k < j < name.len() ==> name[j] != '.'
}

/// The extension of a file name: what follows its last `.`, provided that dot
/// is not the first character (a name such as `.profile` has none).
pub open spec fn extension_of(name: Seq<char>) -> Option<Seq<char>> {
    if exists|k: int| 0 < k && is_last_dot(name, k) {
        let k = choose|k: int| 0 < k && is_last_dot(name, k);
        Some(name.subrange(k + 1, name.len() as int))
    } else {
        None
    }
}

/// Whether `s` holds exactly the characters of `t`.
pub fn str_is(s: &str, t: &str) -> (r: bool)
    ensures
        r == (s@ == t@),
{
    let n = s.unicode_len();
    if n != t.unicode_len() {
        return false;
    }
    let mut i: usize = 0;
    while i < n
        invariant
            n == s@.len() == t@.len(),
            i <= n,
            forall|j: int| 0 <= j < i ==> s@[j] == t@[j],
        decreases n - i,
    {
        if s.get_char(i) != t.get_char(i) {
            return false;
        }
        i += 1;
    }
    assert(s@ =~= t@);
    true
}

/// The extension of the file name `name`.
pub fn extension(name: &str) -> (r: Option<String>)
    ensures
        opt_view(r) == extension_of(name@),
{
    let n = name.unicode_len();
    let mut i: usize = n;
    while i > 0
        invariant
            n == name@.len(),
            i <= n,
            forall|j: int| i <= j < n ==> name@[j] != '.',
        decreases i,
    {
        if name.get_char(i - 1) == '.' {
            let k = i - 1;
            assert(is_last_dot(name@, k as int));
            assert forall|k2: int| is_last_dot(name@, k2) implies k2 == k by {
                if k2 < k {
                    assert(name@[k as int] != '.');
                }
            }
            if k == 0 {
                return None;
            }
            let ext = name.substring_char(i, n).to_owned();
            return Some(ext);
        }
        i -= 1;
    }
    assert forall|k: int| 0 < k implies !is_last_dot(name@, k) by {
        if 0 <= k < n {
            assert(name@[k] != '.');
        }
    }
    None
}

} // verus!
