//! Path components of file paths held as text: file name and parent from `std::path`,
//! and the extension as `Path::extension` defines it from the file name.
use vstd::prelude::*;

use crate::config::or_default;
use crate::text::{copy_string, slice_chars, string_of};

verus! {

/// What `Path::new(p).file_name()` gives for the path `p`: its final component, unless the
/// path ends in `..` or has none.
pub uninterp spec fn file_name_of(p: Seq<char>) -> Option<Seq<char>>;

/// What `Path::new(p).parent()` gives for the path `p`: the path without its final
/// component, or `None` where it terminates in a root or prefix or is empty.
pub uninterp spec fn parent_of(p: Seq<char>) -> Option<Seq<char>>;

/// `std::path::Path::file_name`, on a path given as text. Component parsing (repeated
/// separators, `.` components, `..`) follows `std::path`; only its name is claimed here.
#[verifier::external_body]
pub(crate) fn path_file_name(p: &str) -> (r: Option<String>)
    ensures
        r.deep_view() == file_name_of(p@),
{
    match std::path::Path::new(p).file_name() {
        Some(s) => Some(s.to_string_lossy().into_owned()),
        None => None,
    }
}

/// `std::path::Path::parent`, on a path given as text; only its name is claimed here.
#[verifier::external_body]
pub(crate) fn path_parent(p: &str) -> (r: Option<String>)
    ensures
        r.deep_view() == parent_of(p@),
{
    match std::path::Path::new(p).parent() {
        Some(s) => Some(s.to_string_lossy().into_owned()),
        None => None,
    }
}

/// Whether `Path::new(a) == Path::new(b)`: the two texts name the same path component by
/// component (so `a/b`, `a//b` and `a/./b` are one path).
pub uninterp spec fn same_path(a: Seq<char>, b: Seq<char>) -> bool;

/// `std::path::Path` equality on two paths given as text. Beyond its name, the contract
/// claims only that equal texts are equal paths.
#[verifier::external_body]
pub(crate) fn paths_equal(a: &str, b: &str) -> (r: bool)
    ensures
        r == same_path(a@, b@),
        a@ == b@ ==> r,
{
    std::path::Path::new(a) == std::path::Path::new(b)
}

/// What `Path::new(p).strip_prefix(base)` gives: `p` without the leading components that
/// make up `base`, or `None` where `base` is not a prefix of `p`.
pub uninterp spec fn stripped_prefix(p: Seq<char>, base: Seq<char>) -> Option<Seq<char>>;

/// `std::path::Path::strip_prefix`, on paths given as text; only its name is claimed here.
#[verifier::external_body]
pub(crate) fn path_strip_prefix(p: &str, base: &str) -> (r: Option<String>)
    ensures
        r.deep_view() == stripped_prefix(p@, base@),
{
    match std::path::Path::new(p).strip_prefix(base) {
        Ok(s) => Some(s.to_string_lossy().into_owned()),
        Err(_) => None,
    }
}

/// `path` relative to `base`: `path` without the leading components of `base`, or all of
/// `path` where it is not below `base`.
pub fn relative_to(path: &str, base: &str) -> (r: String)
    ensures
        r@ == or_default(stripped_prefix(path@, base@), path@),
{
    match path_strip_prefix(path, base) {
        Some(rel) => rel,
        None => path.to_string(),
    }
}

/// Whether `Path::new(a) < Path::new(b)`: paths ordered component by component.
pub uninterp spec fn path_less(a: Seq<char>, b: Seq<char>) -> bool;

/// `std::path::Path` order (`<`) on two paths given as text. Beyond its name, the contract
/// claims only that the order is asymmetric, as `Ord` requires.
#[verifier::external_body]
pub(crate) fn path_lt(a: &str, b: &str) -> (r: bool)
    ensures
        r == path_less(a@, b@),
        r ==> !path_less(b@, a@),
{
    std::path::Path::new(a) < std::path::Path::new(b)
}

/// Whether no path of `s` comes before the path just ahead of it.
pub open spec fn paths_ascending(s: Seq<Seq<char>>) -> bool {
    forall|i: int, j: int| 0 <= i && j == i + 1 && j < s.len() ==> !path_less(#[trigger] s[j], #[trigger] s[i])
}

/// The paths in ascending `Path` order: the same paths, none of them before the path just
/// ahead of it.
pub fn sort_paths(paths: &Vec<String>) -> (r: Vec<String>)
    ensures
        r.deep_view().to_multiset() == paths.deep_view().to_multiset(),
        paths_ascending(r.deep_view()),
{
    let ghost ps = paths.deep_view();
    let mut out: Vec<String> = Vec::new();
    let n = paths.len();
    proof {
        assert(ps.take(0) =~= Seq::<Seq<char>>::empty());
        assert(out.deep_view() =~= Seq::<Seq<char>>::empty());
    }
    for i in 0..n
        invariant
            n == paths@.len(),
            ps == paths.deep_view(),
            out.deep_view().to_multiset() == ps.take(i as int).to_multiset(),
            paths_ascending(out.deep_view()),
    {
        let x = copy_string(&paths[i]);
        let len = out.len();
        let mut j = len;
        loop
            invariant
                j <= len,
                len == out@.len(),
                j < len ==> !path_less(out.deep_view()[j as int], x@),
            ensures
                j <= len,
                j < len ==> !path_less(out.deep_view()[j as int], x@),
                j > 0 ==> !path_less(x@, out.deep_view()[j - 1]),
            decreases j,
        {
            if j == 0 {
                break;
            }
            assert(out.deep_view()[j - 1] == out@[j - 1]@);
            if !path_lt(x.as_str(), out[j - 1].as_str()) {
                break;
            }
            j = j - 1;
        }
        let ghost before = out.deep_view();
        out.insert(j, x);
        let ghost after = out.deep_view();
        proof {
            assert(after =~= before.insert(j as int, ps[i as int]));
            assert(ps.take(i + 1) =~= ps.take(i as int).push(ps[i as int]));
            vstd::seq_lib::to_multiset_insert(before, j as int, ps[i as int]);
            vstd::seq_lib::to_multiset_build(ps.take(i as int), ps[i as int]);
            assert forall|a: int, b: int| 0 <= a && b == a + 1 && b < after.len() implies !path_less(
                #[trigger] after[b],
                #[trigger] after[a],
            ) by {
                if b < j {
                    assert(after[a] == before[a] && after[b] == before[b]);
                } else if b == j {
                    assert(after[a] == before[a]);
                } else if a == j {
                    assert(after[b] == before[a]);
                } else {
                    assert(after[a] == before[a - 1] && after[b] == before[b - 1]);
                }
            }
        }
    }
    assert(ps.take(n as int) =~= ps);
    out
}

/// The position of the last `.` in `s`, if any.
pub open spec fn last_dot(s: Seq<char>) -> Option<int>
    decreases s.len(),
{
    if s.len() == 0 {
        None
    } else if s.last() == '.' {
        Some(s.len() - 1)
    } else {
        last_dot(s.drop_last())
    }
}

/// The extension of a file name (as `Path::extension` defines it): the part after the last
/// `.`, unless there is no `.` or the only one begins the name.
pub open spec fn name_extension(name: Seq<char>) -> Option<Seq<char>> {
    match last_dot(name) {
        Some(i) => if i == 0 {
            None
        } else {
            Some(name.skip(i + 1))
        },
        None => None,
    }
}

/// The extension of the path `p` (as `Path::extension`).
pub open spec fn extension_of(p: Seq<char>) -> Option<Seq<char>> {
    match file_name_of(p) {
        Some(n) => name_extension(n),
        None => None,
    }
}

/// The extension of the file name `name`.
pub fn file_name_extension(name: &str) -> (r: Option<String>)
    ensures
        r.deep_view() == name_extension(name@),
{
    let cs = crate::text::chars_of(name);
    let n = cs.len();
    let mut k: usize = n;
    assert(cs@.take(n as int) =~= cs@);
    while k > 0 && cs[k - 1] != '.'
        invariant
            k <= n,
            n == cs@.len(),
            cs@ == name@,
            last_dot(name@) == last_dot(cs@.take(k as int)),
        decreases k,
    {
        assert(cs@.take(k as int).drop_last() =~= cs@.take(k - 1));
        k = k - 1;
    }
    if k == 0 {
        assert(cs@.take(0) =~= Seq::<char>::empty());
        None
    } else {
        assert(cs@.take(k as int).last() == cs@[k - 1]);
        if k == 1 {
            None
        } else {
            let ext = slice_chars(cs.as_slice(), k, n);
            assert(ext@ =~= name@.skip(k as int));
            Some(string_of(ext.as_slice()))
        }
    }
}

/// The extension of the path `p` (as `Path::extension`).
pub fn path_extension(p: &str) -> (r: Option<String>)
    ensures
        r.deep_view() == extension_of(p@),
{
    match path_file_name(p) {
        Some(n) => file_name_extension(n.as_str()),
        None => None,
    }
}

} // verus!
