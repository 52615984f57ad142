//! File-system paths as texts, in the Unix notation: pieces between slashes,
//! of which the empty ones and the single dots name nothing.

use crate::text::{chars_of, find_in_range, offset_of, range_is};
use vstd::prelude::*;
use vstd::string::StringExecFns;

verus! {

/// The offset of the last `c` in `s`, or `-1` where it holds none.
pub open spec fn last_offset_of(s: Seq<char>, c: char) -> int
    decreases s.len(),
{
    if s.len() == 0 {
        -1
    } else if s.last() == c {
        s.len() - 1
    } else {
        last_offset_of(s.drop_last(), c)
    }
}

/// Whether a piece between slashes names something: it is neither empty nor `.`.
pub open spec fn is_name(piece: Seq<char>) -> bool {
    piece.len() > 0 && piece != seq!['.']
}

/// The last name of `path`: its last piece between slashes that names something.
pub open spec fn last_name(path: Seq<char>) -> Option<Seq<char>>
    decreases path.len(),
{
    let cut = last_offset_of(path, '/');
    if is_name(path.skip(cut + 1)) {
        Some(path.skip(cut + 1))
    } else if 0 <= cut < path.len() {
        last_name(path.take(cut))
    } else {
        None
    }
}

/// The first name of `path`: its first piece between slashes that names something.
pub open spec fn first_name(path: Seq<char>) -> Option<Seq<char>>
    decreases path.len(),
{
    let cut = offset_of(path, '/');
    if is_name(path.take(cut)) {
        Some(path.take(cut))
    } else if 0 <= cut < path.len() {
        first_name(path.skip(cut + 1))
    } else {
        None
    }
}

/// Whether `path` starts at the root of the file system.
pub open spec fn is_absolute(path: Seq<char>) -> bool {
    path.len() > 0 && path.first() == '/'
}

/// The name of the directory that holds descriptors.
pub open spec fn applications_name() -> Seq<char> {
    "applications"@
}

/// The name, directly under the root, of the directory of transient files.
pub open spec fn transient_name() -> Seq<char> {
    "tmp"@
}

/// What a descriptor's file name ends with: the dot and the extension.
pub open spec fn descriptor_suffix() -> Seq<char> {
    ".desktop"@
}

/// Whether the last name of `path` is `applications`.
pub open spec fn ends_in_applications(path: Seq<char>) -> bool {
    last_name(path) == Some(applications_name())
}

/// Whether `path` lies under the root of transient files, `/tmp`.
pub open spec fn under_transient_root(path: Seq<char>) -> bool {
    is_absolute(path) && first_name(path) == Some(transient_name())
}

/// Whether `name` has a stem and, after its last dot, the extension `desktop`.
pub open spec fn is_descriptor_name(name: Seq<char>) -> bool {
    &&& name.len() > descriptor_suffix().len()
    &&& name.skip(name.len() - descriptor_suffix().len()) == descriptor_suffix()
}

/// Whether the file that `path` names has the extension `desktop`.
pub open spec fn has_descriptor_extension(path: Seq<char>) -> bool {
    last_name(path) matches Some(name) && is_descriptor_name(name)
}

/// `path` with the relative path `child` adjoined: a slash stands between
/// them unless `path` is empty or ends with one.
pub open spec fn joined(path: Seq<char>, child: Seq<char>) -> Seq<char> {
    if path.len() == 0 || path.last() == '/' {
        path + child
    } else {
        path + seq!['/'] + child
    }
}

/// The directory that is scanned for the root `root`: `root` itself where
/// its last name is `applications`, else its subdirectory of that name.
pub open spec fn scan_directory(root: Seq<char>) -> Seq<char> {
    if ends_in_applications(root) {
        root
    } else {
        joined(root, applications_name())
    }
}

/// Whether a file found at `path` is read as a descriptor by its path alone:
/// it has the extension `desktop` and does not lie under `/tmp`.
pub open spec fn is_descriptor_path(path: Seq<char>) -> bool {
    has_descriptor_extension(path) && !under_transient_root(path)
}

/// The bounds of the last name of `v`, if it has one.
fn last_name_range(v: &Vec<char>) -> (r: Option<(usize, usize)>)
    ensures
        match r {
            Some((a, b)) => a <= b <= v.len() && last_name(v@) == Some(
                v@.subrange(a as int, b as int),
            ),
            None => last_name(v@) is None,
        },
{
    let mut end: usize = v.len();
    proof {
        assert(v@.take(end as int) =~= v@);
    }
    loop
        invariant
            end <= v.len(),
            last_name(v@) == last_name(v@.take(end as int)),
        decreases end,
    {
        let ghost path = v@.take(end as int);
        let mut start: usize = end;
        while start > 0 && v[start - 1] != '/'
            invariant
                start <= end <= v.len(),
                path == v@.take(end as int),
                last_offset_of(path, '/') == last_offset_of(v@.take(start as int), '/'),
            decreases start,
        {
            proof {
                assert(v@.take(start as int).drop_last() =~= v@.take(start - 1));
            }
            start -= 1;
        }
        proof {
            assert(last_offset_of(path, '/') == start - 1);
            assert(path.skip(start as int) =~= v@.subrange(start as int, end as int));
        }
        let only_dot = end - start == 1 && v[start] == '.';
        proof {
            let piece = v@.subrange(start as int, end as int);
            if only_dot {
                assert(piece =~= seq!['.']);
            } else if piece.len() == 1 {
                assert(piece[0] != seq!['.'][0]);
            }
        }
        if start < end && !only_dot {
            return Some((start, end));
        }
        if start == 0 {
            return None;
        }
        proof {
            assert(path.take(start - 1) =~= v@.take(start - 1));
        }
        end = start - 1;
    }
}

/// The bounds of the first name of `v`, if it has one.
fn first_name_range(v: &Vec<char>) -> (r: Option<(usize, usize)>)
    ensures
        match r {
            Some((a, b)) => a <= b <= v.len() && first_name(v@) == Some(
                v@.subrange(a as int, b as int),
            ),
            None => first_name(v@) is None,
        },
{
    let mut start: usize = 0;
    proof {
        assert(v@.skip(0) =~= v@);
    }
    loop
        invariant
            start <= v.len(),
            first_name(v@) == first_name(v@.skip(start as int)),
        decreases v.len() - start,
    {
        let ghost path = v@.skip(start as int);
        let end = find_in_range(v, start, v.len(), '/');
        proof {
            assert(path.take(end - start) =~= v@.subrange(start as int, end as int));
        }
        let only_dot = end - start == 1 && v[start] == '.';
        proof {
            let piece = v@.subrange(start as int, end as int);
            if only_dot {
                assert(piece =~= seq!['.']);
            }
        }
        if start < end && !only_dot {
            return Some((start, end));
        }
        if end >= v.len() {
            return None;
        }
        proof {
            assert(path.skip(end - start + 1) =~= v@.skip(end + 1));
        }
        start = end + 1;
    }
}

/// Decides [`ends_in_applications`].
pub fn path_ends_in_applications(path: &str) -> (b: bool)
    ensures
        b == ends_in_applications(path@),
{
    let v = chars_of(path);
    let word = chars_of("applications");
    match last_name_range(&v) {
        Some((a, b)) => range_is(&v, a, b, &word),
        None => false,
    }
}

/// Decides [`under_transient_root`].
pub fn path_under_transient_root(path: &str) -> (b: bool)
    ensures
        b == under_transient_root(path@),
{
    let v = chars_of(path);
    let word = chars_of("tmp");
    if v.len() == 0 || v[0] != '/' {
        return false;
    }
    match first_name_range(&v) {
        Some((a, b)) => range_is(&v, a, b, &word),
        None => false,
    }
}

/// Decides [`has_descriptor_extension`].
pub fn path_has_descriptor_extension(path: &str) -> (b: bool)
    ensures
        b == has_descriptor_extension(path@),
{
    let v = chars_of(path);
    let suffix = chars_of(".desktop");
    match last_name_range(&v) {
        Some((a, b)) => {
            if b - a > suffix.len() {
                proof {
                    let name = v@.subrange(a as int, b as int);
                    assert(name.skip(name.len() - suffix.len()) =~= v@.subrange(
                        b - suffix.len(),
                        b as int,
                    ));
                }
                range_is(&v, b - suffix.len(), b, &suffix)
            } else {
                false
            }
        },
        None => false,
    }
}

/// Adjoins the relative path `child` to `path`.
pub fn join(path: &str, child: &str) -> (r: String)
    ensures
        r@ == joined(path@, child@),
{
    let v = chars_of(path);
    let mut r = path.to_owned();
    if v.len() > 0 && v[v.len() - 1] != '/' {
        proof {
            reveal_strlit("/");
        }
        r.append("/");
    }
    r.append(child);
    r
}

/// The directory to scan for the root `root`: see [`scan_directory`].
pub fn applications_directory(root: &str) -> (dir: String)
    ensures
        dir@ == scan_directory(root@),
{
    if path_ends_in_applications(root) {
        root.to_owned()
    } else {
        join(root, "applications")
    }
}

/// Decides [`is_descriptor_path`]: whether a file found at `path` is worth reading.
pub fn descriptor_path(path: &str) -> (b: bool)
    ensures
        b == is_descriptor_path(path@),
{
    path_has_descriptor_extension(path) && !path_under_transient_root(path)
}

} // verus!
