//! Paths as texts whose parts are separated by slashes.

use vstd::prelude::*;

use crate::text::{cat2, cat3, chars_of, same, string_of};

pub mod laws;

verus! {

/// The path without the slashes and single dots at its end.
pub open spec fn trimmed(path: Seq<char>) -> Seq<char>
    decreases path.len(),
{
    if path.len() >= 2 && path.last() == '/' {
        trimmed(path.drop_last())
    } else if path.len() >= 2 && path.last() == '.' && path[path.len() - 2] == '/' {
        trimmed(path.drop_last())
    } else {
        path
    }
}

/// What follows the last `c`; all of it where there is none.
pub open spec fn after_last(s: Seq<char>, c: char) -> Seq<char>
    decreases s.len(),
{
    if s.len() == 0 || s.last() == c {
        Seq::empty()
    } else {
        after_last(s.drop_last(), c).push(s.last())
    }
}

/// The last part of a path that names something: not the root, not `.` and not `..`.
pub open spec fn name_of(path: Seq<char>) -> Option<Seq<char>> {
    let name = after_last(trimmed(path), '/');
    if name.len() == 0 || name == "."@ || name == ".."@ {
        None
    } else {
        Some(name)
    }
}

/// What follows the last dot of the last part, unless the part begins with that dot.
pub open spec fn extension_of(path: Seq<char>) -> Option<Seq<char>> {
    match name_of(path) {
        Some(name) => {
            let extension = after_last(name, '.');
            if extension.len() + 1 < name.len() {
                Some(extension)
            } else {
                None
            }
        },
        None => None,
    }
}

/// `part` below `base`.
pub open spec fn path_join(base: Seq<char>, part: Seq<char>) -> Seq<char> {
    if base.len() == 0 {
        part
    } else if base.last() == '/' {
        base + part
    } else {
        base + "/"@ + part
    }
}

proof fn lemma_trimmed(path: Seq<char>, end: int)
    requires
        0 <= end <= path.len(),
        trimmed(path) == trimmed(path.take(end)),
        end < 2 || !(path[end - 1] == '/' || (path[end - 1] == '.' && path[end - 2] == '/')),
    ensures
        trimmed(path) == path.take(end),
{
}

proof fn lemma_after_last(s: Seq<char>, c: char, start: int)
    requires
        0 <= start <= s.len(),
        start == 0 || s[start - 1] == c,
        forall|i: int| start <= i < s.len() ==> s[i] != c,
    ensures
        after_last(s, c) == s.subrange(start, s.len() as int),
    decreases s.len(),
{
    if start == s.len() {
        assert(s.subrange(start, s.len() as int) =~= Seq::<char>::empty());
    } else {
        lemma_after_last(s.drop_last(), c, start);
        assert(s.subrange(start, s.len() as int) =~= s.drop_last().subrange(
            start,
            s.len() - 1,
        ).push(s.last()));
    }
}

/// Where the part after the last `c` begins.
fn start_after(s: &Vec<char>, end: usize, c: char) -> (r: usize)
    requires
        end <= s@.len(),
    ensures
        r <= end,
        after_last(s@.take(end as int), c) == s@.subrange(r as int, end as int),
        forall|i: int| r <= i < end ==> s@[i] != c,
        r == 0 || s@[r as int - 1] == c,
{
    let mut start: usize = end;
    while start > 0 && s[start - 1] != c
        invariant
            start <= end <= s@.len(),
            forall|i: int| start <= i < end ==> s@[i] != c,
        decreases start,
    {
        start = start - 1;
    }
    proof {
        let t = s@.take(end as int);
        lemma_after_last(t, c, start as int);
        assert(t.subrange(start as int, t.len() as int) =~= s@.subrange(start as int, end as int));
    }
    start
}

/// The last part of a path that names something.
pub fn file_name(path: &str) -> (r: Option<String>)
    ensures
        r.deep_view() == name_of(path@),
{
    let chars = chars_of(path);
    let mut end: usize = chars.len();
    proof {
        assert(chars@.take(end as int) =~= chars@);
    }
    while end >= 2 && (chars[end - 1] == '/' || (chars[end - 1] == '.' && chars[end - 2] == '/'))
        invariant
            end <= chars@.len(),
            trimmed(chars@) == trimmed(chars@.take(end as int)),
        decreases end,
    {
        proof {
            assert(chars@.take(end as int).drop_last() =~= chars@.take(end as int - 1));
        }
        end = end - 1;
    }
    proof {
        lemma_trimmed(chars@, end as int);
    }
    let start: usize = start_after(&chars, end, '/');
    let name = string_of(&chars, start, end);
    if name.as_str().is_empty() || same(name.as_str(), ".") || same(name.as_str(), "..") {
        None
    } else {
        Some(name)
    }
}

/// The extension of a path's last part.
pub fn extension(path: &str) -> (r: Option<String>)
    ensures
        r.deep_view() == extension_of(path@),
{
    match file_name(path) {
        Some(name) => {
            let chars = chars_of(name.as_str());
            proof {
                assert(chars@.take(chars@.len() as int) =~= chars@);
            }
            let start: usize = start_after(&chars, chars.len(), '.');
            if start > 1 {
                Some(string_of(&chars, start, chars.len()))
            } else {
                None
            }
        },
        None => None,
    }
}

/// `part` below `base`.
pub fn join_path(base: &str, part: &str) -> (r: String)
    ensures
        r@ == path_join(base@, part@),
{
    let len: usize = base.unicode_len();
    if len == 0 {
        part.to_owned()
    } else if base.get_char(len - 1) == '/' {
        cat2(base, part)
    } else {
        cat3(base, "/", part)
    }
}

/// Whether the path has the extension `wanted`.
pub fn has_extension(path: &str, wanted: &str) -> (r: bool)
    ensures
        r == (extension_of(path@) == Some(wanted@)),
{
    match extension(path) {
        Some(ext) => same(ext.as_str(), wanted),
        None => false,
    }
}

}
