//! Slash-separated paths held as text: joining, and the file name, stem and
//! extension of a path, as `std::path::Path` gives them on Unix.

use vstd::prelude::*;
use crate::text::{chars_of, string_from_chars, push_str};

verus! {

/// `path` with trailing separators and trailing `.` components removed.
pub open spec fn trimmed_end(path: Seq<char>) -> Seq<char>
    decreases path.len(),
{
    if path.len() > 0 && path.last() == '/' {
        trimmed_end(path.drop_last())
    } else if path.len() >= 2 && path.last() == '.' && path[path.len() - 2] == '/' {
        trimmed_end(path.drop_last())
    } else {
        path
    }
}

/// The position of the last `c` in `s`, or -1.
pub open spec fn last_index_of(s: Seq<char>, c: char) -> int
    decreases s.len(),
{
    if s.len() == 0 {
        -1
    } else if s.last() == c {
        s.len() - 1
    } else {
        last_index_of(s.drop_last(), c)
    }
}

/// The last component of `path`, or nothing when the path ends at a root,
/// `.` or `..`.
pub open spec fn file_name(path: Seq<char>) -> Option<Seq<char>> {
    let t = trimmed_end(path);
    let name = t.subrange(last_index_of(t, '/') + 1, t.len() as int);
    if name.len() == 0 || name == "."@ || name == ".."@ {
        None
    } else {
        Some(name)
    }
}

/// The extension of a file name: what follows its last `.`, unless that
/// dot is the first character.
pub open spec fn name_extension(name: Seq<char>) -> Option<Seq<char>> {
    let d = last_index_of(name, '.');
    if d > 0 {
        Some(name.subrange(d + 1, name.len() as int))
    } else {
        None
    }
}

/// The stem of a file name: what precedes its last `.`, unless that dot is
/// the first character.
pub open spec fn name_stem(name: Seq<char>) -> Seq<char> {
    let d = last_index_of(name, '.');
    if d > 0 {
        name.subrange(0, d)
    } else {
        name
    }
}

pub open spec fn extension(path: Seq<char>) -> Option<Seq<char>> {
    match file_name(path) {
        Some(name) => name_extension(name),
        None => None,
    }
}

pub open spec fn file_stem(path: Seq<char>) -> Option<Seq<char>> {
    match file_name(path) {
        Some(name) => Some(name_stem(name)),
        None => None,
    }
}

/// `base` joined with `part`: an absolute `part` replaces `base`, and a
/// separator is put between them unless `base` is empty or already ends
/// with one.
pub open spec fn join(base: Seq<char>, part: Seq<char>) -> Seq<char> {
    if part.len() > 0 && part[0] == '/' {
        part
    } else if base.len() == 0 || base.last() == '/' {
        base + part
    } else {
        base + "/"@ + part
    }
}

proof fn lemma_last_index_of_bounds(s: Seq<char>, c: char)
    ensures
        -1 <= last_index_of(s, c) < s.len(),
        last_index_of(s, c) >= 0 ==> s[last_index_of(s, c)] == c,
        forall|i: int| last_index_of(s, c) < i < s.len() ==> s[i] != c,
    decreases s.len(),
{
    if s.len() > 0 && s.last() != c {
        lemma_last_index_of_bounds(s.drop_last(), c);
        assert forall|i: int| last_index_of(s, c) < i < s.len() implies s[i] != c by {
            if i < s.len() - 1 {
                assert(s.drop_last()[i] == s[i]);
            }
        }
    }
}

fn last_index(s: &Vec<char>, end: usize, c: char) -> (r: Option<usize>)
    requires
        end <= s@.len(),
    ensures
        match r {
            Some(i) => i as int == last_index_of(s@.subrange(0, end as int), c),
            None => last_index_of(s@.subrange(0, end as int), c) == -1,
        },
{
    let mut j = end;
    while j > 0
        invariant
            j <= end <= s@.len(),
            last_index_of(s@.subrange(0, end as int), c) == last_index_of(s@.subrange(0, j as int), c),
        decreases j,
    {
        assert(s@.subrange(0, j as int).drop_last() =~= s@.subrange(0, j - 1));
        if s[j - 1] == c {
            return Some(j - 1);
        }
        j = j - 1;
    }
    None
}

fn trimmed_len(path: &Vec<char>) -> (n: usize)
    ensures
        n <= path@.len(),
        trimmed_end(path@) == path@.subrange(0, n as int),
{
    let mut n = path.len();
    assert(path@.subrange(0, n as int) =~= path@);
    while n > 0
        invariant
            n <= path@.len(),
            trimmed_end(path@) == trimmed_end(path@.subrange(0, n as int)),
        decreases n,
    {
        let ghost t = path@.subrange(0, n as int);
        if path[n - 1] == '/' {
            assert(t.drop_last() =~= path@.subrange(0, n - 1));
            n = n - 1;
        } else if n >= 2 && path[n - 1] == '.' && path[n - 2] == '/' {
            assert(t.drop_last() =~= path@.subrange(0, n - 1));
            n = n - 1;
        } else {
            return n;
        }
    }
    n
}

fn chars_range(s: &Vec<char>, from: usize, to: usize) -> (r: Vec<char>)
    requires
        from <= to <= s@.len(),
    ensures
        r@ == s@.subrange(from as int, to as int),
{
    let mut r: Vec<char> = Vec::new();
    let mut i = from;
    while i < to
        invariant
            from <= i <= to <= s@.len(),
            r@ =~= s@.subrange(from as int, i as int),
        decreases to - i,
    {
        r.push(s[i]);
        i = i + 1;
    }
    r
}

fn is_dot_or_dotdot(name: &Vec<char>) -> (r: bool)
    ensures
        r == (name@ == "."@ || name@ == ".."@),
{
    let a = crate::text::seq_eq_str(name, ".");
    let b = crate::text::seq_eq_str(name, "..");
    a || b
}

/// The last component of a path.
pub fn file_name_of(path: &Vec<char>) -> (r: Option<Vec<char>>)
    ensures
        match r {
            Some(v) => file_name(path@) == Some(v@),
            None => file_name(path@) is None,
        },
{
    let n = trimmed_len(path);
    let ghost t = path@.subrange(0, n as int);
    proof {
        lemma_last_index_of_bounds(t, '/');
    }
    let start = match last_index(path, n, '/') {
        Some(i) => i + 1,
        None => 0,
    };
    let name = chars_range(path, start, n);
    assert(name@ =~= t.subrange(last_index_of(t, '/') + 1, t.len() as int));
    if name.len() == 0 || is_dot_or_dotdot(&name) {
        None
    } else {
        Some(name)
    }
}

/// The extension of a file name.
pub fn extension_of_name(name: &Vec<char>) -> (r: Option<Vec<char>>)
    ensures
        match r {
            Some(v) => name_extension(name@) == Some(v@),
            None => name_extension(name@) is None,
        },
{
    assert(name@.subrange(0, name@.len() as int) =~= name@);
    match last_index(name, name.len(), '.') {
        Some(d) => {
            proof {
                lemma_last_index_of_bounds(name@, '.');
            }
            if d > 0 {
                Some(chars_range(name, d + 1, name.len()))
            } else {
                None
            }
        },
        None => None,
    }
}

/// The stem of a file name.
pub fn stem_of_name(name: &Vec<char>) -> (r: Vec<char>)
    ensures
        r@ == name_stem(name@),
{
    assert(name@.subrange(0, name@.len() as int) =~= name@);
    match last_index(name, name.len(), '.') {
        Some(d) => {
            proof {
                lemma_last_index_of_bounds(name@, '.');
            }
            if d > 0 {
                chars_range(name, 0, d)
            } else {
                chars_range(name, 0, name.len())
            }
        },
        None => chars_range(name, 0, name.len()),
    }
}

/// The extension of a path's file name.
pub fn extension_of(path: &Vec<char>) -> (r: Option<Vec<char>>)
    ensures
        match r {
            Some(v) => extension(path@) == Some(v@),
            None => extension(path@) is None,
        },
{
    match file_name_of(path) {
        Some(name) => extension_of_name(&name),
        None => None,
    }
}

/// `base` joined with `part`.
pub fn join_path(base: &str, part: &str) -> (r: String)
    ensures
        r@ == join(base@, part@),
{
    let b = chars_of(base);
    let p = chars_of(part);
    if p.len() > 0 && p[0] == '/' {
        return string_from_chars(&p);
    }
    let mut r = string_from_chars(&b);
    if b.len() > 0 && b[b.len() - 1] != '/' {
        push_str(&mut r, "/");
    }
    push_str(&mut r, part);
    r
}

} // verus!
