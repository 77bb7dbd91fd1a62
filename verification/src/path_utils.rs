//! Paths, held as strings with `/` as the separator.

use vstd::prelude::*;
use crate::text::{chars_eq, chars_from, chars_of, chars_range, push_chars, string_of};

verus! {

/// A path is absolute when it starts at the root.
pub open spec fn is_absolute(p: Seq<char>) -> bool {
    p.len() > 0 && p[0] == '/'
}

/// `base` joined with `p`: `p` itself when it is absolute, else `p` appended to `base`
/// with one separator between them where `base` does not already end in one.
pub open spec fn join(base: Seq<char>, p: Seq<char>) -> Seq<char> {
    if is_absolute(p) {
        p
    } else if base.len() == 0 {
        p
    } else if base.last() == '/' {
        base + p
    } else {
        base + seq!['/'] + p
    }
}

/// `path` taken relative to `base` unless it is already absolute.
pub open spec fn spec_make_absolute(base: Seq<char>, path: Seq<char>) -> Seq<char> {
    if is_absolute(path) {
        path
    } else {
        join(base, path)
    }
}

/// A path taken relative to an absolute directory is absolute.
pub proof fn lemma_make_absolute_is_absolute(base: Seq<char>, path: Seq<char>)
    requires
        is_absolute(base),
    ensures
        is_absolute(spec_make_absolute(base, path)),
{
    if !is_absolute(path) {
        if base.last() == '/' {
            assert((base + path)[0] == base[0]);
        } else {
            assert((base + seq!['/'] + path)[0] == base[0]);
        }
    }
}

/// The position of the last separator.
pub open spec fn last_slash(p: Seq<char>) -> Option<int>
    decreases p.len(),
{
    if p.len() == 0 {
        None
    } else if p.last() == '/' {
        Some(p.len() - 1)
    } else {
        last_slash(p.drop_last())
    }
}

/// A component that names nothing: empty (between two separators) or `.`.
pub open spec fn is_skipped_component(c: Seq<char>) -> bool {
    c.len() == 0 || c == seq!['.']
}

/// The last component of a path that is neither empty nor `.`.
pub open spec fn last_component(p: Seq<char>) -> Option<Seq<char>>
    decreases p.len(),
{
    match last_slash(p) {
        None => if is_skipped_component(p) {
            None
        } else {
            Some(p)
        },
        Some(k) => {
            if 0 <= k < p.len() && is_skipped_component(p.skip(k + 1)) {
                last_component(p.take(k))
            } else {
                Some(p.skip(k + 1))
            }
        },
    }
}

/// The final component of a path, unless that is `..` or there is none.
pub open spec fn spec_file_name(p: Seq<char>) -> Option<Seq<char>> {
    match last_component(p) {
        Some(c) => if c == seq!['.', '.'] {
            None
        } else {
            Some(c)
        },
        None => None,
    }
}

/// The position of the last `.` in a name.
pub open spec fn last_dot(p: Seq<char>) -> Option<int>
    decreases p.len(),
{
    if p.len() == 0 {
        None
    } else if p.last() == '.' {
        Some(p.len() - 1)
    } else {
        last_dot(p.drop_last())
    }
}

/// The extension of a file name: what follows its last `.`, where that `.` is not its
/// first character.
pub open spec fn name_extension(name: Seq<char>) -> Option<Seq<char>> {
    match last_dot(name) {
        Some(k) => if k > 0 {
            Some(name.skip(k + 1))
        } else {
            None
        },
        None => None,
    }
}

/// The extension of a path's file name.
pub open spec fn spec_extension(p: Seq<char>) -> Option<Seq<char>> {
    match spec_file_name(p) {
        Some(n) => name_extension(n),
        None => None,
    }
}

/// The file name of a path, or the whole path where it has none.
pub open spec fn spec_shorten_path(p: Seq<char>) -> Seq<char> {
    match spec_file_name(p) {
        Some(n) => n,
        None => p,
    }
}

proof fn lemma_last_slash_range(p: Seq<char>)
    ensures
        last_slash(p) matches Some(k) ==> 0 <= k < p.len() && p[k] == '/',
        last_slash(p) matches Some(k) ==> forall|j: int| k < j < p.len() ==> p[j] != '/',
        last_slash(p) is None ==> forall|j: int| 0 <= j < p.len() ==> p[j] != '/',
    decreases p.len(),
{
    if p.len() > 0 && p.last() != '/' {
        lemma_last_slash_range(p.drop_last());
        assert forall|j: int| 0 <= j < p.len() - 1 implies p.drop_last()[j] == p[j] by {}
    }
}

proof fn lemma_last_dot_range(p: Seq<char>)
    ensures
        last_dot(p) matches Some(k) ==> 0 <= k < p.len() && p[k] == '.',
        last_dot(p) matches Some(k) ==> forall|j: int| k < j < p.len() ==> p[j] != '.',
        last_dot(p) is None ==> forall|j: int| 0 <= j < p.len() ==> p[j] != '.',
    decreases p.len(),
{
    if p.len() > 0 && p.last() != '.' {
        lemma_last_dot_range(p.drop_last());
        assert forall|j: int| 0 <= j < p.len() - 1 implies p.drop_last()[j] == p[j] by {}
    }
}

/// Position of the last separator among the first `end` characters.
fn find_last_slash(p: &[char], end: usize) -> (res: Option<usize>)
    requires
        end <= p@.len(),
    ensures
        res matches Some(k) ==> last_slash(p@.take(end as int)) == Some(k as int),
        res is None ==> last_slash(p@.take(end as int)) is None,
{
    let mut i = end;
    while i > 0
        invariant
            i <= end <= p@.len(),
            last_slash(p@.take(end as int)) == last_slash(p@.take(i as int)),
        decreases i,
    {
        if p[i - 1] == '/' {
            return Some(i - 1);
        }
        proof {
            assert(p@.take(i as int).drop_last() =~= p@.take(i - 1));
        }
        i = i - 1;
    }
    None
}

fn is_skipped_component_exec(p: &[char], start: usize, end: usize) -> (res: bool)
    requires
        start <= end <= p@.len(),
    ensures
        res == is_skipped_component(p@.subrange(start as int, end as int)),
{
    if start == end {
        return true;
    }
    if end - start == 1 && p[start] == '.' {
        proof {
            assert(p@.subrange(start as int, end as int) =~= seq!['.']);
        }
        return true;
    }
    proof {
        let sub = p@.subrange(start as int, end as int);
        if end - start == 1 {
            assert(sub[0] == p@[start as int]);
            assert(sub[0] != seq!['.'][0]);
        }
        assert(sub.len() != seq!['.'].len() || sub != seq!['.']);
    }
    false
}

/// The last component of a path that is neither empty nor `.`.
fn last_component_exec(p: &[char]) -> (res: Option<Vec<char>>)
    ensures
        match res {
            Some(c) => last_component(p@) == Some(c@),
            None => last_component(p@) is None,
        },
{
    let mut end = p.len();
    proof {
        assert(p@.take(end as int) =~= p@);
    }
    loop
        invariant
            end <= p@.len(),
            last_component(p@) == last_component(p@.take(end as int)),
        decreases end,
    {
        let ghost q = p@.take(end as int);
        match find_last_slash(p, end) {
            None => {
                if is_skipped_component_exec(p, 0, end) {
                    proof {
                        assert(p@.subrange(0, end as int) =~= q);
                    }
                    return None;
                } else {
                    proof {
                        assert(p@.subrange(0, end as int) =~= q);
                    }
                    return Some(chars_range(p, 0, end));
                }
            },
            Some(k) => {
                proof {
                    lemma_last_slash_range(q);
                    assert(p@.subrange(k + 1, end as int) =~= q.skip(k + 1));
                }
                if is_skipped_component_exec(p, k + 1, end) {
                    proof {
                        assert(q.take(k as int) =~= p@.take(k as int));
                    }
                    end = k;
                } else {
                    return Some(chars_range(p, k + 1, end));
                }
            },
        }
    }
}

/// The final component of a path, unless that is `..` or there is none.
pub fn file_name(p: &[char]) -> (res: Option<Vec<char>>)
    ensures
        match res {
            Some(c) => spec_file_name(p@) == Some(c@),
            None => spec_file_name(p@) is None,
        },
{
    match last_component_exec(p) {
        Some(c) => {
            let dd = ['.', '.'];
            if chars_eq(c.as_slice(), &dd) {
                None
            } else {
                Some(c)
            }
        },
        None => None,
    }
}

/// The extension of a file name.
pub fn name_extension_exec(name: &[char]) -> (res: Option<Vec<char>>)
    ensures
        match res {
            Some(e) => name_extension(name@) == Some(e@),
            None => name_extension(name@) is None,
        },
{
    let mut i = name.len();
    proof {
        assert(name@.take(i as int) =~= name@);
    }
    while i > 0
        invariant
            i <= name@.len(),
            last_dot(name@) == last_dot(name@.take(i as int)),
        decreases i,
    {
        if name[i - 1] == '.' {
            if i - 1 > 0 {
                return Some(chars_from(name, i));
            } else {
                return None;
            }
        }
        proof {
            assert(name@.take(i as int).drop_last() =~= name@.take(i - 1));
        }
        i = i - 1;
    }
    None
}

/// The extension of a path's file name.
pub fn extension(p: &[char]) -> (res: Option<Vec<char>>)
    ensures
        match res {
            Some(e) => spec_extension(p@) == Some(e@),
            None => spec_extension(p@) is None,
        },
{
    match file_name(p) {
        Some(n) => name_extension_exec(n.as_slice()),
        None => None,
    }
}

/// `path` taken relative to `base` unless it is already absolute.
pub fn make_absolute(base: &str, path: &str) -> (res: String)
    ensures
        res@ == spec_make_absolute(base@, path@),
{
    let b = chars_of(base);
    let p = chars_of(path);
    make_absolute_chars(b.as_slice(), p.as_slice())
}

/// `path` taken relative to `base` unless it is already absolute.
pub fn make_absolute_chars(base: &[char], path: &[char]) -> (res: String)
    ensures
        res@ == spec_make_absolute(base@, path@),
{
    if path.len() > 0 && path[0] == '/' {
        return string_of(path);
    }
    let mut res = string_of(base);
    if base.len() > 0 && base[base.len() - 1] != '/' {
        res.push('/');
    }
    push_chars(&mut res, path);
    res
}

/// The file name of a path, or the whole path where it has none.
pub fn shorten_path(path: &str) -> (res: String)
    ensures
        res@ == spec_shorten_path(path@),
{
    let p = chars_of(path);
    match file_name(p.as_slice()) {
        Some(n) => string_of(n.as_slice()),
        None => string_of(p.as_slice()),
    }
}

} // verus!
