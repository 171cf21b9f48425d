//! Path text operations with the meaning std's `Path` gives them on Unix:
//! the final component, its extension and stem, and appending a suffix.

use vstd::prelude::*;
use crate::text::{eq_lit, slice, split_char, split_on, vecs_view};

verus! {

/// Index of the last occurrence of `c`, if any.
pub open spec fn last_index_of(s: Seq<char>, c: char) -> Option<int>
    decreases s.len(),
{
    if s.len() == 0 {
        None
    } else if s.last() == c {
        Some(s.len() - 1)
    } else {
        last_index_of(s.drop_last(), c)
    }
}

pub proof fn lemma_last_index_of_bounds(s: Seq<char>, c: char)
    ensures
        last_index_of(s, c) matches Some(i) ==> 0 <= i < s.len() && s[i] == c,
    decreases s.len(),
{
    if s.len() > 0 && s.last() != c {
        lemma_last_index_of_bounds(s.drop_last(), c);
    }
}

/// Position of the last `c` in `v`, if any.
pub fn rfind_char(v: &Vec<char>, c: char) -> (r: Option<usize>)
    ensures
        match r {
            Some(i) => last_index_of(v@, c) == Some(i as int) && i < v.len(),
            None => last_index_of(v@, c) is None,
        },
{
    let mut n = v.len();
    proof {
        assert(v@.take(n as int) =~= v@);
    }
    while n > 0
        invariant
            n <= v.len(),
            last_index_of(v@, c) == last_index_of(v@.take(n as int), c),
        decreases n,
    {
        proof {
            assert(v@.take(n as int).drop_last() =~= v@.take(n - 1));
        }
        if v[n - 1] == c {
            return Some(n - 1);
        }
        n -= 1;
    }
    None
}

/// Text without `c` appended after `prefix` leaves the last `c` where it was.
pub proof fn lemma_last_index_of_append(prefix: Seq<char>, t: Seq<char>, c: char)
    requires
        forall|i: int| 0 <= i < t.len() ==> t[i] != c,
    ensures
        last_index_of(prefix + t, c) == last_index_of(prefix, c),
    decreases t.len(),
{
    if t.len() > 0 {
        assert((prefix + t).drop_last() =~= prefix + t.drop_last());
        assert((prefix + t).last() == t.last());
        lemma_last_index_of_append(prefix, t.drop_last(), c);
    } else {
        assert(prefix + t =~= prefix);
    }
}

/// A name without `/` is its own last segment, bare or after a directory.
pub proof fn lemma_after_last_slash_name(dir: Seq<char>, name: Seq<char>)
    requires
        forall|i: int| 0 <= i < name.len() ==> name[i] != '/',
    ensures
        after_last_slash(name) == name,
        after_last_slash(dir + seq!['/'] + name) == name,
{
    lemma_last_index_of_append(Seq::<char>::empty(), name, '/');
    assert(Seq::<char>::empty() + name =~= name);
    let d = dir + seq!['/'];
    lemma_last_index_of_append(d, name, '/');
    assert(last_index_of(d, '/') == Some(dir.len() as int));
    assert((d + name).skip(dir.len() as int + 1) =~= name);
}

/// The text after the last `/` (all of it when there is none), as
/// `str::rsplit('/').next()` gives it.
pub open spec fn after_last_slash(s: Seq<char>) -> Seq<char> {
    match last_index_of(s, '/') {
        Some(i) => s.skip(i + 1),
        None => s,
    }
}

/// The text after the last `/`.
pub fn basename(v: &Vec<char>) -> (out: Vec<char>)
    ensures
        out@ == after_last_slash(v@),
{
    match rfind_char(v, '/') {
        Some(i) => {
            let out = slice(v, i + 1, v.len());
            proof {
                assert(out@ =~= v@.skip(i + 1));
            }
            out
        },
        None => {
            let out = slice(v, 0, v.len());
            proof {
                assert(out@ =~= v@);
            }
            out
        },
    }
}

/// The last segment that names something (not empty, not `.`).
pub open spec fn last_named_segment(segs: Seq<Seq<char>>) -> Option<Seq<char>>
    decreases segs.len(),
{
    if segs.len() == 0 {
        None
    } else if segs.last().len() == 0 || segs.last() == "."@ {
        last_named_segment(segs.drop_last())
    } else {
        Some(segs.last())
    }
}

/// `Path::file_name`: the final normal component; `None` for a path that ends
/// in `..` or has no normal component.
pub open spec fn file_name_of(p: Seq<char>) -> Option<Seq<char>> {
    match last_named_segment(split_on(p, '/')) {
        Some(l) => if l == ".."@ {
            None
        } else {
            Some(l)
        },
        None => None,
    }
}

/// `Path::file_name` on path text.
pub fn file_name(p: &Vec<char>) -> (out: Option<Vec<char>>)
    ensures
        match out {
            Some(n) => file_name_of(p@) == Some(n@),
            None => file_name_of(p@) is None,
        },
{
    let segs = split_char(p, '/');
    let mut n = segs.len();
    proof {
        assert(vecs_view(segs@).take(n as int) =~= vecs_view(segs@));
    }
    while n > 0
        invariant
            n <= segs.len(),
            vecs_view(segs@) == split_on(p@, '/'),
            last_named_segment(vecs_view(segs@)) == last_named_segment(vecs_view(segs@).take(
                n as int,
            )),
        decreases n,
    {
        proof {
            assert(vecs_view(segs@).take(n as int).drop_last() =~= vecs_view(segs@).take(n - 1));
            assert(vecs_view(segs@).take(n as int).last() == segs@[n - 1]@);
        }
        let s = &segs[n - 1];
        if s.len() == 0 || eq_lit(s, ".") {
            n -= 1;
        } else {
            if eq_lit(s, "..") {
                return None;
            }
            let out = slice(s, 0, s.len());
            proof {
                assert(out@ =~= s@);
            }
            return Some(out);
        }
    }
    None
}

/// `Path::extension` of a file name: the text after the last `.`, unless the
/// name has no `.` or its only `.` is the first character.
pub open spec fn extension_of_name(name: Seq<char>) -> Option<Seq<char>> {
    match last_index_of(name, '.') {
        Some(i) => if i == 0 {
            None
        } else {
            Some(name.skip(i + 1))
        },
        None => None,
    }
}

/// `Path::file_stem` of a file name.
pub open spec fn stem_of_name(name: Seq<char>) -> Seq<char> {
    match last_index_of(name, '.') {
        Some(i) => if i == 0 {
            name
        } else {
            name.take(i)
        },
        None => name,
    }
}

/// `Path::extension`.
pub open spec fn extension_of(p: Seq<char>) -> Option<Seq<char>> {
    match file_name_of(p) {
        Some(n) => extension_of_name(n),
        None => None,
    }
}

/// `Path::extension` on path text.
pub fn extension(p: &Vec<char>) -> (out: Option<Vec<char>>)
    ensures
        match out {
            Some(e) => extension_of(p@) == Some(e@),
            None => extension_of(p@) is None,
        },
{
    let name = match file_name(p) {
        Some(n) => n,
        None => {
            return None;
        },
    };
    match rfind_char(&name, '.') {
        Some(i) => {
            if i == 0 {
                None
            } else {
                let e = slice(&name, i + 1, name.len());
                proof {
                    assert(e@ =~= name@.skip(i + 1));
                }
                Some(e)
            }
        },
        None => None,
    }
}

/// `Path::file_stem` of a file name, on text.
pub fn stem(name: &Vec<char>) -> (out: Vec<char>)
    ensures
        out@ == stem_of_name(name@),
{
    match rfind_char(name, '.') {
        Some(i) => {
            if i == 0 {
                let out = slice(name, 0, name.len());
                proof {
                    assert(out@ =~= name@);
                }
                out
            } else {
                let out = slice(name, 0, i);
                proof {
                    assert(out@ =~= name@.take(i as int));
                }
                out
            }
        },
        None => {
            let out = slice(name, 0, name.len());
            proof {
                assert(out@ =~= name@);
            }
            out
        },
    }
}

} // verus!
