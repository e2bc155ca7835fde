//! The last component and the extension of a Unix path, as `Path::file_name`
//! and `Path::extension` find them.
use vstd::prelude::*;

use crate::text::{chars_eq, chars_of, last_index, last_index_exec, lemma_last_index, slice_chars};

verus! {

/// The last path component of `p`: trailing `/` and `.` components are
/// skipped; there is none for an empty path, the root, `.`, or a path
/// ending in `..`.
pub open spec fn file_name_of(p: Seq<char>) -> Option<Seq<char>>
    decreases p.len(),
{
    if p.len() == 0 {
        None
    } else {
        let j = last_index(p, '/');
        let seg = p.subrange(j + 1, p.len() as int);
        if seg.len() == 0 || seg == "."@ {
            if j < 0 {
                None
            } else {
                proof {
                    lemma_last_index(p, '/');
                }
                file_name_of(p.subrange(0, j))
            }
        } else if seg == ".."@ {
            None
        } else {
            Some(seg)
        }
    }
}

/// The extension of `p`: what follows the last `.` of its last component,
/// unless there is no `.` or the only one starts the name.
pub open spec fn extension_of(p: Seq<char>) -> Option<Seq<char>> {
    match file_name_of(p) {
        None => None,
        Some(f) => {
            let k = last_index(f, '.');
            if k <= 0 {
                None
            } else {
                Some(f.subrange(k + 1, f.len() as int))
            }
        },
    }
}

/// An optional character vector as an optional text.
pub open spec fn opt_chars(o: Option<Vec<char>>) -> Option<Seq<char>> {
    match o {
        Some(v) => Some(v@),
        None => None,
    }
}

/// The last component of the path `p`.
pub fn file_name(p: &[char]) -> (r: Option<Vec<char>>)
    ensures
        opt_chars(r) == file_name_of(p@),
{
    let dot = chars_of(".");
    let dotdot = chars_of("..");
    let mut end = p.len();
    assert(p@.subrange(0, p.len() as int) =~= p@);
    while end > 0
        invariant
            end <= p.len(),
            dot@ == "."@,
            dotdot@ == ".."@,
            file_name_of(p@) == file_name_of(p@.subrange(0, end as int)),
        decreases end,
    {
        let ghost q = p@.subrange(0, end as int);
        let j = last_index_exec(p, end, '/');
        proof {
            lemma_last_index(q, '/');
        }
        let start = match j {
            Some(k) => k + 1,
            None => 0,
        };
        let seg = slice_chars(p, start, end);
        assert(seg@ =~= q.subrange(last_index(q, '/') + 1, q.len() as int));
        if seg.len() == 0 || chars_eq(&seg, &dot) {
            match j {
                Some(k) => {
                    assert(q.subrange(0, k as int) =~= p@.subrange(0, k as int));
                    end = k;
                },
                None => {
                    return None;
                },
            }
        } else if chars_eq(&seg, &dotdot) {
            return None;
        } else {
            return Some(seg);
        }
    }
    assert(p@.subrange(0, 0) =~= Seq::<char>::empty());
    None
}

/// The extension of the path `p`.
pub fn extension(p: &[char]) -> (r: Option<Vec<char>>)
    ensures
        opt_chars(r) == extension_of(p@),
{
    match file_name(p) {
        None => None,
        Some(f) => {
            let k = last_index_exec(&f, f.len(), '.');
            assert(f@.subrange(0, f.len() as int) =~= f@);
            proof {
                lemma_last_index(f@, '.');
            }
            match k {
                Some(k) => {
                    if k == 0 {
                        None
                    } else {
                        Some(slice_chars(&f, k + 1, f.len()))
                    }
                },
                None => None,
            }
        },
    }
}

} // verus!
