//! Paths of a Unix-like filesystem, held as text with `/` between the components.

use crate::text::to_chars;
use vstd::prelude::*;
use vstd::string::StringExecFns;

verus! {

/// The path that `part` names when it is looked up from `base`: `part` itself where it starts
/// at the root, else `base` followed by `part`, with one `/` between them unless `base` is
/// empty or already ends in one.
pub open spec fn joined(base: Seq<char>, part: Seq<char>) -> Seq<char> {
    if part.len() > 0 && part[0] == '/' {
        part
    } else if base.len() == 0 || base.last() == '/' {
        base + part
    } else {
        base + seq!['/'] + part
    }
}

/// Where the text after the last `/` of `p` begins: 0 where `p` holds no `/`.
pub open spec fn tail_start(p: Seq<char>) -> int
    decreases p.len(),
{
    if p.len() == 0 {
        0
    } else if p.last() == '/' {
        p.len() as int
    } else {
        tail_start(p.drop_last())
    }
}

/// The last component of `p`, passing over empty components and `.`: none where no component
/// is left or where that component is `..`.
pub open spec fn file_name(p: Seq<char>) -> Option<Seq<char>>
    decreases p.len(),
{
    let start = tail_start(p);
    let tail = p.subrange(start, p.len() as int);
    if tail.len() == 0 || tail == seq!['.'] {
        if 0 < start <= p.len() {
            file_name(p.subrange(0, start - 1))
        } else {
            None
        }
    } else if tail == seq!['.', '.'] {
        None
    } else {
        Some(tail)
    }
}

/// Where the last `.` of `f` stands: -1 where `f` holds none.
pub open spec fn last_dot(f: Seq<char>) -> int
    decreases f.len(),
{
    if f.len() == 0 {
        -1
    } else if f.last() == '.' {
        f.len() - 1
    } else {
        last_dot(f.drop_last())
    }
}

/// What follows the last `.` in the file name of `p`: none where `p` has no file name, where
/// the name holds no `.`, or where its only `.` is its first character.
pub open spec fn extension(p: Seq<char>) -> Option<Seq<char>> {
    match file_name(p) {
        None => None,
        Some(f) => {
            let dot = last_dot(f);
            if 0 < dot < f.len() {
                Some(f.subrange(dot + 1, f.len() as int))
            } else {
                None
            }
        },
    }
}

/// The path that `part` names when it is looked up from `base`.
pub fn join(base: &str, part: &str) -> (r: String)
    ensures
        r@ == joined(base@, part@),
{
    let b = to_chars(base);
    let p = to_chars(part);
    if p.len() > 0 && p[0] == '/' {
        String::from_str(part)
    } else if b.len() == 0 || b[b.len() - 1] == '/' {
        String::from_str(base).concat(part)
    } else {
        proof {
            reveal_strlit("/");
            assert("/"@ =~= seq!['/']);
        }
        String::from_str(base).concat("/").concat(part)
    }
}

/// The last component of `path`, passing over empty components and `.`.
pub fn last_component(path: &str) -> (r: Option<&str>)
    ensures
        r is Some == file_name(path@) is Some,
        r is Some ==> r.unwrap()@ == file_name(path@).unwrap(),
{
    let v = to_chars(path);
    let mut end: usize = v.len();
    assert(v@.subrange(0, end as int) =~= v@);
    loop
        invariant
            v@ == path@,
            end <= v.len(),
            file_name(v@) == file_name(v@.subrange(0, end as int)),
        decreases end,
    {
        let ghost q = v@.subrange(0, end as int);
        let mut start: usize = end;
        assert(v@.subrange(0, start as int) =~= q);
        while start > 0 && v[start - 1] != '/'
            invariant
                start <= end <= v.len(),
                q == v@.subrange(0, end as int),
                tail_start(q) == tail_start(v@.subrange(0, start as int)),
            decreases start,
        {
            proof {
                let t = v@.subrange(0, start as int);
                assert(t.drop_last() =~= v@.subrange(0, start - 1));
            }
            start -= 1;
        }
        assert(tail_start(q) == start);
        let ghost tail = q.subrange(start as int, end as int);
        assert(tail =~= v@.subrange(start as int, end as int));
        let n: usize = end - start;
        let is_dot = n == 1 && v[start] == '.';
        let is_dots = n == 2 && v[start] == '.' && v[start + 1] == '.';
        proof {
            if is_dot {
                assert(tail =~= seq!['.']);
            } else if n == 1 {
                assert(tail[0] != seq!['.'][0]);
            }
            if is_dots {
                assert(tail =~= seq!['.', '.']);
            } else if n == 2 {
                assert(tail[0] != seq!['.', '.'][0] || tail[1] != seq!['.', '.'][1]);
            }
        }
        if n == 0 || is_dot {
            if start == 0 {
                return None;
            }
            assert(q.subrange(0, start - 1) =~= v@.subrange(0, start - 1));
            end = start - 1;
        } else if is_dots {
            return None;
        } else {
            return Some(path.substring_char(start, end));
        }
    }
}

/// What follows the last `.` in the file name of `path`.
pub fn extension_of(path: &str) -> (r: Option<&str>)
    ensures
        r is Some == extension(path@) is Some,
        r is Some ==> r.unwrap()@ == extension(path@).unwrap(),
{
    match last_component(path) {
        None => None,
        Some(name) => {
            let f = to_chars(name);
            let mut dot: usize = f.len();
            assert(f@.subrange(0, dot as int) =~= f@);
            while dot > 0 && f[dot - 1] != '.'
                invariant
                    dot <= f.len(),
                    last_dot(f@) == last_dot(f@.subrange(0, dot as int)),
                decreases dot,
            {
                proof {
                    let t = f@.subrange(0, dot as int);
                    assert(t.drop_last() =~= f@.subrange(0, dot - 1));
                }
                dot -= 1;
            }
            assert(last_dot(f@) == dot - 1);
            if dot > 1 {
                Some(name.substring_char(dot, f.len()))
            } else {
                None
            }
        },
    }
}

} // verus!
