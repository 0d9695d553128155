//! File system paths as strings, with the few `std::path` operations the
//! library needs, as they behave on Unix.
use vstd::prelude::*;
use crate::json::concat;
use crate::text::{str_chars, string_from_chars};

verus! {

/// `base` extended by `p` as `PathBuf::push` does on Unix: an absolute `p`
/// replaces `base`; otherwise a `/` goes between the two unless `base` is
/// empty or already ends with one.
pub open spec fn path_join(base: Seq<char>, p: Seq<char>) -> Seq<char> {
    if p.len() > 0 && p[0] == '/' {
        p
    } else if base.len() > 0 && base.last() != '/' {
        base + seq!['/'] + p
    } else {
        base + p
    }
}

/// `base` extended by `p` (`PathBuf::push`, `Path::join`).
pub fn join(base: &str, p: &str) -> (r: String)
    ensures
        r@ == path_join(base@, p@),
{
    let pc = str_chars(p);
    let bc = str_chars(base);
    if pc.len() > 0 && pc[0] == '/' {
        string_from_chars(&pc)
    } else if bc.len() > 0 && bc[bc.len() - 1] != '/' {
        let with_sep = concat(base, "/");
        proof {
            reveal_strlit("/");
        }
        concat(with_sep.as_str(), p)
    } else {
        concat(base, p)
    }
}

/// The characters after the last `/` of `p` (all of `p` if it has none).
pub open spec fn last_segment(p: Seq<char>) -> Seq<char>
    decreases p.len(),
{
    if p.len() == 0 || p.last() == '/' {
        Seq::empty()
    } else {
        last_segment(p.drop_last()).push(p.last())
    }
}

/// The final component of `p` as `Path::file_name` finds it on Unix:
/// trailing `/` and `.` components are passed over; there is none where
/// the path ends in `..` or has no ordinary component left.
pub open spec fn file_name(p: Seq<char>) -> Option<Seq<char>>
    decreases p.len(),
{
    if p.len() == 0 {
        None
    } else if p.last() == '/' {
        file_name(p.drop_last())
    } else {
        let seg = last_segment(p);
        if seg == seq!['.'] {
            file_name(p.subrange(0, p.len() - 1))
        } else if seg == seq!['.', '.'] {
            None
        } else {
            Some(seg)
        }
    }
}

/// The position of the last `.` in `name`.
pub open spec fn last_dot(name: Seq<char>) -> Option<int>
    decreases name.len(),
{
    if name.len() == 0 {
        None
    } else if name.last() == '.' {
        Some(name.len() - 1)
    } else {
        last_dot(name.drop_last())
    }
}

/// The stem of a file name (`Path::file_stem`): the name without the part
/// from its last `.`, or the whole name where it has no `.` but possibly
/// a leading one.
pub open spec fn name_stem(name: Seq<char>) -> Seq<char> {
    match last_dot(name) {
        Some(i) => if i == 0 {
            name
        } else {
            name.subrange(0, i)
        },
        None => name,
    }
}

/// `Path::file_stem` on Unix.
pub open spec fn file_stem(p: Seq<char>) -> Option<Seq<char>> {
    match file_name(p) {
        Some(n) => Some(name_stem(n)),
        None => None,
    }
}

proof fn lemma_last_segment(p: Seq<char>)
    ensures
        last_segment(p).len() <= p.len(),
        last_segment(p) == p.subrange(p.len() - last_segment(p).len(), p.len() as int),
        p.len() > last_segment(p).len() ==> p[p.len() - last_segment(p).len() - 1] == '/',
        forall|i: int| 0 <= i < last_segment(p).len() ==> last_segment(p)[i] != '/',
    decreases p.len(),
{
    if p.len() > 0 && p.last() != '/' {
        lemma_last_segment(p.drop_last());
        let s = last_segment(p.drop_last());
        assert(p.drop_last().subrange(p.len() - 1 - s.len(), p.len() - 1) == p.subrange(
            p.len() - 1 - s.len(),
            p.len() - 1,
        ));
        assert(last_segment(p) =~= p.subrange(p.len() - last_segment(p).len(), p.len() as int));
    }
}

/// The final component of the path made of `v[0..n]`.
fn file_name_chars(v: &Vec<char>, n: usize) -> (r: Option<Vec<char>>)
    requires
        n <= v.len(),
    ensures
        match r {
            Some(s) => file_name(v@.take(n as int)) == Some(s@),
            None => file_name(v@.take(n as int)) is None,
        },
    decreases n,
{
    if n == 0 {
        return None;
    }
    let ghost p = v@.take(n as int);
    if v[n - 1] == '/' {
        assert(p.drop_last() == v@.take(n - 1));
        return file_name_chars(v, n - 1);
    }
    let mut k: usize = n;
    while k > 0 && v[k - 1] != '/'
        invariant
            k <= n <= v.len(),
            p == v@.take(n as int),
            forall|i: int| k <= i < n ==> v@[i] != '/',
        decreases k,
    {
        k -= 1;
    }
    proof {
        lemma_last_segment(p);
        let s = last_segment(p);
        if s.len() < n - k {
            assert(p[p.len() - s.len() - 1] == '/');
        }
        if s.len() > n - k {
            assert(s[s.len() - (n - k) - 1] == p[k - 1]);
        }
        assert(s.len() == n - k);
        assert(s =~= v@.subrange(k as int, n as int));
    }
    let seg_len = n - k;
    if seg_len == 1 && v[k] == '.' {
        assert(last_segment(p) =~= seq!['.']);
        assert(p.subrange(0, p.len() - 1) == v@.take(n - 1));
        return file_name_chars(v, n - 1);
    }
    if seg_len == 2 && v[k] == '.' && v[k + 1] == '.' {
        assert(last_segment(p) =~= seq!['.', '.']);
        return None;
    }
    proof {
        let s = last_segment(p);
        if s == seq!['.'] {
            assert(s[0] == v@[k as int]);
        }
        if s == seq!['.', '.'] {
            assert(s[0] == v@[k as int]);
            assert(s[1] == v@[k + 1]);
        }
    }
    let mut out: Vec<char> = Vec::new();
    let mut i: usize = k;
    while i < n
        invariant
            k <= i <= n <= v.len(),
            out@ == v@.subrange(k as int, i as int),
        decreases n - i,
    {
        out.push(v[i]);
        i += 1;
    }
    Some(out)
}

/// The stem of the file name `name`.
fn stem_chars(name: Vec<char>) -> (r: Vec<char>)
    ensures
        r@ == name_stem(name@),
{
    let mut i: usize = name.len();
    assert(name@.take(i as int) == name@);
    while i > 0 && name[i - 1] != '.'
        invariant
            i <= name.len(),
            last_dot(name@) == last_dot(name@.take(i as int)),
        decreases i,
    {
        assert(name@.take(i as int).drop_last() == name@.take(i - 1));
        i -= 1;
    }
    if i == 0 {
        assert(name@.take(0) =~= Seq::<char>::empty());
        return name;
    }
    assert(last_dot(name@.take(i as int)) == Some(i - 1));
    if i == 1 {
        return name;
    }
    let mut out: Vec<char> = Vec::new();
    let mut j: usize = 0;
    while j < i - 1
        invariant
            j <= i - 1,
            i <= name.len(),
            out@ == name@.take(j as int),
        decreases i - 1 - j,
    {
        out.push(name[j]);
        assert(name@.take(j + 1) == name@.take(j as int).push(name@[j as int]));
        j += 1;
    }
    out
}

/// `Path::file_stem` on Unix.
pub fn path_file_stem(p: &str) -> (r: Option<String>)
    ensures
        match r {
            Some(s) => file_stem(p@) == Some(s@),
            None => file_stem(p@) is None,
        },
{
    let v = str_chars(p);
    assert(v@.take(v.len() as int) == v@);
    match file_name_chars(&v, v.len()) {
        Some(name) => {
            let st = stem_chars(name);
            Some(string_from_chars(&st))
        },
        None => None,
    }
}

} // verus!
