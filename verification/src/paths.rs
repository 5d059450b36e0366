//! Unix path text operations (`Path::join`, `Path::file_name`) on UTF-8 paths.

use vstd::prelude::*;

use crate::text::{chars_of, string_of};

verus! {

/// `p` with trailing `/` and trailing `/.` components removed.
pub open spec fn strip_trailing(p: Seq<char>) -> Seq<char>
    decreases p.len(),
{
    if p.len() > 0 && p.last() == '/' {
        strip_trailing(p.drop_last())
    } else if p.len() >= 2 && p.last() == '.' && p[p.len() - 2] == '/' {
        strip_trailing(p.drop_last())
    } else {
        p
    }
}

/// The text after the last `/` of `p` (all of `p` when it has none).
pub open spec fn after_last_slash(p: Seq<char>) -> Seq<char>
    decreases p.len(),
{
    if p.len() == 0 {
        p
    } else if p.last() == '/' {
        Seq::empty()
    } else {
        after_last_slash(p.drop_last()).push(p.last())
    }
}

/// The final component of the path `p`, as `Path::file_name` returns it:
/// none for an empty path, the root, `.` or a path ending in `..`.
pub open spec fn file_name_of(p: Seq<char>) -> Option<Seq<char>> {
    let seg = after_last_slash(strip_trailing(p));
    if seg.len() == 0 || seg == seq!['.'] || seg == seq!['.', '.'] {
        None
    } else {
        Some(seg)
    }
}

/// The text of `s` before its first `.` (what `s.split('.').next()` gives).
pub open spec fn before_first_dot(s: Seq<char>) -> Seq<char>
    decreases s.len(),
{
    if s.len() == 0 {
        s
    } else if s[0] == '.' {
        Seq::empty()
    } else {
        seq![s[0]] + before_first_dot(s.subrange(1, s.len() as int))
    }
}

/// `base` joined with the relative or absolute path `seg`, as `Path::join` does on Unix.
pub open spec fn joined(base: Seq<char>, seg: Seq<char>) -> Seq<char> {
    if seg.len() > 0 && seg[0] == '/' {
        seg
    } else if base.len() > 0 && base.last() != '/' {
        base + seq!['/'] + seg
    } else {
        base + seg
    }
}

/// `base` joined with `seg`.
pub fn join(base: &str, seg: &str) -> (res: String)
    ensures
        res@ == joined(base@, seg@),
{
    let b = chars_of(base);
    let s = chars_of(seg);
    if s.len() > 0 && s[0] == '/' {
        return string_of(s.as_slice());
    }
    let mut out = b;
    if out.len() > 0 && out[out.len() - 1] != '/' {
        out.push('/');
    }
    let ghost start = out@;
    let mut i: usize = 0;
    while i < s.len()
        invariant
            s@ == seg@,
            i <= s@.len(),
            out@ == start + seg@.subrange(0, i as int),
        decreases s@.len() - i,
    {
        out.push(s[i]);
        i = i + 1;
        assert(out@ == start + seg@.subrange(0, i as int));
    }
    assert(seg@.subrange(0, seg@.len() as int) == seg@);
    string_of(out.as_slice())
}

proof fn lemma_after_last_slash_scan(p: Seq<char>, k: int)
    requires
        0 <= k <= p.len(),
        forall|j: int| k <= j < p.len() ==> p[j] != '/',
        k == 0 || p[k - 1] == '/',
    ensures
        after_last_slash(p) == p.subrange(k, p.len() as int),
    decreases p.len(),
{
    if p.len() == 0 {
    } else if p.len() == k {
        assert(p.last() == '/');
    } else {
        lemma_after_last_slash_scan(p.drop_last(), k);
        assert(p.drop_last().subrange(k, p.len() - 1).push(p.last()) == p.subrange(k, p.len() as int));
    }
}

/// The final component of the path `p`.
pub fn file_name(p: &str) -> (res: Option<String>)
    ensures
        res.deep_view() == file_name_of(p@),
{
    let v = chars_of(p);
    let mut n: usize = v.len();
    assert(p@.subrange(0, n as int) == p@);
    while n > 0 && (v[n - 1] == '/' || (n >= 2 && v[n - 1] == '.' && v[n - 2] == '/'))
        invariant
            v@ == p@,
            n <= v@.len(),
            strip_trailing(p@) == strip_trailing(p@.subrange(0, n as int)),
        decreases n,
    {
        assert(p@.subrange(0, n as int).drop_last() == p@.subrange(0, n - 1));
        n = n - 1;
    }
    let ghost t = p@.subrange(0, n as int);
    assert(strip_trailing(t) == t);
    let mut k: usize = n;
    while k > 0 && v[k - 1] != '/'
        invariant
            v@ == p@,
            k <= n <= v@.len(),
            t == p@.subrange(0, n as int),
            forall|j: int| k <= j < n ==> t[j] != '/',
        decreases k,
    {
        k = k - 1;
    }
    proof {
        lemma_after_last_slash_scan(t, k as int);
    }
    let mut seg: Vec<char> = Vec::new();
    let mut i: usize = k;
    while i < n
        invariant
            v@ == p@,
            k <= i <= n <= v@.len(),
            seg@ == p@.subrange(k as int, i as int),
        decreases n - i,
    {
        seg.push(v[i]);
        i = i + 1;
        assert(seg@ == p@.subrange(k as int, i as int));
    }
    assert(seg@ == t.subrange(k as int, t.len() as int));
    let len = seg.len();
    if len == 0 || (len == 1 && seg[0] == '.') || (len == 2 && seg[0] == '.' && seg[1] == '.') {
        proof {
            if len == 1 {
                assert(seg@ == seq!['.']);
            }
            if len == 2 {
                assert(seg@ == seq!['.', '.']);
            }
        }
        None
    } else {
        assert(seg@ != seq!['.']);
        assert(seg@ != seq!['.', '.']);
        Some(string_of(seg.as_slice()))
    }
}

proof fn lemma_before_first_dot(s: Seq<char>, k: int)
    requires
        0 <= k <= s.len(),
        forall|j: int| 0 <= j < k ==> s[j] != '.',
        k == s.len() || s[k] == '.',
    ensures
        before_first_dot(s) == s.subrange(0, k),
    decreases s.len(),
{
    if s.len() == 0 {
    } else if k == 0 {
    } else {
        let rest = s.subrange(1, s.len() as int);
        lemma_before_first_dot(rest, k - 1);
        assert(seq![s[0]] + rest.subrange(0, k - 1) == s.subrange(0, k));
    }
}

/// The text of `s` before its first `.`.
pub fn until_first_dot(s: &str) -> (res: String)
    ensures
        res@ == before_first_dot(s@),
{
    let v = chars_of(s);
    let mut out: Vec<char> = Vec::new();
    let mut k: usize = 0;
    while k < v.len() && v[k] != '.'
        invariant
            v@ == s@,
            k <= v@.len(),
            out@ == s@.subrange(0, k as int),
            forall|j: int| 0 <= j < k ==> s@[j] != '.',
        decreases v@.len() - k,
    {
        out.push(v[k]);
        k = k + 1;
        assert(out@ == s@.subrange(0, k as int));
    }
    proof {
        lemma_before_first_dot(s@, k as int);
    }
    string_of(out.as_slice())
}


/// Law: the text before the first `.` is the longest prefix of `s` without
/// a `.`: all of `s`, or the part followed by a `.`.
pub proof fn lemma_before_first_dot_meaning(s: Seq<char>)
    ensures
        before_first_dot(s).len() <= s.len(),
        before_first_dot(s) == s.subrange(0, before_first_dot(s).len() as int),
        !before_first_dot(s).contains('.'),
        before_first_dot(s).len() < s.len() ==> s[before_first_dot(s).len() as int] == '.',
    decreases s.len(),
{
    if s.len() > 0 && s[0] != '.' {
        let rest = s.subrange(1, s.len() as int);
        lemma_before_first_dot_meaning(rest);
        let b = before_first_dot(rest);
        assert(before_first_dot(s) == seq![s[0]] + b);
        assert(seq![s[0]] + b =~= s.subrange(0, b.len() as int + 1)) by {
            assert(b =~= rest.subrange(0, b.len() as int));
        }
        if b.len() < rest.len() {
            assert(s[b.len() as int + 1] == rest[b.len() as int]);
        }
        assert(!(seq![s[0]] + b).contains('.')) by {
            if (seq![s[0]] + b).contains('.') {
                let i = choose|i: int| 0 <= i < (seq![s[0]] + b).len() && (seq![s[0]] + b)[i] == '.';
                if i > 0 {
                    assert(b[i - 1] == '.');
                }
            }
        }
    } else if s.len() > 0 {
        assert(before_first_dot(s) =~= s.subrange(0, 0));
    }
}

/// Law: joining a relative path puts it after the base, with one `/`
/// between them when the base is not empty and does not end with one;
/// joining an absolute path gives that path.
pub proof fn lemma_joined_meaning(base: Seq<char>, seg: Seq<char>)
    ensures
        seg.len() > 0 && seg[0] == '/' ==> joined(base, seg) == seg,
        !(seg.len() > 0 && seg[0] == '/') ==> joined(base, seg).subrange(0, base.len() as int) == base
            && joined(base, seg).subrange(joined(base, seg).len() - seg.len(), joined(base, seg).len() as int) == seg
            && joined(base, seg).len() == base.len() + seg.len() + (if base.len() > 0 && base.last() != '/' { 1int } else { 0int }),
        !(seg.len() > 0 && seg[0] == '/') && base.len() > 0 && base.last() != '/' ==> joined(base, seg)[base.len() as int] == '/',
{
    let j = joined(base, seg);
    if !(seg.len() > 0 && seg[0] == '/') {
        assert(j.subrange(0, base.len() as int) =~= base);
        assert(j.subrange(j.len() - seg.len(), j.len() as int) =~= seg);
    }
}

} // verus!
