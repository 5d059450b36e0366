//! Reporting how long a page took to generate.

use vstd::prelude::*;

use crate::text::{chars_of, has_infix, has_prefix, occurs_at, occurs_at_exec, string_of};
use vstd::utf8::encode_utf8;

verus! {

/// Each character of `s` followed by `r`.
pub open spec fn each_followed_by(s: Seq<char>, r: Seq<char>) -> Seq<char>
    decreases s.len(),
{
    if s.len() == 0 {
        s
    } else {
        each_followed_by(s.drop_last(), r) + seq![s.last()] + r
    }
}

/// `s` with every occurrence of `p` replaced by `r`, scanning from the left
/// without overlaps (what `str::replace` does). The empty pattern occurs
/// before each character and at the end.
pub open spec fn replaced(s: Seq<char>, p: Seq<char>, r: Seq<char>) -> Seq<char>
    decreases s.len(),
{
    if p.len() == 0 {
        r + each_followed_by(s, r)
    } else if s.len() == 0 {
        s
    } else if has_prefix(s, p) {
        r + replaced(s.subrange(p.len() as int, s.len() as int), p, r)
    } else {
        seq![s[0]] + replaced(s.subrange(1, s.len() as int), p, r)
    }
}

/// The marker that pages hold where the generation time goes.
pub open spec fn generation_marker() -> Seq<char> {
    "__GENERATION_TIME__"@
}

/// The bytes `text/html`.
pub open spec fn html_type() -> Seq<u8> {
    seq![116u8, 101u8, 120u8, 116u8, 47u8, 104u8, 116u8, 109u8, 108u8]
}

proof fn lemma_prefix_at(s: Seq<char>, p: Seq<char>, i: int)
    requires
        0 <= i <= s.len(),
    ensures
        has_prefix(s.subrange(i, s.len() as int), p) == occurs_at(s, p, i),
{
    let t = s.subrange(i, s.len() as int);
    if has_prefix(t, p) {
        assert(s.subrange(i, i + p.len()) =~= t.subrange(0, p.len() as int));
    }
    if occurs_at(s, p, i) {
        assert(s.subrange(i, i + p.len()) =~= t.subrange(0, p.len() as int));
    }
}

/// `s` with every occurrence of `p` replaced by `r`.
pub fn replace_all(s: &str, p: &str, r: &str) -> (res: String)
    ensures
        res@ == replaced(s@, p@, r@),
{
    if p.is_empty() {
        return interleave(s, r);
    }
    let v = chars_of(s);
    let w = chars_of(p);
    let x = chars_of(r);
    let n = v.len();
    let mut out: Vec<char> = Vec::new();
    let mut i: usize = 0;
    assert(s@.subrange(0, n as int) == s@);
    while i < n
        invariant
            v@ == s@,
            w@ == p@,
            x@ == r@,
            n == v@.len(),
            w@.len() > 0,
            i <= n,
            replaced(s@, p@, r@) == out@ + replaced(s@.subrange(i as int, n as int), p@, r@),
        decreases n - i,
    {
        let ghost t = s@.subrange(i as int, n as int);
        proof {
            lemma_prefix_at(s@, p@, i as int);
        }
        if occurs_at_exec(v.as_slice(), w.as_slice(), i) {
            let ghost before = out@;
            let mut k: usize = 0;
            while k < x.len()
                invariant
                    x@ == r@,
                    k <= x@.len(),
                    out@ == before + r@.subrange(0, k as int),
                decreases x@.len() - k,
            {
                out.push(x[k]);
                k = k + 1;
                assert(out@ == before + r@.subrange(0, k as int));
            }
            assert(r@.subrange(0, r@.len() as int) == r@);
            assert(t.subrange(p@.len() as int, t.len() as int) == s@.subrange(i + p@.len(), n as int));
            i = i + w.len();
        } else {
            assert(t[0] == s@[i as int]);
            assert(t.subrange(1, t.len() as int) == s@.subrange(i + 1, n as int));
            out.push(v[i]);
            i = i + 1;
        }
    }
    string_of(out.as_slice())
}

/// `r`, then each character of `s` followed by `r`.
fn interleave(s: &str, r: &str) -> (res: String)
    ensures
        res@ == r@ + each_followed_by(s@, r@),
{
    let v = chars_of(s);
    let x = chars_of(r);
    let mut out: Vec<char> = x.clone();
    let mut i: usize = 0;
    assert(s@.subrange(0, 0) =~= Seq::<char>::empty());
    while i < v.len()
        invariant
            v@ == s@,
            x@ == r@,
            i <= v@.len(),
            out@ == r@ + each_followed_by(s@.subrange(0, i as int), r@),
        decreases v@.len() - i,
    {
        let ghost before = out@;
        out.push(v[i]);
        let mut k: usize = 0;
        while k < x.len()
            invariant
                x@ == r@,
                k <= x@.len(),
                out@ == before + seq![s@[i as int]] + r@.subrange(0, k as int),
            decreases x@.len() - k,
        {
            out.push(x[k]);
            k = k + 1;
            assert(out@ =~= before + seq![s@[i as int]] + r@.subrange(0, k as int));
        }
        assert(r@.subrange(0, r@.len() as int) =~= r@);
        let ghost next = s@.subrange(0, i + 1);
        assert(next.drop_last() =~= s@.subrange(0, i as int));
        assert(next.last() == s@[i as int]);
        assert(out@ =~= r@ + each_followed_by(next, r@));
        i = i + 1;
    }
    assert(s@.subrange(0, s@.len() as int) =~= s@);
    string_of(out.as_slice())
}

/// Whether a `Content-Type` header value announces an HTML page.
pub fn is_html(content_type: &[u8]) -> (res: bool)
    ensures
        res == (content_type@.len() >= 9 && content_type@.subrange(0, 9) == html_type()),
{
    let html: [u8; 9] = [116u8, 101u8, 120u8, 116u8, 47u8, 104u8, 116u8, 109u8, 108u8];
    if content_type.len() < 9 {
        return false;
    }
    let mut i: usize = 0;
    while i < 9
        invariant
            i <= 9,
            content_type@.len() >= 9,
            html@ == html_type(),
            forall|k: int| 0 <= k < i ==> content_type@[k] == html_type()[k],
        decreases 9 - i,
    {
        if content_type[i] != html[i] {
            assert(content_type@.subrange(0, 9)[i as int] != html_type()[i as int]);
            return false;
        }
        i = i + 1;
    }
    assert(content_type@.subrange(0, 9) =~= html_type());
    true
}

/// An HTML page with its generation-time marker replaced by `formatted_time`.
pub fn with_generation_time(body: &str, formatted_time: &str) -> (res: String)
    ensures
        res@ == replaced(body@, generation_marker(), formatted_time@),
{
    proof {
        reveal_strlit("__GENERATION_TIME__");
    }
    replace_all(body, "__GENERATION_TIME__", formatted_time)
}


/// Law: the bytes an HTML page's content type starts with are the UTF-8
/// bytes of `text/html`.
pub proof fn lemma_html_type_is_text_html()
    ensures
        html_type() == encode_utf8("text/html"@),
{
    reveal_strlit("text/html");
    vstd::utf8::is_ascii_chars_encode_utf8("text/html"@);
    assert(encode_utf8("text/html"@) =~= html_type());
}

/// Law: text without the pattern is left as it is.
pub proof fn lemma_replaced_without_pattern(s: Seq<char>, p: Seq<char>, r: Seq<char>)
    requires
        p.len() > 0,
        !has_infix(s, p),
    ensures
        replaced(s, p, r) == s,
    decreases s.len(),
{
    if s.len() > 0 {
        let t = s.subrange(1, s.len() as int);
        if has_prefix(s, p) {
            assert(occurs_at(s, p, 0));
        }
        assert(!has_infix(t, p)) by {
            if has_infix(t, p) {
                let i = choose|i: int| occurs_at(t, p, i);
                assert(s.subrange(i + 1, i + 1 + p.len()) =~= t.subrange(i, i + p.len()));
                assert(occurs_at(s, p, i + 1));
            }
        }
        lemma_replaced_without_pattern(t, p, r);
        assert(seq![s[0]] + t =~= s);
    }
}

/// Law: a text made of the pattern alone becomes the replacement.
pub proof fn lemma_replaced_pattern_alone(p: Seq<char>, r: Seq<char>)
    requires
        p.len() > 0,
    ensures
        replaced(p, p, r) == r,
{
    assert(p.subrange(0, p.len() as int) =~= p);
    let e = p.subrange(p.len() as int, p.len() as int);
    assert(e =~= Seq::<char>::empty());
    assert(has_prefix(p, p));
    assert(replaced(e, p, r) == e);
    assert(replaced(p, p, r) == r + replaced(e, p, r));
    assert(r + e =~= r);
}

} // verus!
