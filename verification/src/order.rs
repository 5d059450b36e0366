//! Alphabetical order of texts: characters are compared by code point from
//! the left, and a prefix comes first (the order of `str` comparison, since
//! UTF-8 keeps code point order).

use vstd::prelude::*;
use vstd::seq_lib::{to_multiset_build, to_multiset_insert};

use crate::text::chars_of;

verus! {

/// `a` comes before `b`, or equals it.
pub open spec fn chars_le(a: Seq<char>, b: Seq<char>) -> bool
    decreases a.len(),
{
    if a.len() == 0 {
        true
    } else if b.len() == 0 {
        false
    } else if a[0] != b[0] {
        a[0] < b[0]
    } else {
        chars_le(a.drop_first(), b.drop_first())
    }
}

/// The texts of `s` are in alphabetical order.
pub open spec fn sorted_texts(s: Seq<String>) -> bool {
    forall|i: int, j: int| 0 <= i < j < s.len() ==> chars_le(#[trigger] s[i]@, #[trigger] s[j]@)
}

/// Law: any two texts are ordered one way or the other.
pub proof fn lemma_chars_le_total(a: Seq<char>, b: Seq<char>)
    ensures
        chars_le(a, b) || chars_le(b, a),
    decreases a.len(),
{
    if a.len() > 0 && b.len() > 0 && a[0] == b[0] {
        lemma_chars_le_total(a.drop_first(), b.drop_first());
    }
}

/// Law: the order is transitive.
pub proof fn lemma_chars_le_transitive(a: Seq<char>, b: Seq<char>, c: Seq<char>)
    requires
        chars_le(a, b),
        chars_le(b, c),
    ensures
        chars_le(a, c),
    decreases a.len(),
{
    if a.len() > 0 && b.len() > 0 && c.len() > 0 && a[0] == b[0] && b[0] == c[0] {
        lemma_chars_le_transitive(a.drop_first(), b.drop_first(), c.drop_first());
    }
}

/// Law: texts are ordered by their first differing character's code point,
/// and a text comes before every text it is a prefix of.
pub proof fn lemma_chars_le_meaning(a: Seq<char>, b: Seq<char>, k: int)
    requires
        0 <= k,
        k <= a.len(),
        k <= b.len(),
        a.subrange(0, k) == b.subrange(0, k),
    ensures
        k == a.len() ==> chars_le(a, b),
        k < a.len() && k < b.len() && a[k] != b[k] ==> (chars_le(a, b) <==> a[k] < b[k]),
        k == b.len() && k < a.len() ==> !chars_le(a, b),
    decreases k,
{
    if k > 0 {
        assert(a[0] == a.subrange(0, k)[0]);
        assert(b[0] == b.subrange(0, k)[0]);
        assert(a.drop_first().subrange(0, k - 1) =~= a.subrange(0, k).drop_first());
        assert(b.drop_first().subrange(0, k - 1) =~= b.subrange(0, k).drop_first());
        lemma_chars_le_meaning(a.drop_first(), b.drop_first(), k - 1);
        if k < a.len() && k < b.len() {
            assert(a.drop_first()[k - 1] == a[k]);
            assert(b.drop_first()[k - 1] == b[k]);
        }
    }
}

/// Whether `a` comes before `b` or equals it.
pub fn text_le(a: &str, b: &str) -> (res: bool)
    ensures
        res == chars_le(a@, b@),
{
    let va = chars_of(a);
    let vb = chars_of(b);
    let mut i: usize = 0;
    assert(a@.subrange(0, a@.len() as int) =~= a@);
    assert(b@.subrange(0, b@.len() as int) =~= b@);
    loop
        invariant
            va@ == a@,
            vb@ == b@,
            i <= va@.len(),
            i <= vb@.len(),
            chars_le(a@, b@) == chars_le(a@.subrange(i as int, a@.len() as int), b@.subrange(i as int, b@.len() as int)),
        decreases va@.len() - i,
    {
        let ghost sa = a@.subrange(i as int, a@.len() as int);
        let ghost sb = b@.subrange(i as int, b@.len() as int);
        if i == va.len() {
            return true;
        }
        if i == vb.len() {
            return false;
        }
        assert(sa[0] == va@[i as int] && sb[0] == vb@[i as int]);
        if va[i] != vb[i] {
            return va[i] < vb[i];
        }
        assert(sa.drop_first() =~= a@.subrange(i + 1, a@.len() as int));
        assert(sb.drop_first() =~= b@.subrange(i + 1, b@.len() as int));
        i = i + 1;
    }
}

/// `texts` in alphabetical order (equal texts keep no particular order).
pub fn sort_texts(texts: Vec<String>) -> (res: Vec<String>)
    ensures
        sorted_texts(res@),
        res@.to_multiset() == texts@.to_multiset(),
{
    let mut out: Vec<String> = Vec::new();
    let mut i: usize = 0;
    assert(texts@.subrange(0, 0) =~= Seq::<String>::empty());
    while i < texts.len()
        invariant
            i <= texts@.len(),
            sorted_texts(out@),
            out@.to_multiset() == texts@.subrange(0, i as int).to_multiset(),
        decreases texts@.len() - i,
    {
        let s = texts[i].clone();
        let mut j: usize = 0;
        while j < out.len() && text_le(out[j].as_str(), s.as_str())
            invariant
                j <= out@.len(),
                forall|k: int| 0 <= k < j ==> chars_le(#[trigger] out@[k]@, s@),
            decreases out@.len() - j,
        {
            j = j + 1;
        }
        let ghost before = out@;
        proof {
            if j < before.len() {
                lemma_chars_le_total(before[j as int]@, s@);
            }
            assert forall|a: int, b: int| 0 <= a < b < before.len() + 1 implies chars_le(
                #[trigger] before.insert(j as int, s)[a]@,
                #[trigger] before.insert(j as int, s)[b]@,
            ) by {
                let t = before.insert(j as int, s);
                if b < j {
                    assert(chars_le(before[a]@, before[b]@));
                } else if b == j {
                    assert(chars_le(before[a]@, s@));
                } else if a == j {
                    if b - 1 > j {
                        assert(chars_le(before[j as int]@, before[b - 1]@));
                        lemma_chars_le_transitive(s@, before[j as int]@, before[b - 1]@);
                    }
                } else if a < j {
                    assert(chars_le(before[a]@, before[b - 1]@));
                } else {
                    assert(chars_le(before[a - 1]@, before[b - 1]@));
                }
            }
            to_multiset_insert(before, j as int, s);
            assert(texts@.subrange(0, i + 1) =~= texts@.subrange(0, i as int).push(s));
            to_multiset_build(texts@.subrange(0, i as int), s);
        }
        out.insert(j, s);
        i = i + 1;
    }
    assert(texts@.subrange(0, texts@.len() as int) =~= texts@);
    out
}

} // verus!
