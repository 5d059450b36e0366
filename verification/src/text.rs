//! Character-level string helpers with exact specifications.
//!
//! Strings are modelled by their view, a `Seq<char>`.

use vstd::prelude::*;

verus! {

// ---------------------------------------------------------------------
// Specifications
// ---------------------------------------------------------------------

/// `p` is a prefix of `s`.
pub open spec fn has_prefix(s: Seq<char>, p: Seq<char>) -> bool {
    p.len() <= s.len() && s.subrange(0, p.len() as int) == p
}

/// `p` is a suffix of `s`.
pub open spec fn has_suffix(s: Seq<char>, p: Seq<char>) -> bool {
    p.len() <= s.len() && s.subrange(s.len() - p.len(), s.len() as int) == p
}

/// `p` occurs somewhere in `s` (at position `i`).
pub open spec fn occurs_at(s: Seq<char>, p: Seq<char>, i: int) -> bool {
    0 <= i && i + p.len() <= s.len() && s.subrange(i, i + p.len()) == p
}

/// `p` occurs somewhere in `s`.
pub open spec fn has_infix(s: Seq<char>, p: Seq<char>) -> bool {
    exists|i: int| occurs_at(s, p, i)
}

/// `s` with every trailing repetition of the pattern `p` removed (nothing
/// when `p` is empty).
pub open spec fn trim_suffix_all(s: Seq<char>, p: Seq<char>) -> Seq<char>
    decreases s.len(),
{
    if p.len() > 0 && has_suffix(s, p) {
        trim_suffix_all(s.subrange(0, s.len() - p.len()), p)
    } else {
        s
    }
}

/// Unicode `White_Space` property (the characters `char::is_whitespace` accepts).
pub open spec fn is_white_space(c: char) -> bool {
    ||| ('\u{9}' <= c && c <= '\u{d}')
    ||| c == ' '
    ||| c == '\u{85}'
    ||| c == '\u{a0}'
    ||| c == '\u{1680}'
    ||| ('\u{2000}' <= c && c <= '\u{200a}')
    ||| c == '\u{2028}'
    ||| c == '\u{2029}'
    ||| c == '\u{202f}'
    ||| c == '\u{205f}'
    ||| c == '\u{3000}'
}

/// Number of leading white-space characters of `s`.
pub open spec fn leading_ws(s: Seq<char>) -> nat
    decreases s.len(),
{
    if s.len() > 0 && is_white_space(s[0]) {
        1 + leading_ws(s.subrange(1, s.len() as int))
    } else {
        0
    }
}

/// Number of trailing white-space characters of `s`.
pub open spec fn trailing_ws(s: Seq<char>) -> nat
    decreases s.len(),
{
    if s.len() > 0 && is_white_space(s.last()) {
        1 + trailing_ws(s.drop_last())
    } else {
        0
    }
}

/// `s` without leading and trailing white space (what `str::trim` returns).
pub open spec fn trimmed(s: Seq<char>) -> Seq<char> {
    let front = leading_ws(s);
    let rest = s.subrange(front as int, s.len() as int);
    rest.subrange(0, rest.len() - trailing_ws(rest))
}

/// An ASCII decimal digit.
pub open spec fn is_digit(c: char) -> bool {
    '0' <= c && c <= '9'
}

/// The value of a string made only of ASCII decimal digits.
pub open spec fn decimal_value(s: Seq<char>) -> nat
    decreases s.len(),
{
    if s.len() == 0 {
        0
    } else {
        decimal_value(s.drop_last()) * 10 + ((s.last() as int) - ('0' as int)) as nat
    }
}

/// All characters of `s` are ASCII decimal digits.
pub open spec fn all_digits(s: Seq<char>) -> bool {
    forall|i: int| 0 <= i < s.len() ==> is_digit(#[trigger] s[i])
}

/// What `str::parse` gives for an unsigned integer type whose maximum is `max`:
/// an optional `+`, then at least one ASCII digit, and a value that fits.
pub open spec fn parse_unsigned(s: Seq<char>, max: nat) -> Option<nat> {
    let digits = if s.len() > 0 && s[0] == '+' { s.subrange(1, s.len() as int) } else { s };
    if digits.len() > 0 && all_digits(digits) && decimal_value(digits) <= max {
        Some(decimal_value(digits))
    } else {
        None
    }
}

/// The decimal digit character for `d < 10`.
pub open spec fn digit_char(d: nat) -> char {
    (('0' as nat) + d) as char
}

/// The decimal rendering of `n`, without leading zeros ("0" for zero).
pub open spec fn decimal_text(n: nat) -> Seq<char>
    decreases n,
{
    if n < 10 {
        seq![digit_char(n)]
    } else {
        decimal_text(n / 10).push(digit_char(n % 10))
    }
}

/// ASCII lowercase of one character.
pub open spec fn ascii_lower_char(c: char) -> char {
    if 'A' <= c && c <= 'Z' {
        ((c as int) + 32) as char
    } else {
        c
    }
}

/// ASCII lowercase of a string.
pub open spec fn ascii_lower(s: Seq<char>) -> Seq<char> {
    s.map_values(|c: char| ascii_lower_char(c))
}

/// Every character of `s` is ASCII.
pub open spec fn all_ascii(s: Seq<char>) -> bool {
    forall|i: int| 0 <= i < s.len() ==> (#[trigger] s[i] as int) < 128
}

/// `s` where every occurrence of `c` is replaced by the string `by`.
pub open spec fn replace_char(s: Seq<char>, c: char, by: Seq<char>) -> Seq<char>
    decreases s.len(),
{
    if s.len() == 0 {
        s
    } else {
        let head = if s.last() == c { by } else { seq![s.last()] };
        replace_char(s.drop_last(), c, by) + head
    }
}

/// The Unicode lowercase mapping that `str::to_lowercase` applies.
pub uninterp spec fn unicode_lowercase(s: Seq<char>) -> Seq<char>;

/// What `str::to_lowercase` gives: ASCII lowercase for ASCII text, the
/// Unicode mapping otherwise.
pub open spec fn lowercase_text(s: Seq<char>) -> Seq<char> {
    if all_ascii(s) {
        ascii_lower(s)
    } else {
        unicode_lowercase(s)
    }
}

// ---------------------------------------------------------------------
// Trusted std operations
// ---------------------------------------------------------------------

/// `String::push`: appends one character (std documents exactly this).
#[verifier::external_body]
pub(crate) fn push_char(s: &mut String, c: char)
    ensures
        final(s)@ == old(s)@.push(c),
{
    s.push(c);
}

/// `str::to_lowercase`: the Unicode lowercase mapping. std documents that it
/// is a function of the string alone, and (through `char::to_lowercase`) that
/// ASCII characters are mapped as by `to_ascii_lowercase`; only that ASCII
/// case is stated here, the rest is left to the name `unicode_lowercase`.
#[verifier::external_body]
pub(crate) fn to_lowercase(s: &str) -> (res: String)
    ensures
        res@ == unicode_lowercase(s@),
        res@ == lowercase_text(s@),
{
    s.to_lowercase()
}

// ---------------------------------------------------------------------
// Verified operations
// ---------------------------------------------------------------------

/// The characters of `s`, in order.
pub fn chars_of(s: &str) -> (res: Vec<char>)
    ensures
        res@ == s@,
{
    let mut res: Vec<char> = Vec::new();
    for c in it: s.chars()
        invariant
            res@ == it.seq().take(it.index() as int),
    {
        res.push(c);
    }
    res
}

/// A `String` holding the characters `v`.
pub fn string_of(v: &[char]) -> (res: String)
    ensures
        res@ == v@,
{
    let mut res = String::new();
    let mut i: usize = 0;
    while i < v.len()
        invariant
            i <= v@.len(),
            res@ == v@.subrange(0, i as int),
        decreases v@.len() - i,
    {
        push_char(&mut res, v[i]);
        i = i + 1;
        assert(res@ == v@.subrange(0, i as int));
    }
    res
}

/// A fresh copy of `s`.
pub fn owned(s: &str) -> (res: String)
    ensures
        res@ == s@,
{
    let v = chars_of(s);
    string_of(v.as_slice())
}

/// `a` followed by `b`.
pub fn concatenated(a: &str, b: &str) -> (res: String)
    ensures
        res@ == a@ + b@,
{
    let mut v = chars_of(a);
    let w = chars_of(b);
    let mut i: usize = 0;
    while i < w.len()
        invariant
            i <= w@.len(),
            w@ == b@,
            v@ == a@ + b@.subrange(0, i as int),
        decreases w@.len() - i,
    {
        v.push(w[i]);
        i = i + 1;
        assert(v@ == a@ + b@.subrange(0, i as int));
    }
    assert(b@.subrange(0, b@.len() as int) == b@);
    string_of(v.as_slice())
}

/// Equality of two character slices.
pub fn slice_eq(a: &[char], b: &[char]) -> (res: bool)
    ensures
        res == (a@ == b@),
{
    if a.len() != b.len() {
        return false;
    }
    let mut i: usize = 0;
    while i < a.len()
        invariant
            i <= a@.len(),
            a@.len() == b@.len(),
            a@.subrange(0, i as int) == b@.subrange(0, i as int),
        decreases a@.len() - i,
    {
        if a[i] != b[i] {
            assert(a@[i as int] != b@[i as int]);
            return false;
        }
        i = i + 1;
        assert(a@.subrange(0, i as int) == b@.subrange(0, i as int));
    }
    assert(a@ == a@.subrange(0, a@.len() as int));
    assert(b@ == b@.subrange(0, b@.len() as int));
    true
}

/// Equality of two strings, character by character.
pub fn str_eq(a: &str, b: &str) -> (res: bool)
    ensures
        res == (a@ == b@),
{
    let va = chars_of(a);
    let vb = chars_of(b);
    slice_eq(va.as_slice(), vb.as_slice())
}

/// Whether `v` occurs in `s` at position `i`.
pub fn occurs_at_exec(s: &[char], p: &[char], i: usize) -> (res: bool)
    ensures
        res == occurs_at(s@, p@, i as int),
{
    if i > s.len() || p.len() > s.len() - i {
        return false;
    }
    let mut j: usize = 0;
    while j < p.len()
        invariant
            j <= p.len(),
            i + p.len() <= s.len(),
            forall|k: int| 0 <= k < j ==> s@[i + k] == p@[k],
        decreases p@.len() - j,
    {
        if s[i + j] != p[j] {
            assert(s@.subrange(i as int, i + p@.len())[j as int] != p@[j as int]);
            return false;
        }
        j = j + 1;
    }
    assert(s@.subrange(i as int, i + p@.len()) == p@);
    true
}

/// Whether `s` starts with `p`.
pub fn starts_with(s: &str, p: &str) -> (res: bool)
    ensures
        res == has_prefix(s@, p@),
{
    let vs = chars_of(s);
    let vp = chars_of(p);
    occurs_at_exec(vs.as_slice(), vp.as_slice(), 0)
}

/// Whether `s` ends with `p`.
pub fn ends_with(s: &str, p: &str) -> (res: bool)
    ensures
        res == has_suffix(s@, p@),
{
    let vs = chars_of(s);
    let vp = chars_of(p);
    if vp.len() > vs.len() {
        return false;
    }
    occurs_at_exec(vs.as_slice(), vp.as_slice(), vs.len() - vp.len())
}

/// Whether `p` occurs in `s`.
pub fn contains(s: &str, p: &str) -> (res: bool)
    ensures
        res == has_infix(s@, p@),
{
    let vs = chars_of(s);
    let vp = chars_of(p);
    if vp.len() > vs.len() {
        assert forall|i: int| !occurs_at(s@, p@, i) by {}
        return false;
    }
    let last = vs.len() - vp.len();
    let mut i: usize = 0;
    while i < last
        invariant
            vs@ == s@,
            vp@ == p@,
            last == vs@.len() - vp@.len(),
            i <= last,
            forall|k: int| 0 <= k < i ==> !occurs_at(s@, p@, k),
        decreases last - i,
    {
        if occurs_at_exec(vs.as_slice(), vp.as_slice(), i) {
            return true;
        }
        i = i + 1;
    }
    if occurs_at_exec(vs.as_slice(), vp.as_slice(), last) {
        return true;
    }
    assert forall|k: int| !occurs_at(s@, p@, k) by {
        if 0 <= k && k < i {
        }
    }
    false
}

/// Whether the character `c` occurs in `s`.
pub fn contains_char(s: &str, c: char) -> (res: bool)
    ensures
        res == s@.contains(c),
{
    let v = chars_of(s);
    let mut i: usize = 0;
    while i < v.len()
        invariant
            v@ == s@,
            i <= v@.len(),
            forall|k: int| 0 <= k < i ==> v@[k] != c,
        decreases v@.len() - i,
    {
        if v[i] == c {
            assert(s@[i as int] == c);
            return true;
        }
        i = i + 1;
    }
    false
}

/// Whether `c` has the Unicode `White_Space` property.
pub fn is_white_space_char(c: char) -> (res: bool)
    ensures
        res == is_white_space(c),
{
    ('\u{9}' <= c && c <= '\u{d}') || c == ' ' || c == '\u{85}' || c == '\u{a0}' || c == '\u{1680}'
        || ('\u{2000}' <= c && c <= '\u{200a}') || c == '\u{2028}' || c == '\u{2029}'
        || c == '\u{202f}' || c == '\u{205f}' || c == '\u{3000}'
}

proof fn lemma_leading_step(s: Seq<char>, i: int)
    requires
        0 <= i < s.len(),
        is_white_space(s[i]),
    ensures
        leading_ws(s.subrange(i, s.len() as int)) == 1 + leading_ws(s.subrange(i + 1, s.len() as int)),
{
    let t = s.subrange(i, s.len() as int);
    assert(t.subrange(1, t.len() as int) == s.subrange(i + 1, s.len() as int));
}

proof fn lemma_trailing_step(s: Seq<char>, j: int)
    requires
        0 < j <= s.len(),
        is_white_space(s[j - 1]),
    ensures
        trailing_ws(s.subrange(0, j)) == 1 + trailing_ws(s.subrange(0, j - 1)),
{
    let t = s.subrange(0, j);
    assert(t.drop_last() == s.subrange(0, j - 1));
}

/// `s` without leading and trailing white space, as `str::trim` computes it.
pub fn trim(s: &str) -> (res: String)
    ensures
        res@ == trimmed(s@),
{
    let v = chars_of(s);
    let n = v.len();
    let mut i: usize = 0;
    assert(s@.subrange(0, n as int) == s@);
    while i < n && is_white_space_char(v[i])
        invariant
            v@ == s@,
            n == v@.len(),
            i <= n,
            leading_ws(s@) == i + leading_ws(s@.subrange(i as int, n as int)),
        decreases n - i,
    {
        proof {
            lemma_leading_step(s@, i as int);
        }
        i = i + 1;
    }
    assert(s@.subrange(0, n as int) == s@);
    let ghost rest = s@.subrange(i as int, n as int);
    assert(leading_ws(s@) == i);
    let mut out: Vec<char> = Vec::new();
    let mut k: usize = i;
    while k < n
        invariant
            v@ == s@,
            n == v@.len(),
            i <= k <= n,
            out@ == s@.subrange(i as int, k as int),
        decreases n - k,
    {
        out.push(v[k]);
        k = k + 1;
        assert(out@ == s@.subrange(i as int, k as int));
    }
    assert(out@ == rest);
    let m = out.len();
    let mut j: usize = m;
    assert(rest.subrange(0, m as int) == rest);
    while j > 0 && is_white_space_char(out[j - 1])
        invariant
            out@ == rest,
            m == rest.len(),
            j <= m,
            trailing_ws(rest) == (m - j) + trailing_ws(rest.subrange(0, j as int)),
        decreases j,
    {
        proof {
            lemma_trailing_step(rest, j as int);
        }
        j = j - 1;
    }
    assert(rest.subrange(0, m as int) == rest);
    assert(trailing_ws(rest.subrange(0, j as int)) == 0);
    out.truncate(j);
    string_of(out.as_slice())
}

/// Law: the decimal text of `n` is a non-empty string of digits whose
/// value is `n`.
pub proof fn lemma_decimal_text_reads_back(n: nat)
    ensures
        decimal_text(n).len() > 0,
        all_digits(decimal_text(n)),
        decimal_value(decimal_text(n)) == n,
    decreases n,
{
    if n < 10 {
        let t = decimal_text(n);
        assert(t.drop_last() =~= Seq::<char>::empty());
        assert((digit_char(n) as int) == 48 + n);
        assert(t.last() == digit_char(n));
        assert(decimal_value(t.drop_last()) == 0);
        assert(decimal_value(t) == decimal_value(t.drop_last()) * 10 + ((t.last() as int) - ('0' as int)) as nat);
        assert(decimal_value(t) == n);
        assert(is_digit(t[0]));
    } else {
        lemma_decimal_text_reads_back(n / 10);
        let t = decimal_text(n);
        let u = decimal_text(n / 10);
        assert(t.drop_last() =~= u);
        assert(t.last() == digit_char(n % 10));
        assert((digit_char(n % 10) as int) == 48 + n % 10);
        assert(decimal_value(t) == decimal_value(u) * 10 + ((t.last() as int) - ('0' as int)) as nat);
        assert(decimal_value(u) == n / 10);
        assert((n / 10) * 10 + n % 10 == n) by (nonlinear_arith);
        assert(decimal_value(t) == n);
        assert forall|i: int| 0 <= i < t.len() implies is_digit(#[trigger] t[i]) by {
            if i < u.len() {
                assert(t[i] == u[i]);
            }
        }
    }
}

/// Law: reading the decimal text of `n` back as an unsigned number with
/// maximum `max` gives `n` when it fits, and nothing otherwise.
pub proof fn lemma_parse_decimal_text(n: nat, max: nat)
    ensures
        n <= max ==> parse_unsigned(decimal_text(n), max) == Some(n),
        n > max ==> parse_unsigned(decimal_text(n), max) is None,
{
    lemma_decimal_text_reads_back(n);
    assert(is_digit(decimal_text(n)[0]));
}

/// Law: ASCII lowercasing keeps the length, leaves no ASCII capital, keeps
/// every other character, and turns each capital into the small letter at
/// the same place in the alphabet.
pub proof fn lemma_ascii_lower_meaning(s: Seq<char>)
    ensures
        ascii_lower(s).len() == s.len(),
        forall|i: int| 0 <= i < s.len() ==> !('A' <= #[trigger] ascii_lower(s)[i] && ascii_lower(s)[i] <= 'Z'),
        forall|i: int| 0 <= i < s.len() && !('A' <= s[i] && s[i] <= 'Z') ==> #[trigger] ascii_lower(s)[i] == s[i],
        forall|i: int|
            0 <= i < s.len() && 'A' <= s[i] && s[i] <= 'Z' ==> 'a' <= #[trigger] ascii_lower(s)[i] && ascii_lower(s)[i]
                <= 'z' && (ascii_lower(s)[i] as int) - ('a' as int) == (s[i] as int) - ('A' as int),
{
    assert forall|i: int| 0 <= i < s.len() implies !('A' <= #[trigger] ascii_lower(s)[i] && ascii_lower(s)[i] <= 'Z') by {
        assert(ascii_lower(s)[i] == ascii_lower_char(s[i]));
    }
    assert forall|i: int|
        0 <= i < s.len() && 'A' <= s[i] && s[i] <= 'Z' implies 'a' <= #[trigger] ascii_lower(s)[i] && ascii_lower(s)[i]
            <= 'z' && (ascii_lower(s)[i] as int) - ('a' as int) == (s[i] as int) - ('A' as int) by {
        assert(ascii_lower(s)[i] == ascii_lower_char(s[i]));
    }
}

/// Law: replacing every `c` by a text without `c` leaves no `c`.
pub proof fn lemma_replace_char_removes(s: Seq<char>, c: char, by: Seq<char>)
    requires
        !by.contains(c),
    ensures
        !replace_char(s, c, by).contains(c),
    decreases s.len(),
{
    if s.len() > 0 {
        lemma_replace_char_removes(s.drop_last(), c, by);
        let head = if s.last() == c { by } else { seq![s.last()] };
        let a = replace_char(s.drop_last(), c, by);
        if (a + head).contains(c) {
            let i = choose|i: int| 0 <= i < (a + head).len() && (a + head)[i] == c;
            if i < a.len() {
                assert(a[i] == c);
            } else {
                assert(head[i - a.len()] == c);
                if s.last() == c {
                    assert(by.contains(c));
                }
            }
        }
    }
}

proof fn lemma_leading_ws_meaning(s: Seq<char>)
    ensures
        leading_ws(s) <= s.len(),
        forall|i: int| 0 <= i < leading_ws(s) ==> is_white_space(#[trigger] s[i]),
        leading_ws(s) < s.len() ==> !is_white_space(s[leading_ws(s) as int]),
    decreases s.len(),
{
    if s.len() > 0 && is_white_space(s[0]) {
        let t = s.subrange(1, s.len() as int);
        lemma_leading_ws_meaning(t);
        assert forall|i: int| 0 <= i < leading_ws(s) implies is_white_space(#[trigger] s[i]) by {
            if i > 0 {
                assert(s[i] == t[i - 1]);
            }
        }
        if leading_ws(s) < s.len() {
            assert(s[leading_ws(s) as int] == t[leading_ws(t) as int]);
        }
    }
}

proof fn lemma_trailing_ws_meaning(s: Seq<char>)
    ensures
        trailing_ws(s) <= s.len(),
        forall|i: int| s.len() - trailing_ws(s) <= i < s.len() ==> is_white_space(#[trigger] s[i]),
        trailing_ws(s) < s.len() ==> !is_white_space(s[s.len() - trailing_ws(s) - 1]),
    decreases s.len(),
{
    if s.len() > 0 && is_white_space(s.last()) {
        let t = s.drop_last();
        lemma_trailing_ws_meaning(t);
        assert forall|i: int| s.len() - trailing_ws(s) <= i < s.len() implies is_white_space(#[trigger] s[i]) by {
            if i < s.len() - 1 {
                assert(s[i] == t[i]);
            }
        }
        if trailing_ws(s) < s.len() {
            assert(s[s.len() - trailing_ws(s) - 1] == t[t.len() - trailing_ws(t) - 1]);
        }
    }
}

/// Law: trimming removes white space only, from both ends, and as much as
/// there is: the result is a part of `s` that neither starts nor ends with
/// white space, and everything around it is white space.
pub proof fn lemma_trimmed_meaning(s: Seq<char>)
    ensures
        exists|a: int, b: int|
            0 <= a <= b <= s.len() && #[trigger] s.subrange(a, b) == trimmed(s) && (forall|i: int|
                0 <= i < a ==> is_white_space(#[trigger] s[i])) && (forall|i: int|
                b <= i < s.len() ==> is_white_space(#[trigger] s[i])) && (a < b ==> !is_white_space(s[a])
                && !is_white_space(s[b - 1])) && (a == b ==> forall|i: int| 0 <= i < s.len() ==> is_white_space(
                #[trigger] s[i])),
{
    lemma_leading_ws_meaning(s);
    let a = leading_ws(s) as int;
    let rest = s.subrange(a, s.len() as int);
    lemma_trailing_ws_meaning(rest);
    let b = s.len() - trailing_ws(rest);
    assert(rest.subrange(0, rest.len() - trailing_ws(rest)) =~= s.subrange(a, b));
    assert forall|i: int| b <= i < s.len() implies is_white_space(#[trigger] s[i]) by {
        assert(s[i] == rest[i - a]);
    }
    if a < b {
        assert(s[a] == rest[0]);
        assert(s[b - 1] == rest[rest.len() - trailing_ws(rest) - 1]);
        if trailing_ws(rest) == rest.len() {
        }
    } else {
        assert forall|i: int| 0 <= i < s.len() implies is_white_space(#[trigger] s[i]) by {
            if i >= a {
                assert(s[i] == rest[i - a]);
            }
        }
    }
    assert(s.subrange(a, b) == trimmed(s));
}

proof fn lemma_decimal_prefix_step(s: Seq<char>, k: int)
    requires
        0 <= k < s.len(),
        is_digit(s[k]),
    ensures
        decimal_value(s.subrange(0, k + 1)) == decimal_value(s.subrange(0, k)) * 10 + ((s[k] as int) - ('0' as int)),
{
    let t = s.subrange(0, k + 1);
    assert(t.drop_last() == s.subrange(0, k));
}

proof fn lemma_decimal_monotone(s: Seq<char>, k: int)
    requires
        0 <= k <= s.len(),
        all_digits(s),
    ensures
        decimal_value(s.subrange(0, k)) <= decimal_value(s),
    decreases s.len() - k,
{
    if k < s.len() {
        lemma_decimal_prefix_step(s, k);
        assert(is_digit(s[k]));
        lemma_decimal_monotone(s, k + 1);
    } else {
        assert(s.subrange(0, k) == s);
    }
}

/// Parses `s` as `str::parse` does for an unsigned type whose maximum is `max`.
pub fn parse_decimal(s: &str, max: u32) -> (res: Option<u32>)
    requires
        max <= 65535,
    ensures
        match parse_unsigned(s@, max as nat) {
            Some(v) => res == Some(v as u32),
            None => res is None,
        },
{
    let v = chars_of(s);
    let n = v.len();
    let start: usize = if n > 0 && v[0] == '+' { 1 } else { 0 };
    let ghost digits = if s@.len() > 0 && s@[0] == '+' { s@.subrange(1, s@.len() as int) } else { s@ };
    assert(digits == s@.subrange(start as int, n as int));
    if start == n {
        return None;
    }
    let mut acc: u32 = 0;
    let mut i: usize = start;
    while i < n
        invariant
            v@ == s@,
            n == v@.len(),
            start <= i <= n,
            digits == s@.subrange(start as int, n as int),
            digits == (if s@.len() > 0 && s@[0] == '+' { s@.subrange(1, s@.len() as int) } else { s@ }),
            max <= 65535,
            acc <= max,
            acc == decimal_value(digits.subrange(0, i - start)),
            all_digits(digits.subrange(0, i - start)),
        decreases n - i,
    {
        let c = v[i];
        assert(c == digits[i - start]);
        if !('0' <= c && c <= '9') {
            assert(!is_digit(digits[i - start]));
            assert(!all_digits(digits));
            return None;
        }
        proof {
            lemma_decimal_prefix_step(digits, i - start);
        }
        let d = (c as u32) - ('0' as u32);
        let next = acc * 10 + d;
        assert(next == decimal_value(digits.subrange(0, i - start + 1)));
        assert(all_digits(digits.subrange(0, i - start + 1))) by {
            assert forall|q: int| 0 <= q < i - start + 1 implies is_digit(#[trigger] digits.subrange(0, i - start + 1)[q]) by {
                if q < i - start {
                    assert(digits.subrange(0, i - start + 1)[q] == digits.subrange(0, i - start)[q]);
                }
            }
        }
        if next > max {
            proof {
                if all_digits(digits) {
                    lemma_decimal_monotone(digits, i - start + 1);
                }
            }
            return None;
        }
        acc = next;
        i = i + 1;
    }
    assert(digits.subrange(0, n - start) == digits);
    Some(acc)
}

proof fn lemma_trim_suffix_take(s: Seq<char>, p: Seq<char>, n: int)
    requires
        0 <= n <= s.len(),
        p.len() > 0,
        has_suffix(s.subrange(0, n), p),
    ensures
        trim_suffix_all(s.subrange(0, n), p) == trim_suffix_all(s.subrange(0, n - p.len()), p),
{
    let t = s.subrange(0, n);
    assert(t.subrange(0, t.len() - p.len()) == s.subrange(0, n - p.len()));
}

/// `s` with every trailing repetition of `p` removed (what
/// `str::trim_end_matches` returns for a string pattern); an empty `p`
/// removes nothing.
pub fn trim_end_matches(s: &str, p: &str) -> (res: String)
    ensures
        res@ == trim_suffix_all(s@, p@),
{
    if p.is_empty() {
        return owned(s);
    }
    let v = chars_of(s);
    let w = chars_of(p);
    let mut n: usize = v.len();
    assert(s@.subrange(0, n as int) == s@);
    while n >= w.len() && occurs_at_exec(v.as_slice(), w.as_slice(), n - w.len())
        invariant
            v@ == s@,
            w@ == p@,
            w@.len() > 0,
            n <= v@.len(),
            trim_suffix_all(s@, p@) == trim_suffix_all(s@.subrange(0, n as int), p@),
        decreases n,
    {
        proof {
            assert(s@.subrange(0, n as int).subrange(n - p@.len(), n as int) == s@.subrange(n - p@.len(), n as int));
            lemma_trim_suffix_take(s@, p@, n as int);
        }
        n = n - w.len();
    }
    proof {
        let t = s@.subrange(0, n as int);
        if n >= p@.len() {
            assert(t.subrange(t.len() - p@.len(), t.len() as int) == s@.subrange(n - p@.len(), n as int));
        }
        assert(!has_suffix(t, p@));
    }
    let mut out = v;
    out.truncate(n);
    string_of(out.as_slice())
}

proof fn lemma_replace_step(s: Seq<char>, c: char, by: Seq<char>, i: int)
    requires
        0 <= i < s.len(),
    ensures
        replace_char(s.subrange(0, i + 1), c, by) == replace_char(s.subrange(0, i), c, by) + (if s[i] == c { by } else { seq![s[i]] }),
{
    let t = s.subrange(0, i + 1);
    assert(t.drop_last() == s.subrange(0, i));
}

/// `s` with every `c` replaced by `by` (what `str::replace` gives for a char pattern).
pub fn replace_char_by(s: &str, c: char, by: &str) -> (res: String)
    ensures
        res@ == replace_char(s@, c, by@),
{
    let v = chars_of(s);
    let w = chars_of(by);
    let mut out: Vec<char> = Vec::new();
    let mut i: usize = 0;
    assert(s@.subrange(0, 0) =~= Seq::<char>::empty());
    while i < v.len()
        invariant
            v@ == s@,
            w@ == by@,
            i <= v@.len(),
            out@ == replace_char(s@.subrange(0, i as int), c, by@),
        decreases v@.len() - i,
    {
        proof {
            lemma_replace_step(s@, c, by@, i as int);
        }
        if v[i] == c {
            let mut k: usize = 0;
            let ghost before = out@;
            while k < w.len()
                invariant
                    w@ == by@,
                    k <= w@.len(),
                    out@ == before + by@.subrange(0, k as int),
                decreases w@.len() - k,
            {
                out.push(w[k]);
                k = k + 1;
                assert(out@ == before + by@.subrange(0, k as int));
            }
            assert(by@.subrange(0, by@.len() as int) == by@);
        } else {
            out.push(v[i]);
        }
        i = i + 1;
    }
    assert(s@.subrange(0, s@.len() as int) == s@);
    string_of(out.as_slice())
}

/// Whether every character of `s` is ASCII.
pub fn is_ascii_text(s: &str) -> (res: bool)
    ensures
        res == all_ascii(s@),
{
    let v = chars_of(s);
    let mut i: usize = 0;
    while i < v.len()
        invariant
            v@ == s@,
            i <= v@.len(),
            forall|k: int| 0 <= k < i ==> (#[trigger] s@[k] as int) < 128,
        decreases v@.len() - i,
    {
        if v[i] > '\u{7f}' {
            return false;
        }
        i = i + 1;
    }
    true
}

proof fn lemma_digit_char(d: u64)
    requires
        d < 10,
    ensures
        digit_char(d as nat) == ((48 + d) as u8) as char,
{
}

fn push_decimal(out: &mut Vec<char>, n: u64)
    ensures
        final(out)@ == old(out)@ + decimal_text(n as nat),
    decreases n,
{
    if n >= 10 {
        push_decimal(out, n / 10);
    }
    let d = n % 10;
    proof {
        lemma_digit_char(d);
    }
    let c = ((48 + d) as u8) as char;
    let ghost before = out@;
    out.push(c);
    proof {
        if n >= 10 {
            assert(decimal_text(n as nat) == decimal_text((n / 10) as nat).push(digit_char((n % 10) as nat)));
            assert(out@ == old(out)@ + decimal_text(n as nat));
        } else {
            assert(decimal_text(n as nat) == seq![digit_char(n as nat)]);
            assert(out@ == old(out)@ + decimal_text(n as nat));
        }
    }
}

/// The decimal rendering of `n` (what `n.to_string()` gives).
pub fn decimal(n: u64) -> (res: String)
    ensures
        res@ == decimal_text(n as nat),
{
    let mut v: Vec<char> = Vec::new();
    push_decimal(&mut v, n);
    assert(v@ == Seq::<char>::empty() + decimal_text(n as nat));
    string_of(v.as_slice())
}

} // verus!
