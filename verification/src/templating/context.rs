//! The context handed to a page template.

use vstd::prelude::*;

use crate::text::{owned, replace_char, replace_char_by, str_eq};

verus! {

/// A value placed in the template context.
pub enum ContextValue {
    Bool(bool),
    Text(String),
    List(Vec<String>),
}

/// The template context: errors and warnings to display, and named values.
pub struct Context {
    pub errors: Vec<String>,
    pub warnings: Vec<String>,
    pub extra: Vec<(String, ContextValue)>,
}

/// Index of the first entry named `key`.
pub open spec fn key_index(entries: Seq<(String, ContextValue)>, key: Seq<char>) -> Option<int> {
    if exists|i: int| 0 <= i < entries.len() && (#[trigger] entries[i]).0@ == key {
        Some(choose|i: int| 0 <= i < entries.len() && entries[i].0@ == key && forall|j: int| 0 <= j < i ==> (#[trigger] entries[j]).0@ != key)
    } else {
        None
    }
}

/// The value named `key` among `entries`.
pub open spec fn lookup(entries: Seq<(String, ContextValue)>, key: Seq<char>) -> Option<ContextValue> {
    match key_index(entries, key) {
        Some(i) => Some(entries[i].1),
        None => None,
    }
}

/// `s` as displayed in a page: line breaks become `<br>`.
pub open spec fn html_lines(s: Seq<char>) -> Seq<char> {
    replace_char(s, '\n', "<br>"@)
}

proof fn lemma_key_index_first(entries: Seq<(String, ContextValue)>, key: Seq<char>, i: int)
    requires
        0 <= i < entries.len(),
        entries[i].0@ == key,
        forall|j: int| 0 <= j < i ==> (#[trigger] entries[j]).0@ != key,
    ensures
        key_index(entries, key) == Some(i),
{
    let c = choose|q: int| 0 <= q < entries.len() && entries[q].0@ == key && forall|j: int| 0 <= j < q ==> (#[trigger] entries[j]).0@ != key;
    assert(0 <= i < entries.len() && entries[i].0@ == key && forall|j: int| 0 <= j < i ==> (#[trigger] entries[j]).0@ != key);
    if c < i {
    } else if c > i {
    }
}

proof fn lemma_key_index_bounds(entries: Seq<(String, ContextValue)>, key: Seq<char>)
    ensures
        key_index(entries, key) matches Some(i) ==> 0 <= i < entries.len() && entries[i].0@ == key
            && forall|j: int| 0 <= j < i ==> (#[trigger] entries[j]).0@ != key,
        key_index(entries, key) is None ==> forall|j: int| 0 <= j < entries.len() ==> (#[trigger] entries[j]).0@ != key,
{
    if exists|i: int| 0 <= i < entries.len() && (#[trigger] entries[i]).0@ == key {
        // the least such index exists
        let w = choose|i: int| 0 <= i < entries.len() && (#[trigger] entries[i]).0@ == key;
        lemma_least_index(entries, key, w);
    }
}

proof fn lemma_least_index(entries: Seq<(String, ContextValue)>, key: Seq<char>, w: int)
    requires
        0 <= w < entries.len(),
        entries[w].0@ == key,
    ensures
        exists|i: int| 0 <= i < entries.len() && entries[i].0@ == key && forall|j: int| 0 <= j < i ==> (#[trigger] entries[j]).0@ != key,
    decreases w,
{
    if exists|j: int| 0 <= j < w && (#[trigger] entries[j]).0@ == key {
        let j = choose|j: int| 0 <= j < w && (#[trigger] entries[j]).0@ == key;
        lemma_least_index(entries, key, j);
    } else {
        assert(forall|j: int| 0 <= j < w ==> (#[trigger] entries[j]).0@ != key);
    }
}

/// Line breaks are shown piecewise: showing `a + b` shows `a`, then `b`.
pub proof fn lemma_html_lines_concat(a: Seq<char>, b: Seq<char>)
    ensures
        html_lines(a + b) == html_lines(a) + html_lines(b),
    decreases b.len(),
{
    if b.len() == 0 {
        assert(a + b =~= a);
        assert(html_lines(a) + html_lines(b) =~= html_lines(a));
    } else {
        lemma_html_lines_concat(a, b.drop_last());
        assert((a + b).drop_last() =~= a + b.drop_last());
        assert((a + b).last() == b.last());
        let head = if b.last() == '\n' { "<br>"@ } else { seq![b.last()] };
        assert(html_lines(a) + html_lines(b.drop_last()) + head =~= html_lines(a) + (html_lines(b.drop_last()) + head));
    }
}

/// Law: text shown in a page holds no line break (each became `<br>`), and
/// text without line breaks is shown as it is.
pub proof fn lemma_html_lines_meaning(s: Seq<char>)
    ensures
        !html_lines(s).contains('\n'),
        !s.contains('\n') ==> html_lines(s) == s,
{
    reveal_strlit("<br>");
    assert(!"<br>"@.contains('\n')) by {
        if "<br>"@.contains('\n') {
            let i = choose|i: int| 0 <= i < "<br>"@.len() && "<br>"@[i] == '\n';
        }
    }
    crate::text::lemma_replace_char_removes(s, '\n', "<br>"@);
    if !s.contains('\n') {
        lemma_plain_text_shown(s);
    }
}

proof fn lemma_plain_text_shown(s: Seq<char>)
    requires
        !s.contains('\n'),
    ensures
        html_lines(s) == s,
    decreases s.len(),
{
    if s.len() > 0 {
        assert(!s.drop_last().contains('\n')) by {
            if s.drop_last().contains('\n') {
                let i = choose|i: int| 0 <= i < s.drop_last().len() && s.drop_last()[i] == '\n';
                assert(s[i] == '\n');
            }
        }
        lemma_plain_text_shown(s.drop_last());
        assert(s.last() != '\n') by {
            assert(s[s.len() - 1] == s.last());
        }
        assert(s.drop_last() + seq![s.last()] =~= s);
    }
}

impl Context {
    /// The value named `key`.
    pub open spec fn value_of(&self, key: Seq<char>) -> Option<ContextValue> {
        lookup(self.extra@, key)
    }

    /// An empty context.
    pub fn new() -> (res: Context)
        ensures
            res.errors@.len() == 0,
            res.warnings@.len() == 0,
            forall|k: Seq<char>| res.value_of(k) is None,
    {
        Context { errors: Vec::new(), warnings: Vec::new(), extra: Vec::new() }
    }

    /// A context showing `errors`.
    pub fn from_error_slice(errors: &[String]) -> (res: Context)
        ensures
            res.errors@ == errors@,
            res.warnings@.len() == 0,
            forall|k: Seq<char>| res.value_of(k) is None,
    {
        let mut copy: Vec<String> = Vec::new();
        let mut i: usize = 0;
        while i < errors.len()
            invariant
                i <= errors@.len(),
                copy@ == errors@.subrange(0, i as int),
            decreases errors@.len() - i,
        {
            copy.push(errors[i].clone());
            i = i + 1;
            assert(copy@ == errors@.subrange(0, i as int));
        }
        assert(errors@.subrange(0, errors@.len() as int) == errors@);
        Context { errors: copy, warnings: Vec::new(), extra: Vec::new() }
    }

    /// Adds an error, its line breaks shown as `<br>`.
    pub fn error(&mut self, value: &str)
        ensures
            final(self).errors@.len() == old(self).errors@.len() + 1,
            final(self).errors@.drop_last() == old(self).errors@,
            final(self).errors@.last()@ == html_lines(value@),
            final(self).warnings == old(self).warnings,
            final(self).extra == old(self).extra,
    {
        proof {
            reveal_strlit("<br>");
        }
        let shown = replace_char_by(value, '\n', "<br>");
        self.errors.push(shown);
    }

    /// Adds a warning, its line breaks shown as `<br>`.
    pub fn warning(&mut self, value: &str)
        ensures
            final(self).warnings@.len() == old(self).warnings@.len() + 1,
            final(self).warnings@.drop_last() == old(self).warnings@,
            final(self).warnings@.last()@ == html_lines(value@),
            final(self).errors == old(self).errors,
            final(self).extra == old(self).extra,
    {
        let shown = replace_char_by(value, '\n', "<br>");
        self.warnings.push(shown);
    }

    /// Adds an error as it is.
    pub fn error_owned(&mut self, value: String)
        ensures
            final(self).errors@ == old(self).errors@.push(value),
            final(self).warnings == old(self).warnings,
            final(self).extra == old(self).extra,
    {
        self.errors.push(value);
    }

    /// Whether an error was recorded.
    pub fn has_errors(&self) -> (res: bool)
        ensures
            res == (self.errors@.len() > 0),
    {
        !self.errors.is_empty()
    }

    /// Index of the entry named `key`.
    fn position(&self, key: &str) -> (res: Option<usize>)
        ensures
            match key_index(self.extra@, key@) {
                Some(i) => res == Some(i as usize),
                None => res is None,
            },
    {
        proof {
            lemma_key_index_bounds(self.extra@, key@);
        }
        let mut i: usize = 0;
        while i < self.extra.len()
            invariant
                i <= self.extra@.len(),
                forall|j: int| 0 <= j < i ==> (#[trigger] self.extra@[j]).0@ != key@,
            decreases self.extra@.len() - i,
        {
            if str_eq(self.extra[i].0.as_str(), key) {
                proof {
                    lemma_key_index_first(self.extra@, key@, i as int);
                }
                return Some(i);
            }
            i = i + 1;
        }
        None
    }

    /// The value named `key`.
    pub fn get(&self, key: &str) -> (res: Option<&ContextValue>)
        ensures
            match self.value_of(key@) {
                Some(v) => res matches Some(r) && *r == v,
                None => res is None,
            },
    {
        proof {
            lemma_key_index_bounds(self.extra@, key@);
        }
        let mut i: usize = 0;
        while i < self.extra.len()
            invariant
                i <= self.extra@.len(),
                forall|j: int| 0 <= j < i ==> (#[trigger] self.extra@[j]).0@ != key@,
            decreases self.extra@.len() - i,
        {
            if str_eq(self.extra[i].0.as_str(), key) {
                proof {
                    lemma_key_index_first(self.extra@, key@, i as int);
                }
                return Some(&self.extra[i].1);
            }
            i = i + 1;
        }
        None
    }

    /// Names `value` as `key`, replacing what `key` named before.
    pub fn insert(&mut self, key: &str, value: ContextValue)
        ensures
            final(self).value_of(key@) == Some(value),
            forall|k: Seq<char>| k != key@ ==> final(self).value_of(k) == old(self).value_of(k),
            final(self).errors == old(self).errors,
            final(self).warnings == old(self).warnings,
    {
        let ghost before = self.extra@;
        proof {
            lemma_key_index_bounds(before, key@);
        }
        let found = self.position(key);
        assert(self.extra@ == before);
        assert(self.extra@.len() == self.extra.len());
        if let Some(i) = found {
            proof {
                assert(key_index(before, key@) is Some);
                let j = key_index(before, key@).unwrap();
                assert(0 <= j < before.len() && before[j].0@ == key@);
                assert(j == i as int);
            }
            self.extra.set(i, (owned(key), value));
            proof {
                let after = self.extra@;
                lemma_key_index_first(after, key@, i as int);
                assert forall|k: Seq<char>| k != key@ implies lookup(after, k) == lookup(before, k) by {
                    lemma_key_index_bounds(before, k);
                    lemma_key_index_bounds(after, k);
                    match key_index(before, k) {
                        Some(q) => {
                            assert(q != i);
                            assert(forall|j: int| 0 <= j < q ==> (#[trigger] after[j]).0@ == before[j].0@ || j == i);
                            lemma_key_index_first(after, k, q);
                        },
                        None => {
                            assert(forall|j: int| 0 <= j < after.len() ==> (#[trigger] after[j]).0@ != k);
                        },
                    }
                }
            }
        } else {
            self.extra.push((owned(key), value));
            proof {
                let after = self.extra@;
                lemma_key_index_first(after, key@, before.len() as int);
                assert forall|k: Seq<char>| k != key@ implies lookup(after, k) == lookup(before, k) by {
                    lemma_key_index_bounds(before, k);
                    match key_index(before, k) {
                        Some(q) => {
                            lemma_key_index_first(after, k, q);
                        },
                        None => {
                            lemma_key_index_bounds(after, k);
                            if key_index(after, k) is Some {
                                let q = key_index(after, k).unwrap();
                                if q < before.len() {
                                    assert(after[q] == before[q]);
                                }
                            }
                        },
                    }
                }
            }
        }
    }

    /// Names the flag `value` as `key`.
    pub fn insert_bool(&mut self, key: &str, value: bool)
        ensures
            final(self).value_of(key@) == Some(ContextValue::Bool(value)),
            forall|k: Seq<char>| k != key@ ==> final(self).value_of(k) == old(self).value_of(k),
            final(self).errors == old(self).errors,
            final(self).warnings == old(self).warnings,
    {
        self.insert(key, ContextValue::Bool(value));
    }

    /// Names the text `value` as `key`.
    pub fn insert_string(&mut self, key: &str, value: &str)
        ensures
            final(self).value_of(key@) matches Some(ContextValue::Text(t)) && t@ == value@,
            forall|k: Seq<char>| k != key@ ==> final(self).value_of(k) == old(self).value_of(k),
            final(self).errors == old(self).errors,
            final(self).warnings == old(self).warnings,
    {
        self.insert(key, ContextValue::Text(owned(value)));
    }

    /// Names the list `value` as `key`.
    pub fn insert_vec(&mut self, key: &str, value: Vec<String>)
        ensures
            final(self).value_of(key@) == Some(ContextValue::List(value)),
            forall|k: Seq<char>| k != key@ ==> final(self).value_of(k) == old(self).value_of(k),
            final(self).errors == old(self).errors,
            final(self).warnings == old(self).warnings,
    {
        self.insert(key, ContextValue::List(value));
    }
}

} // verus!
