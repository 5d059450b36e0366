//! Directory listings and their conversion into typed entries.

use vstd::prelude::*;

use crate::text::concatenated;
use crate::writable_dir::{writable_dir_text, WritableDirError};

verus! {

/// Why listing a directory, or converting one of its entries, failed.
pub enum ReadDirError {
    /// Failed to read directory entries (the I/O error message)
    Dir { path: String, reason: String },
    /// Failed to read a directory entry (the I/O error message)
    DirEntry { path: String, reason: String },
    /// Converting an entry failed
    Transform { source: WritableDirError },
    /// Unknown error at a path
    Other { path: String, reason: String },
}

/// One entry of a directory listing.
pub struct ReadDirEntry {
    pub name: String,
    pub path: String,
}

impl ReadDirEntry {
    pub fn new(name: String, path: String) -> (res: Self)
        ensures
            res.name == name,
            res.path == path,
    {
        Self { name, path }
    }
}

/// All values of `rs` when none is an error, else the first error.
pub open spec fn all_ok<T, E>(rs: Seq<Result<T, E>>) -> Result<Seq<T>, E>
    decreases rs.len(),
{
    if rs.len() == 0 {
        Ok(Seq::empty())
    } else {
        match rs[0] {
            Err(e) => Err(e),
            Ok(v) => match all_ok(rs.subrange(1, rs.len() as int)) {
                Ok(vs) => Ok(seq![v] + vs),
                Err(e) => Err(e),
            },
        }
    }
}

/// Law: a conversion succeeds exactly when every entry converted, and then
/// keeps every value in order; otherwise it reports the error of the first
/// entry that did not convert.
pub proof fn lemma_all_ok_meaning<T, E>(rs: Seq<Result<T, E>>)
    ensures
        all_ok(rs) is Ok <==> forall|i: int| 0 <= i < rs.len() ==> (#[trigger] rs[i]) is Ok,
        all_ok(rs) matches Ok(vs) ==> vs.len() == rs.len() && forall|i: int|
            0 <= i < rs.len() ==> #[trigger] rs[i] == Ok::<T, E>(vs[i]),
        all_ok(rs) matches Err(e) ==> exists|i: int|
            0 <= i < rs.len() && #[trigger] rs[i] == Err::<T, E>(e) && forall|j: int| 0 <= j < i ==> (#[trigger] rs[j]) is Ok,
    decreases rs.len(),
{
    if rs.len() > 0 {
        let rest = rs.subrange(1, rs.len() as int);
        lemma_all_ok_meaning(rest);
        assert forall|i: int| 0 <= i < rest.len() implies #[trigger] rest[i] == rs[i + 1] by {}
        match rs[0] {
            Err(e) => {
                assert(rs[0] == Err::<T, E>(e));
            },
            Ok(v) => {
                match all_ok(rest) {
                    Ok(vs) => {
                        assert forall|i: int| 0 <= i < rs.len() implies #[trigger] rs[i] == Ok::<T, E>((seq![v] + vs)[i]) by {
                            if i > 0 {
                                assert(rs[i] == rest[i - 1]);
                            }
                        }
                    },
                    Err(e) => {
                        let i = choose|i: int|
                            0 <= i < rest.len() && #[trigger] rest[i] == Err::<T, E>(e) && forall|j: int|
                                0 <= j < i ==> (#[trigger] rest[j]) is Ok;
                        assert(rs[i + 1] == Err::<T, E>(e));
                        assert forall|j: int| 0 <= j < i + 1 implies (#[trigger] rs[j]) is Ok by {
                            if j > 0 {
                                assert(rs[j] == rest[j - 1]);
                            }
                        }
                        assert(!(rs[i + 1] is Ok));
                    },
                }
            },
        }
    }
}

/// The view of a result holding a vector.
pub open spec fn vec_result_view<T, E>(r: Result<Vec<T>, E>) -> Result<Seq<T>, E> {
    match r {
        Ok(v) => Ok(v@),
        Err(e) => Err(e),
    }
}

/// Keeps the converted entries of a listing in order, stopping at the first
/// conversion error (what `read_dir_into` does once the entries are converted).
pub fn read_dir_into<T>(converted: Vec<Result<T, ReadDirError>>) -> (res: Result<Vec<T>, ReadDirError>)
    ensures
        vec_result_view(res) == all_ok(converted@),
{
    let mut rest = converted;
    let mut done: Vec<T> = Vec::new();
    let ghost orig = rest@;
    assert(orig.subrange(0, orig.len() as int) == orig);
    while rest.len() > 0
        invariant
            orig == converted@,
            all_ok(orig) == match all_ok(rest@) {
                Ok(vs) => Ok(done@ + vs),
                Err(e) => Err(e),
            },
        decreases rest@.len(),
    {
        let ghost before = rest@;
        let first = rest.remove(0);
        assert(rest@ == before.subrange(1, before.len() as int));
        assert(first == before[0]);
        match first {
            Ok(v) => {
                let ghost d = done@;
                done.push(v);
                proof {
                    match all_ok(rest@) {
                        Ok(vs) => {
                            assert(d + (seq![v] + vs) == done@ + vs);
                        },
                        Err(e) => {},
                    }
                }
            },
            Err(e) => {
                return Err(e);
            },
        }
    }
    assert(done@ + Seq::<T>::empty() == done@);
    Ok(done)
}


/// The message of a [`ReadDirError`].
pub open spec fn read_dir_text(e: ReadDirError) -> Seq<char> {
    match e {
        ReadDirError::Dir { path, reason } => "Failed to read directory entries in "@ + path@ + ":\n"@ + reason@,
        ReadDirError::DirEntry { path, reason } => "Failed to read directory entry "@ + path@ + ":\n"@ + reason@,
        ReadDirError::Transform { source } => writable_dir_text(source),
        ReadDirError::Other { path, reason } => "Unknown error at path "@ + path@ + ": "@ + reason@,
    }
}

fn four_parts(a: &str, b: &str, c: &str, d: &str) -> (res: String)
    ensures
        res@ == a@ + b@ + c@ + d@,
{
    let x = concatenated(a, b);
    let y = concatenated(x.as_str(), c);
    concatenated(y.as_str(), d)
}

impl ReadDirError {
    /// The message shown for this error.
    pub fn message(&self) -> (res: String)
        ensures
            res@ == read_dir_text(*self),
    {
        match self {
            ReadDirError::Dir { path, reason } => four_parts(
                "Failed to read directory entries in ",
                path.as_str(),
                ":\n",
                reason.as_str(),
            ),
            ReadDirError::DirEntry { path, reason } => four_parts(
                "Failed to read directory entry ",
                path.as_str(),
                ":\n",
                reason.as_str(),
            ),
            ReadDirError::Transform { source } => source.message(),
            ReadDirError::Other { path, reason } => four_parts("Unknown error at path ", path.as_str(), ": ", reason.as_str()),
        }
    }
}


/// An entry of a listing, with what the file system reports of it (the
/// symlink itself, not its target, is reported as a symlink).
pub struct ListedEntry {
    pub entry: ReadDirEntry,
    pub is_dir: bool,
    pub is_symlink: bool,
}

/// A step of a recursive listing.
pub enum ListingStep {
    /// List the directory at `path` recursively, here.
    Descend { path: String },
    /// Keep the entry.
    Keep { entry: ReadDirEntry },
}

/// A recursive listing enters directories only, and never follows symlinks.
pub open spec fn descends(e: ListedEntry) -> bool {
    e.is_dir && !e.is_symlink
}

/// The steps of listing `es` recursively: in order, each entry, preceded
/// by the listing of its content when it is entered.
pub open spec fn listing_plan_of(es: Seq<ListedEntry>) -> Seq<ListingStep>
    decreases es.len(),
{
    if es.len() == 0 {
        Seq::empty()
    } else {
        let e = es.last();
        let keep = ListingStep::Keep { entry: e.entry };
        let steps = if descends(e) {
            seq![ListingStep::Descend { path: e.entry.path }, keep]
        } else {
            seq![keep]
        };
        listing_plan_of(es.drop_last()) + steps
    }
}

/// The steps of listing the entries of a directory recursively.
pub fn listing_plan(entries: &Vec<ListedEntry>) -> (res: Vec<ListingStep>)
    ensures
        res@ == listing_plan_of(entries@),
{
    let mut out: Vec<ListingStep> = Vec::new();
    let mut i: usize = 0;
    assert(entries@.subrange(0, 0) =~= Seq::<ListedEntry>::empty());
    while i < entries.len()
        invariant
            i <= entries@.len(),
            out@ == listing_plan_of(entries@.subrange(0, i as int)),
        decreases entries@.len() - i,
    {
        let e = &entries[i];
        let ghost before = out@;
        let ghost next = entries@.subrange(0, i + 1);
        assert(next.drop_last() =~= entries@.subrange(0, i as int));
        assert(next.last() == entries@[i as int]);
        if e.is_dir && !e.is_symlink {
            out.push(ListingStep::Descend { path: e.entry.path.clone() });
        }
        out.push(ListingStep::Keep { entry: ReadDirEntry::new(e.entry.name.clone(), e.entry.path.clone()) });
        assert(out@ =~= listing_plan_of(next));
        i = i + 1;
    }
    assert(entries@.subrange(0, entries@.len() as int) =~= entries@);
    out
}


/// The plan keeps `entry`.
pub open spec fn plan_keeps(plan: Seq<ListingStep>, entry: ReadDirEntry) -> bool {
    exists|k: int| 0 <= k < plan.len() && #[trigger] plan[k] == (ListingStep::Keep { entry })
}

/// The plan enters the directory at `path`.
pub open spec fn plan_enters(plan: Seq<ListingStep>, path: String) -> bool {
    exists|k: int| 0 <= k < plan.len() && #[trigger] plan[k] == (ListingStep::Descend { path })
}

/// Law: a recursive listing keeps every entry, enters every directory that
/// is not a symlink, and enters nothing else.
pub proof fn lemma_listing_plan_meaning(es: Seq<ListedEntry>)
    ensures
        forall|i: int| 0 <= i < es.len() ==> plan_keeps(listing_plan_of(es), (#[trigger] es[i]).entry),
        forall|i: int| 0 <= i < es.len() && descends(#[trigger] es[i]) ==> plan_enters(listing_plan_of(es), es[i].entry.path),
        forall|k: int|
            0 <= k < listing_plan_of(es).len() && (#[trigger] listing_plan_of(es)[k]) is Descend ==> (exists|i: int|
                0 <= i < es.len() && descends(#[trigger] es[i]) && listing_plan_of(es)[k]->path == es[i].entry.path),
    decreases es.len(),
{
    if es.len() > 0 {
        let pre = es.drop_last();
        lemma_listing_plan_meaning(pre);
        let e = es.last();
        let a = listing_plan_of(pre);
        let plan = listing_plan_of(es);
        let keep = ListingStep::Keep { entry: e.entry };
        let steps = if descends(e) {
            seq![ListingStep::Descend { path: e.entry.path }, keep]
        } else {
            seq![keep]
        };
        assert(plan == a + steps);
        assert forall|k: int| 0 <= k < a.len() implies #[trigger] plan[k] == a[k] by {}
        assert forall|i: int| 0 <= i < pre.len() implies #[trigger] es[i] == pre[i] by {}
        assert forall|i: int| 0 <= i < es.len() implies plan_keeps(plan, (#[trigger] es[i]).entry) by {
            if i < pre.len() {
                assert(plan_keeps(a, pre[i].entry));
                let k = choose|k: int| 0 <= k < a.len() && #[trigger] a[k] == (ListingStep::Keep { entry: pre[i].entry });
                assert(plan[k] == a[k]);
            } else {
                assert(plan[plan.len() - 1] == keep);
            }
        }
        assert forall|i: int| 0 <= i < es.len() && descends(#[trigger] es[i]) implies plan_enters(plan, es[i].entry.path) by {
            if i < pre.len() {
                assert(descends(pre[i]));
                assert(plan_enters(a, pre[i].entry.path));
                let k = choose|k: int| 0 <= k < a.len() && #[trigger] a[k] == (ListingStep::Descend { path: pre[i].entry.path });
                assert(plan[k] == a[k]);
            } else {
                assert(plan[a.len() as int] == (ListingStep::Descend { path: e.entry.path }));
            }
        }
        assert forall|k: int| 0 <= k < plan.len() && (#[trigger] plan[k]) is Descend implies (exists|i: int|
            0 <= i < es.len() && descends(#[trigger] es[i]) && plan[k]->path == es[i].entry.path) by {
            if k < a.len() {
                assert(plan[k] == a[k]);
                let i = choose|i: int| 0 <= i < pre.len() && descends(#[trigger] pre[i]) && a[k]->path == pre[i].entry.path;
                assert(es[i] == pre[i]);
            } else {
                assert(descends(e));
                assert(es[es.len() - 1] == e);
            }
        }
    }
}

} // verus!
