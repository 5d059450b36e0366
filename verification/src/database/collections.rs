//! Collections: the folders (or symlinks to folders) of the collections dir.

use vstd::prelude::*;

use crate::read_dir::{ReadDirEntry, ReadDirError};
use crate::text::str_eq;
use crate::writable_dir::WritableDirError;

verus! {

/// A Collection is a folder (or symlink to a folder) in the collections dir.
///
/// We make sure the folder is writable!
pub struct Collection {
    pub name: String,
    pub path: String,
}

impl Collection {
    pub fn duplicate(&self) -> (res: Collection)
        ensures
            res == *self,
    {
        Collection { name: self.name.clone(), path: self.path.clone() }
    }

    /// Turns a directory entry into a collection, once the entry's path was
    /// checked to be a writable directory and resolved to `canonical`.
    pub fn try_from(entry: ReadDirEntry, writable: Result<(), WritableDirError>, canonical: String) -> (res: Result<Collection, ReadDirError>)
        ensures
            match writable {
                Ok(()) => res matches Ok(c) && c.name == entry.name && c.path == canonical,
                Err(e) => res matches Err(ReadDirError::Transform { source }) && source == e,
            },
    {
        match writable {
            Ok(()) => Ok(Collection { name: entry.name, path: canonical }),
            Err(e) => Err(ReadDirError::Transform { source: e }),
        }
    }

    /// The names of the top-level entries of the collection, from its listing.
    pub fn folders(listing: Result<Vec<ReadDirEntry>, ReadDirError>) -> (res: Result<Vec<String>, super::DatabaseError>)
        ensures
            match listing {
                Ok(entries) => res matches Ok(names) && names@.len() == entries@.len()
                    && forall|i: int| 0 <= i < entries@.len() ==> #[trigger] names@[i] == entries@[i].name,
                Err(e) => res matches Err(super::DatabaseError::ReadDir { source }) && source == e,
            },
    {
        match listing {
            Err(e) => Err(super::DatabaseError::ReadDir { source: e }),
            Ok(entries) => {
                let mut names: Vec<String> = Vec::new();
                let mut i: usize = 0;
                while i < entries.len()
                    invariant
                        i <= entries@.len(),
                        names@.len() == i,
                        forall|k: int| 0 <= k < i ==> #[trigger] names@[k] == entries@[k].name,
                    decreases entries@.len() - i,
                {
                    names.push(entries[i].name.clone());
                    i = i + 1;
                }
                Ok(names)
            },
        }
    }
}

/// The loaded collections, in directory order.
pub struct CollectionDB {
    collections: Vec<Collection>,
}

impl View for CollectionDB {
    type V = Seq<Collection>;

    closed spec fn view(&self) -> Seq<Collection> {
        self.collections@
    }
}

/// Index of the first collection called `name`, if any.
pub open spec fn first_named(cs: Seq<Collection>, name: Seq<char>) -> Option<int> {
    if exists|i: int| 0 <= i < cs.len() && (#[trigger] cs[i]).name@ == name {
        Some(choose|i: int| 0 <= i < cs.len() && cs[i].name@ == name && forall|j: int| 0 <= j < i ==> (#[trigger] cs[j]).name@ != name)
    } else {
        None
    }
}

impl CollectionDB {
    /// The collections, from the converted entries of the collections dir
    /// (the first conversion error wins).
    pub fn load(converted: Vec<Result<Collection, ReadDirError>>) -> (res: Result<CollectionDB, ReadDirError>)
        ensures
            match crate::read_dir::all_ok(converted@) {
                Ok(cs) => res matches Ok(db) && db@ == cs,
                Err(e) => res matches Err(f) && f == e,
            },
    {
        match crate::read_dir::read_dir_into(converted) {
            Ok(collections) => Ok(CollectionDB { collections }),
            Err(e) => Err(e),
        }
    }

    /// All collections.
    pub fn entries(&self) -> (res: &Vec<Collection>)
        ensures
            res@ == self@,
    {
        &self.collections
    }

    pub fn duplicate(&self) -> (res: CollectionDB)
        ensures
            res@ == self@,
    {
        let mut out: Vec<Collection> = Vec::new();
        let mut i: usize = 0;
        while i < self.collections.len()
            invariant
                i <= self@.len(),
                out@ == self@.subrange(0, i as int),
            decreases self@.len() - i,
        {
            out.push(self.collections[i].duplicate());
            i = i + 1;
            assert(out@ == self@.subrange(0, i as int));
        }
        assert(self@.subrange(0, self@.len() as int) == self@);
        CollectionDB { collections: out }
    }

    /// Get a collection by name: the first one with that name.
    pub fn get(&self, name: &str) -> (res: Option<&Collection>)
        ensures
            match first_named(self@, name@) {
                Some(i) => res matches Some(c) && *c == self@[i],
                None => res is None,
            },
    {
        let mut i: usize = 0;
        while i < self.collections.len()
            invariant
                i <= self@.len(),
                forall|j: int| 0 <= j < i ==> (#[trigger] self@[j]).name@ != name@,
            decreases self@.len() - i,
        {
            if str_eq(self.collections[i].name.as_str(), name) {
                proof {
                    let k = i as int;
                    assert(0 <= k < self@.len() && self@[k].name@ == name@);
                    let c = choose|q: int| 0 <= q < self@.len() && self@[q].name@ == name@ && forall|j: int| 0 <= j < q ==> (#[trigger] self@[j]).name@ != name@;
                    assert(0 <= k < self@.len() && self@[k].name@ == name@ && forall|j: int| 0 <= j < k ==> (#[trigger] self@[j]).name@ != name@);
                    if c < k {
                    } else if c > k {
                    }
                    assert(c == k);
                }
                return Some(&self.collections[i]);
            }
            i = i + 1;
        }
        None
    }
}

} // verus!
