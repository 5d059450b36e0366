//! Where the torrent client saves the content of an upload.

use vstd::prelude::*;

use super::uploads::UploadID;
use crate::paths::{before_first_dot, file_name, file_name_of, join, joined, until_first_dot};
use crate::text::{owned, to_lowercase, lowercase_text};

verus! {

/// A destination save path where the torrent client will save the actual content.
/// It is built from an [`UploadID`] (which contains the torrent hash), and the
/// downloads directory, generating a sort of content-addressed storage.
pub struct TorrentSavePath(String);

impl View for TorrentSavePath {
    type V = Seq<char>;

    closed spec fn view(&self) -> Seq<char> {
        self.0@
    }
}

impl TorrentSavePath {
    /// Access the underlying string slice as a reference
    pub fn as_ref(&self) -> (res: &str)
        ensures
            res@ == self@,
    {
        self.0.as_str()
    }
}

/// The directory under which torrents are saved.
pub struct SavePathDB {
    basedir: String,
}

impl View for SavePathDB {
    type V = Seq<char>;

    closed spec fn view(&self) -> Seq<char> {
        self.basedir@
    }
}

/// The save path of an upload whose text is `id_text`, under `basedir`: the
/// lowercased file name of the upload, up to its first `.`, joined to the
/// directory. `None` where the lowercased text has no file name.
pub open spec fn save_path_of(basedir: Seq<char>, id_text: Seq<char>) -> Option<Seq<char>> {
    match file_name_of(lowercase_text(id_text)) {
        Some(name) => Some(joined(basedir, before_first_dot(name))),
        None => None,
    }
}

impl SavePathDB {
    pub fn from(basedir: &str) -> (res: SavePathDB)
        ensures
            res@ == basedir@,
    {
        SavePathDB { basedir: owned(basedir) }
    }

    /// Calculates the path where the torrent client will store a torrent... by taking the hash
    pub fn compute(&self, id: &UploadID) -> (res: TorrentSavePath)
        requires
            save_path_of(self@, id@.2) is Some,
        ensures
            res@ == save_path_of(self@, id@.2).unwrap(),
    {
        let lower = to_lowercase(id.as_str());
        match file_name(lower.as_str()) {
            Some(name) => {
                let hash = until_first_dot(name.as_str());
                TorrentSavePath(join(self.basedir.as_str(), hash.as_str()))
            },
            None => {
                assert(false);
                TorrentSavePath(owned(""))
            },
        }
    }

    /// Like [`SavePathDB::compute`], but `None` where the lowercased id has no file name.
    pub fn try_compute(&self, id: &UploadID) -> (res: Option<TorrentSavePath>)
        ensures
            match save_path_of(self@, id@.2) {
                Some(p) => res matches Some(t) && t@ == p,
                None => res is None,
            },
    {
        let lower = to_lowercase(id.as_str());
        if file_name(lower.as_str()).is_some() {
            Some(self.compute(id))
        } else {
            None
        }
    }
}

} // verus!
