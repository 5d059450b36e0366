//! Storage of the application: uploaded torrents/magnets, collections and
//! torrent save paths, addressed by plain UTF-8 paths.

use vstd::prelude::*;

use crate::read_dir::{read_dir_text, ReadDirError};
use crate::text::{concatenated, owned, str_eq};
use crate::writable_dir::{writable_dir_text, WritableDirError};

pub mod collections;
pub mod save_paths;
pub mod uploads;

pub use collections::{Collection, CollectionDB};
pub use save_paths::{SavePathDB, TorrentSavePath};
pub use uploads::{AddRequest, UploadDB, UploadID, UploadPath, UploadType};

verus! {

/// Errors of the storage layer.
#[allow(inconsistent_fields)]
pub enum DatabaseError {
    /// Collections dir is not writable
    Collections { source: WritableDirError },
    /// Uploads dir is not writable
    Uploads { source: WritableDirError },
    /// Downloads dir is not writable
    Downloads { source: WritableDirError },
    /// Listing a directory failed
    ReadDir { source: ReadDirError },
    /// Failed to persist upload
    PersistUpload { source: WritableDirError },
    /// Invalid content id
    InvalidContentID { id: String },
    /// An unknown error occurred accessing a path (the I/O error message)
    Unknown { path: String, reason: String },
}

/// The directories the database lives in.
pub struct DirConfig {
    pub collections: String,
    pub uploads: String,
    pub downloads: String,
}

impl DirConfig {
    pub fn duplicate(&self) -> (res: DirConfig)
        ensures
            res == *self,
    {
        DirConfig {
            collections: self.collections.clone(),
            uploads: self.uploads.clone(),
            downloads: self.downloads.clone(),
        }
    }
}

/// The `Database` is the storage for the entire application. It is in charge of managing:
///   - submitted torrents/magnets using [`UploadDB`] (see [`Database::uploads`])
///   - content collections using [`CollectionDB`] (see [`Database::collections`])
///   - torrent save paths as consumed by the torrent clients using [`SavePathDB`] (see
///   [`Database::save_paths`])
pub struct Database {
    /// The directories of this database
    pub dirs: DirConfig,
    /// The number of seconds to wait before refreshing the database entries
    pub ttl: usize,
    pub collections: CollectionDB,
}

/// What [`Database::from_dirs`] decides from the checks of the three
/// directories (in this order) and the loading of the collections.
pub open spec fn database_outcome(
    collections_dir: Result<(), WritableDirError>,
    uploads_dir: Result<(), WritableDirError>,
    downloads_dir: Result<(), WritableDirError>,
    loaded: Result<CollectionDB, DatabaseError>,
) -> Result<CollectionDB, DatabaseError> {
    match collections_dir {
        Err(e) => Err(DatabaseError::Collections { source: e }),
        Ok(()) => match uploads_dir {
            Err(e) => Err(DatabaseError::Uploads { source: e }),
            Ok(()) => match downloads_dir {
                Err(e) => Err(DatabaseError::Downloads { source: e }),
                Ok(()) => loaded,
            },
        },
    }
}

impl Database {
    /// Opens the database once its three directories were checked to be
    /// writable, and its collections were loaded.
    pub fn from_dirs(
        dirs: &DirConfig,
        collections_dir: Result<(), WritableDirError>,
        uploads_dir: Result<(), WritableDirError>,
        downloads_dir: Result<(), WritableDirError>,
        loaded: Result<CollectionDB, DatabaseError>,
    ) -> (res: Result<Database, DatabaseError>)
        ensures
            match database_outcome(collections_dir, uploads_dir, downloads_dir, loaded) {
                Ok(c) => res matches Ok(db) && db.dirs == *dirs && db.ttl == 60 && db.collections == c,
                Err(e) => res matches Err(f) && f == e,
            },
    {
        match collections_dir {
            Err(e) => Err(DatabaseError::Collections { source: e }),
            Ok(()) => match uploads_dir {
                Err(e) => Err(DatabaseError::Uploads { source: e }),
                Ok(()) => match downloads_dir {
                    Err(e) => Err(DatabaseError::Downloads { source: e }),
                    Ok(()) => match loaded {
                        Ok(c) => Ok(Database { dirs: dirs.duplicate(), ttl: 60, collections: c }),
                        Err(e) => Err(e),
                    },
                },
            },
        }
    }

    /// The uploads stored in the uploads directory.
    pub fn uploads(&self) -> (res: UploadDB)
        ensures
            res@ == self.dirs.uploads@,
    {
        UploadDB::from(self.dirs.uploads.as_str())
    }

    /// The save paths under the downloads directory.
    pub fn save_paths(&self) -> (res: SavePathDB)
        ensures
            res@ == self.dirs.downloads@,
    {
        SavePathDB::from(self.dirs.downloads.as_str())
    }

    /// A copy of the collections.
    pub fn collections(&self) -> (res: CollectionDB)
        ensures
            res@ == self.collections@,
    {
        self.collections.duplicate()
    }

    /// Whether a collection is called `name`.
    pub fn has_collection(&self, name: &str) -> (res: bool)
        ensures
            res == exists|i: int| 0 <= i < self.collections@.len() && (#[trigger] self.collections@[i]).name@ == name@,
    {
        self.collections.get(name).is_some()
    }
}

/// A path that is guaranteed to be valid Unicode, and can be accessed as string slice.
pub struct UnicodePath {
    string: String,
}

impl View for UnicodePath {
    type V = Seq<char>;

    closed spec fn view(&self) -> Seq<char> {
        self.string@
    }
}

impl UnicodePath {
    pub fn new(s: &str) -> (res: UnicodePath)
        ensures
            res@ == s@,
    {
        UnicodePath { string: owned(s) }
    }

    pub fn as_str(&self) -> (res: &str)
        ensures
            res@ == self@,
    {
        self.string.as_str()
    }

    pub fn to_string(&self) -> (res: String)
        ensures
            res@ == self@,
    {
        owned(self.string.as_str())
    }

    pub fn duplicate(&self) -> (res: UnicodePath)
        ensures
            res@ == self@,
    {
        UnicodePath { string: self.string.clone() }
    }

    /// Whether both paths hold the same text.
    pub fn same(&self, other: &UnicodePath) -> (res: bool)
        ensures
            res == (self@ == other@),
    {
        str_eq(self.string.as_str(), other.string.as_str())
    }
}


/// The message of a [`DatabaseError`].
pub open spec fn database_text(e: DatabaseError) -> Seq<char> {
    match e {
        DatabaseError::Collections { source } => "Collections dir is not writable:\n"@ + writable_dir_text(source),
        DatabaseError::Uploads { source } => "Uploads dir is not writable:\n"@ + writable_dir_text(source),
        DatabaseError::Downloads { source } => "Downloads dir is not writable:\n"@ + writable_dir_text(source),
        DatabaseError::ReadDir { source } => read_dir_text(source),
        DatabaseError::PersistUpload { source } => "Failed to persist upload: "@ + writable_dir_text(source),
        DatabaseError::InvalidContentID { id } => "Invalid content id "@ + id@,
        DatabaseError::Unknown { path, reason } => "An unknown error occurred accessing "@ + path@ + ": "@ + reason@,
    }
}

impl DatabaseError {
    /// The message shown for this error.
    pub fn message(&self) -> (res: String)
        ensures
            res@ == database_text(*self),
    {
        match self {
            DatabaseError::Collections { source } => {
                concatenated("Collections dir is not writable:\n", source.message().as_str())
            },
            DatabaseError::Uploads { source } => concatenated("Uploads dir is not writable:\n", source.message().as_str()),
            DatabaseError::Downloads { source } => {
                concatenated("Downloads dir is not writable:\n", source.message().as_str())
            },
            DatabaseError::ReadDir { source } => source.message(),
            DatabaseError::PersistUpload { source } => concatenated("Failed to persist upload: ", source.message().as_str()),
            DatabaseError::InvalidContentID { id } => concatenated("Invalid content id ", id.as_str()),
            DatabaseError::Unknown { path, reason } => {
                let a = concatenated("An unknown error occurred accessing ", path.as_str());
                let b = concatenated(a.as_str(), ": ");
                concatenated(b.as_str(), reason.as_str())
            },
        }
    }
}

} // verus!
pub mod magnet;
