//! Step 1 of an upload: a torrent file or a magnet link, and a collection.

use vstd::prelude::*;

use super::{
    hash_upload_id, is_lower_info_hash, magnet_hash, magnet_parse, show_errors, shows_error, torrent_file_hash, torrent_hash,
    UploadError, UploadPage,
};
use crate::order::{sort_texts, sorted_texts};
use crate::templating::context::{Context, ContextValue};
use crate::database::collections::first_named;
use crate::database::uploads::new_id;
use crate::database::{Collection, Database, DatabaseError, UploadID, UploadType};

verus! {

/// The upload form: the collection, the magnet link (empty when none) and
/// the size of the uploaded torrent file (zero when none).
pub struct UploadForm {
    pub collection: Option<String>,
    pub magnet: Option<String>,
    pub torrent_len: Option<usize>,
}

/// An upload whose content and collection were checked.
pub struct ValidUploadForm {
    pub content: UploadID,
    pub collection: String,
    pub collection_folders: Vec<String>,
}

/// Where the content of an upload comes from.
pub enum ContentSource {
    /// A magnet link, stored as the upload `id` with the link as content.
    Magnet { id: UploadID },
    /// The uploaded torrent file, to be read before its id is known.
    Torrent,
}

impl UploadForm {
    /// The collection named by the form: it must be given and known. Its
    /// folders are then listed with [`UploadForm::collection_folders`].
    pub fn verify_collection(&self, database: &Database) -> (res: Result<Collection, UploadError>)
        ensures
            match self.collection {
                None => res matches Err(UploadError::MissingCollection),
                Some(c) => match first_named(database.collections@, c@) {
                    Some(i) => res matches Ok(col) && col == database.collections@[i],
                    None => res matches Err(UploadError::WrongCollection { collection }) && collection == c,
                },
            },
    {
        match &self.collection {
            None => Err(UploadError::MissingCollection),
            Some(c) => match database.collections.get(c.as_str()) {
                Some(col) => Ok(col.duplicate()),
                None => Err(UploadError::WrongCollection { collection: c.clone() }),
            },
        }
    }

    /// The folders of the chosen collection, from its listing.
    pub fn collection_folders(listing: Result<Vec<String>, DatabaseError>) -> (res: Result<Vec<String>, UploadError>)
        ensures
            match listing {
                Ok(v) => res == Ok::<Vec<String>, UploadError>(v),
                Err(e) => res matches Err(UploadError::FailedDatabase { source }) && source == e,
            },
    {
        match listing {
            Ok(v) => Ok(v),
            Err(e) => Err(UploadError::FailedDatabase { source: e }),
        }
    }

    /// Where the content comes from: exactly one of a magnet link and a
    /// torrent file must be given, and a magnet link must parse. The form
    /// must carry both fields.
    pub fn verify_content(&self) -> (res: Result<ContentSource, UploadError>)
        requires
            self.magnet is Some,
            self.torrent_len is Some,
        ensures
            ({
                let magnet = self.magnet.unwrap()@;
                let len = self.torrent_len.unwrap();
                if magnet.len() > 0 && len != 0 {
                    res matches Err(UploadError::BothTorrentAndMagnet)
                } else if magnet.len() > 0 {
                    match magnet_parse(magnet) {
                        Some(p) => res matches Ok(ContentSource::Magnet { id }) && Ok::<(Seq<char>, UploadType, Seq<char>), Seq<char>>(id@) == new_id(p.0, UploadType::Magnet),
                        None => res matches Err(UploadError::WrongMagnet { .. }),
                    }
                } else if len != 0 {
                    res matches Ok(ContentSource::Torrent)
                } else {
                    res matches Err(UploadError::MissingTorrentOrMagnet)
                }
            }),
    {
        let magnet = match &self.magnet {
            Some(m) => m,
            None => vstd::pervasive::unreached(),
        };
        let len = match self.torrent_len {
            Some(l) => l,
            None => vstd::pervasive::unreached(),
        };
        let has_magnet = !magnet.as_str().is_empty();
        if has_magnet && len != 0 {
            Err(UploadError::BothTorrentAndMagnet)
        } else if has_magnet {
            match magnet_hash(magnet.as_str()) {
                Ok(hash) => Ok(ContentSource::Magnet { id: hash_upload_id(hash.as_str(), true) }),
                Err(e) => Err(e),
            }
        } else if len != 0 {
            Ok(ContentSource::Torrent)
        } else {
            Err(UploadError::MissingTorrentOrMagnet)
        }
    }

    /// The upload id of an uploaded torrent file, from its bytes (or the
    /// error of storing or reading it).
    pub fn torrent_id(bytes: Result<Vec<u8>, UploadError>) -> (res: Result<UploadID, UploadError>)
        ensures
            match bytes {
                Err(e) => res == Err::<UploadID, UploadError>(e),
                Ok(b) => match torrent_file_hash(b@) {
                    Some(h) => res matches Ok(id) && Ok::<(Seq<char>, UploadType, Seq<char>), Seq<char>>(id@) == new_id(h, UploadType::Torrent),
                    None => res matches Err(UploadError::WrongTorrent { .. }),
                },
            },
    {
        match bytes {
            Err(e) => Err(e),
            Ok(b) => match torrent_hash(b.as_slice()) {
                Ok(hash) => Ok(hash_upload_id(hash.as_str(), false)),
                Err(e) => Err(e),
            },
        }
    }

    /// Combines the outcome of the content and collection checks. Both
    /// errors are reported, content first.
    pub fn validate(&self, content: Result<UploadID, UploadError>, folders: Result<Vec<String>, UploadError>) -> (res: Result<ValidUploadForm, Vec<UploadError>>)
        requires
            folders is Ok ==> self.collection is Some,
        ensures
            match (content, folders) {
                (Ok(c), Ok(f)) => res matches Ok(v) && v.content == c && v.collection_folders == f && Some(v.collection) == self.collection,
                (Err(e), Ok(_)) => res matches Err(es) && es@ == seq![e],
                (Ok(_), Err(e)) => res matches Err(es) && es@ == seq![e],
                (Err(e1), Err(e2)) => res matches Err(es) && es@ == seq![e1, e2],
            },
    {
        match (content, folders) {
            (Ok(c), Ok(f)) => {
                let collection = match &self.collection {
                    Some(coll) => coll.clone(),
                    None => vstd::pervasive::unreached(),
                };
                Ok(ValidUploadForm { collection, collection_folders: f, content: c })
            },
            (Err(e), Ok(_)) => {
                let mut v = Vec::new();
                v.push(e);
                Err(v)
            },
            (Ok(_), Err(e)) => {
                let mut v = Vec::new();
                v.push(e);
                Err(v)
            },
            (Err(e1), Err(e2)) => {
                let mut v = Vec::new();
                v.push(e1);
                v.push(e2);
                Err(v)
            },
        }
    }
}


/// The page answering the upload form: the confirmation form, with the
/// chosen collection, the stored upload (its file name) and the folders of
/// the collection in alphabetical order; or the upload form again, with the
/// messages of the errors.
pub fn post(validated: Result<ValidUploadForm, Vec<UploadError>>, context: &mut Context) -> (res: UploadPage)
    ensures
        final(context).warnings == old(context).warnings,
        match validated {
            Ok(v) => {
                &&& res == UploadPage::Step1
                &&& final(context).errors == old(context).errors
                &&& final(context).value_of("collection"@) matches Some(ContextValue::Text(t)) && t@ == v.collection@
                &&& final(context).value_of("content"@) matches Some(ContextValue::Text(t)) && t@ == v.content@.2
                &&& final(context).value_of("folders"@) matches Some(ContextValue::List(l)) && sorted_texts(l@)
                    && l@.to_multiset() == v.collection_folders@.to_multiset()
                &&& forall|k: Seq<char>|
                    k != "collection"@ && k != "content"@ && k != "folders"@ ==> final(context).value_of(k) == old(
                        context,
                    ).value_of(k)
            },
            Err(es) => {
                &&& res == UploadPage::Index
                &&& final(context).errors@.len() == old(context).errors@.len() + es@.len()
                &&& final(context).errors@.subrange(0, old(context).errors@.len() as int) == old(context).errors@
                &&& forall|i: int|
                    0 <= i < es@.len() ==> shows_error(#[trigger] es@[i], final(context).errors@[old(context).errors@.len() + i]@)
                &&& final(context).extra == old(context).extra
            },
        },
{
    match validated {
        Ok(valid_form) => {
            let ValidUploadForm { content, collection, collection_folders } = valid_form;
            let folders = sort_texts(collection_folders);
            proof {
                reveal_strlit("collection");
                reveal_strlit("content");
                reveal_strlit("folders");
            }
            assert("collection"@ != "content"@ && "collection"@ != "folders"@ && "content"@ != "folders"@) by {
                assert("collection"@[2] != "content"@[2]);
                assert("collection"@.len() != "folders"@.len());
                assert("content"@[0] != "folders"@[0]);
            }
            context.insert_string("collection", collection.as_str());
            let ghost c1 = *context;
            context.insert_string("content", content.as_str());
            let ghost c2 = *context;
            context.insert_vec("folders", folders);
            assert(context.value_of("collection"@) == c2.value_of("collection"@));
            assert(c2.value_of("collection"@) == c1.value_of("collection"@));
            assert(context.value_of("content"@) == c2.value_of("content"@));
            assert(context.value_of("folders"@) == Some(ContextValue::List(folders)));
            UploadPage::Step1
        },
        Err(errors) => {
            show_errors(errors, context);
            UploadPage::Index
        },
    }
}

} // verus!
