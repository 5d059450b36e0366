//! Step 2 of an upload: confirming where the stored upload goes.

use vstd::prelude::*;

use super::{api_error_text, show_errors, shows_error, UploadError, UploadPage};
use crate::database::uploads::is_info_hash;
use crate::templating::context::{Context, ContextValue};
use crate::text::ascii_lower;
use crate::database::collections::first_named;
use crate::database::uploads::{id_from_text, id_outcome, upload_path_of};
use crate::database::{Database, DatabaseError, UploadID, UploadPath};

verus! {

/// The confirmation form: the collection, the stored upload (its file
/// name), and the place inside the collection.
pub struct ConfirmForm {
    pub collection: Option<String>,
    pub content: Option<String>,
    pub basedir: Option<String>,
    pub targetdir: Option<String>,
}

/// A confirmation whose three parts were checked.
pub struct ValidConfirmForm {
    pub content: UploadID,
    pub collection: String,
    pub path: UploadPath,
}

/// The collection check of a form: present, and known to the database.
pub open spec fn collection_check(collection: Option<String>, db: Database) -> Result<(), UploadError> {
    match collection {
        None => Err(UploadError::MissingCollection),
        Some(c) => if first_named(db.collections@, c@) is Some {
            Ok(())
        } else {
            Err(UploadError::WrongCollection { collection: c })
        },
    }
}

/// The path check of a form: `None` when the place is refused.
pub open spec fn path_check(form: ConfirmForm) -> Option<Seq<char>> {
    upload_path_of(form.basedir.unwrap()@, form.targetdir.unwrap()@)
}

/// The errors of a confirmation, in the order content, collection, path.
pub open spec fn confirm_errors(content: Result<UploadID, UploadError>, collection: Result<(), UploadError>, path: Option<Seq<char>>) -> Seq<UploadError> {
    let a: Seq<UploadError> = match content {
        Err(e) => seq![e],
        Ok(_) => Seq::empty(),
    };
    let b: Seq<UploadError> = match collection {
        Err(e) => seq![e],
        Ok(_) => Seq::empty(),
    };
    let c: Seq<UploadError> = match path {
        None => seq![UploadError::WrongUploadPath],
        Some(_) => Seq::empty(),
    };
    a + b + c
}

impl ConfirmForm {
    /// The place inside the collection. The form must carry both parts.
    pub fn verify_path(&self) -> (res: Result<UploadPath, UploadError>)
        requires
            self.basedir is Some,
            self.targetdir is Some,
        ensures
            match path_check(*self) {
                Some(p) => res matches Ok(u) && u@ == p,
                None => res matches Err(UploadError::WrongUploadPath),
            },
    {
        let basedir = match &self.basedir {
            Some(b) => b,
            None => vstd::pervasive::unreached(),
        };
        let targetdir = match &self.targetdir {
            Some(t) => t,
            None => vstd::pervasive::unreached(),
        };
        match UploadPath::from_str(basedir.as_str(), targetdir.as_str()) {
            Some(p) => Ok(p),
            None => Err(UploadError::WrongUploadPath),
        }
    }

    /// The collection must be given and known.
    pub fn verify_collection(&self, database: &Database) -> (res: Result<(), UploadError>)
        ensures
            res == collection_check(self.collection, *database),
    {
        match &self.collection {
            None => Err(UploadError::MissingCollection),
            Some(c) => {
                let collections = database.collections();
                match collections.get(c.as_str()) {
                    Some(_) => Ok(()),
                    None => Err(UploadError::WrongCollection { collection: c.clone() }),
                }
            },
        }
    }

    /// The upload named by the form. The form must carry it.
    pub fn content_id(&self) -> (res: Result<UploadID, UploadError>)
        requires
            self.content is Some,
        ensures
            match id_from_text(self.content.unwrap()@) {
                Ok(v) => res matches Ok(id) && id@ == v,
                Err(t) => res matches Err(UploadError::FailedDatabase { source: DatabaseError::InvalidContentID { id } }) && id@ == t,
            },
    {
        let content = match &self.content {
            Some(c) => c,
            None => vstd::pervasive::unreached(),
        };
        match UploadID::from_str(content.as_str()) {
            Ok(id) => Ok(id),
            Err(e) => Err(UploadError::FailedDatabase { source: e }),
        }
    }

    /// After looking for the upload `id` in the uploads directory: only a
    /// stored upload can be confirmed.
    pub fn verify_content(id: UploadID, has_upload: Result<bool, DatabaseError>) -> (res: Result<UploadID, UploadError>)
        ensures
            match has_upload {
                Ok(true) => res == Ok::<UploadID, UploadError>(id),
                Ok(false) => res matches Err(UploadError::WrongUploadID { id: t }) && t@ == id@.2,
                Err(e) => res matches Err(UploadError::FailedDatabase { source }) && source == e,
            },
    {
        match has_upload {
            Ok(true) => Ok(id),
            Ok(false) => {
                let text = id.to_string();
                Err(UploadError::WrongUploadID { id: text })
            },
            Err(e) => Err(UploadError::FailedDatabase { source: e }),
        }
    }

    /// Checks the whole form, given the outcome of the content checks. All
    /// errors are reported, in the order content, collection, path.
    pub fn validate(&self, content: Result<UploadID, UploadError>, database: &Database) -> (res: Result<ValidConfirmForm, Vec<UploadError>>)
        requires
            self.basedir is Some,
            self.targetdir is Some,
        ensures
            confirm_errors(content, collection_check(self.collection, *database), path_check(*self)).len() == 0 ==> (
                res matches Ok(v) && content == Ok::<UploadID, UploadError>(v.content) && Some(v.collection) == self.collection
                    && Some(v.path@) == path_check(*self)),
            confirm_errors(content, collection_check(self.collection, *database), path_check(*self)).len() > 0 ==> (
                res matches Err(es) && es@ == confirm_errors(content, collection_check(self.collection, *database), path_check(*self))),
    {
        let ghost expected = confirm_errors(content, collection_check(self.collection, *database), path_check(*self));
        let mut errors: Vec<UploadError> = Vec::new();
        let verified_content = crate::utils::unwrap_or_err(content, &mut errors);
        let verified_collection = crate::utils::unwrap_or_err(self.verify_collection(database), &mut errors);
        let verified_path = crate::utils::unwrap_or_err(self.verify_path(), &mut errors);
        assert(errors@ =~= expected);
        if errors.len() == 0 {
            match (verified_content, verified_path, &self.collection) {
                (Some(c), Some(p), Some(coll)) => Ok(ValidConfirmForm { content: c, path: p, collection: coll.clone() }),
                _ => vstd::pervasive::unreached(),
            }
        } else {
            Err(errors)
        }
    }
}


/// The page answering the confirmation form. `outcome` is the checked form
/// and what the torrent client answered when the upload was added to it, or
/// the errors of the form. Added content is shown by its target, cut to 40
/// characters, so its hash must be an info hash.
pub fn post(outcome: Result<(ValidConfirmForm, Result<(), hightorrent_api::ApiError>), Vec<UploadError>>, context: &mut Context) -> (res: UploadPage)
    requires
        outcome matches Ok((v, Ok(()))) ==> is_info_hash(v.content@.0),
    ensures
        final(context).warnings == old(context).warnings,
        match outcome {
            Ok((v, Ok(()))) => {
                &&& res == UploadPage::Step2
                &&& final(context).errors == old(context).errors
                &&& final(context).value_of("truncated_hash"@) matches Some(ContextValue::Text(t))
                    && t@ == ascii_lower(v.content@.0).subrange(0, 40)
                &&& forall|k: Seq<char>| k != "truncated_hash"@ ==> final(context).value_of(k) == old(context).value_of(k)
            },
            Ok((_, Err(_))) => {
                &&& res == UploadPage::Step2
                &&& final(context).errors@.len() == old(context).errors@.len() + 1
                &&& final(context).errors@.drop_last() == old(context).errors@
                &&& final(context).extra == old(context).extra
            },
            Err(es) => {
                &&& res == UploadPage::Step1
                &&& final(context).errors@.len() == old(context).errors@.len() + es@.len()
                &&& final(context).errors@.subrange(0, old(context).errors@.len() as int) == old(context).errors@
                &&& forall|i: int|
                    0 <= i < es@.len() ==> shows_error(#[trigger] es@[i], final(context).errors@[old(context).errors@.len() + i]@)
                &&& final(context).extra == old(context).extra
            },
        },
{
    match outcome {
        Ok((valid_form, added)) => {
            match added {
                Err(e) => {
                    let message = api_error_text(&e);
                    context.error(message.as_str());
                },
                Ok(()) => {
                    let truncated = valid_form.content.truncated_target();
                    context.insert_string("truncated_hash", truncated.as_str());
                },
            }
            UploadPage::Step2
        },
        Err(errors) => {
            show_errors(errors, context);
            UploadPage::Step1
        },
    }
}


/// Law: a confirmation has errors exactly when one of its three checks
/// fails, one error for each failed check, in the order content,
/// collection, place.
pub proof fn lemma_confirm_errors_meaning(
    content: Result<UploadID, UploadError>,
    collection: Result<(), UploadError>,
    path: Option<Seq<char>>,
)
    ensures
        confirm_errors(content, collection, path).len() == 0 <==> (content is Ok && collection is Ok && path is Some),
        confirm_errors(content, collection, path).len() == (if content is Err { 1int } else { 0int }) + (if collection is Err {
            1int
        } else {
            0int
        }) + (if path is None { 1int } else { 0int }),
        content matches Err(e) ==> confirm_errors(content, collection, path)[0] == e,
        path is None ==> confirm_errors(content, collection, path).last() is WrongUploadPath,
{
}

} // verus!
