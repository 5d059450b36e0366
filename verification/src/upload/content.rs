//! Reading the content of an upload form into a magnet or a torrent.

use vstd::prelude::*;

use super::{
    is_lower_info_hash, magnet_error_text, magnet_hash, magnet_parse, torrent_error_text, torrent_file_hash, torrent_hash,
    UploadError,
};
use crate::templating::context::{html_lines, Context};
use crate::text::{concatenated, has_prefix, owned};

verus! {

/// The content of an upload.
pub enum Content {
    Magnet(MagnetContent),
    Torrent(TorrentContent),
}

/// A magnet link and its info hash.
pub struct MagnetContent {
    pub hash: String,
    pub uri: String,
}

/// A stored torrent file and its info hash.
pub struct TorrentContent {
    pub hash: String,
    pub path: String,
}

/// Where an uploaded torrent file is stored before it is read.
pub open spec fn upload_temp_path() -> Seq<char> {
    "/tmp/lol.torrent"@
}

/// The message shown when no content was given.
pub open spec fn no_content_message() -> Seq<char> {
    "Please provide a magnet URI or a torrent file"@
}

impl Content {
    /// The content of a form: the uploaded torrent file when one was given
    /// (`torrent` holds its bytes, or the message of failing to store or read
    /// it), else the magnet link. Problems are reported in `context`.
    pub fn from_form(magnet: &str, torrent: Option<Result<Vec<u8>, String>>, context: &mut Context) -> (res: Option<Content>)
        ensures
            final(context).warnings == old(context).warnings,
            final(context).extra == old(context).extra,
            match torrent {
                Some(Err(m)) => res is None && final(context).errors@ == old(context).errors@.push(m),
                Some(Ok(b)) => match torrent_file_hash(b@) {
                    Some(h) => res matches Some(Content::Torrent(t)) && t.hash@ == h && t.path@ == upload_temp_path()
                        && final(context).errors == old(context).errors,
                    None => res is None && final(context).errors@.len() == old(context).errors@.len() + 1
                        && final(context).errors@.drop_last() == old(context).errors@
                        && has_prefix(final(context).errors@.last()@, "Wrong uploaded torrent:\n"@),
                },
                None => if magnet@.len() == 0 {
                    res is None && final(context).errors@.len() == old(context).errors@.len() + 1
                        && final(context).errors@.drop_last() == old(context).errors@
                        && final(context).errors@.last()@ == html_lines(no_content_message())
                } else {
                    match magnet_parse(magnet@) {
                        Some(p) => res matches Some(Content::Magnet(m)) && m.hash@ == p.0 && m.uri@ == magnet@
                            && final(context).errors == old(context).errors,
                        None => res is None && final(context).errors@.len() == old(context).errors@.len() + 1
                            && final(context).errors@.drop_last() == old(context).errors@
                            && has_prefix(final(context).errors@.last()@, "Wrong uploaded magnet:\n"@),
                    }
                },
            },
    {
        proof {
            reveal_strlit("Wrong uploaded torrent:\n");
            reveal_strlit("Wrong uploaded magnet:\n");
        }
        match torrent {
            Some(Err(message)) => {
                context.error_owned(message);
                None
            },
            Some(Ok(bytes)) => match torrent_hash(bytes.as_slice()) {
                Ok(hash) => Some(Content::Torrent(TorrentContent { hash, path: owned("/tmp/lol.torrent") })),
                Err(UploadError::WrongTorrent { source }) => {
                    let detail = torrent_error_text(&source);
                    let text = concatenated("Wrong uploaded torrent:\n", detail.as_str());
                    assert(text@.subrange(0, "Wrong uploaded torrent:\n"@.len() as int) =~= "Wrong uploaded torrent:\n"@);
                    context.error_owned(text);
                    None
                },
                Err(_) => vstd::pervasive::unreached(),
            },
            None => {
                if magnet.is_empty() {
                    context.error("Please provide a magnet URI or a torrent file");
                    None
                } else {
                    match magnet_hash(magnet) {
                        Ok(hash) => Some(Content::Magnet(MagnetContent { hash, uri: owned(magnet) })),
                        Err(UploadError::WrongMagnet { source }) => {
                            let detail = magnet_error_text(&source);
                            let text = concatenated("Wrong uploaded magnet:\n", detail.as_str());
                            assert(text@.subrange(0, "Wrong uploaded magnet:\n"@.len() as int) =~= "Wrong uploaded magnet:\n"@);
                            context.error_owned(text);
                            None
                        },
                        Err(_) => vstd::pervasive::unreached(),
                    }
                }
            },
        }
    }
}


/// Whether the content of a form is accepted by [`Content::from_form`].
pub open spec fn content_accepted(magnet: Seq<char>, torrent: Option<Result<Vec<u8>, String>>) -> bool {
    match torrent {
        Some(Err(_)) => false,
        Some(Ok(b)) => torrent_file_hash(b@) is Some,
        None => magnet.len() > 0 && magnet_parse(magnet) is Some,
    }
}

/// The message shown when the form names no collection.
pub open spec fn missing_collection_message() -> Seq<char> {
    "Please give a collection tag to place the content"@
}

/// The first upload form: a collection, a magnet link (empty when none);
/// the uploaded torrent file is handed to [`UploadForm::validate`].
pub struct UploadForm {
    pub collection: Option<String>,
    pub magnet: Option<String>,
}

/// A first upload form whose content was read and which names a collection.
pub struct ValidUploadForm {
    pub content: Content,
    pub collection: String,
}

impl UploadForm {
    /// Checks the form: a missing collection and unreadable content are
    /// reported in `context` (collection first). `torrent` is the uploaded
    /// torrent file as [`Content::from_form`] takes it. The form must carry
    /// its magnet field.
    pub fn validate(&self, torrent: Option<Result<Vec<u8>, String>>, context: &mut Context) -> (res: Option<ValidUploadForm>)
        requires
            self.magnet is Some,
        ensures
            final(context).warnings == old(context).warnings,
            final(context).extra == old(context).extra,
            final(context).errors@.len() == old(context).errors@.len() + (if self.collection is None { 1int } else { 0int })
                + (if content_accepted(self.magnet.unwrap()@, torrent) { 0int } else { 1int }),
            final(context).errors@.subrange(0, old(context).errors@.len() as int) == old(context).errors@,
            self.collection is None ==> final(context).errors@[old(context).errors@.len() as int]@ == missing_collection_message(),
            res is Some <==> (self.collection is Some && content_accepted(self.magnet.unwrap()@, torrent)),
            res matches Some(v) ==> Some(v.collection) == self.collection && match torrent {
                Some(Ok(b)) => v.content matches Content::Torrent(t) && t.hash@ == torrent_file_hash(b@).unwrap()
                    && t.path@ == upload_temp_path(),
                Some(Err(_)) => false,
                None => v.content matches Content::Magnet(m) && m.hash@ == magnet_parse(self.magnet.unwrap()@).unwrap().0
                    && m.uri@ == self.magnet.unwrap()@,
            },
    {
        let ghost before = context.errors@;
        if self.collection.is_none() {
            context.error("Please give a collection tag to place the content");
            proof {
                reveal_strlit("Please give a collection tag to place the content");
                lemma_no_newline_shown_as_is(missing_collection_message());
            }
        }
        let ghost middle = context.errors@;
        let magnet = match &self.magnet {
            Some(m) => m,
            None => vstd::pervasive::unreached(),
        };
        let content = Content::from_form(magnet.as_str(), torrent, context);
        proof {
            assert(middle.subrange(0, before.len() as int) =~= before);
            if context.errors@.len() > middle.len() {
                assert(context.errors@.drop_last() == middle);
                assert(context.errors@.subrange(0, before.len() as int) =~= middle.subrange(0, before.len() as int));
                assert(context.errors@.subrange(0, middle.len() as int) =~= middle);
            }
            if self.collection is None {
                assert(context.errors@[before.len() as int] == middle[before.len() as int]);
            }
        }
        match (&self.collection, content) {
            (Some(collection), Some(content)) => Some(ValidUploadForm { content, collection: collection.clone() }),
            _ => None,
        }
    }
}

/// Text without line breaks is shown as it is.
proof fn lemma_no_newline_shown_as_is(s: Seq<char>)
    requires
        !s.contains('\n'),
    ensures
        html_lines(s) == s,
{
    crate::templating::context::lemma_html_lines_meaning(s);
}

} // verus!
