//! The upload workflow: a torrent or magnet is submitted with a collection
//! (step 1), stored in the uploads directory, then confirmed with its final
//! place in the collection (step 2) and handed to the torrent client.

use vstd::prelude::*;

use crate::database::{Database, DatabaseError, UploadID, UploadPath};
use crate::database::uploads::{id_outcome, is_info_hash, new_id};
use crate::database::database_text;
use crate::templating::context::{html_lines, lemma_html_lines_concat, Context};
use crate::text::{ascii_lower, concatenated, has_prefix, owned};

pub mod content;
pub mod step1;
pub mod step2;

verus! {

#[verifier::external_type_specification]
#[verifier::external_body]
pub struct ExMagnetLinkError(hightorrent::MagnetLinkError);

#[verifier::external_type_specification]
#[verifier::external_body]
pub struct ExTorrentFileError(hightorrent::TorrentFileError);

#[verifier::external_type_specification]
#[verifier::external_body]
pub struct ExApiError(hightorrent_api::ApiError);

/// Why an upload was refused.
#[allow(inconsistent_fields)]
pub enum UploadError {
    /// Please give a collection tag to place the content
    MissingCollection,
    /// Wrong collection
    WrongCollection { collection: String },
    /// Failed to read torrent file (the I/O error message)
    FailedReadTorrent { path: String, reason: String },
    /// Wrong uploaded torrent
    WrongTorrent { source: hightorrent::TorrentFileError },
    /// Wrong uploaded magnet
    WrongMagnet { source: hightorrent::MagnetLinkError },
    /// Please give a torrent file or magnet URI
    MissingTorrentOrMagnet,
    /// You gave a torrent AND a magnet URI. Please choose wisely
    BothTorrentAndMagnet,
    /// Failed to write torrent/magnet to disk
    FailedDatabase { source: DatabaseError },
    /// Failed to write torrent/magnet to disk (the I/O error message)
    FailedWrite { reason: String },
    /// The proposed uploaded is invalid!
    WrongUploadPath,
    /// The submitted UploadID does not exist
    WrongUploadID { id: String },
    /// The submitted torrent/magnet is already in the torrent client
    DuplicateBackendTorrent { id: String },
    /// Could not add or check torrent/magnet because of backend error
    UploadBackend { source: hightorrent_api::ApiError },
}

/// The info hash, torrent id and name of the magnet link `uri`, as
/// `hightorrent::MagnetLink::new` parses them; `None` when it refuses the link.
pub uninterp spec fn magnet_parse(uri: Seq<char>) -> Option<(Seq<char>, Seq<char>, Seq<char>)>;

/// The info hash of the torrent file `bytes`, as
/// `hightorrent::TorrentFile::from_slice` computes it; `None` when it refuses the file.
pub uninterp spec fn torrent_file_hash(bytes: Seq<u8>) -> Option<Seq<char>>;

/// A lowercase info hash (what `hightorrent::InfoHash` holds).
pub open spec fn is_lower_info_hash(s: Seq<char>) -> bool {
    is_info_hash(s) && ascii_lower(s) == s
}

/// Trusted: `hightorrent::MagnetLink::new`, then the link's `hash()`,
/// `id()` and `name()` as text. The parse is only named; the hash comes from
/// `InfoHash::new` (lowercase hexadecimal, 40 or 64 digits); a link
/// containing a newline, or whose scheme is not `magnet` (so an empty one),
/// is refused.
#[verifier::external_body]
pub(crate) fn parse_magnet(uri: &str) -> (res: Result<(String, String, String), hightorrent::MagnetLinkError>)
    ensures
        res is Ok <==> magnet_parse(uri@) is Some,
        res is Ok ==> (res.unwrap().0@, res.unwrap().1@, res.unwrap().2@) == magnet_parse(uri@).unwrap(),
        res is Ok ==> is_lower_info_hash(res.unwrap().0@),
        uri@.contains('\n') ==> res is Err,
        res is Ok ==> has_prefix(uri@, "magnet:"@),
{
    let m = hightorrent::MagnetLink::new(uri)?;
    Ok((m.hash().to_string(), m.id().as_str().to_string(), m.name().to_string()))
}

/// Trusted: `hightorrent::TorrentFile::from_slice`, then the file's
/// `hash()`. The parse is only named; the hash comes from `InfoHash::new`
/// (lowercase hexadecimal, 40 or 64 digits).
#[verifier::external_body]
pub(crate) fn parse_torrent_file(bytes: &[u8]) -> (res: Result<String, hightorrent::TorrentFileError>)
    ensures
        res is Ok <==> torrent_file_hash(bytes@) is Some,
        res is Ok ==> res.unwrap()@ == torrent_file_hash(bytes@).unwrap(),
        res is Ok ==> is_lower_info_hash(res.unwrap()@),
{
    Ok(hightorrent::TorrentFile::from_slice(bytes)?.hash().to_string())
}

/// Extracts the infohash of a magnet link
pub fn magnet_hash(magnet: &str) -> (res: Result<String, UploadError>)
    ensures
        match magnet_parse(magnet@) {
            Some(p) => res matches Ok(h) && h@ == p.0 && is_lower_info_hash(h@),
            None => res matches Err(UploadError::WrongMagnet { .. }),
        },
{
    match parse_magnet(magnet) {
        Ok((hash, _id, _name)) => Ok(hash),
        Err(e) => Err(UploadError::WrongMagnet { source: e }),
    }
}

/// Extracts the infohash of the content of a torrent file
pub fn torrent_hash(torrent: &[u8]) -> (res: Result<String, UploadError>)
    ensures
        match torrent_file_hash(torrent@) {
            Some(h) => res matches Ok(r) && r@ == h && is_lower_info_hash(r@),
            None => res matches Err(UploadError::WrongTorrent { .. }),
        },
{
    match parse_torrent_file(torrent) {
        Ok(hash) => Ok(hash),
        Err(e) => Err(UploadError::WrongTorrent { source: e }),
    }
}

proof fn lemma_info_hash_no_slash(h: Seq<char>)
    requires
        is_info_hash(h),
    ensures
        !h.contains('/'),
{
    if h.contains('/') {
        let i = choose|i: int| 0 <= i < h.len() && h[i] == '/';
        assert(crate::database::uploads::is_hex_digit(h[i]));
    }
}

/// The upload id of an info hash: it never contains `/`, so this cannot fail.
pub fn hash_upload_id(hash: &str, magnet: bool) -> (res: UploadID)
    requires
        is_info_hash(hash@),
    ensures
        Ok::<(Seq<char>, crate::database::UploadType, Seq<char>), Seq<char>>(res@) == new_id(
            hash@,
            if magnet { crate::database::UploadType::Magnet } else { crate::database::UploadType::Torrent },
        ),
{
    proof {
        lemma_info_hash_no_slash(hash@);
    }
    let r = if magnet { UploadID::magnet(hash) } else { UploadID::torrent(hash) };
    match r {
        Ok(id) => id,
        Err(_) => vstd::pervasive::unreached(),
    }
}

/// After storing the upload `id`: a storage failure refuses the upload.
pub fn stored(id: UploadID, result: Result<(), DatabaseError>) -> (res: Result<UploadID, UploadError>)
    ensures
        match result {
            Ok(()) => res == Ok::<UploadID, UploadError>(id),
            Err(e) => res matches Err(UploadError::FailedDatabase { source }) && source == e,
        },
{
    match result {
        Ok(()) => Ok(id),
        Err(e) => Err(UploadError::FailedDatabase { source: e }),
    }
}

/// After asking the torrent client whether it already has the upload `id`:
/// a known torrent is a duplicate, a failed query refuses the upload.
pub fn backend_checked(id: UploadID, found: Result<bool, hightorrent_api::ApiError>) -> (res: Result<UploadID, UploadError>)
    ensures
        match found {
            Ok(false) => res == Ok::<UploadID, UploadError>(id),
            Ok(true) => res matches Err(UploadError::DuplicateBackendTorrent { id: t }) && t@ == id@.2,
            Err(e) => res matches Err(UploadError::UploadBackend { source }) && source == e,
        },
{
    match found {
        Ok(false) => Ok(id),
        Ok(true) => {
            let text = id.to_string();
            Err(UploadError::DuplicateBackendTorrent { id: text })
        },
        Err(e) => Err(UploadError::UploadBackend { source: e }),
    }
}


/// Trusted: the `Display` text of a `hightorrent::MagnetLinkError`. The
/// text depends on the error's variant and fields, which are opaque here, so
/// nothing is stated of it.
#[verifier::external_body]
pub(crate) fn magnet_error_text(e: &hightorrent::MagnetLinkError) -> String {
    e.to_string()
}

/// Trusted: the `Display` text of a `hightorrent::TorrentFileError`. The
/// text depends on the error's variant and fields, which are opaque here, so
/// nothing is stated of it.
#[verifier::external_body]
pub(crate) fn torrent_error_text(e: &hightorrent::TorrentFileError) -> String {
    e.to_string()
}

/// Trusted: the `Display` text of a `hightorrent_api::ApiError`. The text
/// depends on the error's variant and fields, which are opaque here, so
/// nothing is stated of it.
#[verifier::external_body]
pub(crate) fn api_error_text(e: &hightorrent_api::ApiError) -> String {
    e.to_string()
}

/// The message of an [`UploadError`]; for an error around an error of the
/// torrent crates, the part before that error's own text.
pub open spec fn upload_error_text(e: UploadError) -> Seq<char> {
    match e {
        UploadError::MissingCollection => "Please give a collection tag to place the content"@,
        UploadError::WrongCollection { collection } => "Wrong collection: "@ + collection@,
        UploadError::FailedReadTorrent { path, reason } => "Failed to read torrent file "@ + path@ + ":\n"@ + reason@,
        UploadError::WrongTorrent { .. } => "Wrong uploaded torrent:\n"@,
        UploadError::WrongMagnet { .. } => "Wrong uploaded magnet:\n"@,
        UploadError::MissingTorrentOrMagnet => "Please give a torrent file or magnet URI"@,
        UploadError::BothTorrentAndMagnet => "You gave a torrent AND a magnet URI. Please choose wisely"@,
        UploadError::FailedDatabase { source } => "Failed to write torrent/magnet to disk:\n"@ + database_text(source),
        UploadError::FailedWrite { reason } => "Failed to write torrent/magnet to disk:\n"@ + reason@,
        UploadError::WrongUploadPath => "The proposed uploaded is invalid!"@,
        UploadError::WrongUploadID { id } => "The submitted UploadID does not exist: "@ + id@,
        UploadError::DuplicateBackendTorrent { id } => "The submitted torrent/magnet is already in qbittorrent backend: "@
            + id@,
        UploadError::UploadBackend { .. } => "Could not add or check torrent/magnet because of backend error:\n"@,
    }
}

/// Whether [`upload_error_text`] is the whole message (the error holds no
/// error of the torrent crates).
pub open spec fn upload_error_text_whole(e: UploadError) -> bool {
    !(e is WrongTorrent || e is WrongMagnet || e is UploadBackend)
}

impl UploadError {
    /// The message shown for this error.
    pub fn message(&self) -> (res: String)
        ensures
            has_prefix(res@, upload_error_text(*self)),
            upload_error_text_whole(*self) ==> res@ == upload_error_text(*self),
    {
        let res = match self {
            UploadError::MissingCollection => owned("Please give a collection tag to place the content"),
            UploadError::WrongCollection { collection } => concatenated("Wrong collection: ", collection.as_str()),
            UploadError::FailedReadTorrent { path, reason } => {
                let a = concatenated("Failed to read torrent file ", path.as_str());
                let b = concatenated(a.as_str(), ":\n");
                concatenated(b.as_str(), reason.as_str())
            },
            UploadError::WrongTorrent { source } => {
                concatenated("Wrong uploaded torrent:\n", torrent_error_text(source).as_str())
            },
            UploadError::WrongMagnet { source } => {
                concatenated("Wrong uploaded magnet:\n", magnet_error_text(source).as_str())
            },
            UploadError::MissingTorrentOrMagnet => owned("Please give a torrent file or magnet URI"),
            UploadError::BothTorrentAndMagnet => owned("You gave a torrent AND a magnet URI. Please choose wisely"),
            UploadError::FailedDatabase { source } => {
                concatenated("Failed to write torrent/magnet to disk:\n", source.message().as_str())
            },
            UploadError::FailedWrite { reason } => {
                concatenated("Failed to write torrent/magnet to disk:\n", reason.as_str())
            },
            UploadError::WrongUploadPath => owned("The proposed uploaded is invalid!"),
            UploadError::WrongUploadID { id } => concatenated("The submitted UploadID does not exist: ", id.as_str()),
            UploadError::DuplicateBackendTorrent { id } => {
                concatenated("The submitted torrent/magnet is already in qbittorrent backend: ", id.as_str())
            },
            UploadError::UploadBackend { source } => concatenated(
                "Could not add or check torrent/magnet because of backend error:\n",
                api_error_text(source).as_str(),
            ),
        };
        proof {
            let p = upload_error_text(*self);
            assert(res@.subrange(0, p.len() as int) =~= p);
        }
        res
    }
}


/// The page that answers a submitted upload form.
#[derive(Clone, Copy, Debug, PartialEq, Eq, Structural)]
pub enum UploadPage {
    /// The upload form itself, to submit again.
    Index,
    /// The confirmation form, to choose where the content goes.
    Step1,
    /// The outcome of the confirmation.
    Step2,
}

/// `shown` is how the page shows the error `e`: its message, line breaks
/// shown as `<br>`.
pub open spec fn shows_error(e: UploadError, shown: Seq<char>) -> bool {
    &&& has_prefix(shown, html_lines(upload_error_text(e)))
    &&& upload_error_text_whole(e) ==> shown == html_lines(upload_error_text(e))
}

/// Adds the messages of `errors` to the errors of `context`, in order.
pub(crate) fn show_errors(errors: Vec<UploadError>, context: &mut Context)
    ensures
        final(context).errors@.len() == old(context).errors@.len() + errors@.len(),
        final(context).errors@.subrange(0, old(context).errors@.len() as int) == old(context).errors@,
        forall|i: int|
            0 <= i < errors@.len() ==> shows_error(#[trigger] errors@[i], final(context).errors@[old(context).errors@.len() + i]@),
        final(context).warnings == old(context).warnings,
        final(context).extra == old(context).extra,
{
    let ghost start = context.errors@;
    let mut i: usize = 0;
    while i < errors.len()
        invariant
            i <= errors@.len(),
            context.errors@.len() == start.len() + i,
            context.errors@.subrange(0, start.len() as int) == start,
            forall|j: int| 0 <= j < i ==> shows_error(#[trigger] errors@[j], context.errors@[start.len() + j]@),
            context.warnings == old(context).warnings,
            start == old(context).errors@,
            context.extra == old(context).extra,
        decreases errors@.len() - i,
    {
        let message = errors[i].message();
        let ghost before = context.errors@;
        context.error(message.as_str());
        proof {
            let e = errors@[i as int];
            let p = upload_error_text(e);
            assert(message@ =~= p + message@.subrange(p.len() as int, message@.len() as int));
            lemma_html_lines_concat(p, message@.subrange(p.len() as int, message@.len() as int));
            let shown = context.errors@.last()@;
            assert(shown.subrange(0, html_lines(p).len() as int) =~= html_lines(p));
            assert(context.errors@ == before.push(context.errors@.last()));
            assert(context.errors@.subrange(0, start.len() as int) =~= before.subrange(0, start.len() as int));
            assert forall|j: int| 0 <= j < i + 1 implies shows_error(#[trigger] errors@[j], context.errors@[start.len() + j]@) by {
                if j < i {
                    assert(context.errors@[start.len() + j] == before[start.len() + j]);
                }
            }
        }
        i = i + 1;
    }
}

} // verus!
