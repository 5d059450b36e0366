use torrentmanager::database::{DatabaseError, UploadID, UploadPath};
use torrentmanager::order::{sort_texts, text_le};
use torrentmanager::read_dir::ReadDirError;
use torrentmanager::templating::context::{Context, ContextValue};
use torrentmanager::upload::step1::{self, ValidUploadForm};
use torrentmanager::upload::step2::{self, ValidConfirmForm};
use torrentmanager::upload::{UploadError, UploadPage};
use torrentmanager::writable_dir::{SymlinkCause, WritableDirError};

const HASH: &str = "C811B41641A09D192B8ED81B14064FFF55D85CE3";
const LOWER: &str = "c811b41641a09d192b8ed81b14064fff55d85ce3";

#[test]
fn texts_are_sorted_alphabetically() {
    let sorted = sort_texts(vec!["b".to_string(), "ab".to_string(), "a".to_string(), "é".to_string(), "Z".to_string()]);
    assert_eq!(sorted, vec!["Z", "a", "ab", "b", "é"]);
    let mut expected = sorted.clone();
    expected.sort();
    assert_eq!(sorted, expected);
    assert!(sort_texts(Vec::new()).is_empty());
}

#[test]
fn text_order() {
    assert!(text_le("a", "a"));
    assert!(text_le("a", "ab"));
    assert!(!text_le("ab", "a"));
    assert!(text_le("", "x"));
    assert!(text_le("B", "a"));
}

#[test]
fn writable_dir_messages() {
    assert_eq!(WritableDirError::Missing { path: "/x".to_string() }.message(), "Directory /x does not exist");
    let nested = WritableDirError::Symlink {
        path: "/link".to_string(),
        source: SymlinkCause::Target { source: Box::new(WritableDirError::Write { path: "/data".to_string() }) },
    };
    assert_eq!(
        nested.message(),
        "Symlink /link to a directory that does not exist, ir not a directory, or is not writable: \
         Write permission denied to directory /data"
    );
    let unknown = WritableDirError::Unknown { path: "/x".to_string(), reason: "denied".to_string() };
    assert_eq!(unknown.message(), "An unknown error occurred with /x: denied");
}

#[test]
fn database_messages() {
    let e = DatabaseError::Uploads { source: WritableDirError::Type { path: "/u".to_string() } };
    assert_eq!(e.message(), "Uploads dir is not writable:\nNot a directory or symlink: /u");
    let e = DatabaseError::ReadDir { source: ReadDirError::Dir { path: "/c".to_string(), reason: "gone".to_string() } };
    assert_eq!(e.message(), "Failed to read directory entries in /c:\ngone");
    assert_eq!(DatabaseError::InvalidContentID { id: "x/y".to_string() }.message(), "Invalid content id x/y");
}

#[test]
fn upload_messages() {
    assert_eq!(UploadError::MissingCollection.message(), "Please give a collection tag to place the content");
    assert_eq!(UploadError::WrongCollection { collection: "Music".to_string() }.message(), "Wrong collection: Music");
    let e = UploadError::FailedDatabase { source: DatabaseError::InvalidContentID { id: "a".to_string() } };
    assert_eq!(e.message(), "Failed to write torrent/magnet to disk:\nInvalid content id a");
    let e = UploadError::UploadBackend { source: hightorrent_api::ApiError::RejectedTorrent };
    assert!(e.message().starts_with("Could not add or check torrent/magnet because of backend error:\n"));
    assert!(e.message().len() > "Could not add or check torrent/magnet because of backend error:\n".len());
}

#[test]
fn step1_post_fills_the_confirmation() {
    let mut ctx = Context::new();
    let valid = ValidUploadForm {
        content: UploadID::torrent(HASH).ok().unwrap(),
        collection: "Films".to_string(),
        collection_folders: vec!["Drama".to_string(), "Action".to_string()],
    };
    assert_eq!(step1::post(Ok(valid), &mut ctx), UploadPage::Step1);
    assert!(matches!(ctx.get("collection"), Some(ContextValue::Text(t)) if t == "Films"));
    assert!(matches!(ctx.get("content"), Some(ContextValue::Text(t)) if *t == format!("{LOWER}.torrent")));
    assert!(matches!(ctx.get("folders"), Some(ContextValue::List(l)) if *l == vec!["Action".to_string(), "Drama".to_string()]));
    assert!(!ctx.has_errors());
}

#[test]
fn step1_post_shows_errors() {
    let mut ctx = Context::new();
    let errors = vec![UploadError::MissingCollection, UploadError::FailedWrite { reason: "disk\nfull".to_string() }];
    assert_eq!(step1::post(Err(errors), &mut ctx), UploadPage::Index);
    assert_eq!(
        ctx.errors,
        vec![
            "Please give a collection tag to place the content".to_string(),
            "Failed to write torrent/magnet to disk:<br>disk<br>full".to_string(),
        ]
    );
}

fn valid_confirm() -> ValidConfirmForm {
    ValidConfirmForm {
        content: UploadID::magnet(HASH).ok().unwrap(),
        collection: "Films".to_string(),
        path: UploadPath::from_str("Action", "").unwrap(),
    }
}

#[test]
fn step2_post_shows_added_target() {
    let mut ctx = Context::new();
    assert_eq!(step2::post(Ok((valid_confirm(), Ok(()))), &mut ctx), UploadPage::Step2);
    assert!(matches!(ctx.get("truncated_hash"), Some(ContextValue::Text(t)) if t == LOWER));
    assert!(!ctx.has_errors());
}

#[test]
fn step2_post_shows_backend_error() {
    let mut ctx = Context::new();
    let r = step2::post(Ok((valid_confirm(), Err(hightorrent_api::ApiError::RejectedTorrent))), &mut ctx);
    assert_eq!(r, UploadPage::Step2);
    assert_eq!(ctx.errors.len(), 1);
    assert!(ctx.get("truncated_hash").is_none());
}

#[test]
fn step2_post_shows_form_errors() {
    let mut ctx = Context::new();
    assert_eq!(step2::post(Err(vec![UploadError::WrongUploadPath]), &mut ctx), UploadPage::Step1);
    assert_eq!(ctx.errors, vec!["The proposed uploaded is invalid!".to_string()]);
}

#[test]
fn truncated_target_of_long_hash() {
    let id = UploadID::torrent(HASH).ok().unwrap();
    assert_eq!(id.truncated_target(), LOWER);
    let v2 = "A".repeat(64);
    let id = UploadID::torrent(&v2).ok().unwrap();
    assert_eq!(id.truncated_target(), "a".repeat(40));
}
