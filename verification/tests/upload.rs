use torrentmanager::database::magnet::{
    create, created_log, deleted, found, resolved_list_unimported, MagnetError, MagnetForm, Model, Operation, OperationType,
    Table,
};
use torrentmanager::database::{Collection, CollectionDB, Database, DatabaseError, DirConfig, UploadID, UploadType};
use torrentmanager::read_dir::ReadDirEntry;
use torrentmanager::templating::context::Context;
use torrentmanager::upload::content::{Content, UploadForm as FirstForm};
use torrentmanager::upload::step1::{ContentSource, UploadForm};
use torrentmanager::upload::step2::ConfirmForm;
use torrentmanager::upload::{backend_checked, hash_upload_id, magnet_hash, stored, torrent_hash, UploadError};

const LOWER: &str = "c811b41641a09d192b8ed81b14064fff55d85ce3";
const MAGNET: &str = "magnet:?xt=urn:btih:C811B41641A09D192B8ED81B14064FFF55D85CE3&dn=Goldman%2C%20Emma";
const TORRENT: &[u8] = b"d4:infod6:lengthi1e4:name1:a12:piece lengthi16384e6:pieces20:aaaaaaaaaaaaaaaaaaaaee";

fn is_lower_hex_40(s: &str) -> bool {
    s.len() == 40 && s.chars().all(|c| c.is_ascii_digit() || ('a'..='f').contains(&c))
}

#[test]
fn magnet_hash_is_lowercase() {
    assert_eq!(magnet_hash(MAGNET).ok().unwrap(), LOWER);
}

#[test]
fn wrong_magnet_is_refused() {
    assert!(matches!(magnet_hash("not a magnet"), Err(UploadError::WrongMagnet { .. })));
    assert!(matches!(magnet_hash(""), Err(UploadError::WrongMagnet { .. })));
    assert!(matches!(magnet_hash("magnet:?xt=urn:btih:abc\n"), Err(UploadError::WrongMagnet { .. })));
}

#[test]
fn torrent_hash_of_file() {
    let hash = torrent_hash(TORRENT).ok().unwrap();
    assert!(is_lower_hex_40(&hash));
    assert!(matches!(torrent_hash(b"not bencode"), Err(UploadError::WrongTorrent { .. })));
}

#[test]
fn hash_upload_id_names_the_file() {
    let id = hash_upload_id(LOWER, true);
    assert_eq!(id.as_str(), format!("{LOWER}.magnet"));
    let id = hash_upload_id(LOWER, false);
    assert_eq!(id.kind(), UploadType::Torrent);
}

#[test]
fn stored_and_backend_checks() {
    let id = hash_upload_id(LOWER, true);
    assert!(stored(id, Ok(())).is_ok());
    let id = hash_upload_id(LOWER, true);
    let r = stored(id, Err(DatabaseError::InvalidContentID { id: "x".to_string() }));
    assert!(matches!(r, Err(UploadError::FailedDatabase { .. })));
    let id = hash_upload_id(LOWER, true);
    assert!(backend_checked(id, Ok(false)).is_ok());
    let id = hash_upload_id(LOWER, true);
    match backend_checked(id, Ok(true)) {
        Err(UploadError::DuplicateBackendTorrent { id }) => assert_eq!(id, format!("{LOWER}.magnet")),
        _ => panic!("expected a duplicate"),
    }
}

#[test]
fn content_from_magnet_form() {
    let mut ctx = Context::new();
    match Content::from_form(MAGNET, None, &mut ctx) {
        Some(Content::Magnet(m)) => {
            assert_eq!(m.hash, LOWER);
            assert_eq!(m.uri, MAGNET);
        }
        _ => panic!("expected a magnet"),
    }
    assert!(!ctx.has_errors());
}

#[test]
fn content_from_torrent_form() {
    let mut ctx = Context::new();
    match Content::from_form("", Some(Ok(TORRENT.to_vec())), &mut ctx) {
        Some(Content::Torrent(t)) => {
            assert!(is_lower_hex_40(&t.hash));
            assert_eq!(t.path, "/tmp/lol.torrent");
        }
        _ => panic!("expected a torrent"),
    }
    assert!(!ctx.has_errors());
}

#[test]
fn content_form_errors() {
    let mut ctx = Context::new();
    assert!(Content::from_form("", None, &mut ctx).is_none());
    assert_eq!(ctx.errors, vec!["Please provide a magnet URI or a torrent file".to_string()]);

    let mut ctx = Context::new();
    assert!(Content::from_form("garbage", None, &mut ctx).is_none());
    assert!(ctx.errors[0].starts_with("Wrong uploaded magnet:\n"));

    let mut ctx = Context::new();
    assert!(Content::from_form("", Some(Ok(b"xx".to_vec())), &mut ctx).is_none());
    assert!(ctx.errors[0].starts_with("Wrong uploaded torrent:\n"));

    let mut ctx = Context::new();
    assert!(Content::from_form("", Some(Err("cannot store".to_string())), &mut ctx).is_none());
    assert_eq!(ctx.errors, vec!["cannot store".to_string()]);
}

fn database() -> Database {
    let entry = ReadDirEntry::new("Films".to_string(), "/collections/Films".to_string());
    let films = Collection::try_from(entry, Ok(()), "/real/Films".to_string()).ok().unwrap();
    let collections = CollectionDB::load(vec![Ok(films)]).ok().unwrap();
    let dirs = DirConfig {
        collections: "/collections".to_string(),
        uploads: "/uploads".to_string(),
        downloads: "/downloads".to_string(),
    };
    Database::from_dirs(&dirs, Ok(()), Ok(()), Ok(()), Ok(collections)).ok().unwrap()
}

fn upload_form(collection: Option<&str>, magnet: &str, torrent_len: usize) -> UploadForm {
    UploadForm { collection: collection.map(|c| c.to_string()), magnet: Some(magnet.to_string()), torrent_len: Some(torrent_len) }
}

#[test]
fn step1_collection_checks() {
    let db = database();
    assert_eq!(upload_form(Some("Films"), "", 0).verify_collection(&db).ok().unwrap().path, "/real/Films");
    assert!(matches!(upload_form(None, "", 0).verify_collection(&db), Err(UploadError::MissingCollection)));
    match upload_form(Some("Music"), "", 0).verify_collection(&db) {
        Err(UploadError::WrongCollection { collection }) => assert_eq!(collection, "Music"),
        _ => panic!("expected a wrong collection"),
    }
}

#[test]
fn step1_content_checks() {
    match upload_form(None, MAGNET, 0).verify_content() {
        Ok(ContentSource::Magnet { id }) => assert_eq!(id.as_str(), format!("{LOWER}.magnet")),
        _ => panic!("expected a magnet"),
    }
    assert!(matches!(upload_form(None, "", 12).verify_content(), Ok(ContentSource::Torrent)));
    assert!(matches!(upload_form(None, MAGNET, 12).verify_content(), Err(UploadError::BothTorrentAndMagnet)));
    assert!(matches!(upload_form(None, "", 0).verify_content(), Err(UploadError::MissingTorrentOrMagnet)));
    assert!(matches!(upload_form(None, "nope", 0).verify_content(), Err(UploadError::WrongMagnet { .. })));
}

#[test]
fn step1_torrent_id() {
    let id = UploadForm::torrent_id(Ok(TORRENT.to_vec())).ok().unwrap();
    assert_eq!(id.kind(), UploadType::Torrent);
    assert!(id.as_str().ends_with(".torrent"));
    let r = UploadForm::torrent_id(Err(UploadError::FailedWrite { reason: "full".to_string() }));
    assert!(matches!(r, Err(UploadError::FailedWrite { .. })));
}

#[test]
fn step1_validate_reports_both_errors() {
    let form = upload_form(Some("Films"), MAGNET, 0);
    let folders = UploadForm::collection_folders(Ok(vec!["Action".to_string()]));
    let v = form.validate(Ok(hash_upload_id(LOWER, true)), folders).ok().unwrap();
    assert_eq!(v.collection, "Films");
    assert_eq!(v.collection_folders, vec!["Action".to_string()]);

    let folders = UploadForm::collection_folders(Err(DatabaseError::Unknown { path: "/".to_string(), reason: "io".to_string() }));
    match form.validate(Err(UploadError::MissingTorrentOrMagnet), folders) {
        Err(errors) => {
            assert_eq!(errors.len(), 2);
            assert!(matches!(errors[0], UploadError::MissingTorrentOrMagnet));
            assert!(matches!(errors[1], UploadError::FailedDatabase { .. }));
        }
        Ok(_) => panic!("expected errors"),
    }
}

fn confirm_form(collection: Option<&str>, content: &str, basedir: &str, targetdir: &str) -> ConfirmForm {
    ConfirmForm {
        collection: collection.map(|c| c.to_string()),
        content: Some(content.to_string()),
        basedir: Some(basedir.to_string()),
        targetdir: Some(targetdir.to_string()),
    }
}

#[test]
fn step2_accepts_a_good_form() {
    let db = database();
    let form = confirm_form(Some("Films"), &format!("{LOWER}.torrent"), "Action", "");
    let content = ConfirmForm::verify_content(form.content_id().ok().unwrap(), Ok(true));
    let v = form.validate(content, &db).ok().unwrap();
    assert_eq!(v.collection, "Films");
    assert_eq!(v.path.as_ref(), "Action");
    assert_eq!(v.content.as_str(), format!("{LOWER}.torrent"));
}

#[test]
fn step2_reports_all_errors_in_order() {
    let db = database();
    let form = confirm_form(Some("Music"), "whatever.txt", "/etc", "x");
    let content = form.content_id();
    assert!(matches!(content, Err(UploadError::FailedDatabase { source: DatabaseError::InvalidContentID { .. } })));
    match form.validate(content, &db) {
        Err(errors) => {
            assert_eq!(errors.len(), 3);
            assert!(matches!(errors[0], UploadError::FailedDatabase { .. }));
            assert!(matches!(errors[1], UploadError::WrongCollection { .. }));
            assert!(matches!(errors[2], UploadError::WrongUploadPath));
        }
        Ok(_) => panic!("expected errors"),
    }
}

#[test]
fn step2_missing_upload() {
    let id = UploadID::torrent(LOWER).ok().unwrap();
    match ConfirmForm::verify_content(id, Ok(false)) {
        Err(UploadError::WrongUploadID { id }) => assert_eq!(id, format!("{LOWER}.torrent")),
        _ => panic!("expected a wrong upload id"),
    }
    let form = confirm_form(None, "a.magnet", "", "");
    assert!(matches!(form.verify_collection(&database()), Err(UploadError::MissingCollection)));
    assert_eq!(form.verify_path().ok().unwrap().as_ref(), ".");
}

fn model(id: i32, torrent_id: &str, resolved: bool) -> Model {
    Model { id, torrent_id: torrent_id.to_string(), link: String::new(), name: String::new(), resolved }
}

#[test]
fn magnet_create_new() {
    let m = create(&form(MAGNET), &vec![model(1, "other", true)]).ok().unwrap();
    assert_eq!(m.torrent_id, LOWER);
    assert_eq!(m.name, "Goldman, Emma");
    assert_eq!(m.link, MAGNET);
    assert!(!m.resolved);
}

#[test]
fn magnet_create_refuses_duplicate_and_invalid() {
    match create(&form(MAGNET), &vec![model(1, LOWER, false)]) {
        Err(MagnetError::TorrentIDTaken { torrent_id }) => assert_eq!(torrent_id, LOWER),
        _ => panic!("expected a taken torrent id"),
    }
    assert!(matches!(create(&form("nope"), &vec![]), Err(MagnetError::InvalidMagnet { .. })));
}

#[test]
fn magnet_lookup_and_resolved_list() {
    assert_eq!(found(3, Some(model(3, "a", false))).ok().unwrap().id, 3);
    assert!(matches!(found(4, None), Err(MagnetError::NotFound { id: 4 })));
    let list = vec![model(1, "a", true), model(2, "b", false), model(3, "c", true)];
    let ids: Vec<i32> = resolved_list_unimported(list).iter().map(|m| m.id).collect();
    assert_eq!(ids, vec![1, 3]);
}

#[test]
fn first_form_validate() {
    let mut ctx = Context::new();
    let form = FirstForm { collection: Some("Films".to_string()), magnet: Some(MAGNET.to_string()) };
    let v = form.validate(None, &mut ctx).unwrap();
    assert_eq!(v.collection, "Films");
    assert!(matches!(v.content, Content::Magnet(ref m) if m.hash == LOWER));
    assert!(!ctx.has_errors());

    let mut ctx = Context::new();
    let form = FirstForm { collection: None, magnet: Some(String::new()) };
    assert!(form.validate(None, &mut ctx).is_none());
    assert_eq!(
        ctx.errors,
        vec![
            "Please give a collection tag to place the content".to_string(),
            "Please provide a magnet URI or a torrent file".to_string(),
        ]
    );

    let mut ctx = Context::new();
    let form = FirstForm { collection: None, magnet: Some(String::new()) };
    assert!(form.validate(Some(Ok(TORRENT.to_vec())), &mut ctx).is_none());
    assert_eq!(ctx.errors, vec!["Please give a collection tag to place the content".to_string()]);
}

fn form(magnet: &str) -> MagnetForm {
    MagnetForm { magnet: magnet.to_string() }
}

#[test]
fn magnet_operation_logs() {
    let m = model(7, LOWER, false);
    let log = created_log(&m, &form(MAGNET), Some("alice".to_string()), "2025-01-01".to_string());
    assert_eq!(log.table, Table::Magnet);
    assert_eq!(log.operation, OperationType::Create);
    assert_eq!(log.operation_id.object_id, 7);
    assert_eq!(log.user, Some("alice".to_string()));
    assert!(matches!(log.operation_form, Some(Operation::Magnet(ref f)) if f.magnet == MAGNET));

    let mut named = model(9, LOWER, true);
    named.name = "Goldman".to_string();
    let (name, log) = deleted(9, Some(named), None, "now".to_string()).ok().unwrap();
    assert_eq!(name, "Goldman");
    assert_eq!(log.operation, OperationType::Delete);
    assert_eq!(log.operation_id.name, "Goldman");
    assert!(log.operation_form.is_none());
    assert!(matches!(deleted(4, None, None, "now".to_string()), Err(MagnetError::NotFound { id: 4 })));
}
