use torrentmanager::writable_dir::WritableDirError;
use torrentmanager::database::{DatabaseError, SavePathDB, UploadDB, UploadID, UploadPath, UploadType};

const HASH: &str = "C811B41641A09D192B8ED81B14064FFF55D85CE3";
const LOWER: &str = "c811b41641a09d192b8ed81b14064fff55d85ce3";

#[test]
fn upload_id_file_name_is_lowercased_hash_and_extension() {
    let id = UploadID::torrent(HASH).ok().unwrap();
    assert_eq!(id.hash(), HASH);
    assert_eq!(id.kind(), UploadType::Torrent);
    assert_eq!(id.as_str(), format!("{LOWER}.torrent"));
    let id = UploadID::magnet(HASH).ok().unwrap();
    assert_eq!(id.kind(), UploadType::Magnet);
    assert_eq!(id.to_string(), format!("{LOWER}.magnet"));
}

#[test]
fn upload_id_refuses_slash() {
    match UploadID::torrent("../etc/passwd") {
        Err(DatabaseError::InvalidContentID { id }) => assert_eq!(id, "../etc/passwd"),
        _ => panic!("a hash with a slash was accepted"),
    }
    match UploadID::from_str("a/b.magnet") {
        Err(DatabaseError::InvalidContentID { id }) => assert_eq!(id, "a/b"),
        _ => panic!("a hash with a slash was accepted"),
    }
}

#[test]
fn upload_id_from_str_reads_extension() {
    let id = UploadID::from_str("ABCDEF.torrent").ok().unwrap();
    assert_eq!(id.hash(), "ABCDEF");
    assert_eq!(id.kind(), UploadType::Torrent);
    assert_eq!(id.as_str(), "abcdef.torrent");
    let id = UploadID::from_str("abcdef.magnet").ok().unwrap();
    assert_eq!(id.kind(), UploadType::Magnet);
    // every repetition of the extension is stripped
    let id = UploadID::from_str("abc.torrent.torrent").ok().unwrap();
    assert_eq!(id.hash(), "abc");
    assert_eq!(id.as_str(), "abc.torrent");
}

#[test]
fn upload_id_from_str_refuses_unknown_extension() {
    match UploadID::from_str("abcdef.txt") {
        Err(DatabaseError::InvalidContentID { id }) => assert_eq!(id, "abcdef.txt"),
        _ => panic!("an unknown extension was accepted"),
    }
}

#[test]
fn upload_id_text_roundtrip() {
    let id = UploadID::magnet(HASH).ok().unwrap();
    let back = UploadID::from_str(id.as_str()).ok().unwrap();
    assert_eq!(back.hash(), LOWER);
    assert_eq!(back.kind(), UploadType::Magnet);
    assert_eq!(back.as_str(), id.as_str());
}

#[test]
fn upload_type_extension() {
    assert_eq!(UploadType::Magnet.as_ref(), ".magnet");
    assert_eq!(UploadType::Torrent.as_ref(), ".torrent");
}

#[test]
fn single_target_needs_an_info_hash() {
    let id = UploadID::torrent(HASH).ok().unwrap();
    assert!(id.try_single_target().is_some());
    let _ = id.single_target();
    let id = UploadID::torrent("abc").ok().unwrap();
    assert!(id.try_single_target().is_none());
}

#[test]
fn save_path_is_named_after_the_hash() {
    let db = SavePathDB::from("/downloads");
    let id = UploadID::torrent(HASH).ok().unwrap();
    assert_eq!(db.compute(&id).as_ref(), format!("/downloads/{LOWER}"));
    let db = SavePathDB::from("/downloads/");
    assert_eq!(db.try_compute(&id).unwrap().as_ref(), format!("/downloads/{LOWER}"));
}

#[test]
fn upload_file_lies_in_uploads_dir() {
    let db = UploadDB::from("/uploads");
    let id = UploadID::magnet(HASH).ok().unwrap();
    assert_eq!(db.upload_path(&id), format!("/uploads/{LOWER}.magnet"));
}

#[test]
fn upload_path_cases() {
    assert_eq!(UploadPath::from_str("", "").unwrap().to_string(), ".");
    assert_eq!(UploadPath::from_str(".", ".").unwrap().to_string(), ".");
    assert_eq!(UploadPath::from_str("Films", "").unwrap().to_string(), "Films");
    assert_eq!(UploadPath::from_str("", "Action").unwrap().to_string(), "./Action");
    assert_eq!(UploadPath::from_str("Films", "Action").unwrap().as_ref(), "Films/Action");
    // a trailing `..` component is no `../`, and passes
    assert_eq!(UploadPath::from_str("..", "x").unwrap().as_ref(), "../x");
    assert_eq!(UploadPath::from_str("..", "").unwrap().as_ref(), "..");
    assert_eq!(UploadPath::from_str("Films", "a..").unwrap().as_ref(), "Films/a..");
}

#[test]
fn upload_path_refuses_traversal() {
    assert!(UploadPath::from_str("/etc", "x").is_none());
    assert!(UploadPath::from_str("Films", "/etc").is_none());
    assert!(UploadPath::from_str("Films", "../../etc").is_none());
    assert!(UploadPath::from_str("a/../b", "x").is_none());
}

#[test]
fn upload_path_absolute() {
    let p = UploadPath::from_str("Films", "Action").unwrap();
    assert_eq!(p.absolute("/collections"), "/collections/Films/Action");
    assert_eq!(p.absolute("/collections/"), "/collections/Films/Action");
}

#[test]
fn add_request_tags_and_paths() {
    let uploads = UploadDB::from("/uploads");
    let save_paths = SavePathDB::from("/downloads");
    let id = UploadID::torrent(HASH).ok().unwrap();
    let final_path = UploadPath::from_str("movies", "x").unwrap();
    let req = id.add_request(&uploads, &save_paths, &final_path, "Movies").unwrap();
    assert_eq!(req.kind, UploadType::Torrent);
    assert_eq!(req.file, format!("/uploads/{LOWER}.torrent"));
    assert_eq!(req.save_path, format!("/downloads/{LOWER}"));
    // the tag is the standard Base64 form of the final path, with padding
    assert_eq!(req.tags, vec!["bW92aWVzL3g=".to_string(), "Movies".to_string()]);
}

#[test]
fn stored_upload_is_not_written_again() {
    assert!(UploadDB::needs_write(false));
    assert!(!UploadDB::needs_write(true));
    assert!(UploadDB::persisted(None).is_ok());
    assert!(UploadDB::persisted(Some(Ok(()))).is_ok());
    let r = UploadDB::persisted(Some(Err(WritableDirError::Write { path: "/u".to_string() })));
    assert!(matches!(r, Err(DatabaseError::PersistUpload { source: WritableDirError::Write { .. } })));
}
