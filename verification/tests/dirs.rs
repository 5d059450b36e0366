use torrentmanager::database::{Collection, CollectionDB, Database, DatabaseError, DirConfig};
use torrentmanager::read_dir::{read_dir_into, ReadDirEntry, ReadDirError};
use torrentmanager::writable_dir::{ensure_writable_dir, failed_write_error, DirProbe, ProbeKind, SymlinkCause, WritableDirError};

fn dir(path: &str, writable: Result<bool, String>) -> DirProbe {
    DirProbe { path: path.to_string(), kind: ProbeKind::Dir { writable } }
}

#[test]
fn writable_directory_is_accepted() {
    assert!(ensure_writable_dir(&dir("/data", Ok(true))).is_ok());
}

#[test]
fn read_only_directory_is_refused() {
    match ensure_writable_dir(&dir("/data", Ok(false))) {
        Err(WritableDirError::Write { path }) => assert_eq!(path, "/data"),
        _ => panic!("expected a write error"),
    }
}

#[test]
fn unreadable_permissions_are_reported() {
    match ensure_writable_dir(&dir("/data", Err("denied".to_string()))) {
        Err(WritableDirError::Unknown { path, reason }) => {
            assert_eq!(path, "/data");
            assert_eq!(reason, "denied");
        }
        _ => panic!("expected an unknown error"),
    }
}

#[test]
fn missing_and_other_paths_are_refused() {
    let missing = DirProbe { path: "/nope".to_string(), kind: ProbeKind::Missing };
    assert!(matches!(ensure_writable_dir(&missing), Err(WritableDirError::Missing { .. })));
    let file = DirProbe { path: "/file".to_string(), kind: ProbeKind::Other };
    match ensure_writable_dir(&file) {
        Err(WritableDirError::Type { path }) => assert_eq!(path, "/file"),
        _ => panic!("expected a type error"),
    }
}

#[test]
fn symlink_to_writable_directory_is_accepted() {
    let link = DirProbe {
        path: "/link".to_string(),
        kind: ProbeKind::Symlink { resolved: Ok(Box::new(dir("/data", Ok(true)))) },
    };
    assert!(ensure_writable_dir(&link).is_ok());
}

#[test]
fn symlink_errors_wrap_the_target_error() {
    let link = DirProbe {
        path: "/link".to_string(),
        kind: ProbeKind::Symlink { resolved: Ok(Box::new(dir("/data", Ok(false)))) },
    };
    match ensure_writable_dir(&link) {
        Err(WritableDirError::Symlink { path, source: SymlinkCause::Target { source } }) => {
            assert_eq!(path, "/link");
            assert!(matches!(*source, WritableDirError::Write { .. }));
        }
        _ => panic!("expected a symlink error"),
    }
    let broken = DirProbe {
        path: "/broken".to_string(),
        kind: ProbeKind::Symlink { resolved: Err("no such file".to_string()) },
    };
    match ensure_writable_dir(&broken) {
        Err(WritableDirError::Symlink { path, source: SymlinkCause::Resolve { reason } }) => {
            assert_eq!(path, "/broken");
            assert_eq!(reason, "no such file");
        }
        _ => panic!("expected a symlink error"),
    }
}

#[test]
fn failed_write_prefers_the_parent_problem() {
    let e = failed_write_error("/data/f".to_string(), "disk full".to_string(), Ok(()));
    match e {
        WritableDirError::Unknown { path, reason } => {
            assert_eq!(path, "/data/f");
            assert_eq!(reason, "disk full");
        }
        _ => panic!("expected an unknown error"),
    }
    let e = failed_write_error(
        "/data/f".to_string(),
        "disk full".to_string(),
        Err(WritableDirError::Write { path: "/data".to_string() }),
    );
    assert!(matches!(e, WritableDirError::Write { .. }));
}

#[test]
fn read_dir_into_keeps_order() {
    let converted: Vec<Result<u32, ReadDirError>> = vec![Ok(3), Ok(1), Ok(2)];
    assert_eq!(read_dir_into(converted).ok().unwrap(), vec![3, 1, 2]);
    let empty: Vec<Result<u32, ReadDirError>> = vec![];
    assert!(read_dir_into(empty).ok().unwrap().is_empty());
}

#[test]
fn read_dir_into_stops_at_first_error() {
    let converted: Vec<Result<u32, ReadDirError>> = vec![
        Ok(1),
        Err(ReadDirError::DirEntry { path: "/a".to_string(), reason: "first".to_string() }),
        Err(ReadDirError::DirEntry { path: "/b".to_string(), reason: "second".to_string() }),
    ];
    match read_dir_into(converted) {
        Err(ReadDirError::DirEntry { path, reason }) => {
            assert_eq!(path, "/a");
            assert_eq!(reason, "first");
        }
        _ => panic!("expected the first error"),
    }
}

fn collection(name: &str) -> Collection {
    let entry = ReadDirEntry::new(name.to_string(), format!("/collections/{name}"));
    Collection::try_from(entry, Ok(()), format!("/real/{name}")).ok().unwrap()
}

#[test]
fn collection_from_entry() {
    let c = collection("Films");
    assert_eq!(c.name, "Films");
    assert_eq!(c.path, "/real/Films");
    let entry = ReadDirEntry::new("Bad".to_string(), "/collections/Bad".to_string());
    let r = Collection::try_from(entry, Err(WritableDirError::Type { path: "/collections/Bad".to_string() }), String::new());
    assert!(matches!(r, Err(ReadDirError::Transform { source: WritableDirError::Type { .. } })));
}

#[test]
fn collection_folders_are_entry_names() {
    let listing = Ok(vec![
        ReadDirEntry::new("Action".to_string(), "/real/Films/Action".to_string()),
        ReadDirEntry::new("Drama".to_string(), "/real/Films/Drama".to_string()),
    ]);
    assert_eq!(Collection::folders(listing).ok().unwrap(), vec!["Action".to_string(), "Drama".to_string()]);
    let failed = Err(ReadDirError::Dir { path: "/real/Films".to_string(), reason: "gone".to_string() });
    assert!(matches!(Collection::folders(failed), Err(DatabaseError::ReadDir { .. })));
}

fn two_collections() -> CollectionDB {
    CollectionDB::load(vec![Ok(collection("Films")), Ok(collection("Series"))]).ok().unwrap()
}

#[test]
fn collection_db_lookup() {
    let db = two_collections();
    assert_eq!(db.entries().len(), 2);
    assert_eq!(db.get("Series").unwrap().path, "/real/Series");
    assert!(db.get("Music").is_none());
    assert_eq!(db.duplicate().entries().len(), 2);
}

#[test]
fn collection_db_load_reports_first_error() {
    let r = CollectionDB::load(vec![
        Ok(collection("Films")),
        Err(ReadDirError::Transform { source: WritableDirError::Missing { path: "/x".to_string() } }),
    ]);
    assert!(matches!(r, Err(ReadDirError::Transform { .. })));
}

fn dirs() -> DirConfig {
    DirConfig {
        collections: "/collections".to_string(),
        uploads: "/uploads".to_string(),
        downloads: "/downloads".to_string(),
    }
}

#[test]
fn database_opens_when_all_dirs_are_writable() {
    let db = Database::from_dirs(&dirs(), Ok(()), Ok(()), Ok(()), Ok(two_collections())).ok().unwrap();
    assert_eq!(db.ttl, 60);
    assert_eq!(db.dirs.uploads, "/uploads");
    assert!(db.has_collection("Films"));
    assert!(!db.has_collection("Music"));
    assert_eq!(db.collections().entries().len(), 2);
    let id = torrentmanager::database::UploadID::torrent("abc").ok().unwrap();
    assert_eq!(db.uploads().upload_path(&id), "/uploads/abc.torrent");
    assert_eq!(db.save_paths().compute(&id).as_ref(), "/downloads/abc");
}

#[test]
fn database_reports_dirs_in_order() {
    let bad = || WritableDirError::Write { path: "/x".to_string() };
    let r = Database::from_dirs(&dirs(), Err(bad()), Err(bad()), Err(bad()), Ok(two_collections()));
    assert!(matches!(r, Err(DatabaseError::Collections { .. })));
    let r = Database::from_dirs(&dirs(), Ok(()), Err(bad()), Err(bad()), Ok(two_collections()));
    assert!(matches!(r, Err(DatabaseError::Uploads { .. })));
    let r = Database::from_dirs(&dirs(), Ok(()), Ok(()), Err(bad()), Ok(two_collections()));
    assert!(matches!(r, Err(DatabaseError::Downloads { .. })));
    let r = Database::from_dirs(
        &dirs(),
        Ok(()),
        Ok(()),
        Ok(()),
        Err(DatabaseError::Unknown { path: "/collections".to_string(), reason: "io".to_string() }),
    );
    assert!(matches!(r, Err(DatabaseError::Unknown { .. })));
}
