use torrentmanager::read_dir::{listing_plan, ListedEntry, ListingStep, ReadDirEntry};
use torrentmanager::config::CategoryConfig;
use torrentmanager::paths::{file_name, join, until_first_dot};
use torrentmanager::timing::{is_html, replace_all, with_generation_time};
use torrentmanager::utils::unwrap_or_err;

#[test]
fn generation_time_is_filled_in() {
    let body = "<p>Generated in __GENERATION_TIME__</p><!-- __GENERATION_TIME__ -->";
    assert_eq!(with_generation_time(body, "3ms"), "<p>Generated in 3ms</p><!-- 3ms -->");
    assert_eq!(with_generation_time("nothing here", "3ms"), "nothing here");
}

#[test]
fn replace_all_does_not_overlap() {
    assert_eq!(replace_all("aaaa", "aa", "b"), "bb");
    assert_eq!(replace_all("aaa", "aa", "b"), "ba");
    assert_eq!(replace_all("héllo wörld", "ö", "o"), "héllo world");
    assert_eq!(replace_all("", "x", "y"), "");
}

#[test]
fn html_content_type() {
    assert!(is_html(b"text/html"));
    assert!(is_html(b"text/html; charset=utf-8"));
    assert!(!is_html(b"text/plain"));
    assert!(!is_html(b"text"));
    assert!(!is_html(b""));
}

#[test]
fn unwrap_or_err_collects_errors() {
    let mut errors: Vec<&str> = Vec::new();
    assert_eq!(unwrap_or_err::<u32, &str>(Ok(1), &mut errors), Some(1));
    assert!(errors.is_empty());
    assert_eq!(unwrap_or_err::<u32, &str>(Err("bad"), &mut errors), None);
    assert_eq!(unwrap_or_err::<u32, &str>(Err("worse"), &mut errors), None);
    assert_eq!(errors, vec!["bad", "worse"]);
}

#[test]
fn path_join() {
    assert_eq!(join("/a", "b"), "/a/b");
    assert_eq!(join("/a/", "b"), "/a/b");
    assert_eq!(join("/a", "/b"), "/b");
    assert_eq!(join("", "b"), "b");
}

#[test]
fn path_file_name() {
    assert_eq!(file_name("/a/b.txt"), Some("b.txt".to_string()));
    assert_eq!(file_name("/a/b/"), Some("b".to_string()));
    assert_eq!(file_name("/a/b/."), Some("b".to_string()));
    assert_eq!(file_name("b"), Some("b".to_string()));
    assert_eq!(file_name("/"), None);
    assert_eq!(file_name(""), None);
    assert_eq!(file_name("/a/.."), None);
}

#[test]
fn path_until_first_dot() {
    assert_eq!(until_first_dot("abc.torrent"), "abc");
    assert_eq!(until_first_dot("abc"), "abc");
    assert_eq!(until_first_dot(".hidden"), "");
}

#[test]
fn category_config_getters() {
    let c = CategoryConfig { id: 2, name: "Video".to_string(), path: "videos".to_string() };
    assert_eq!(c.id(), 2);
    assert_eq!(c.name(), "Video");
    assert_eq!(c.path(), "videos");
}

#[test]
fn progress_lists_files_of_a_single_torrent() {
    assert_eq!(torrentmanager::progress::files_target(&vec!["abc".to_string()]), Some("abc".to_string()));
    assert_eq!(torrentmanager::progress::files_target(&vec![]), None);
    assert_eq!(torrentmanager::progress::files_target(&vec!["a".to_string(), "b".to_string()]), None);
}

#[test]
fn replace_all_with_empty_pattern() {
    assert_eq!(replace_all("abc", "", "x"), "xaxbxcx");
    assert_eq!(replace_all("", "", "x"), "x");
    assert_eq!(replace_all("é", "", "-"), "-é-");
}

#[test]
fn trim_end_matches_empty_pattern() {
    assert_eq!(torrentmanager::text::trim_end_matches("abc", ""), "abc");
    assert_eq!(torrentmanager::text::trim_end_matches("abcbc", "bc"), "a");
}

#[test]
fn recursive_listing_plan() {
    let entry = |name: &str| ReadDirEntry::new(name.to_string(), format!("/d/{name}"));
    let listed = vec![
        ListedEntry { entry: entry("sub"), is_dir: true, is_symlink: false },
        ListedEntry { entry: entry("link"), is_dir: false, is_symlink: true },
        ListedEntry { entry: entry("file"), is_dir: false, is_symlink: false },
    ];
    let plan = listing_plan(&listed);
    assert_eq!(plan.len(), 4);
    assert!(matches!(&plan[0], ListingStep::Descend { path } if path == "/d/sub"));
    assert!(matches!(&plan[1], ListingStep::Keep { entry } if entry.name == "sub"));
    assert!(matches!(&plan[2], ListingStep::Keep { entry } if entry.name == "link"));
    assert!(matches!(&plan[3], ListingStep::Keep { entry } if entry.name == "file"));
}
