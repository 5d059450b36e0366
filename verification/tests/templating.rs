use torrentmanager::templating::context::{Context, ContextValue};
use torrentmanager::templating::menu::{EntryFn, MenuEntry, MenuFn};

#[test]
fn context_insert_then_get() {
    let mut ctx = Context::new();
    assert!(ctx.get("name").is_none());
    ctx.insert_string("name", "value");
    assert!(matches!(ctx.get("name"), Some(ContextValue::Text(t)) if t == "value"));
    ctx.insert_bool("flag", true);
    assert!(matches!(ctx.get("flag"), Some(ContextValue::Bool(true))));
    // the earlier value is still there
    assert!(matches!(ctx.get("name"), Some(ContextValue::Text(t)) if t == "value"));
}

#[test]
fn context_insert_replaces() {
    let mut ctx = Context::new();
    ctx.insert_string("name", "first");
    ctx.insert_vec("name", vec!["a".to_string(), "b".to_string()]);
    assert!(matches!(ctx.get("name"), Some(ContextValue::List(l)) if l.len() == 2 && l[0] == "a"));
    assert_eq!(ctx.extra.len(), 1);
}

#[test]
fn context_errors_and_warnings() {
    let mut ctx = Context::new();
    assert!(!ctx.has_errors());
    ctx.warning("careful");
    assert!(!ctx.has_errors());
    ctx.error("line one\nline two");
    assert!(ctx.has_errors());
    assert_eq!(ctx.errors, vec!["line one<br>line two".to_string()]);
    assert_eq!(ctx.warnings, vec!["careful".to_string()]);
    ctx.error_owned("raw\ntext".to_string());
    assert_eq!(ctx.errors.len(), 2);
}

#[test]
fn context_from_errors() {
    let ctx = Context::from_error_slice(&["a".to_string(), "b".to_string()]);
    assert_eq!(ctx.errors, vec!["a".to_string(), "b".to_string()]);
    assert!(ctx.warnings.is_empty());
    assert!(ctx.has_errors());
}

#[test]
fn menu_entry_known_names() {
    let e = MenuEntry::from_str("upload").ok().unwrap();
    assert_eq!(e.link, "/upload");
    assert_eq!(e.icon, "fa-plus-square");
    assert_eq!(e.name, "Upload");
    let e = MenuEntry::from_str("chores2").ok().unwrap();
    assert_eq!(e.link, "/chores");
    assert_eq!(e.icon, "fa-textpattern");
}

#[test]
fn menu_entry_unknown_name() {
    match MenuEntry::from_str("nope") {
        Err(m) => assert_eq!(m, "Unknown menu entry: nope"),
        Ok(_) => panic!("unknown entry accepted"),
    }
}

#[test]
fn entry_function_needs_a_name() {
    match EntryFn.call(None) {
        Err(m) => assert_eq!(m, "`` requires a `name` argument with a string value"),
        Ok(_) => panic!("missing name accepted"),
    }
    assert_eq!(EntryFn.call(Some("logs".to_string())).ok().unwrap().link, "/logs");
}

#[test]
fn menu_function_lists_entries() {
    let es = MenuFn.call(Some(vec!["collections".to_string(), "progress".to_string()])).ok().unwrap();
    assert_eq!(es.len(), 2);
    assert_eq!(es[0].name, "Collections");
    assert_eq!(es[1].icon, "fa-spinner");
    match MenuFn.call(None) {
        Err(m) => assert_eq!(m, "`` requires an `entries` argument with a list of string values"),
        Ok(_) => panic!("missing entries accepted"),
    }
}

#[test]
fn errors_leave_named_values_alone() {
    let mut ctx = Context::new();
    ctx.insert_string("a", "1");
    ctx.insert_bool("b", true);
    ctx.error("oops");
    ctx.warning("careful");
    ctx.error_owned("raw".to_string());
    assert_eq!(ctx.extra.len(), 2);
    assert_eq!(ctx.extra[0].0, "a");
    assert_eq!(ctx.extra[1].0, "b");
}
