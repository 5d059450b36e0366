use torrentmanager::guards::{redirect_param, InternalRedirect, NoInternalRedirect};

#[test]
fn internal_redirect_accepts_absolute_path() {
    let r = InternalRedirect::from_str("/upload").ok().unwrap();
    assert_eq!(r.to_string(), "/upload");
}

#[test]
fn internal_redirect_refuses_external_url() {
    let r = InternalRedirect::from_str("https://example.com/");
    assert!(matches!(r, Err(NoInternalRedirect::ExternalRedirect)));
    let r = InternalRedirect::from_str("");
    assert!(matches!(r, Err(NoInternalRedirect::ExternalRedirect)));
}

#[test]
fn redirect_encodes_to_base64_url() {
    let r = InternalRedirect::from_str("/upload").ok().unwrap();
    assert_eq!(r.as_base64(), "L3VwbG9hZA");
    let r = InternalRedirect::from_str("/café?x=1&y=2").ok().unwrap();
    assert_eq!(r.as_base64(), "L2NhZsOpP3g9MSZ5PTI");
}

#[test]
fn redirect_decodes_from_base64_url() {
    let r = InternalRedirect::from_base64("L3VwbG9hZC9zdGVwMg").ok().unwrap();
    assert_eq!(r.to_string(), "/upload/step2");
}

#[test]
fn redirect_base64_roundtrip() {
    for path in ["/", "/upload", "/café?x=1&y=2", "/a/b/c.d"] {
        let r = InternalRedirect::from_str(path).ok().unwrap();
        let back = InternalRedirect::from_base64(&r.as_base64()).ok().unwrap();
        assert_eq!(back.to_string(), path);
    }
}

#[test]
fn redirect_param_roundtrip() {
    assert_eq!(redirect_param("upload"), "L3VwbG9hZA");
    let back = InternalRedirect::from_base64(&redirect_param("upload/step2")).ok().unwrap();
    assert_eq!(back.to_string(), "/upload/step2");
}

#[test]
fn base64_redirect_to_external_url_is_refused() {
    let r = InternalRedirect::from_base64("aHR0cDovL2V2aWw");
    assert!(matches!(r, Err(NoInternalRedirect::ExternalRedirect)));
}

#[test]
fn invalid_base64_is_refused() {
    assert!(matches!(InternalRedirect::from_base64("!!!"), Err(NoInternalRedirect::InvalidBase64)));
    // Padding is not part of the URL-safe form
    assert!(matches!(InternalRedirect::from_base64("L3VwbG9hZA=="), Err(NoInternalRedirect::InvalidBase64)));
}

#[test]
fn invalid_utf8_is_refused() {
    assert!(matches!(InternalRedirect::from_base64("_w"), Err(NoInternalRedirect::InvalidBase64)));
}
