use nca_core::last_session::{session_from_content, LastSessionError, LastSessionStore};

#[test]
fn store_keeps_its_path() {
    let store = LastSessionStore::new("/w/.nca/.last_session");
    assert_eq!(store.path(), "/w/.nca/.last_session");
}

#[test]
fn content_is_trimmed() {
    assert_eq!(session_from_content("  sess-42\n").as_deref(), Some("sess-42"));
    assert_eq!(session_from_content("sess-42").as_deref(), Some("sess-42"));
    assert_eq!(session_from_content(" \n\t "), None);
    assert_eq!(session_from_content(""), None);
    assert_eq!(session_from_content("\u{3000}a b\u{2028}").as_deref(), Some("a b"));
}

#[test]
fn error_carries_message() {
    let e = LastSessionError::Io("denied".to_string());
    match e {
        LastSessionError::Io(m) => assert_eq!(m, "denied"),
    }
}
