use edgee::headers::Headers;

#[test]
fn headers_insert_replaces_and_remove_removes() {
    let mut h = Headers::new();
    h.insert("x-a", "1");
    h.insert("x-b", "2");
    h.insert("x-a", "3");
    assert_eq!(h.text("x-a"), Some("3".to_string()));
    assert_eq!(h.entries.len(), 2);
    h.remove("x-a");
    assert_eq!(h.text("x-a"), None);
    assert_eq!(h.text_or_empty("x-a"), "");
    assert_eq!(h.text("x-b"), Some("2".to_string()));
}

#[test]
fn headers_that_are_not_text_are_unreadable() {
    let mut h = Headers::new();
    h.insert("x-bin", "caf\u{e9}");
    assert!(h.unreadable("x-bin"));
    assert_eq!(h.text("x-bin"), None);
    assert!(!h.unreadable("x-none"));
}
