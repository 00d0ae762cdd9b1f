use tn_file_upload::interceptor::resolve_request_id;

#[test]
fn generates_request_id_when_missing() {
    let id = resolve_request_id(None);
    assert!(!id.0.is_empty());
    // UUID v7 format
    assert_eq!(id.0.len(), 36);
}

#[test]
fn propagates_inbound_request_id() {
    let id = resolve_request_id(Some("my-trace-123".to_string()));
    assert_eq!(id.0, "my-trace-123");
}

#[test]
fn generated_request_id_is_a_hyphenated_v7_uuid() {
    let id = resolve_request_id(None).0;
    let chars: Vec<char> = id.chars().collect();
    assert_eq!(chars.len(), 36);
    for (i, c) in chars.iter().enumerate() {
        if [8, 13, 18, 23].contains(&i) {
            assert_eq!(*c, '-');
        } else {
            assert!(c.is_ascii_hexdigit() && !c.is_ascii_uppercase());
        }
    }
    assert_eq!(chars[14], '7');
    assert!(['8', '9', 'a', 'b'].contains(&chars[19]));
}

#[test]
fn generated_request_ids_differ() {
    let a = resolve_request_id(None).0;
    let b = resolve_request_id(None).0;
    assert_ne!(a, b);
}
