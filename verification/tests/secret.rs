use pinentry_fprint::secret::{
    keyring_tool, lookup_args, lookup_from_text, lookup_result, store_args, store_result, with_default_entry,
    StoreOutcome,
};

#[test]
fn command_lines() {
    assert_eq!(keyring_tool(), "secret-tool");
    assert_eq!(
        store_args("GRIP"),
        vec!["store", "--label", "GPG Passphrase (GRIP)", "application", "pinentry-fprint", "key-id", "GRIP"]
    );
    assert_eq!(lookup_args("GRIP"), vec!["lookup", "application", "pinentry-fprint", "key-id", "GRIP"]);
    assert_eq!(store_args("GRIP")[3..], lookup_args("GRIP")[1..]);
}

#[test]
fn store_results() {
    assert_eq!(store_result(StoreOutcome::Exited(true)), Ok(()));
    assert_eq!(store_result(StoreOutcome::Exited(false)), Err("secret-tool store failed".to_string()));
    assert_eq!(store_result(StoreOutcome::SpawnFailed("not found".into())), Err("spawn secret-tool: not found".to_string()));
    assert_eq!(store_result(StoreOutcome::WriteFailed("pipe".into())), Err("write: pipe".to_string()));
    assert_eq!(store_result(StoreOutcome::WaitFailed("x".into())), Err("wait: x".to_string()));
}

#[test]
fn lookup_results() {
    assert_eq!(lookup_result(true, b"pw"), Some("pw".to_string()));
    assert_eq!(lookup_result(true, b"pw\n"), Some("pw\n".to_string()));
    assert_eq!(lookup_result(true, b""), None);
    assert_eq!(lookup_result(false, b"pw"), None);
    assert_eq!(lookup_result(true, b"\xff"), Some("\u{FFFD}".to_string()));
}

#[test]
fn default_entry_is_added_last() {
    let keys = vec!["A".to_string(), "B".to_string()];
    assert_eq!(with_default_entry(&keys), vec!["A", "B", "default"]);
    assert_eq!(with_default_entry(&Vec::new()), vec!["default"]);
}

#[test]
fn lookup_from_decoded_text() {
    assert_eq!(lookup_from_text(true, "pw".to_string()), Some("pw".to_string()));
    assert_eq!(lookup_from_text(true, String::new()), None);
    assert_eq!(lookup_from_text(false, "pw".to_string()), None);
}
