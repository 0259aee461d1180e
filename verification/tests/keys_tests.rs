use davy::errors::LaunchError;
use davy::keys::{
    aggregate_authorized_keys, encode_authorized_keys, key_file_order, plan_key_sources,
    KeySourcePlan,
};

#[test]
fn aggregation_joins_keys_with_trailing_newline() {
    let files = vec![b"keyA\nkeyB\n".to_vec(), b"keyC".to_vec()];
    let payload = aggregate_authorized_keys(&files).unwrap();
    assert_eq!(payload, b"keyA\nkeyB\nkeyC\n".to_vec());
}

#[test]
fn aggregation_keeps_duplicates_once_in_first_seen_order() {
    let files = vec![
        b"keyB\nkeyA\nkeyB\n".to_vec(),
        b"keyA\nkeyC\nkeyB\n".to_vec(),
    ];
    let payload = aggregate_authorized_keys(&files).unwrap();
    assert_eq!(payload, b"keyB\nkeyA\nkeyC\n".to_vec());
}

#[test]
fn aggregation_trims_lines_and_drops_empty_ones() {
    let files = vec![b"  keyA \r\n\n\t\nkeyA\n   \n".to_vec()];
    let payload = aggregate_authorized_keys(&files).unwrap();
    assert_eq!(payload, b"keyA\n".to_vec());
}

#[test]
fn aggregating_zero_keys_is_a_validation_error() {
    for files in [
        vec![],
        vec![b"".to_vec()],
        vec![b"  \n\r\n\t\n".to_vec(), b"\n".to_vec()],
    ] {
        match aggregate_authorized_keys(&files) {
            Err(LaunchError::Validation(m)) => {
                assert_eq!(
                    m,
                    "no SSH public keys found. Add ~/.ssh/*.pub or set DAVY_SSH_AUTHORIZED_KEYS_FILE"
                );
            }
            other => panic!("expected a validation error, got {:?}", other),
        }
    }
}

#[test]
fn encoding_matches_standard_base64() {
    assert_eq!(encode_authorized_keys(&b"foo".to_vec()).unwrap(), "Zm9v");
    assert_eq!(encode_authorized_keys(&b"x".to_vec()).unwrap(), "eA==");
    assert_eq!(encode_authorized_keys(&b"".to_vec()).unwrap(), "");
    assert_eq!(
        encode_authorized_keys(&b"ssh-ed25519 AAAA user@host\n".to_vec()).unwrap(),
        "c3NoLWVkMjU1MTkgQUFBQSB1c2VyQGhvc3QK"
    );
}

#[test]
fn key_file_order_filters_and_sorts() {
    let names: Vec<Vec<u8>> = vec![
        b"/s/b.pub".to_vec(),
        b"/s/a.pub".to_vec(),
        b"/s/c.txt".to_vec(),
        b"/s/.pub".to_vec(),
        b"/s/d.pub".to_vec(),
    ];
    let is_file = vec![true, true, true, true, false];
    let order = key_file_order(&names, &is_file);
    assert_eq!(order, vec![1usize, 0usize]);
}

#[test]
fn key_source_override_is_exclusive_and_must_exist() {
    match plan_key_sources(Some("/keys".to_owned()), true, &"/home/u".to_owned()) {
        Ok(KeySourcePlan::SingleFile(f)) => assert_eq!(f, "/keys"),
        other => panic!("expected the override file alone, got {:?}", result_kind(&other)),
    }
    match plan_key_sources(Some("/keys".to_owned()), false, &"/home/u".to_owned()) {
        Err(LaunchError::Configuration(m)) => {
            assert_eq!(m, "DAVY_SSH_AUTHORIZED_KEYS_FILE not found: /keys");
        }
        other => panic!("expected a configuration error, got {:?}", result_kind(&other)),
    }
}

#[test]
fn key_source_defaults_scan_the_ssh_directory() {
    match plan_key_sources(None, false, &"/home/u".to_owned()) {
        Ok(KeySourcePlan::ScanDefaults { authorized_keys, ssh_dir }) => {
            assert_eq!(authorized_keys, "/home/u/.ssh/authorized_keys");
            assert_eq!(ssh_dir, "/home/u/.ssh");
        }
        other => panic!("expected the default scan, got {:?}", result_kind(&other)),
    }
}

fn result_kind(r: &Result<KeySourcePlan, LaunchError>) -> &'static str {
    match r {
        Ok(KeySourcePlan::SingleFile(_)) => "single file",
        Ok(KeySourcePlan::ScanDefaults { .. }) => "scan defaults",
        Err(_) => "error",
    }
}
