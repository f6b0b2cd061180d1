use clewdr_format::signature_store::{
    clear_thought_signature, get_thought_signature, has_valid_signature, store_thought_signature,
    SignatureStore,
};

#[test]
fn test_store_and_get_signature() {
    let mut store = SignatureStore::new();
    clear_thought_signature(&mut store);

    assert!(get_thought_signature(&store).is_none());

    store_thought_signature(&mut store, "test_signature_12345");
    assert_eq!(get_thought_signature(&store), Some("test_signature_12345".to_string()));
}

#[test]
fn test_store_longer_signature() {
    let mut store = SignatureStore::new();
    clear_thought_signature(&mut store);

    store_thought_signature(&mut store, "short");
    store_thought_signature(&mut store, "longer_signature");

    assert_eq!(get_thought_signature(&store), Some("longer_signature".to_string()));
}

#[test]
fn test_does_not_store_shorter_signature() {
    let mut store = SignatureStore::new();
    clear_thought_signature(&mut store);

    store_thought_signature(&mut store, "longer_signature");
    store_thought_signature(&mut store, "short");

    assert_eq!(get_thought_signature(&store), Some("longer_signature".to_string()));
}

#[test]
fn test_clear_signature() {
    let mut store = SignatureStore::new();
    store_thought_signature(&mut store, "test");
    clear_thought_signature(&mut store);

    assert!(get_thought_signature(&store).is_none());
}

#[test]
fn test_has_valid_signature() {
    let mut store = SignatureStore::new();
    clear_thought_signature(&mut store);

    assert!(!has_valid_signature(&store, 10));

    store_thought_signature(&mut store, "short");
    assert!(!has_valid_signature(&store, 10));
    assert!(has_valid_signature(&store, 5));

    store_thought_signature(&mut store, "longer_signature_12345");
    assert!(has_valid_signature(&store, 10));
}

#[test]
fn test_empty_signature_ignored() {
    let mut store = SignatureStore::new();
    clear_thought_signature(&mut store);
    store_thought_signature(&mut store, "valid");
    store_thought_signature(&mut store, "");

    assert_eq!(get_thought_signature(&store), Some("valid".to_string()));
}

#[test]
fn slot_length_never_drops_until_cleared() {
    let mut store = SignatureStore::new();
    let offers = ["abc", "a", "abcdef", "abcdeg", "", "xy", "0123456789"];
    let mut longest = 0usize;
    for sig in offers {
        store_thought_signature(&mut store, sig);
        let held = get_thought_signature(&store).map(|s| s.len()).unwrap_or(0);
        assert!(held >= longest);
        longest = held;
    }
    assert_eq!(get_thought_signature(&store), Some("0123456789".to_string()));
    clear_thought_signature(&mut store);
    assert!(get_thought_signature(&store).is_none());
}

#[test]
fn equal_length_signature_does_not_replace() {
    let mut store = SignatureStore::new();
    store_thought_signature(&mut store, "first_sig");
    store_thought_signature(&mut store, "other_sig");
    assert_eq!(get_thought_signature(&store), Some("first_sig".to_string()));
}
