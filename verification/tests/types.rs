use spacetaxi::types::{UploadMetadata, UrlFragment};
use std::collections::HashMap;

// The JSON text of a fragment is read back with serde_json into a map of its members.
fn read_back(encoded: &str) -> UrlFragment {
    let members: HashMap<String, String> = serde_json::from_str(encoded).unwrap();
    UrlFragment {
        key: members.get("key").cloned(),
        salt: members.get("salt").cloned(),
        nonce: members.get("nonce").cloned(),
    }
}

#[test]
fn test_metadata_defaults() {
    let meta = UploadMetadata::default();
    assert!(!meta.one_time);
    assert!(meta.max_downloads.is_none());
    assert!(!meta.has_password);
}

#[test]
fn test_url_fragment_key() {
    let key = [0u8; 32];
    let fragment = UrlFragment::new_with_key(&key);
    let encoded = fragment.encode();
    let decoded = read_back(&encoded);
    assert_eq!(decoded.get_key().unwrap(), key.to_vec());
    assert!(decoded.get_salt().is_none());
}

#[test]
fn test_url_fragment_salt() {
    let salt = [1u8; 16];
    let fragment = UrlFragment::new_with_salt(&salt);
    let encoded = fragment.encode();
    let decoded = read_back(&encoded);
    assert!(decoded.get_key().is_none());
    assert_eq!(decoded.get_salt().unwrap(), salt.to_vec());
}

#[test]
fn test_url_fragment_chunked() {
    let key = [2u8; 32];
    let nonce = [3u8; 24];
    let fragment = UrlFragment::new_chunked(&key, &nonce);
    let encoded = fragment.encode();
    let decoded = read_back(&encoded);
    assert_eq!(decoded.get_key().unwrap(), key.to_vec());
    assert_eq!(decoded.get_nonce().unwrap(), nonce.to_vec());
}

#[test]
fn default_metadata_names_the_file_file() {
    let meta = UploadMetadata::default();
    assert_eq!(meta.filename, "file");
    assert!(meta.expires_at.is_none());
}

#[test]
fn fragment_json_is_compact_with_absent_fields_left_out() {
    let f = UrlFragment::new_with_key(&[0u8; 3]);
    assert_eq!(f.encode(), "{\"key\":\"AAAA\"}");
    let g = UrlFragment::new_chunked_with_password(&[255u8; 2], &[251u8]);
    assert_eq!(g.encode(), "{\"salt\":\"__8\",\"nonce\":\"-w\"}");
    let empty = UrlFragment { key: None, salt: None, nonce: None };
    assert_eq!(empty.encode(), "{}");
    let all = UrlFragment { key: Some("a\"b".to_string()), salt: Some("s".to_string()), nonce: Some("n".to_string()) };
    assert_eq!(all.encode(), "{\"key\":\"a\\\"b\",\"salt\":\"s\",\"nonce\":\"n\"}");
}

#[test]
fn fragment_fields_use_url_safe_base64_without_padding() {
    let f = UrlFragment::new_with_key(&[0xfb, 0xff]);
    assert_eq!(f.key.as_deref(), Some("-_8"));
    assert_eq!(f.get_key().unwrap(), vec![0xfb, 0xff]);
    assert!(f.salt.is_none());
    assert!(f.nonce.is_none());
}

#[test]
fn undecodable_key_gives_none() {
    let f = UrlFragment { key: Some("!!".to_string()), salt: Some("AAAA====".to_string()), nonce: None };
    assert!(f.get_key().is_none());
    assert!(f.get_salt().is_none());
    assert!(f.get_nonce().is_none());
}
