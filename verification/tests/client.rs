use spacetaxi::cli::{
    chunked_fragment, expiry_timestamp, file_chunk_count, humanize_duration, next_chunk_len,
    parse_duration, prepare_key, share_url, upload_notes_text, uses_simple_upload, DurationError,
    TimeSpan,
};
use spacetaxi::crypto::{derive_key_from_password, CHUNK_SIZE};
use spacetaxi::headers::{parse_headers, upload_headers};
use spacetaxi::types::{UploadMetadata, UrlFragment};

fn secs(n: u64) -> TimeSpan {
    TimeSpan { secs: n, nanos: 0 }
}

#[test]
fn durations_with_units() {
    assert_eq!(parse_duration("24h").unwrap(), secs(86400));
    assert_eq!(parse_duration("7d").unwrap(), secs(604800));
    assert_eq!(parse_duration("30m").unwrap(), secs(1800));
    assert_eq!(parse_duration(" 90 ").unwrap(), secs(90));
    assert_eq!(parse_duration("2weeks").unwrap(), secs(1209600));
    assert_eq!(parse_duration("1hr").unwrap(), secs(3600));
    assert_eq!(parse_duration("1500ms").unwrap(), TimeSpan { secs: 1, nanos: 500_000_000 });
    assert_eq!(parse_duration("+5ms").unwrap(), TimeSpan { secs: 0, nanos: 5_000_000 });
}

#[test]
fn bad_durations() {
    match parse_duration("   ") {
        Err(DurationError::Invalid(m)) => assert_eq!(m, "empty duration"),
        other => panic!("{:?}", other),
    }
    match parse_duration(" 5x ") {
        Err(DurationError::Invalid(m)) => assert_eq!(m, "5x"),
        other => panic!("{:?}", other),
    }
    match parse_duration("h") {
        Err(DurationError::Invalid(m)) => assert_eq!(m, "h"),
        other => panic!("{:?}", other),
    }
    assert!(matches!(parse_duration("18446744073709551615w"), Err(DurationError::TooLong)));
    assert!(matches!(parse_duration("-1h"), Err(DurationError::Invalid(_))));
}

#[test]
fn humanized_durations() {
    assert_eq!(humanize_duration(&secs(59)), "59 seconds");
    assert_eq!(humanize_duration(&secs(60)), "1 minutes");
    assert_eq!(humanize_duration(&secs(7199)), "1 hours");
    assert_eq!(humanize_duration(&secs(86400)), "1 days");
    assert_eq!(humanize_duration(&secs(604800)), "7 days");
}

#[test]
fn expiry_and_upload_mode() {
    assert_eq!(expiry_timestamp(1000, &secs(60)), 1060);
    assert!(uses_simple_upload(50 * 1024 * 1024));
    assert!(!uses_simple_upload(50 * 1024 * 1024 + 1));
    assert_eq!(file_chunk_count(0), 0);
    assert_eq!(file_chunk_count(CHUNK_SIZE as u64), 1);
    assert_eq!(file_chunk_count(CHUNK_SIZE as u64 + 1), 2);
    assert_eq!(next_chunk_len(25, 20), 5);
    assert_eq!(next_chunk_len(3 * CHUNK_SIZE as u64, 0), CHUNK_SIZE);
}

#[test]
fn headers_read_back_as_sent() {
    let meta = UploadMetadata {
        one_time: true,
        max_downloads: Some(10),
        expires_at: Some(-42),
        has_password: false,
        filename: "résumé \"final\".pdf".to_string(),
    };
    let headers = upload_headers(&meta);
    let get = |name: &str| headers.iter().find(|(k, _)| k == name).map(|(_, v)| v.as_str());
    assert_eq!(get("X-One-Time"), Some("true"));
    assert_eq!(get("X-Has-Password"), Some("false"));
    assert_eq!(get("X-Max-Downloads"), Some("10"));
    assert_eq!(get("X-Expires"), Some("-42"));
    let back = parse_headers(
        get("X-One-Time"),
        get("X-Max-Downloads"),
        get("X-Expires"),
        get("X-Has-Password"),
        get("X-Filename"),
    );
    assert_eq!(back.one_time, meta.one_time);
    assert_eq!(back.max_downloads, meta.max_downloads);
    assert_eq!(back.expires_at, meta.expires_at);
    assert_eq!(back.has_password, meta.has_password);
    assert_eq!(back.filename, meta.filename);
}

#[test]
fn file_name_header_is_standard_base64() {
    let mut meta = UploadMetadata::default();
    meta.filename = "hello?".to_string();
    let headers = upload_headers(&meta);
    let name = headers.iter().find(|(k, _)| k == "X-Filename").map(|(_, v)| v.clone());
    assert_eq!(name.as_deref(), Some("aGVsbG8/"));
    assert_eq!(headers.len(), 3);
    let back = parse_headers(None, None, None, None, name.as_deref());
    assert_eq!(back.filename, "hello?");
}

#[test]
fn missing_or_bad_headers_take_defaults() {
    let m = parse_headers(Some("TRUE"), Some("-1"), Some("soon"), None, Some("%%%"));
    assert!(!m.one_time);
    assert!(m.max_downloads.is_none());
    assert!(m.expires_at.is_none());
    assert!(!m.has_password);
    assert_eq!(m.filename, "file");
    let n = parse_headers(None, Some("4294967296"), Some("-9223372036854775808"), Some("true"), Some("/w=="));
    assert!(n.max_downloads.is_none());
    assert_eq!(n.expires_at, Some(i64::MIN));
    assert!(n.has_password);
    assert_eq!(n.filename, "file");
}

#[test]
fn key_preparation_with_and_without_password() {
    let (key, f) = prepare_key(None).unwrap();
    assert_eq!(f.get_key().unwrap(), key.to_vec());
    assert!(f.salt.is_none());
    let (pkey, pf) = prepare_key(Some("hunter2")).unwrap();
    assert!(pf.key.is_none());
    let salt = pf.get_salt().unwrap();
    assert_eq!(salt.len(), 16);
    assert_eq!(derive_key_from_password("hunter2", &salt).unwrap(), pkey);
    let nonce = [4u8; 24];
    let cf = chunked_fragment(&pf, &pkey, &nonce, true);
    assert!(cf.key.is_none());
    assert_eq!(cf.get_salt().unwrap(), salt);
    assert_eq!(cf.get_nonce().unwrap(), nonce.to_vec());
    let kf = chunked_fragment(&f, &key, &nonce, false);
    assert_eq!(kf.get_key().unwrap(), key.to_vec());
}

#[test]
fn share_link_layout() {
    let f = UrlFragment::new_with_key(&[0u8; 3]);
    let url = share_url("https://example.org//", "abc123", &f);
    assert_eq!(url, "https://example.org/abc123#eyJrZXkiOiJBQUFBIn0");
}

#[test]
fn notes_after_upload() {
    let n = upload_notes_text(true, Some(3), &secs(3600), true);
    assert_eq!(
        n,
        vec![
            "Note: This link will expire after the first download.".to_string(),
            "Note: This link will expire in 1 hours.".to_string(),
            "Note: Password required to decrypt.".to_string(),
        ]
    );
    let m = upload_notes_text(false, Some(3), &secs(30), false);
    assert_eq!(
        m,
        vec![
            "Note: This link will expire after 3 downloads.".to_string(),
            "Note: This link will expire in 30 seconds.".to_string(),
        ]
    );
}

#[test]
fn client_chunks_cover_the_file() {
    for file_size in [0u64, 1, CHUNK_SIZE as u64 - 1, CHUNK_SIZE as u64, 3 * CHUNK_SIZE as u64 + 17] {
        let n = file_chunk_count(file_size);
        let mut processed = 0u64;
        for _ in 0..n {
            let len = next_chunk_len(file_size, processed);
            assert!(len > 0);
            processed += len as u64;
        }
        assert_eq!(processed, file_size);
    }
}
