use spacetaxi::chunked::ChunkedUpload;
use spacetaxi::server::{
    authorize_delete, check_chunk_number, check_download_allowed, check_file_valid,
    check_upload_complete, check_upload_size, completed_upload_record, constant_time_eq,
    expired_file_ids, file_meta, file_not_found, generate_id, generate_token, html_escape,
    is_expired, require_delete_token, upload_not_found, upload_record, Config, FileRecord,
};

fn record(id: &str) -> FileRecord {
    FileRecord {
        id: id.to_string(),
        filename: "a.txt".to_string(),
        file_size: 10,
        created_at: 100,
        expires_at: None,
        download_count: 0,
        max_downloads: None,
        one_time: false,
        has_password: false,
        delete_token: "tok".to_string(),
        is_chunked: false,
        chunk_count: None,
    }
}

#[test]
fn test_constant_time_eq() {
    assert!(constant_time_eq(b"hello", b"hello"));
    assert!(!constant_time_eq(b"hello", b"world"));
    assert!(!constant_time_eq(b"hello", b"hell"));
}

#[test]
fn constant_time_eq_of_empty_inputs() {
    assert!(constant_time_eq(b"", b""));
    assert!(!constant_time_eq(b"", b"x"));
}

#[test]
fn expiry_time_limits_downloads() {
    let mut r = record("a");
    r.expires_at = Some(1000);
    assert!(check_file_valid(&r, 1000));
    assert!(!check_file_valid(&r, 1001));
    assert!(is_expired(&r, 1001));
    assert!(!is_expired(&r, 999));
}

#[test]
fn one_time_file_is_served_once() {
    let mut r = record("a");
    r.one_time = true;
    assert!(check_file_valid(&r, 0));
    r.download_count = 1;
    assert!(!check_file_valid(&r, 0));
    assert!(is_expired(&r, 0));
}

#[test]
fn download_limit_is_enforced() {
    let mut r = record("a");
    r.max_downloads = Some(2);
    r.download_count = 1;
    assert!(check_file_valid(&r, 0));
    r.download_count = 2;
    assert!(!check_file_valid(&r, 0));
    let e = check_download_allowed(&r, 0).unwrap_err();
    assert_eq!(e.status, 410);
    assert_eq!(e.message, "File expired or download limit reached");
}

#[test]
fn cleanup_selects_exactly_the_expired_files() {
    let mut a = record("a");
    a.expires_at = Some(5);
    let b = record("b");
    let mut c = record("c");
    c.one_time = true;
    c.download_count = 3;
    let ids = expired_file_ids(&vec![a, b, c], 10);
    assert_eq!(ids, vec!["a".to_string(), "c".to_string()]);
}

#[test]
fn meta_reports_record_fields() {
    let mut r = record("x");
    r.is_chunked = true;
    r.chunk_count = Some(4);
    r.has_password = true;
    let m = file_meta(&r);
    assert_eq!(m.filename, "a.txt");
    assert_eq!(m.size, 10);
    assert!(m.has_password);
    assert!(m.is_chunked);
    assert_eq!(m.chunk_count, Some(4));
}

#[test]
fn uploaded_record_starts_undownloaded() {
    let r = upload_record(
        "id".to_string(),
        "f".to_string(),
        42,
        7,
        Some(99),
        Some(3),
        true,
        false,
        "t".to_string(),
    );
    assert_eq!(r.file_size, 42);
    assert_eq!(r.download_count, 0);
    assert_eq!(r.max_downloads, Some(3));
    assert!(!r.is_chunked);
    assert!(r.chunk_count.is_none());
    assert_eq!(r.expires_at, Some(99));
}

#[test]
fn completed_chunked_upload_record() {
    let mut up = ChunkedUpload::new_at(
        "u".to_string(),
        "big.bin".to_string(),
        25,
        10,
        "/tmp/chunks".to_string(),
        false,
        Some(5),
        Some(1234),
        true,
        77,
    );
    assert!(check_upload_complete(&up).is_err());
    up.record_chunk(0);
    up.record_chunk(1);
    up.record_chunk(2);
    assert!(check_upload_complete(&up).is_ok());
    let r = completed_upload_record(up, "id".to_string(), "tok".to_string(), 25);
    assert_eq!(r.filename, "big.bin");
    assert_eq!(r.created_at, 77);
    assert_eq!(r.chunk_count, Some(3));
    assert!(r.is_chunked);
    assert!(r.has_password);
    assert_eq!(r.max_downloads, Some(5));
}

#[test]
fn refusals_have_statuses_and_messages() {
    let e = check_upload_size(11, 10).unwrap_err();
    assert_eq!((e.status, e.message.as_str()), (413, "File too large"));
    assert!(check_upload_size(10, 10).is_ok());
    let up = ChunkedUpload::new_at("u".into(), "f".into(), 20, 10, "d".into(), false, None, None, false, 0);
    let e = check_chunk_number(&up, 2).unwrap_err();
    assert_eq!((e.status, e.message.as_str()), (400, "Invalid chunk number"));
    assert!(check_chunk_number(&up, 1).is_ok());
    let e = check_upload_complete(&up).unwrap_err();
    assert_eq!((e.status, e.message.as_str()), (400, "Upload incomplete"));
    let e = upload_not_found();
    assert_eq!((e.status, e.message.as_str()), (404, "Upload not found"));
    let e = file_not_found();
    assert_eq!((e.status, e.message.as_str()), (404, "File not found"));
    let e = require_delete_token(None).unwrap_err();
    assert_eq!((e.status, e.message.as_str()), (401, "Missing delete token"));
    assert_eq!(require_delete_token(Some("t")).unwrap(), "t");
    let e = authorize_delete("secret", "guess").unwrap_err();
    assert_eq!((e.status, e.message.as_str()), (403, "Invalid delete token"));
    assert!(authorize_delete("secret", "secret").is_ok());
}

#[test]
fn ids_are_eight_letters_or_digits() {
    let id = generate_id();
    assert_eq!(id.chars().count(), 8);
    assert!(id.chars().all(|c| c.is_ascii_alphanumeric()));
    assert_ne!(generate_id(), generate_id());
}

#[test]
fn tokens_are_uuid_v4_text() {
    let t = generate_token();
    assert_eq!(t.len(), 36);
    let b = t.as_bytes();
    assert_eq!(b[8], b'-');
    assert_eq!(b[13], b'-');
    assert_eq!(b[14], b'4');
    assert!(matches!(b[19], b'8' | b'9' | b'a' | b'b'));
    assert_ne!(generate_token(), t);
}

#[test]
fn html_escape_replaces_markup() {
    assert_eq!(html_escape("<a href=\"x\">Tom & Jerry's</a>"), "&lt;a href=&quot;x&quot;&gt;Tom &amp; Jerry&#x27;s&lt;/a&gt;");
    assert_eq!(html_escape("plain"), "plain");
    assert_eq!(html_escape("&amp;"), "&amp;amp;");
}

#[test]
fn config_defaults_and_environment() {
    let d = Config::default();
    assert_eq!(d.max_file_size, 5 * 1024 * 1024 * 1024);
    assert_eq!(d.data_dir, "./data");
    assert_eq!(d.bind_address(), "127.0.0.1:3000");
    let c = Config::from_env_values(Some("/srv".to_string()), None, Some("8080"));
    assert_eq!(c.data_dir, "/srv");
    assert_eq!(c.host, "127.0.0.1");
    assert_eq!(c.port, 8080);
    let bad = Config::from_env_values(None, Some("0.0.0.0".to_string()), Some("70000"));
    assert_eq!(bad.port, 3000);
    assert_eq!(bad.bind_address(), "0.0.0.0:3000");
}
