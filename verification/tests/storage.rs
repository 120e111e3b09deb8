use spacetaxi::chunked::ChunkedUpload;
use spacetaxi::storage::{chunk_number, join_path, received_chunk_numbers, sort_ascending, ChunkStorage, Storage, StorageError};

#[test]
fn file_and_chunk_paths() {
    let s = Storage::new("data/files".to_string());
    assert_eq!(s.file_path("abc"), "data/files/abc.enc");
    let c = ChunkStorage::new("data/chunks/".to_string());
    assert_eq!(c.chunk_dir("up"), "data/chunks/up");
    assert_eq!(c.chunk_path("up", 12), "data/chunks/up/12.chunk");
}

#[test]
fn join_follows_path_rules() {
    assert_eq!(join_path("a", "b"), "a/b");
    assert_eq!(join_path("a/", "b"), "a/b");
    assert_eq!(join_path("", "b"), "b");
    assert_eq!(join_path("a", "/abs"), "/abs");
    assert_eq!(join_path("a", ""), "a/");
    assert_eq!(std::path::Path::new("a").join("b").to_str().unwrap(), join_path("a", "b"));
    assert_eq!(std::path::Path::new("a").join("").to_str().unwrap(), join_path("a", ""));
}

#[test]
fn chunk_numbers_from_names() {
    assert_eq!(chunk_number("7.chunk"), Some(7));
    assert_eq!(chunk_number("+7.chunk"), Some(7));
    assert_eq!(chunk_number("07.chunk"), Some(7));
    assert_eq!(chunk_number(".chunk"), None);
    assert_eq!(chunk_number("7.chunks"), None);
    assert_eq!(chunk_number("x.chunk"), None);
    assert_eq!(chunk_number("18446744073709551616.chunk"), None);
    let names = vec![
        Some("10.chunk".to_string()),
        None,
        Some("2.chunk".to_string()),
        Some("notes.txt".to_string()),
        Some("0.chunk".to_string()),
    ];
    assert_eq!(received_chunk_numbers(&names), vec![0, 2, 10]);
}

#[test]
fn sorting_keeps_repeats() {
    assert_eq!(sort_ascending(&vec![3, 1, 2, 1]), vec![1, 1, 2, 3]);
    assert_eq!(sort_ascending(&vec![]), Vec::<u64>::new());
}

#[test]
fn received_chunks_are_sorted_and_unique() {
    let mut up = ChunkedUpload::new_at("u".into(), "f".into(), 100, 10, "d".into(), false, None, None, false, 0);
    assert_eq!(up.total_chunks, 10);
    for n in [5u64, 1, 9, 1, 0] {
        up.record_chunk(n);
    }
    assert_eq!(up.get_received_chunks(), vec![0, 1, 5, 9]);
    assert!(!up.is_complete());
    for n in 0..10 {
        up.record_chunk(n);
    }
    assert!(up.is_complete());
}

#[test]
fn chunk_count_rounds_up() {
    let up = ChunkedUpload::new("u".into(), "f".into(), 101, 10, "d".into(), true, Some(1), Some(5), true);
    assert_eq!(up.total_chunks, 11);
    assert!(up.created_at > 0);
    let empty = ChunkedUpload::new_at("u".into(), "f".into(), 0, 10, "d".into(), false, None, None, false, 0);
    assert_eq!(empty.total_chunks, 0);
    assert!(empty.is_complete());
}

#[test]
fn storage_error_messages() {
    assert_eq!(StorageError::NotFound("abc".to_string()).message(), "file not found: abc");
    let io = StorageError::IoError(std::io::Error::new(std::io::ErrorKind::Other, "disk"));
    assert_eq!(io.message(), "IO error: disk");
}
