use spacetaxi::page::download_page_html;
use spacetaxi::server::FileRecord;

#[test]
fn download_page_shows_escaped_name_and_size() {
    let record = FileRecord {
        id: "abc".to_string(),
        filename: "a&b<c>.txt".to_string(),
        file_size: 2048,
        created_at: 0,
        expires_at: None,
        download_count: 0,
        max_downloads: None,
        one_time: false,
        has_password: true,
        delete_token: "t".to_string(),
        is_chunked: false,
        chunk_count: None,
    };
    let html = download_page_html("abc", &record, "2.00 KB");
    assert!(html.starts_with("<!DOCTYPE html>\n<html lang=\"en\">"));
    assert!(html.contains("<title>spacetaxi - Download a&amp;b&lt;c&gt;.txt</title>"));
    assert!(html.contains("<h1>a&amp;b&lt;c&gt;.txt</h1>\n        <p class=\"size\">2.00 KB</p>"));
    assert!(html.contains("window.FILE_ID = \"abc\";"));
    assert!(html.contains("window.FILENAME = \"a&amp;b&lt;c&gt;.txt\";"));
    assert!(html.contains("window.FILE_SIZE = 2048;"));
    assert!(html.contains("window.HAS_PASSWORD = true;"));
    assert!(html.contains("<div class=\"logo\">\u{1F680}</div>"));
    assert!(html.contains("* { margin: 0; padding: 0; box-sizing: border-box; }"));
    assert!(html.ends_with("<script src=\"/assets/decrypt.js\"></script>\n</body>\n</html>"));
    assert!(!html.contains("{{"));
}
