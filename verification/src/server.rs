//! The server's decisions: which stored files may still be downloaded, which are due for
//! removal, what an upload or a finished chunked upload records, which requests are
//! refused and with what status, identifiers, and text that goes into the download page.
use vstd::prelude::*;
use rand::Rng;
use crate::chunked::ChunkedUpload;
use crate::text::{chars_of, push_all, push_char};
use crate::types::FileMeta;

verus! {

/// Metadata of a stored file, as the database holds it.
#[derive(Debug, Clone)]
pub struct FileRecord {
    pub id: String,
    pub filename: String,
    pub file_size: i64,
    pub created_at: i64,
    pub expires_at: Option<i64>,
    pub download_count: i32,
    pub max_downloads: Option<i32>,
    pub one_time: bool,
    pub has_password: bool,
    pub delete_token: String,
    pub is_chunked: bool,
    pub chunk_count: Option<i32>,
}

/// A file has expired at time `now` (seconds since the epoch): its expiry time has
/// passed, its download limit is reached, or it is a one-time file that was downloaded.
pub open spec fn record_expired(r: FileRecord, now: i64) -> bool {
    ||| (r.expires_at matches Some(e) && now > e)
    ||| (r.max_downloads matches Some(m) && r.download_count >= m)
    ||| (r.one_time && r.download_count > 0)
}

/// Whether a file is due for removal at time `now` (the cleanup's selection).
pub fn is_expired(record: &FileRecord, now: i64) -> (r: bool)
    ensures
        r == record_expired(*record, now),
{
    let past_expiry = match record.expires_at {
        Some(e) => now > e,
        None => false,
    };
    let limit_reached = match record.max_downloads {
        Some(m) => record.download_count >= m,
        None => false,
    };
    past_expiry || limit_reached || (record.one_time && record.download_count > 0)
}

/// Whether a file may still be downloaded at time `now`: it has not expired, its download
/// limit is not reached, and it is not a one-time file that was already downloaded.
pub fn check_file_valid(record: &FileRecord, now: i64) -> (r: bool)
    ensures
        r == !record_expired(*record, now),
{
    if let Some(expires_at) = record.expires_at {
        if now > expires_at {
            return false;
        }
    }
    if let Some(max) = record.max_downloads {
        if record.download_count >= max {
            return false;
        }
    }
    if record.one_time && record.download_count > 0 {
        return false;
    }
    true
}

/// The record after one more download.
pub open spec fn after_download(r: FileRecord) -> FileRecord {
    FileRecord { download_count: (r.download_count + 1) as i32, ..r }
}

/// A one-time file is served at most once; a file with a download limit is served only while fewer downloads
/// than the limit have happened; and a file past its expiry time is never served.
pub proof fn lemma_download_rules(r: FileRecord, now: i64)
    requires
        r.download_count < i32::MAX,
    ensures
        r.one_time && r.download_count >= 0 ==> record_expired(after_download(r), now),
        r.max_downloads matches Some(m) ==> (!record_expired(r, now) ==> r.download_count < m),
        r.expires_at matches Some(e) ==> (now > e ==> record_expired(r, now)),
{
}

/// The ids of the records that have expired at time `now`, in the order given.
pub open spec fn expired_ids(records: Seq<FileRecord>, now: i64) -> Seq<Seq<char>>
    decreases records.len(),
{
    if records.len() == 0 {
        Seq::empty()
    } else {
        expired_ids(records.drop_last(), now) + if record_expired(records.last(), now) {
            seq![records.last().id@]
        } else {
            Seq::empty()
        }
    }
}

/// The cleanup selects exactly the files that may no longer be served: the id of every
/// record whose expiry time has passed, whose download limit is reached, or that is a
/// one-time file already downloaded is selected, and every selected id is the id of such a
/// record.
pub proof fn lemma_cleanup_selects_dead_files(records: Seq<FileRecord>, now: i64)
    ensures
        forall|i: int|
            0 <= i < records.len() && (
                (records[i].expires_at matches Some(e) && now > e)
                || (records[i].max_downloads matches Some(m) && records[i].download_count >= m)
                || (records[i].one_time && records[i].download_count > 0)
            ) ==> #[trigger] expired_ids(records, now).contains(records[i].id@),
        forall|k: int|
            0 <= k < expired_ids(records, now).len() ==> exists|i: int|
                0 <= i < records.len() && records[i].id@ == #[trigger] expired_ids(records, now)[k]
                    && (
                (records[i].expires_at matches Some(e) && now > e)
                || (records[i].max_downloads matches Some(m) && records[i].download_count >= m)
                || (records[i].one_time && records[i].download_count > 0)
            ),
    decreases records.len(),
{
    if records.len() > 0 {
        let s = records.drop_last();
        let last = records.last();
        lemma_cleanup_selects_dead_files(s, now);
        let head = expired_ids(s, now);
        let tail: Seq<Seq<char>> = if record_expired(last, now) {
            seq![last.id@]
        } else {
            Seq::empty()
        };
        assert(expired_ids(records, now) == head + tail);
        assert forall|i: int|
            0 <= i < records.len() && (
                (records[i].expires_at matches Some(e) && now > e)
                || (records[i].max_downloads matches Some(m) && records[i].download_count >= m)
                || (records[i].one_time && records[i].download_count > 0)
            ) implies #[trigger] expired_ids(records, now).contains(records[i].id@) by {
            if i < records.len() - 1 {
                assert(s[i] == records[i]);
                assert(head.contains(s[i].id@));
                let j = choose|j: int| 0 <= j < head.len() && head[j] == s[i].id@;
                assert((head + tail)[j] == head[j]);
            } else {
                assert(records[i] == last);
                assert((head + tail)[head.len() as int] == last.id@);
            }
        }
        assert forall|k: int| 0 <= k < expired_ids(records, now).len() implies exists|i: int|
            0 <= i < records.len() && records[i].id@ == #[trigger] expired_ids(records, now)[k]
                && (
            (records[i].expires_at matches Some(e) && now > e)
            || (records[i].max_downloads matches Some(m) && records[i].download_count >= m)
            || (records[i].one_time && records[i].download_count > 0)
        ) by {
            if k < head.len() {
                assert((head + tail)[k] == head[k]);
                let i = choose|i: int|
                    0 <= i < s.len() && s[i].id@ == #[trigger] head[k] && (
                        (s[i].expires_at matches Some(e) && now > e)
                        || (s[i].max_downloads matches Some(m) && s[i].download_count >= m)
                        || (s[i].one_time && s[i].download_count > 0)
                    );
                assert(records[i] == s[i]);
            } else {
                assert(expired_ids(records, now)[k] == last.id@);
                assert(records[records.len() - 1] == last);
            }
        }
    }
}

/// Every string whose view is a selected id is the id of a record that may no longer be
/// served.
proof fn lemma_selected_strings_are_dead_files(records: Seq<FileRecord>, now: i64, out: Seq<String>)
    requires
        out.map_values(|s: String| s@) == expired_ids(records, now),
    ensures
        forall|k: int| #![trigger out[k]]
            0 <= k < out.len() ==> exists|i: int| #![trigger records[i]]
                0 <= i < records.len() && records[i].id@ == out[k]@ && (
                    (records[i].expires_at matches Some(e) && now > e)
                    || (records[i].max_downloads matches Some(m) && records[i].download_count >= m)
                    || (records[i].one_time && records[i].download_count > 0)
                ),
{
    lemma_cleanup_selects_dead_files(records, now);
    let ids = expired_ids(records, now);
    assert forall|k: int| #![trigger out[k]] 0 <= k < out.len() implies exists|i: int| #![trigger records[i]]
        0 <= i < records.len() && records[i].id@ == out[k]@ && (
            (records[i].expires_at matches Some(e) && now > e)
            || (records[i].max_downloads matches Some(m) && records[i].download_count >= m)
            || (records[i].one_time && records[i].download_count > 0)
        ) by {
        assert(out.map_values(|s: String| s@)[k] == out[k]@);
        let i = choose|i: int|
            0 <= i < records.len() && records[i].id@ == #[trigger] ids[k] && (
                (records[i].expires_at matches Some(e) && now > e)
                || (records[i].max_downloads matches Some(m) && records[i].download_count >= m)
                || (records[i].one_time && records[i].download_count > 0)
            );
        assert(records[i].id@ == out[k]@);
    }
}

/// The id of every record that may no longer be served is the view of one of the selected
/// strings.
proof fn lemma_dead_files_are_selected_strings(records: Seq<FileRecord>, now: i64, out: Seq<String>)
    requires
        out.map_values(|s: String| s@) == expired_ids(records, now),
    ensures
        forall|i: int|
            0 <= i < records.len() && (
                (records[i].expires_at matches Some(e) && now > e)
                || (records[i].max_downloads matches Some(m) && records[i].download_count >= m)
                || (records[i].one_time && records[i].download_count > 0)
            ) ==> exists|k: int| 0 <= k < out.len() && (#[trigger] out[k])@ == records[i].id@,
{
    lemma_cleanup_selects_dead_files(records, now);
    let ids = expired_ids(records, now);
    assert forall|i: int|
        0 <= i < records.len() && (
            (records[i].expires_at matches Some(e) && now > e)
            || (records[i].max_downloads matches Some(m) && records[i].download_count >= m)
            || (records[i].one_time && records[i].download_count > 0)
        ) implies exists|k: int| 0 <= k < out.len() && (#[trigger] out[k])@ == records[i].id@ by {
        assert(ids.contains(records[i].id@));
        let k = choose|k: int| 0 <= k < ids.len() && ids[k] == records[i].id@;
        assert(out.map_values(|s: String| s@)[k] == out[k]@);
    }
}

/// Selects the files that the periodic cleanup removes: exactly the records that may no
/// longer be served, in the order given.
pub fn expired_file_ids(records: &Vec<FileRecord>, now: i64) -> (r: Vec<String>)
    ensures
        r@.map_values(|s: String| s@) == expired_ids(records@, now),
        forall|i: int|
            0 <= i < records@.len() && (
                (records@[i].expires_at matches Some(e) && now > e)
                || (records@[i].max_downloads matches Some(m) && records@[i].download_count >= m)
                || (records@[i].one_time && records@[i].download_count > 0)
            ) ==> exists|k: int| 0 <= k < r@.len() && (#[trigger] r@[k])@ == records@[i].id@,
        forall|k: int| #![trigger r@[k]]
            0 <= k < r@.len() ==> exists|i: int| #![trigger records@[i]]
                0 <= i < records@.len() && records@[i].id@ == r@[k]@ && (
                    (records@[i].expires_at matches Some(e) && now > e)
                    || (records@[i].max_downloads matches Some(m) && records@[i].download_count >= m)
                    || (records@[i].one_time && records@[i].download_count > 0)
                ),
{
    let mut out: Vec<String> = Vec::new();
    let mut i: usize = 0;
    while i < records.len()
        invariant
            i <= records@.len(),
            out@.map_values(|s: String| s@) == expired_ids(records@.take(i as int), now),
        decreases records.len() - i,
    {
        assert(records@.take(i + 1).drop_last() =~= records@.take(i as int));
        let ghost before = out@;
        if is_expired(&records[i], now) {
            out.push(records[i].id.clone());
            assert(out@.map_values(|s: String| s@) =~= before.map_values(|s: String| s@).push(records@[i as int].id@));
        }
        assert(out@.map_values(|s: String| s@) =~= expired_ids(records@.take(i + 1), now));
        i = i + 1;
    }
    assert(records@.take(records@.len() as int) =~= records@);
    proof {
        lemma_selected_strings_are_dead_files(records@, now, out@);
        lemma_dead_files_are_selected_strings(records@, now, out@);
    }
    out
}

/// The metadata the download page fetches: the size read as unsigned and the chunk
/// count as `u32` (both converted as `as` does).
pub fn file_meta(record: &FileRecord) -> (r: FileMeta)
    ensures
        r.filename@ == record.filename@,
        r.size == record.file_size as u64,
        r.has_password == record.has_password,
        r.is_chunked == record.is_chunked,
        r.chunk_count == (match record.chunk_count {
            Some(c) => Some(c as u32),
            None => None,
        }),
{
    FileMeta {
        filename: record.filename.clone(),
        size: record.file_size as u64,
        has_password: record.has_password,
        is_chunked: record.is_chunked,
        chunk_count: match record.chunk_count {
            Some(c) => Some(c as u32),
            None => None,
        },
    }
}

/// The record of a file uploaded in one request: nothing downloaded yet, not chunked, the
/// limit converted to `i32` as `as` does.
pub fn upload_record(
    id: String,
    filename: String,
    size: usize,
    created_at: i64,
    expires_at: Option<i64>,
    max_downloads: Option<u32>,
    one_time: bool,
    has_password: bool,
    delete_token: String,
) -> (r: FileRecord)
    ensures
        r.id == id,
        r.filename == filename,
        r.file_size == size as i64,
        r.created_at == created_at,
        r.expires_at == expires_at,
        r.download_count == 0,
        r.max_downloads == (match max_downloads {
            Some(m) => Some(m as i32),
            None => None,
        }),
        r.one_time == one_time,
        r.has_password == has_password,
        r.delete_token == delete_token,
        !r.is_chunked,
        r.chunk_count is None,
{
    FileRecord {
        id,
        filename,
        file_size: size as i64,
        created_at,
        expires_at,
        download_count: 0,
        max_downloads: match max_downloads {
            Some(m) => Some(m as i32),
            None => None,
        },
        one_time,
        has_password,
        delete_token,
        is_chunked: false,
        chunk_count: None,
    }
}

/// The record of a finished chunked upload: the upload's name, time and limits, the
/// assembled size, nothing downloaded yet, chunked with the upload's chunk count.
pub fn completed_upload_record(upload: ChunkedUpload, id: String, delete_token: String, file_size: u64) -> (r: FileRecord)
    ensures
        r.id == id,
        r.filename == upload.filename,
        r.file_size == file_size as i64,
        r.created_at == upload.created_at,
        r.expires_at == upload.expires_at,
        r.download_count == 0,
        r.max_downloads == (match upload.max_downloads {
            Some(m) => Some(m as i32),
            None => None,
        }),
        r.one_time == upload.one_time,
        r.has_password == upload.has_password,
        r.delete_token == delete_token,
        r.is_chunked,
        r.chunk_count == Some(upload.total_chunks as i32),
{
    FileRecord {
        id,
        filename: upload.filename,
        file_size: file_size as i64,
        created_at: upload.created_at,
        expires_at: upload.expires_at,
        download_count: 0,
        max_downloads: match upload.max_downloads {
            Some(m) => Some(m as i32),
            None => None,
        },
        one_time: upload.one_time,
        has_password: upload.has_password,
        delete_token,
        is_chunked: true,
        chunk_count: Some(upload.total_chunks as i32),
    }
}

/// A refused request: the HTTP status code and the message sent with it.
#[derive(Debug)]
pub struct ApiError {
    pub status: u16,
    pub message: String,
}

/// The refusal with this status and message.
pub open spec fn refusal(e: ApiError, status: u16, message: Seq<char>) -> bool {
    e.status == status && e.message@ == message
}

fn api_error(status: u16, message: &str) -> (r: ApiError)
    ensures
        refusal(r, status, message@),
{
    ApiError { status, message: String::from_str(message) }
}

/// An upload larger than the server's limit is refused with 413 `File too large`.
pub fn check_upload_size(size: u64, max_file_size: u64) -> (r: Result<(), ApiError>)
    ensures
        r is Ok <==> size <= max_file_size,
        r matches Err(e) ==> refusal(e, 413, "File too large"@),
{
    if size > max_file_size {
        return Err(api_error(413, "File too large"));
    }
    Ok(())
}

/// A chunk number beyond the upload's last chunk is refused with 400
/// `Invalid chunk number`.
pub fn check_chunk_number(upload: &ChunkedUpload, chunk_num: u64) -> (r: Result<(), ApiError>)
    ensures
        r is Ok <==> chunk_num < upload.total_chunks,
        r matches Err(e) ==> refusal(e, 400, "Invalid chunk number"@),
{
    if chunk_num >= upload.total_chunks {
        return Err(api_error(400, "Invalid chunk number"));
    }
    Ok(())
}

/// Completing an upload that still misses chunks is refused with 400 `Upload incomplete`.
pub fn check_upload_complete(upload: &ChunkedUpload) -> (r: Result<(), ApiError>)
    ensures
        r is Ok <==> upload.received_chunks@.len() == upload.total_chunks,
        r matches Err(e) ==> refusal(e, 400, "Upload incomplete"@),
{
    if !upload.is_complete() {
        return Err(api_error(400, "Upload incomplete"));
    }
    Ok(())
}

/// The refusal for an unknown upload id: 404 `Upload not found`.
pub fn upload_not_found() -> (r: ApiError)
    ensures
        refusal(r, 404, "Upload not found"@),
{
    api_error(404, "Upload not found")
}

/// The refusal for an unknown file id: 404 `File not found`.
pub fn file_not_found() -> (r: ApiError)
    ensures
        refusal(r, 404, "File not found"@),
{
    api_error(404, "File not found")
}

/// A download page for a file that has expired is refused with 410
/// `File expired or download limit reached`.
pub fn check_download_allowed(record: &FileRecord, now: i64) -> (r: Result<(), ApiError>)
    ensures
        r is Ok <==> !record_expired(*record, now),
        r matches Err(e) ==> refusal(e, 410, "File expired or download limit reached"@),
{
    if !check_file_valid(record, now) {
        return Err(api_error(410, "File expired or download limit reached"));
    }
    Ok(())
}

/// A delete request without the `X-Delete-Token` header is refused with 401
/// `Missing delete token`.
pub fn require_delete_token(header: Option<&str>) -> (r: Result<&str, ApiError>)
    ensures
        header matches Some(t) ==> r == Ok::<&str, ApiError>(t),
        header is None ==> (r matches Err(e) && refusal(e, 401, "Missing delete token"@)),
{
    match header {
        Some(t) => Ok(t),
        None => Err(api_error(401, "Missing delete token")),
    }
}

proof fn lemma_or_xor_zero(acc: u8, x: u8, y: u8)
    ensures
        ((acc | (x ^ y)) == 0) <==> (acc == 0 && x == y),
{
    assert(((acc | (x ^ y)) == 0) <==> (acc == 0 && x == y)) by (bit_vector);
}

/// Compares two byte strings in time that depends only on their lengths: equal exactly
/// when they have the same bytes.
pub fn constant_time_eq(a: &[u8], b: &[u8]) -> (r: bool)
    ensures
        r == (a@ == b@),
{
    if a.len() != b.len() {
        return false;
    }
    let mut result: u8 = 0;
    let mut i: usize = 0;
    while i < a.len()
        invariant
            a@.len() == b@.len(),
            i <= a@.len(),
            (result == 0) <==> (forall|k: int| 0 <= k < i ==> a@[k] == b@[k]),
        decreases a.len() - i,
    {
        proof {
            lemma_or_xor_zero(result, a@[i as int], b@[i as int]);
        }
        result = result | (a[i] ^ b[i]);
        i = i + 1;
    }
    proof {
        if result == 0 {
            assert(a@ =~= b@);
        }
    }
    result == 0
}

/// A delete request whose token differs from the file's delete token is refused with 403
/// `Invalid delete token`; the tokens are compared in constant time.
pub fn authorize_delete(stored_token: &str, presented_token: &str) -> (r: Result<(), ApiError>)
    ensures
        r is Ok <==> stored_token@ == presented_token@,
        r matches Err(e) ==> refusal(e, 403, "Invalid delete token"@),
{
    let valid = constant_time_eq(stored_token.as_bytes(), presented_token.as_bytes());
    proof {
        vstd::utf8::encode_utf8_decode_utf8(stored_token@);
        vstd::utf8::encode_utf8_decode_utf8(presented_token@);
    }
    if !valid {
        return Err(api_error(403, "Invalid delete token"));
    }
    Ok(())
}

/// Server settings.
#[derive(Clone)]
pub struct Config {
    pub max_file_size: u64,
    pub data_dir: String,
    pub host: String,
    pub port: u16,
}

impl Default for Config {
    /// 5 GiB files, data under `./data`, listening on 127.0.0.1:3000.
    fn default() -> (r: Self)
        ensures
            r.max_file_size == 5 * 1024 * 1024 * 1024,
            r.data_dir@ == "./data"@,
            r.host@ == "127.0.0.1"@,
            r.port == 3000,
    {
        Config {
            max_file_size: 5 * 1024 * 1024 * 1024,
            data_dir: String::from_str("./data"),
            host: String::from_str("127.0.0.1"),
            port: 3000,
        }
    }
}

impl Config {
    /// Settings from the environment's values (`SPACETAXI_DATA_DIR`, `SPACETAXI_HOST`,
    /// `SPACETAXI_PORT`), each absent when unset: a missing or unreadable value keeps the
    /// default.
    pub fn from_env_values(data_dir: Option<String>, host: Option<String>, port: Option<&str>) -> (r: Self)
        ensures
            r.max_file_size == 5 * 1024 * 1024 * 1024,
            r.data_dir@ == (match data_dir {
                Some(d) => d@,
                None => "./data"@,
            }),
            r.host@ == (match host {
                Some(h) => h@,
                None => "127.0.0.1"@,
            }),
            r.port == (match port {
                Some(p) => match crate::text::parse_unsigned(p@, u16::MAX as nat) {
                    Some(v) => v as u16,
                    None => 3000,
                },
                None => 3000,
            }),
    {
        let d = Config::default();
        Config {
            max_file_size: d.max_file_size,
            data_dir: match data_dir {
                Some(v) => v,
                None => d.data_dir,
            },
            host: match host {
                Some(v) => v,
                None => d.host,
            },
            port: match port {
                Some(p) => match crate::text::parse_u16(p) {
                    Some(v) => v,
                    None => 3000,
                },
                None => 3000,
            },
        }
    }

    /// The address to listen on: `host:port`.
    pub fn bind_address(&self) -> (r: String)
        ensures
            r@ == self.host@ + ":"@ + crate::text::decimal(self.port as nat),
    {
        let mut r = self.host.clone();
        push_all(&mut r, ":");
        let p = crate::text::u64_to_decimal(self.port as u64);
        push_all(&mut r, p.as_str());
        r
    }
}

/// The characters of generated file ids.
pub open spec fn id_alphabet() -> Seq<char> {
    "abcdefghijklmnopqrstuvwxyzABCDEFGHIJKLMNOPQRSTUVWXYZ0123456789"@
}

/// `rand::thread_rng().gen_range(0..n)`.
///
/// Trusted: the result is below `n` (the call panics on an empty range, which the
/// precondition leaves out).
#[verifier::external_body]
fn random_below(n: usize) -> (r: usize)
    requires
        n > 0,
    ensures
        r < n,
{
    rand::thread_rng().gen_range(0..n)
}

/// A random 8-character file id over letters and digits.
pub fn generate_id() -> (r: String)
    ensures
        r@.len() == 8,
        forall|i: int| 0 <= i < 8 ==> id_alphabet().contains(#[trigger] r@[i]),
{
    let chars = chars_of("abcdefghijklmnopqrstuvwxyzABCDEFGHIJKLMNOPQRSTUVWXYZ0123456789");
    proof {
        reveal_strlit("abcdefghijklmnopqrstuvwxyzABCDEFGHIJKLMNOPQRSTUVWXYZ0123456789");
    }
    let mut r = String::new();
    let mut i: usize = 0;
    while i < 8
        invariant
            chars@ == id_alphabet(),
            chars@.len() == 62,
            i <= 8,
            r@.len() == i,
            forall|k: int| 0 <= k < i ==> id_alphabet().contains(#[trigger] r@[k]),
        decreases 8 - i,
    {
        let j = random_below(chars.len());
        let c = chars[j];
        assert(id_alphabet()[j as int] == c);
        let ghost before = r@;
        push_char(&mut r, c);
        assert forall|k: int| 0 <= k < i + 1 implies id_alphabet().contains(#[trigger] r@[k]) by {
            if k < i {
                assert(r@[k] == before[k]);
            }
        }
        i = i + 1;
    }
    r
}

/// A lower-case hexadecimal digit.
pub open spec fn is_lower_hex(c: char) -> bool {
    ('0' <= c && c <= '9') || ('a' <= c && c <= 'f')
}

/// The hyphenated lower-case text of a random (version 4, RFC 4122 variant) UUID.
pub open spec fn is_uuid_v4_text(s: Seq<char>) -> bool {
    &&& s.len() == 36
    &&& forall|i: int|
        0 <= i < 36 ==> if i == 8 || i == 13 || i == 18 || i == 23 {
            s[i] == '-'
        } else {
            is_lower_hex(#[trigger] s[i])
        }
    &&& s[14] == '4'
    &&& (s[19] == '8' || s[19] == '9' || s[19] == 'a' || s[19] == 'b')
}

/// `uuid::Uuid::new_v4().to_string()`.
///
/// Trusted: the uuid crate sets the version and variant bits of a random value and writes
/// it hyphenated in lower-case hexadecimal.
#[verifier::external_body]
fn uuid_v4_text() -> (r: String)
    ensures
        is_uuid_v4_text(r@),
{
    uuid::Uuid::new_v4().to_string()
}

/// A random delete token or upload id: the text of a random UUID.
pub fn generate_token() -> (r: String)
    ensures
        is_uuid_v4_text(r@),
{
    uuid_v4_text()
}

/// What HTML escaping turns one character into.
pub open spec fn escape_char(c: char) -> Seq<char> {
    if c == '&' {
        "&amp;"@
    } else if c == '<' {
        "&lt;"@
    } else if c == '>' {
        "&gt;"@
    } else if c == '"' {
        "&quot;"@
    } else if c == '\'' {
        "&#x27;"@
    } else {
        seq![c]
    }
}

/// Text with `& < > " '` replaced by their HTML entities.
pub open spec fn html_escaped(s: Seq<char>) -> Seq<char>
    decreases s.len(),
{
    if s.len() == 0 {
        Seq::empty()
    } else {
        html_escaped(s.drop_last()) + escape_char(s.last())
    }
}

/// Escapes text for HTML (the five replacements, `&` first, that the download page uses).
pub fn html_escape(s: &str) -> (r: String)
    ensures
        r@ == html_escaped(s@),
{
    let cs = chars_of(s);
    let mut r = String::new();
    let mut i: usize = 0;
    while i < cs.len()
        invariant
            cs@ == s@,
            i <= cs@.len(),
            r@ == html_escaped(s@.take(i as int)),
        decreases cs.len() - i,
    {
        let c = cs[i];
        assert(s@.take(i + 1).drop_last() =~= s@.take(i as int));
        if c == '&' {
            push_all(&mut r, "&amp;");
        } else if c == '<' {
            push_all(&mut r, "&lt;");
        } else if c == '>' {
            push_all(&mut r, "&gt;");
        } else if c == '"' {
            push_all(&mut r, "&quot;");
        } else if c == '\'' {
            push_all(&mut r, "&#x27;");
        } else {
            push_char(&mut r, c);
        }
        i = i + 1;
    }
    assert(s@.take(cs@.len() as int) =~= s@);
    r
}

/// Escaped text holds none of the characters that HTML treats specially besides `&`:
/// no `<`, `>`, `"` or `'` survives escaping.
pub proof fn lemma_escaped_has_no_markup(s: Seq<char>)
    ensures
        forall|i: int|
            0 <= i < html_escaped(s).len() ==> {
                let c = #[trigger] html_escaped(s)[i];
                c != '<' && c != '>' && c != '"' && c != '\''
            },
    decreases s.len(),
{
    reveal_strlit("&amp;");
    reveal_strlit("&lt;");
    reveal_strlit("&gt;");
    reveal_strlit("&quot;");
    reveal_strlit("&#x27;");
    if s.len() > 0 {
        lemma_escaped_has_no_markup(s.drop_last());
        let prefix = html_escaped(s.drop_last());
        let tail = escape_char(s.last());
        assert forall|i: int| 0 <= i < html_escaped(s).len() implies {
            let c = #[trigger] html_escaped(s)[i];
            c != '<' && c != '>' && c != '"' && c != '\''
        } by {
            if i < prefix.len() {
                assert(html_escaped(s)[i] == prefix[i]);
            } else {
                assert(html_escaped(s)[i] == tail[i - prefix.len()]);
            }
        }
    }
}

} // verus!
