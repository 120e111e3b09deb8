//! The command-line client's decisions: reading the expiry option, what key protects the
//! file and how the link carries it, how a large file is cut into chunks, and what the
//! client tells the user.
use vstd::prelude::*;
use crate::codec::{base64_len_fits, base64_url_encode, base64_url_encode_bytes};
use crate::crypto::{
    derive_key_from_password, generate_key, generate_salt, password_key, CryptoError, CHUNK_SIZE,
    KEY_SIZE, NONCE_SIZE, SALT_SIZE,
};
use crate::text::{
    chars_of, decimal, is_digit, parse_u64, parse_unsigned, push_all, push_char, str_equals, trim,
    trimmed, u64_to_decimal,
};
use crate::types::{decoded_field, encoded_field, fragment_json, UrlFragment};

verus! {

/// Files up to this size (50 MiB) are uploaded in one request.
pub const SIMPLE_UPLOAD_THRESHOLD: u64 = 50 * 1024 * 1024;

/// A length of time: whole seconds and the nanoseconds beyond them.
#[derive(Debug, Clone, Copy, PartialEq, Eq, Structural)]
pub struct TimeSpan {
    pub secs: u64,
    pub nanos: u32,
}

/// Why an expiry option was not accepted.
#[derive(Debug)]
pub enum DurationError {
    /// The text is not a duration; the payload is the text (or `empty duration`).
    Invalid(String),
    /// The duration has more seconds than a `u64` holds.
    TooLong,
}

/// How many seconds one unit of the given name lasts.
pub open spec fn unit_seconds(unit: Seq<char>) -> Option<u64> {
    if unit.len() == 0 || unit == "s"@ || unit == "sec"@ || unit == "second"@ || unit == "seconds"@ {
        Some(1)
    } else if unit == "m"@ || unit == "min"@ || unit == "minute"@ || unit == "minutes"@ {
        Some(60)
    } else if unit == "h"@ || unit == "hr"@ || unit == "hour"@ || unit == "hours"@ {
        Some(3600)
    } else if unit == "d"@ || unit == "day"@ || unit == "days"@ {
        Some(86400)
    } else if unit == "w"@ || unit == "week"@ || unit == "weeks"@ {
        Some(604800)
    } else {
        None
    }
}

/// The unit table: every spelling of seconds counts 1 second, of minutes 60, of hours
/// 3600, of days 86400 and of weeks 604800; a bare number counts seconds.
pub proof fn lemma_unit_table()
    ensures
        unit_seconds(Seq::empty()) == Some(1u64),
        unit_seconds("s"@) == Some(1u64),
        unit_seconds("sec"@) == Some(1u64),
        unit_seconds("second"@) == Some(1u64),
        unit_seconds("seconds"@) == Some(1u64),
        unit_seconds("m"@) == Some(60u64),
        unit_seconds("min"@) == Some(60u64),
        unit_seconds("minute"@) == Some(60u64),
        unit_seconds("minutes"@) == Some(60u64),
        unit_seconds("h"@) == Some(3600u64),
        unit_seconds("hr"@) == Some(3600u64),
        unit_seconds("hour"@) == Some(3600u64),
        unit_seconds("hours"@) == Some(3600u64),
        unit_seconds("d"@) == Some(86400u64),
        unit_seconds("day"@) == Some(86400u64),
        unit_seconds("days"@) == Some(86400u64),
        unit_seconds("w"@) == Some(604800u64),
        unit_seconds("week"@) == Some(604800u64),
        unit_seconds("weeks"@) == Some(604800u64),
{
    reveal_strlit("s");
    reveal_strlit("sec");
    reveal_strlit("second");
    reveal_strlit("seconds");
    reveal_strlit("m");
    reveal_strlit("min");
    reveal_strlit("minute");
    reveal_strlit("minutes");
    reveal_strlit("h");
    reveal_strlit("hr");
    reveal_strlit("hour");
    reveal_strlit("hours");
    reveal_strlit("d");
    reveal_strlit("day");
    reveal_strlit("days");
    reveal_strlit("w");
    reveal_strlit("week");
    reveal_strlit("weeks");
    assert(Seq::<char>::empty().len() == 0);
    assert("m"@[0] != "s"@[0]);
    assert("min"@[0] != "sec"@[0]);
    assert("minute"@[0] != "second"@[0]);
    assert("minutes"@[0] != "seconds"@[0]);
    assert("h"@[0] != "s"@[0] && "h"@[0] != "m"@[0]);
    assert("d"@[0] != "s"@[0] && "d"@[0] != "m"@[0] && "d"@[0] != "h"@[0]);
    assert("w"@[0] != "s"@[0] && "w"@[0] != "m"@[0] && "w"@[0] != "h"@[0] && "w"@[0] != "d"@[0]);
    assert("day"@[0] != "sec"@[0] && "day"@[0] != "min"@[0]);
    assert("days"@[0] != "hour"@[0]);
    assert("week"@[0] != "hour"@[0] && "week"@[0] != "days"@[0]);
    assert("weeks"@[0] != "hours"@[0]);
}

/// The number of leading ASCII digits.
pub open spec fn leading_digits(s: Seq<char>) -> nat
    decreases s.len(),
{
    if s.len() > 0 && is_digit(s[0]) {
        1 + leading_digits(s.drop_first())
    } else {
        0
    }
}

/// The text ends in `ms`.
pub open spec fn ends_with_ms(s: Seq<char>) -> bool {
    s.len() >= 2 && s[s.len() - 2] == 'm' && s[s.len() - 1] == 's'
}

/// The number part of a duration's text.
pub open spec fn number_part(s: Seq<char>) -> Seq<char> {
    if ends_with_ms(s) {
        s.take(s.len() - 2)
    } else {
        s.take(leading_digits(s) as int)
    }
}

/// The unit part of a duration's text (`ms` when it ends so).
pub open spec fn unit_part(s: Seq<char>) -> Seq<char> {
    if ends_with_ms(s) {
        "ms"@
    } else {
        s.skip(leading_digits(s) as int)
    }
}

fn unit_multiplier(unit: &str) -> (r: Option<u64>)
    ensures
        r == unit_seconds(unit@),
{
    if unit.unicode_len() == 0 || str_equals(unit, "s") || str_equals(unit, "sec") || str_equals(unit, "second")
        || str_equals(unit, "seconds") {
        Some(1)
    } else if str_equals(unit, "m") || str_equals(unit, "min") || str_equals(unit, "minute") || str_equals(
        unit,
        "minutes",
    ) {
        Some(60)
    } else if str_equals(unit, "h") || str_equals(unit, "hr") || str_equals(unit, "hour") || str_equals(
        unit,
        "hours",
    ) {
        Some(3600)
    } else if str_equals(unit, "d") || str_equals(unit, "day") || str_equals(unit, "days") {
        Some(86400)
    } else if str_equals(unit, "w") || str_equals(unit, "week") || str_equals(unit, "weeks") {
        Some(604800)
    } else {
        None
    }
}

proof fn lemma_leading_digits(s: Seq<char>, p: int)
    requires
        0 <= p <= s.len(),
        forall|k: int| 0 <= k < p ==> is_digit(#[trigger] s[k]),
        p == s.len() || !is_digit(s[p]),
    ensures
        leading_digits(s) == p,
    decreases p,
{
    if p > 0 {
        let t = s.drop_first();
        assert forall|k: int| 0 <= k < p - 1 implies is_digit(#[trigger] t[k]) by {
            assert(t[k] == s[k + 1]);
        }
        lemma_leading_digits(t, p - 1);
    }
}

/// Reads an expiry option such as `1h`, `7d`, `30m`, `90s`, `500ms` or a bare number of
/// seconds; white space around it is ignored.
///
/// Units: `s sec second seconds`, `m min minute minutes`, `h hr hour hours`,
/// `d day days`, `w week weeks`, and `ms`. Empty text gives `Invalid("empty duration")`;
/// a number that does not read or an unknown unit gives `Invalid` with the trimmed text; a
/// number of seconds beyond `u64` gives `TooLong`.
pub fn parse_duration(s: &str) -> (r: Result<TimeSpan, DurationError>)
    ensures
        ({
            let t = trimmed(s@);
            &&& t.len() == 0 ==> (r matches Err(DurationError::Invalid(m)) && m@ == "empty duration"@)
            &&& t.len() > 0 && parse_unsigned(number_part(t), u64::MAX as nat) is None ==> (r matches Err(
                DurationError::Invalid(m),
            ) && m@ == t)
            &&& t.len() > 0 ==> (parse_unsigned(number_part(t), u64::MAX as nat) matches Some(n) ==> {
                if ends_with_ms(t) {
                    r == Ok::<TimeSpan, DurationError>(
                        TimeSpan { secs: (n / 1000) as u64, nanos: ((n % 1000) * 1_000_000) as u32 },
                    )
                } else {
                    match unit_seconds(unit_part(t)) {
                        None => r matches Err(DurationError::Invalid(m)) && m@ == t,
                        Some(k) => if n * k > u64::MAX {
                            r matches Err(DurationError::TooLong)
                        } else {
                            r == Ok::<TimeSpan, DurationError>(TimeSpan { secs: (n * k) as u64, nanos: 0 })
                        },
                    }
                }
            })
        }),
{
    let t = trim(s);
    let cs = chars_of(t);
    if cs.len() == 0 {
        return Err(DurationError::Invalid(String::from_str("empty duration")));
    }
    let len = cs.len();
    let is_ms = len >= 2 && cs[len - 2] == 'm' && cs[len - 1] == 's';
    let (num_str, unit) = if is_ms {
        (t.substring_char(0, len - 2), "ms")
    } else {
        let mut p: usize = 0;
        while p < len && '0' <= cs[p] && cs[p] <= '9'
            invariant
                cs@ == t@,
                len == cs@.len(),
                p <= len,
                forall|k: int| 0 <= k < p ==> is_digit(#[trigger] t@[k]),
            decreases len - p,
        {
            p = p + 1;
        }
        proof {
            lemma_leading_digits(t@, p as int);
        }
        (t.substring_char(0, p), t.substring_char(p, len))
    };
    let num = match parse_u64(num_str) {
        Some(n) => n,
        None => return Err(DurationError::Invalid(String::from_str(t))),
    };
    if is_ms {
        return Ok(TimeSpan { secs: num / 1000, nanos: ((num % 1000) * 1_000_000) as u32 });
    }
    let multiplier = match unit_multiplier(unit) {
        Some(k) => k,
        None => return Err(DurationError::Invalid(String::from_str(t))),
    };
    match num.checked_mul(multiplier) {
        Some(secs) => Ok(TimeSpan { secs, nanos: 0 }),
        None => Err(DurationError::TooLong),
    }
}

/// A duration in words, in its largest whole unit: seconds below a minute, then minutes
/// below an hour, hours below a day, and days.
pub open spec fn humanized(secs: u64) -> Seq<char> {
    if secs < 60 {
        decimal(secs as nat) + " seconds"@
    } else if secs < 3600 {
        decimal((secs / 60) as nat) + " minutes"@
    } else if secs < 86400 {
        decimal((secs / 3600) as nat) + " hours"@
    } else {
        decimal((secs / 86400) as nat) + " days"@
    }
}

/// Writes a duration in words (whole seconds, minutes, hours or days, rounded down).
pub fn humanize_duration(d: &TimeSpan) -> (r: String)
    ensures
        r@ == humanized(d.secs),
{
    let secs = d.secs;
    let (n, unit) = if secs < 60 {
        (secs, " seconds")
    } else if secs < 3600 {
        (secs / 60, " minutes")
    } else if secs < 86400 {
        (secs / 3600, " hours")
    } else {
        (secs / 86400, " days")
    };
    let mut r = u64_to_decimal(n);
    push_all(&mut r, unit);
    r
}

/// The expiry time of an upload: now plus the whole seconds of the duration, the seconds
/// taken as `i64` the way `as` converts them.
pub fn expiry_timestamp(now: i64, d: &TimeSpan) -> (r: i64)
    requires
        i64::MIN <= now + (d.secs as i64) <= i64::MAX,
    ensures
        r == now + (d.secs as i64),
{
    now + d.secs as i64
}

/// Whether a file of this size goes up in one request (up to 50 MiB) rather than in chunks.
pub fn uses_simple_upload(file_size: u64) -> (r: bool)
    ensures
        r == (file_size <= SIMPLE_UPLOAD_THRESHOLD),
{
    file_size <= SIMPLE_UPLOAD_THRESHOLD
}

/// The number of 10 MiB chunks of a file.
pub fn file_chunk_count(file_size: u64) -> (r: u64)
    requires
        file_size + CHUNK_SIZE <= u64::MAX,
    ensures
        r == crate::chunked::chunk_count(file_size, CHUNK_SIZE as u64),
{
    (file_size + CHUNK_SIZE as u64 - 1) / CHUNK_SIZE as u64
}

/// The length of the next chunk, after `processed` bytes of the file: a full chunk, or
/// what remains.
pub fn next_chunk_len(file_size: u64, processed: u64) -> (r: usize)
    requires
        processed <= file_size,
    ensures
        r as int == if file_size - processed < CHUNK_SIZE {
            file_size - processed
        } else {
            CHUNK_SIZE as int
        },
{
    let remaining = file_size - processed;
    if remaining < CHUNK_SIZE as u64 {
        remaining as usize
    } else {
        CHUNK_SIZE
    }
}

/// How many bytes of the file the client has read after `k` chunks, each chunk a full
/// `chunk` bytes or what remains (as `next_chunk_len` gives it).
pub open spec fn bytes_after_chunks(file_size: nat, chunk: nat, k: nat) -> nat
    decreases k,
{
    if k == 0 {
        0
    } else {
        let p = bytes_after_chunks(file_size, chunk, (k - 1) as nat);
        p + if file_size - p < chunk {
            (file_size - p) as nat
        } else {
            chunk
        }
    }
}

/// The chunks that the client reads cover the file exactly: after `k` chunks it has read
/// `min(file_size, k * chunk)` bytes, so after the chunk count it has read the whole file.
pub proof fn lemma_chunks_cover_file(file_size: nat, chunk: nat, k: nat)
    requires
        chunk > 0,
    ensures
        bytes_after_chunks(file_size, chunk, k) == if k * chunk < file_size {
            k * chunk
        } else {
            file_size
        },
        k * chunk >= file_size ==> bytes_after_chunks(file_size, chunk, k) == file_size,
    decreases k,
{
    if k > 0 {
        lemma_chunks_cover_file(file_size, chunk, (k - 1) as nat);
        assert(k * chunk == (k - 1) * chunk + chunk) by (nonlinear_arith)
            requires k > 0;
    }
}

/// Picks the key that protects a file and the link fragment that lets the recipient
/// rebuild it.
///
/// With a password: a random salt, the Argon2id key of the password and salt, and a
/// fragment that carries only the salt. Without: a random key, carried in the fragment.
/// Fails only when the password is longer than `u32::MAX` bytes.
pub fn prepare_key(password: Option<&str>) -> (r: Result<([u8; KEY_SIZE], UrlFragment), CryptoError>)
    ensures
        password is None ==> (r matches Ok((key, f)) && encoded_field(f.key, key@) && f.salt is None
            && f.nonce is None),
        password matches Some(p) ==> (r is Ok <==> vstd::utf8::encode_utf8(p@).len() <= 0xffff_ffff),
        password matches Some(p) ==> (r matches Ok((key, f)) ==> (f.key is None && f.nonce is None
            && exists|salt: Seq<u8>|
            salt.len() == SALT_SIZE && encoded_field(f.salt, salt) && key@ == #[trigger] password_key(
                p@,
                salt,
            ))),
{
    match password {
        Some(p) => {
            let salt = generate_salt();
            let key = match derive_key_from_password(p, &salt) {
                Ok(k) => k,
                Err(e) => return Err(e),
            };
            let f = UrlFragment::new_with_salt(&salt);
            assert(encoded_field(f.salt, salt@));
            Ok((key, f))
        },
        None => {
            let key = generate_key();
            Ok((key, UrlFragment::new_with_key(&key)))
        },
    }
}

/// The fragment of a chunked upload's link: the base nonce with the key, or with the salt
/// of a password-protected file (taken from its first fragment).
pub fn chunked_fragment(fragment: &UrlFragment, key: &[u8; KEY_SIZE], base_nonce: &[u8; NONCE_SIZE], has_password: bool) -> (r: UrlFragment)
    requires
        has_password ==> (decoded_field(fragment.salt) matches Some(s) && base64_len_fits(s.len(), false)),
    ensures
        encoded_field(r.nonce, base_nonce@),
        !has_password ==> encoded_field(r.key, key@) && r.salt is None,
        has_password ==> r.key is None,
        has_password ==> (decoded_field(fragment.salt) matches Some(s) && encoded_field(r.salt, s)),
{
    if has_password {
        let salt = match fragment.get_salt() {
            Some(s) => s,
            None => Vec::new(),
        };
        UrlFragment::new_chunked_with_password(salt.as_slice(), base_nonce)
    } else {
        UrlFragment::new_chunked(key, base_nonce)
    }
}

/// `server` without its trailing slashes (`trim_end_matches('/')`).
pub open spec fn without_trailing_slashes(s: Seq<char>) -> Seq<char>
    decreases s.len(),
{
    if s.len() > 0 && s.last() == '/' {
        without_trailing_slashes(s.drop_last())
    } else {
        s
    }
}

fn trim_trailing_slashes(s: &str) -> (r: &str)
    ensures
        r@ == without_trailing_slashes(s@),
{
    let cs = chars_of(s);
    let mut j: usize = cs.len();
    assert(s@.take(j as int) =~= s@);
    while j > 0 && cs[j - 1] == '/'
        invariant
            cs@ == s@,
            j <= cs@.len(),
            without_trailing_slashes(s@) == without_trailing_slashes(s@.take(j as int)),
        decreases j,
    {
        assert(s@.take(j as int).drop_last() =~= s@.take(j - 1));
        j = j - 1;
    }
    assert(s@.take(j as int) =~= s@.subrange(0, j as int));
    assert(without_trailing_slashes(s@.take(j as int)) == s@.take(j as int));
    s.substring_char(0, j)
}

/// The link to share: `<server>/<id>#<fragment>`, the fragment's JSON in URL-safe base64.
pub open spec fn share_link(server: Seq<char>, id: Seq<char>, fragment: UrlFragment) -> Seq<char> {
    without_trailing_slashes(server) + seq!['/'] + id + seq!['#'] + base64_url_encode(
        vstd::utf8::encode_utf8(fragment_json(fragment)),
    )
}

/// Builds the link to share.
pub fn share_url(server: &str, id: &str, fragment: &UrlFragment) -> (r: String)
    requires
        base64_len_fits(vstd::utf8::encode_utf8(fragment_json(*fragment)).len(), false),
    ensures
        r@ == share_link(server@, id@, *fragment),
{
    let json = fragment.encode();
    let encoded = base64_url_encode_bytes(json.as_str().as_bytes());
    let mut r = String::from_str(trim_trailing_slashes(server));
    push_char(&mut r, '/');
    push_all(&mut r, id);
    push_char(&mut r, '#');
    push_all(&mut r, encoded.as_str());
    r
}

/// The notes printed after an upload: the download limit (one-time, or a count), the
/// expiry, and the password requirement.
pub open spec fn upload_notes(one_time: bool, max_downloads: Option<u32>, expiry_secs: u64, has_password: bool) -> Seq<Seq<char>> {
    (if one_time {
        seq!["Note: This link will expire after the first download."@]
    } else if max_downloads is Some {
        seq!["Note: This link will expire after "@ + decimal(max_downloads->0 as nat) + " downloads."@]
    } else {
        Seq::empty()
    }) + seq!["Note: This link will expire in "@ + humanized(expiry_secs) + "."@] + (if has_password {
        seq!["Note: Password required to decrypt."@]
    } else {
        Seq::empty()
    })
}

/// Writes the notes printed after an upload.
pub fn upload_notes_text(one_time: bool, max_downloads: Option<u32>, expiry: &TimeSpan, has_password: bool) -> (r: Vec<String>)
    ensures
        r@.map_values(|s: String| s@) == upload_notes(one_time, max_downloads, expiry.secs, has_password),
{
    let mut notes: Vec<String> = Vec::new();
    if one_time {
        notes.push(String::from_str("Note: This link will expire after the first download."));
    } else if let Some(max) = max_downloads {
        let mut n = String::from_str("Note: This link will expire after ");
        let d = u64_to_decimal(max as u64);
        push_all(&mut n, d.as_str());
        push_all(&mut n, " downloads.");
        notes.push(n);
    }
    let mut e = String::from_str("Note: This link will expire in ");
    let h = humanize_duration(expiry);
    push_all(&mut e, h.as_str());
    push_all(&mut e, ".");
    notes.push(e);
    if has_password {
        notes.push(String::from_str("Note: Password required to decrypt."));
    }
    assert(notes@.map_values(|s: String| s@) =~= upload_notes(one_time, max_downloads, expiry.secs, has_password));
    notes
}

} // verus!
