//! Messages exchanged between the command-line client, the server and the browser.
use vstd::prelude::*;
use crate::codec::{base64_len_fits, base64_url_decode, base64_url_decode_text, base64_url_encode, base64_url_encode_bytes, json_string_literal};
use crate::text::push_all;

verus! {

/// Response from POST /upload.
#[derive(Debug)]
pub struct UploadResponse {
    pub id: String,
    pub delete_token: String,
}

/// Response from POST /upload/init.
#[derive(Debug)]
pub struct ChunkedUploadInitResponse {
    pub upload_id: String,
}

/// Request body for POST /upload/init.
#[derive(Debug)]
pub struct ChunkedUploadInitRequest {
    pub size: u64,
    pub chunk_size: u64,
    pub filename: String,
}

/// Response from GET /upload/<id>/status.
#[derive(Debug)]
pub struct ChunkedUploadStatus {
    pub chunks_received: Vec<u64>,
    pub total_chunks: u64,
}

/// Response from PUT /upload/<id>/chunk/<n>.
#[derive(Debug)]
pub struct ChunkUploadResponse {
    pub received: u64,
}

/// Response from GET /<id>/meta.
#[derive(Debug)]
pub struct FileMeta {
    pub filename: String,
    pub size: u64,
    pub has_password: bool,
    pub is_chunked: bool,
    pub chunk_count: Option<u32>,
}

/// Upload metadata sent via headers.
#[derive(Debug, Clone)]
pub struct UploadMetadata {
    pub one_time: bool,
    pub max_downloads: Option<u32>,
    pub expires_at: Option<i64>,
    pub has_password: bool,
    pub filename: String,
}

impl Default for UploadMetadata {
    /// No limits, no password, and the file name `file`.
    fn default() -> (r: Self)
        ensures
            !r.one_time,
            r.max_downloads is None,
            r.expires_at is None,
            !r.has_password,
            r.filename@ == "file"@,
    {
        UploadMetadata {
            one_time: false,
            max_downloads: None,
            expires_at: None,
            has_password: false,
            filename: String::from_str("file"),
        }
    }
}

/// URL fragment contents for key transmission.
#[derive(Debug)]
pub struct UrlFragment {
    /// Base64-encoded encryption key (for files without a password).
    pub key: Option<String>,
    /// Base64-encoded salt (for password-protected files).
    pub salt: Option<String>,
    /// Base64-encoded base nonce (for chunked files).
    pub nonce: Option<String>,
}

/// The JSON member `"name":value` for a present field, nothing for an absent one.
pub open spec fn json_member(name: Seq<char>, value: Option<String>) -> Seq<Seq<char>> {
    match value {
        Some(v) => seq![json_string_literal(name) + ":"@ + json_string_literal(v@)],
        None => Seq::empty(),
    }
}

/// The members joined with commas.
pub open spec fn join_commas(members: Seq<Seq<char>>) -> Seq<char>
    decreases members.len(),
{
    if members.len() == 0 {
        Seq::empty()
    } else if members.len() == 1 {
        members[0]
    } else {
        join_commas(members.drop_last()) + ","@ + members.last()
    }
}

/// The compact JSON object of a fragment, fields in the order key, salt, nonce, absent
/// fields left out (as serde_json writes the struct).
pub open spec fn fragment_json(f: UrlFragment) -> Seq<char> {
    "{"@ + join_commas(json_member("key"@, f.key) + json_member("salt"@, f.salt) + json_member("nonce"@, f.nonce)) + "}"@
}

/// The fragment field holding the URL-safe base64 text of `bytes`.
pub open spec fn encoded_field(field: Option<String>, bytes: Seq<u8>) -> bool {
    field matches Some(t) && t@ == base64_url_encode(bytes)
}

/// What a fragment field decodes to.
pub open spec fn decoded_field(field: Option<String>) -> Option<Seq<u8>> {
    match field {
        Some(t) => base64_url_decode(t@),
        None => None,
    }
}

/// Appends `"name":value` to `out`, after a comma unless it is the first member.
fn push_member(out: &mut String, first: bool, name: &str, value: &String)
    ensures
        final(out)@ == old(out)@ + (if first { Seq::<char>::empty() } else { ","@ }) + json_string_literal(name@)
            + ":"@ + json_string_literal(value@),
{
    if !first {
        push_all(out, ",");
    }
    match crate::codec::json_string(name) {
        Ok(t) => push_all(out, t.as_str()),
        Err(_) => {},
    }
    push_all(out, ":");
    match crate::codec::json_string(value.as_str()) {
        Ok(t) => push_all(out, t.as_str()),
        Err(_) => {},
    }
}

proof fn lemma_join_push(members: Seq<Seq<char>>, m: Seq<char>)
    ensures
        join_commas(members.push(m)) == join_commas(members) + (if members.len() == 0 {
            Seq::<char>::empty()
        } else {
            ","@
        }) + m,
{
    assert(members.push(m).drop_last() =~= members);
    if members.len() == 0 {
        assert(join_commas(members) =~= Seq::<char>::empty());
        assert(join_commas(members.push(m)) =~= m);
        assert(Seq::<char>::empty() =~= Seq::<char>::empty());
        assert(Seq::<char>::empty() + Seq::<char>::empty() + m =~= m);
    }
}

impl UrlFragment {
    /// Fragment for a file without a password: the URL-safe base64 text of the key.
    pub fn new_with_key(key: &[u8]) -> (r: Self)
        requires
            base64_len_fits(key@.len(), false),
        ensures
            encoded_field(r.key, key@),
            r.salt is None,
            r.nonce is None,
    {
        UrlFragment { key: Some(base64_url_encode_bytes(key)), salt: None, nonce: None }
    }

    /// Fragment for a password-protected file: the URL-safe base64 text of the salt.
    pub fn new_with_salt(salt: &[u8]) -> (r: Self)
        requires
            base64_len_fits(salt@.len(), false),
        ensures
            r.key is None,
            encoded_field(r.salt, salt@),
            r.nonce is None,
    {
        UrlFragment { key: None, salt: Some(base64_url_encode_bytes(salt)), nonce: None }
    }

    /// Fragment for a chunked file: the key and the base nonce.
    pub fn new_chunked(key: &[u8], nonce: &[u8]) -> (r: Self)
        requires
            base64_len_fits(key@.len(), false),
            base64_len_fits(nonce@.len(), false),
        ensures
            encoded_field(r.key, key@),
            r.salt is None,
            encoded_field(r.nonce, nonce@),
    {
        UrlFragment {
            key: Some(base64_url_encode_bytes(key)),
            salt: None,
            nonce: Some(base64_url_encode_bytes(nonce)),
        }
    }

    /// Fragment for a password-protected chunked file: the salt and the base nonce.
    pub fn new_chunked_with_password(salt: &[u8], nonce: &[u8]) -> (r: Self)
        requires
            base64_len_fits(salt@.len(), false),
            base64_len_fits(nonce@.len(), false),
        ensures
            r.key is None,
            encoded_field(r.salt, salt@),
            encoded_field(r.nonce, nonce@),
    {
        UrlFragment {
            key: None,
            salt: Some(base64_url_encode_bytes(salt)),
            nonce: Some(base64_url_encode_bytes(nonce)),
        }
    }

    /// Encodes the fragment as compact JSON.
    pub fn encode(&self) -> (r: String)
        ensures
            r@ == fragment_json(*self),
    {
        let ghost k = json_member("key"@, self.key);
        let ghost sa = json_member("salt"@, self.salt);
        let ghost no = json_member("nonce"@, self.nonce);
        let mut out = String::from_str("{");
        let mut first = true;
        let ghost members: Seq<Seq<char>> = Seq::empty();
        match &self.key {
            Some(v) => {
                proof { lemma_join_push(members, json_string_literal("key"@) + ":"@ + json_string_literal(v@)); }
                push_member(&mut out, first, "key", v);
                first = false;
                proof { members = members + k; }
            },
            None => {},
        }
        assert(members =~= k);
        assert(out@ =~= "{"@ + join_commas(members));
        assert(first == (members.len() == 0));
        match &self.salt {
            Some(v) => {
                proof { lemma_join_push(members, json_string_literal("salt"@) + ":"@ + json_string_literal(v@)); }
                push_member(&mut out, first, "salt", v);
                first = false;
                proof {
                    assert(members + sa =~= members.push(json_string_literal("salt"@) + ":"@ + json_string_literal(v@)));
                    members = members + sa;
                }
            },
            None => {
                assert(members + sa =~= members);
                proof { members = members + sa; }
            },
        }
        assert(members =~= k + sa);
        assert(out@ =~= "{"@ + join_commas(members));
        assert(first == (members.len() == 0));
        match &self.nonce {
            Some(v) => {
                proof { lemma_join_push(members, json_string_literal("nonce"@) + ":"@ + json_string_literal(v@)); }
                push_member(&mut out, first, "nonce", v);
                proof {
                    assert(members + no =~= members.push(json_string_literal("nonce"@) + ":"@ + json_string_literal(v@)));
                    members = members + no;
                }
            },
            None => {
                assert(members + no =~= members);
                proof { members = members + no; }
            },
        }
        assert(members =~= k + sa + no);
        assert(out@ =~= "{"@ + join_commas(members));
        push_all(&mut out, "}");
        out
    }

    /// Decodes a field's URL-safe base64 text.
    fn decode_field(field: &Option<String>) -> (r: Option<Vec<u8>>)
        ensures
            r matches Some(v) ==> decoded_field(*field) == Some(v@),
            r is None ==> decoded_field(*field) is None,
            forall|b: Seq<u8>| encoded_field(*field, b) ==> (r matches Some(v) && v@ == b),
    {
        match field {
            Some(t) => base64_url_decode_text(t.as_str()),
            None => None,
        }
    }

    /// The key bytes, if the fragment holds a key that decodes.
    ///
    /// A key that `new_with_key` or `new_chunked` wrote decodes to the bytes it came from.
    pub fn get_key(&self) -> (r: Option<Vec<u8>>)
        ensures
            r matches Some(v) ==> decoded_field(self.key) == Some(v@),
            r is None ==> decoded_field(self.key) is None,
            forall|b: Seq<u8>| encoded_field(self.key, b) ==> (r matches Some(v) && v@ == b),
    {
        Self::decode_field(&self.key)
    }

    /// The salt bytes, if the fragment holds a salt that decodes.
    ///
    /// A salt that `new_with_salt` or `new_chunked_with_password` wrote decodes to the
    /// bytes it came from.
    pub fn get_salt(&self) -> (r: Option<Vec<u8>>)
        ensures
            r matches Some(v) ==> decoded_field(self.salt) == Some(v@),
            r is None ==> decoded_field(self.salt) is None,
            forall|b: Seq<u8>| encoded_field(self.salt, b) ==> (r matches Some(v) && v@ == b),
    {
        Self::decode_field(&self.salt)
    }

    /// The base nonce bytes, if the fragment holds a nonce that decodes.
    ///
    /// A nonce that `new_chunked` or `new_chunked_with_password` wrote decodes to the
    /// bytes it came from.
    pub fn get_nonce(&self) -> (r: Option<Vec<u8>>)
        ensures
            r matches Some(v) ==> decoded_field(self.nonce) == Some(v@),
            r is None ==> decoded_field(self.nonce) is None,
            forall|b: Seq<u8>| encoded_field(self.nonce, b) ==> (r matches Some(v) && v@ == b),
    {
        Self::decode_field(&self.nonce)
    }
}

} // verus!
