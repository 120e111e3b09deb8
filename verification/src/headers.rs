//! Upload metadata as HTTP headers: what the client sends and how the server reads it.
use vstd::prelude::*;
use crate::codec::{
    base64_len_fits, base64_standard_decode, base64_standard_decode_text, base64_standard_encode,
    base64_standard_encode_bytes, utf8_string,
};
use crate::text::{
    decimal, decimal_i64, i64_to_decimal, parse_i64, parse_i64_spec, parse_u32, parse_unsigned,
    str_equals, u64_to_decimal,
};
use crate::types::UploadMetadata;

verus! {

/// Text of a boolean, as `bool::to_string` writes it.
pub open spec fn bool_text(b: bool) -> Seq<char> {
    if b {
        "true"@
    } else {
        "false"@
    }
}

/// A yes/no header: present and exactly `true`.
pub open spec fn flag_header(v: Option<Seq<char>>) -> bool {
    v matches Some(t) && t == "true"@
}

/// A count header: present and a `u32` in decimal.
pub open spec fn count_header(v: Option<Seq<char>>) -> Option<u32> {
    match v {
        Some(t) => match parse_unsigned(t, u32::MAX as nat) {
            Some(n) => Some(n as u32),
            None => None,
        },
        None => None,
    }
}

/// A timestamp header: present and an `i64` in decimal.
pub open spec fn timestamp_header(v: Option<Seq<char>>) -> Option<i64> {
    match v {
        Some(t) => parse_i64_spec(t),
        None => None,
    }
}

/// The file name header: standard base64 of UTF-8 text, `file` when absent or unreadable.
pub open spec fn filename_header(v: Option<Seq<char>>) -> Seq<char> {
    match v {
        Some(t) => match base64_standard_decode(t) {
            Some(b) => if vstd::utf8::valid_utf8(b) {
                vstd::utf8::decode_utf8(b)
            } else {
                "file"@
            },
            None => "file"@,
        },
        None => "file"@,
    }
}

/// The view of an optional header value.
pub open spec fn opt_view(v: Option<&str>) -> Option<Seq<char>> {
    match v {
        Some(t) => Some(t@),
        None => None,
    }
}

fn read_flag(v: Option<&str>) -> (r: bool)
    ensures
        r == flag_header(opt_view(v)),
{
    match v {
        Some(t) => str_equals(t, "true"),
        None => false,
    }
}

/// Reads the upload metadata headers (`X-One-Time`, `X-Max-Downloads`, `X-Expires`,
/// `X-Has-Password`, `X-Filename`), each given as its text when present.
///
/// A flag is set only by the text `true`; counts and timestamps that do not parse are
/// absent; the file name is the UTF-8 text of the base64 value, or `file`. A file name
/// that the client encoded with `upload_headers` reads back unchanged.
pub fn parse_headers(
    one_time: Option<&str>,
    max_downloads: Option<&str>,
    expires: Option<&str>,
    has_password: Option<&str>,
    filename: Option<&str>,
) -> (r: UploadMetadata)
    ensures
        r.one_time == flag_header(opt_view(one_time)),
        r.max_downloads == count_header(opt_view(max_downloads)),
        r.expires_at == timestamp_header(opt_view(expires)),
        r.has_password == flag_header(opt_view(has_password)),
        r.filename@ == filename_header(opt_view(filename)),
        forall|f: Seq<char>|
            opt_view(filename) == Some(#[trigger] base64_standard_encode(vstd::utf8::encode_utf8(f)))
                ==> r.filename@ == f,
{
    let one = read_flag(one_time);
    let max: Option<u32> = match max_downloads {
        Some(t) => parse_u32(t),
        None => None,
    };
    let exp: Option<i64> = match expires {
        Some(t) => parse_i64(t),
        None => None,
    };
    let pw = read_flag(has_password);
    let name: String = match filename {
        Some(t) => match base64_standard_decode_text(t) {
            Some(bytes) => match utf8_string(bytes) {
                Some(s) => s,
                None => String::from_str("file"),
            },
            None => String::from_str("file"),
        },
        None => String::from_str("file"),
    };
    proof {
        assert forall|f: Seq<char>|
            opt_view(filename) == Some(#[trigger] base64_standard_encode(vstd::utf8::encode_utf8(f)))
                implies name@ == f by {
            vstd::utf8::encode_utf8_valid_utf8(f);
            vstd::utf8::encode_utf8_decode_utf8(f);
        }
    }
    UploadMetadata { one_time: one, max_downloads: max, expires_at: exp, has_password: pw, filename: name }
}

fn bool_to_string(b: bool) -> (r: String)
    ensures
        r@ == bool_text(b),
{
    if b {
        String::from_str("true")
    } else {
        String::from_str("false")
    }
}

/// The headers that carry a file's metadata on upload, in the order the client sends
/// them.
pub open spec fn metadata_headers(m: UploadMetadata) -> Seq<(Seq<char>, Seq<char>)> {
    seq![("X-One-Time"@, bool_text(m.one_time)), ("X-Has-Password"@, bool_text(m.has_password))]
        + (match m.max_downloads {
        Some(x) => seq![("X-Max-Downloads"@, decimal(x as nat))],
        None => Seq::empty(),
    }) + (match m.expires_at {
        Some(e) => seq![("X-Expires"@, decimal_i64(e))],
        None => Seq::empty(),
    }) + seq![("X-Filename"@, base64_standard_encode(vstd::utf8::encode_utf8(m.filename@)))]
}

/// The text of a header list.
pub open spec fn headers_view(h: Seq<(String, String)>) -> Seq<(Seq<char>, Seq<char>)> {
    h.map_values(|p: (String, String)| (p.0@, p.1@))
}

/// Builds the metadata headers of an upload: the flags as `true`/`false`, the limits in
/// decimal when set, and the file name as standard base64 of its UTF-8 bytes.
pub fn upload_headers(metadata: &UploadMetadata) -> (r: Vec<(String, String)>)
    requires
        base64_len_fits(vstd::utf8::encode_utf8(metadata.filename@).len(), true),
    ensures
        headers_view(r@) == metadata_headers(*metadata),
{
    let mut h: Vec<(String, String)> = Vec::new();
    h.push((String::from_str("X-One-Time"), bool_to_string(metadata.one_time)));
    h.push((String::from_str("X-Has-Password"), bool_to_string(metadata.has_password)));
    match metadata.max_downloads {
        Some(max) => {
            h.push((String::from_str("X-Max-Downloads"), u64_to_decimal(max as u64)));
        },
        None => {},
    }
    match metadata.expires_at {
        Some(e) => {
            h.push((String::from_str("X-Expires"), i64_to_decimal(e)));
        },
        None => {},
    }
    let name_bytes = metadata.filename.as_str().as_bytes();
    h.push((String::from_str("X-Filename"), base64_standard_encode_bytes(name_bytes)));
    assert(headers_view(h@) =~= metadata_headers(*metadata));
    h
}

/// The first value of a header in a header list.
pub open spec fn header_value(h: Seq<(Seq<char>, Seq<char>)>, name: Seq<char>) -> Option<Seq<char>>
    decreases h.len(),
{
    if h.len() == 0 {
        None
    } else if h[0].0 == name {
        Some(h[0].1)
    } else {
        header_value(h.drop_first(), name)
    }
}

/// The server reads back what the client sent: reading the headers that
/// `upload_headers` builds gives the same flags, limits and expiry, and the file name
/// header holds exactly the encoding that `parse_headers` reads back as the name.
pub proof fn lemma_upload_headers_read_back(m: UploadMetadata)
    ensures
        flag_header(header_value(metadata_headers(m), "X-One-Time"@)) == m.one_time,
        count_header(header_value(metadata_headers(m), "X-Max-Downloads"@)) == m.max_downloads,
        timestamp_header(header_value(metadata_headers(m), "X-Expires"@)) == m.expires_at,
        flag_header(header_value(metadata_headers(m), "X-Has-Password"@)) == m.has_password,
        header_value(metadata_headers(m), "X-Filename"@) == Some(
            base64_standard_encode(vstd::utf8::encode_utf8(m.filename@)),
        ),
{
    reveal_strlit("X-One-Time");
    reveal_strlit("X-Has-Password");
    reveal_strlit("X-Max-Downloads");
    reveal_strlit("X-Expires");
    reveal_strlit("X-Filename");
    reveal_strlit("true");
    reveal_strlit("false");
    let h = metadata_headers(m);
    let fname = ("X-Filename"@, base64_standard_encode(vstd::utf8::encode_utf8(m.filename@)));
    let tail_e: Seq<(Seq<char>, Seq<char>)> = (match m.expires_at {
        Some(e) => seq![("X-Expires"@, decimal_i64(e))],
        None => Seq::empty(),
    }) + seq![fname];
    let tail_m: Seq<(Seq<char>, Seq<char>)> = (match m.max_downloads {
        Some(x) => seq![("X-Max-Downloads"@, decimal(x as nat))],
        None => Seq::empty(),
    }) + tail_e;
    assert(h =~= seq![("X-One-Time"@, bool_text(m.one_time)), ("X-Has-Password"@, bool_text(m.has_password))] + tail_m);
    assert(h.drop_first().drop_first() =~= tail_m);
    assert(h[0].0 =~= "X-One-Time"@);
    assert(h[1].0 =~= "X-Has-Password"@);
    assert("X-One-Time"@ != "X-Max-Downloads"@);
    assert("X-Has-Password"@ != "X-Max-Downloads"@);
    assert("X-One-Time"@ != "X-Expires"@);
    assert("X-Has-Password"@ != "X-Expires"@);
    assert("X-One-Time"@[2] != "X-Filename"@[2]);
    assert("X-One-Time"@ != "X-Filename"@);
    assert("X-Has-Password"@ != "X-Filename"@);
    assert("X-Max-Downloads"@.len() != "X-Expires"@.len());
    assert("X-Max-Downloads"@ != "X-Expires"@);
    assert("X-Max-Downloads"@ != "X-Filename"@);
    assert("X-Expires"@ != "X-Filename"@);
    assert("X-One-Time"@ != "X-Has-Password"@);
    assert("false"@.len() != "true"@.len());
    assert("false"@ != "true"@);
    assert(header_value(h, "X-Max-Downloads"@) == header_value(h.drop_first(), "X-Max-Downloads"@));
    assert(header_value(h.drop_first(), "X-Max-Downloads"@) == header_value(tail_m, "X-Max-Downloads"@));
    assert(header_value(h, "X-Expires"@) == header_value(h.drop_first(), "X-Expires"@));
    assert(header_value(h.drop_first(), "X-Expires"@) == header_value(tail_m, "X-Expires"@));
    assert(header_value(h, "X-Filename"@) == header_value(h.drop_first(), "X-Filename"@));
    assert(header_value(h.drop_first(), "X-Filename"@) == header_value(tail_m, "X-Filename"@));
    // tail_e
    assert(header_value(seq![fname], "X-Filename"@) == Some(fname.1));
    assert(seq![fname].drop_first() =~= Seq::<(Seq<char>, Seq<char>)>::empty());
    assert(header_value(seq![fname], "X-Expires"@) == header_value(Seq::<(Seq<char>, Seq<char>)>::empty(), "X-Expires"@));
    assert(header_value(seq![fname], "X-Max-Downloads"@) == header_value(Seq::<(Seq<char>, Seq<char>)>::empty(), "X-Max-Downloads"@));
    match m.expires_at {
        Some(e) => {
            assert(tail_e.drop_first() =~= seq![fname]);
            assert(header_value(tail_e, "X-Max-Downloads"@) == header_value(seq![fname], "X-Max-Downloads"@));
            assert(header_value(tail_e, "X-Filename"@) == header_value(seq![fname], "X-Filename"@));
            crate::text::lemma_i64_text_round_trip(e);
        },
        None => {
            assert(tail_e =~= seq![fname]);
        },
    }
    match m.max_downloads {
        Some(x) => {
            assert(tail_m.drop_first() =~= tail_e);
            assert(header_value(tail_m, "X-Expires"@) == header_value(tail_e, "X-Expires"@));
            assert(header_value(tail_m, "X-Filename"@) == header_value(tail_e, "X-Filename"@));
            crate::text::lemma_u32_text_round_trip(x);
        },
        None => {
            assert(tail_m =~= tail_e);
        },
    }
    assert(h.drop_first()[0].0 =~= "X-Has-Password"@);
    assert(header_value(h, "X-Has-Password"@) == header_value(h.drop_first(), "X-Has-Password"@));
    assert(header_value(h.drop_first(), "X-Has-Password"@) == Some(bool_text(m.has_password)));
}

} // verus!
