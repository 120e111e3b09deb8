//! File encryption: XChaCha20-Poly1305 with per-chunk nonces, and Argon2id keys
//! derived from passwords.
use vstd::prelude::*;
use chacha20poly1305::aead::{Aead, KeyInit};
use rand::RngCore;

verus! {

/// Length of an encryption key in bytes.
pub const KEY_SIZE: usize = 32;

/// Length of a nonce in bytes.
pub const NONCE_SIZE: usize = 24;

/// Length of the authentication tag that follows each ciphertext.
pub const TAG_SIZE: usize = 16;

/// Length of a password salt in bytes.
pub const SALT_SIZE: usize = 16;

/// Length of the plaintext of one chunk of a chunked upload (10 MiB).
pub const CHUNK_SIZE: usize = 10 * 1024 * 1024;

/// Argon2id memory cost in KiB (64 MiB).
pub const ARGON2_M_COST: u32 = 65536;

/// Argon2id number of passes.
pub const ARGON2_T_COST: u32 = 3;

/// Argon2id degree of parallelism.
pub const ARGON2_P_COST: u32 = 4;

#[verifier::external_type_specification]
#[verifier::external_body]
pub struct ExAeadError(chacha20poly1305::aead::Error);

#[verifier::external_type_specification]
#[verifier::external_body]
pub struct ExArgon2Error(argon2::Error);

/// Why an encryption, a decryption or a key derivation failed.
#[derive(Debug)]
pub enum CryptoError {
    EncryptionFailed(String),
    DecryptionFailed(String),
    KeyDerivationFailed(String),
    InvalidDataLength,
}

impl CryptoError {
    /// The error's text, as it is shown to a user.
    pub fn message(&self) -> (r: String)
        ensures
            r@ == crypto_error_text(*self),
    {
        let mut r = String::new();
        match self {
            CryptoError::EncryptionFailed(m) => {
                crate::text::push_all(&mut r, "encryption failed: ");
                crate::text::push_all(&mut r, m.as_str());
            },
            CryptoError::DecryptionFailed(m) => {
                crate::text::push_all(&mut r, "decryption failed: ");
                crate::text::push_all(&mut r, m.as_str());
            },
            CryptoError::KeyDerivationFailed(m) => {
                crate::text::push_all(&mut r, "key derivation failed: ");
                crate::text::push_all(&mut r, m.as_str());
            },
            CryptoError::InvalidDataLength => {
                crate::text::push_all(&mut r, "invalid data length");
            },
        }
        r
    }
}

/// The text that describes a crypto error.
pub open spec fn crypto_error_text(e: CryptoError) -> Seq<char> {
    match e {
        CryptoError::EncryptionFailed(m) => "encryption failed: "@ + m@,
        CryptoError::DecryptionFailed(m) => "decryption failed: "@ + m@,
        CryptoError::KeyDerivationFailed(m) => "key derivation failed: "@ + m@,
        CryptoError::InvalidDataLength => "invalid data length"@,
    }
}

/// What XChaCha20-Poly1305 produces for a key, a nonce and a plaintext:
/// the ciphertext followed by the 16-byte tag.
pub uninterp spec fn xchacha20poly1305_seal(key: Seq<u8>, nonce: Seq<u8>, plaintext: Seq<u8>) -> Seq<u8>;

/// What XChaCha20-Poly1305 recovers from a key, a nonce and a ciphertext with its tag:
/// `None` when the tag does not authenticate the ciphertext.
pub uninterp spec fn xchacha20poly1305_open(key: Seq<u8>, nonce: Seq<u8>, ciphertext: Seq<u8>) -> Option<Seq<u8>>;

/// The Argon2id (version 0x13) hash of a password and salt with the given costs and output length.
pub uninterp spec fn argon2id_hash(
    m_cost: u32,
    t_cost: u32,
    p_cost: u32,
    password: Seq<u8>,
    salt: Seq<u8>,
    out_len: nat,
) -> Seq<u8>;

/// A plaintext of this length can be sealed in one message: the ChaCha20 block counter
/// does not run out.
pub open spec fn fits_one_message(len: nat) -> bool {
    len / 64 < 0xffff_ffff
}

/// `XChaCha20Poly1305::new(key).encrypt(nonce, plaintext)` from the chacha20poly1305 crate.
///
/// Trusted: it fails exactly when the plaintext would run out the block counter
/// (`len / 64 >= u32::MAX`); otherwise it returns the sealed message, which is 16
/// bytes (the tag) longer than the plaintext.
#[verifier::external_body]
fn seal(key: &[u8; KEY_SIZE], nonce: &[u8; NONCE_SIZE], plaintext: &[u8]) -> (r: Result<
    Vec<u8>,
    chacha20poly1305::aead::Error,
>)
    ensures
        r is Ok <==> fits_one_message(plaintext@.len()),
        r matches Ok(c) ==> c@ == xchacha20poly1305_seal(key@, nonce@, plaintext@),
        r matches Ok(c) ==> c@.len() == plaintext@.len() + 16,
{
    chacha20poly1305::XChaCha20Poly1305::new(key.into()).encrypt(
        chacha20poly1305::XNonce::from_slice(nonce),
        plaintext,
    )
}

/// `XChaCha20Poly1305::new(key).decrypt(nonce, ciphertext)` from the chacha20poly1305 crate.
///
/// Trusted: the result is the named opening of the ciphertext; a message sealed under the
/// same key and nonce opens to its plaintext (AEAD correctness), and an opened plaintext is
/// 16 bytes shorter than the ciphertext. Nothing is claimed of which forgeries fail.
#[verifier::external_body]
fn open(key: &[u8; KEY_SIZE], nonce: &[u8], ciphertext: &[u8]) -> (r: Result<
    Vec<u8>,
    chacha20poly1305::aead::Error,
>)
    requires
        nonce@.len() == NONCE_SIZE,
    ensures
        r matches Ok(p) ==> xchacha20poly1305_open(key@, nonce@, ciphertext@) == Some(p@),
        r is Err ==> xchacha20poly1305_open(key@, nonce@, ciphertext@) is None,
        r matches Ok(p) ==> p@.len() + 16 == ciphertext@.len(),
        r is Ok || forall|p: Seq<u8>|
            ciphertext@ == #[trigger] xchacha20poly1305_seal(key@, nonce@, p) ==> !fits_one_message(p.len()),
        r matches Ok(v) ==> forall|p: Seq<u8>|
            ciphertext@ == #[trigger] xchacha20poly1305_seal(key@, nonce@, p) && fits_one_message(p.len()) ==> v@ == p,
{
    chacha20poly1305::XChaCha20Poly1305::new(key.into()).decrypt(
        chacha20poly1305::XNonce::from_slice(nonce),
        ciphertext,
    )
}

/// The text of an AEAD error (`aead::Error`'s `Display`).
///
/// Trusted: the aead crate writes the fixed text `aead::Error`.
#[verifier::external_body]
fn aead_error_text(e: &chacha20poly1305::aead::Error) -> (r: String)
    ensures
        r@ == "aead::Error"@,
{
    e.to_string()
}

/// `rand::thread_rng().fill_bytes` over a fresh array.
///
/// Trusted for nothing but its type: the bytes are random.
#[verifier::external_body]
fn random_bytes<const N: usize>() -> (r: [u8; N]) {
    let mut b = [0u8; N];
    rand::thread_rng().fill_bytes(&mut b);
    b
}

/// Argon2id, version 0x13, from the argon2 crate: `Params::new(m, t, p, Some(out.len()))`,
/// then `Argon2::new(Argon2id, V0x13, params).hash_password_into(password, salt, out)`.
///
/// Trusted: it succeeds exactly when the parameters are in the ranges that `Params::new`
/// accepts and the password and salt lengths are in the ranges that the crate checks; on
/// success `out` holds the named hash.
#[verifier::external_body]
fn argon2id_hash_into(
    m_cost: u32,
    t_cost: u32,
    p_cost: u32,
    password: &[u8],
    salt: &[u8],
    out: &mut [u8],
) -> (r: Result<(), argon2::Error>)
    requires
        p_cost <= 0xff_ffff,
    ensures
        final(out)@.len() == old(out)@.len(),
        r is Ok <==> (8 <= m_cost && p_cost * 8 <= m_cost && 1 <= t_cost && 1 <= p_cost && 4
            <= old(out)@.len() <= 0xffff_ffff && password@.len() <= 0xffff_ffff && 8
            <= salt@.len() <= 0xffff_ffff),
        r is Ok ==> final(out)@ == argon2id_hash(
            m_cost,
            t_cost,
            p_cost,
            password@,
            salt@,
            old(out)@.len(),
        ),
{
    let params = argon2::Params::new(m_cost, t_cost, p_cost, Some(out.len()))?;
    argon2::Argon2::new(argon2::Algorithm::Argon2id, argon2::Version::V0x13, params)
        .hash_password_into(password, salt, out)
}

/// The text of an Argon2 error (`argon2::Error`'s `Display`).
#[verifier::external_body]
fn argon2_error_text(e: &argon2::Error) -> String {
    e.to_string()
}

/// Generates a random 256-bit encryption key.
pub fn generate_key() -> (key: [u8; KEY_SIZE]) {
    random_bytes::<KEY_SIZE>()
}

/// Generates a random salt for password derivation.
pub fn generate_salt() -> (salt: [u8; SALT_SIZE]) {
    random_bytes::<SALT_SIZE>()
}

/// Generates a random base nonce for the chunks of one file.
pub fn generate_nonce() -> (nonce: [u8; NONCE_SIZE]) {
    random_bytes::<NONCE_SIZE>()
}

/// The Argon2id key that a password and salt give.
pub open spec fn password_key(password: Seq<char>, salt: Seq<u8>) -> Seq<u8> {
    argon2id_hash(
        ARGON2_M_COST,
        ARGON2_T_COST,
        ARGON2_P_COST,
        vstd::utf8::encode_utf8(password),
        salt,
        KEY_SIZE as nat,
    )
}

/// A password's key is the 32-byte Argon2id (version 0x13) hash of the password's UTF-8
/// bytes and the salt, with 64 MiB of memory (65536 KiB), 3 passes and 4 lanes: the
/// parameters that the recipient's browser uses to derive the same key.
pub proof fn lemma_password_key_parameters(password: Seq<char>, salt: Seq<u8>)
    ensures
        password_key(password, salt) == argon2id_hash(
            65536,
            3,
            4,
            vstd::utf8::encode_utf8(password),
            salt,
            32,
        ),
{
}

/// Derives an encryption key from a password using Argon2id (64 MiB, 3 passes, 4 lanes).
///
/// The same password and salt always give the same key. Fails when the salt is shorter
/// than 8 bytes, or the password or salt is longer than `u32::MAX` bytes.
pub fn derive_key_from_password(password: &str, salt: &[u8]) -> (r: Result<[u8; KEY_SIZE], CryptoError>)
    ensures
        r is Ok <==> (vstd::utf8::encode_utf8(password@).len() <= 0xffff_ffff && 8 <= salt@.len()
            <= 0xffff_ffff),
        r matches Ok(k) ==> k@ == password_key(password@, salt@),
        r matches Ok(k) ==> k@ == argon2id_hash(
            65536,
            3,
            4,
            vstd::utf8::encode_utf8(password@),
            salt@,
            32,
        ),
        r matches Err(e) ==> e is KeyDerivationFailed,
{
    let mut key = [0u8; KEY_SIZE];
    let pw = password.as_bytes();
    match argon2id_hash_into(ARGON2_M_COST, ARGON2_T_COST, ARGON2_P_COST, pw, salt, &mut key) {
        Ok(()) => Ok(key),
        Err(e) => Err(CryptoError::KeyDerivationFailed(argon2_error_text(&e))),
    }
}

/// Byte `k` (counting from the least significant) of `x`.
pub open spec fn le_byte(x: u64, k: int) -> u8 {
    ((x >> ((8 * k) as u64)) & 0xff) as u8
}

/// The nonce of chunk `index` of a file: the base nonce with the little-endian bytes of
/// the index XORed into its last 8 bytes.
pub open spec fn chunk_nonce(base: Seq<u8>, index: u64) -> Seq<u8> {
    Seq::new(
        NONCE_SIZE as nat,
        |i: int|
            if i < 16 {
                base[i]
            } else {
                base[i] ^ le_byte(index, i - 16)
            },
    )
}

/// Derives the nonce of a chunk from the base nonce and the chunk's index.
pub fn generate_chunk_nonce(base_nonce: &[u8; NONCE_SIZE], chunk_index: u64) -> (r: [u8; NONCE_SIZE])
    ensures
        r@ == chunk_nonce(base_nonce@, chunk_index),
{
    let mut nonce: [u8; NONCE_SIZE] = *base_nonce;
    let mut i: usize = 0;
    while i < 8
        invariant
            i <= 8,
            forall|k: int| 0 <= k < 16 + i ==> nonce@[k] == #[trigger] chunk_nonce(base_nonce@, chunk_index)[k],
            forall|k: int| 16 + i <= k < 24 ==> nonce@[k] == #[trigger] base_nonce@[k],
        decreases 8 - i,
    {
        let b: u8 = ((chunk_index >> ((8 * i) as u64)) & 0xff) as u8;
        nonce[16 + i] = nonce[16 + i] ^ b;
        i = i + 1;
    }
    assert(nonce@ =~= chunk_nonce(base_nonce@, chunk_index));
    nonce
}

/// The encrypted form of a chunk: the nonce, then the ciphertext and its tag.
pub open spec fn sealed_chunk(key: Seq<u8>, nonce: Seq<u8>, plaintext: Seq<u8>) -> Seq<u8> {
    nonce + xchacha20poly1305_seal(key, nonce, plaintext)
}

/// Encrypts a chunk of data.
///
/// Returns `[24-byte nonce][encrypted data][16-byte auth tag]` and the nonce. With a base
/// nonce the nonce is the one derived for `chunk_index`; without one it is random.
pub fn encrypt_chunk(
    key: &[u8; KEY_SIZE],
    plaintext: &[u8],
    chunk_index: u64,
    base_nonce: Option<&[u8; NONCE_SIZE]>,
) -> (r: Result<(Vec<u8>, [u8; NONCE_SIZE]), CryptoError>)
    ensures
        r is Ok <==> fits_one_message(plaintext@.len()),
        r matches Ok((out, nonce)) ==> out@ == sealed_chunk(key@, nonce@, plaintext@),
        r matches Ok((out, nonce)) ==> out@.len() == plaintext@.len() + NONCE_SIZE + TAG_SIZE,
        r matches Ok((_, nonce)) ==> (base_nonce matches Some(b) ==> nonce@ == chunk_nonce(
            b@,
            chunk_index,
        )),
        r matches Err(e) ==> (e matches CryptoError::EncryptionFailed(m) && m@ == "aead::Error"@),
{
    let nonce: [u8; NONCE_SIZE] = match base_nonce {
        Some(base) => generate_chunk_nonce(base, chunk_index),
        None => random_bytes::<NONCE_SIZE>(),
    };
    match seal(key, &nonce, plaintext) {
        Ok(ciphertext) => {
            let mut result: Vec<u8> = Vec::new();
            result.extend_from_slice(&nonce);
            result.extend_from_slice(ciphertext.as_slice());
            assert(result@ =~= nonce@ + ciphertext@);
            Ok((result, nonce))
        },
        Err(e) => Err(CryptoError::EncryptionFailed(aead_error_text(&e))),
    }
}

/// Decrypts a chunk of data laid out as `[24-byte nonce][encrypted data][16-byte auth tag]`.
///
/// Input shorter than a nonce and a tag is refused with `InvalidDataLength`. Otherwise
/// the result is the opening of the ciphertext under the key and the leading nonce; in
/// particular, data that `encrypt_chunk` produced under the same key decrypts to its
/// plaintext.
pub fn decrypt_chunk(key: &[u8; KEY_SIZE], encrypted: &[u8]) -> (r: Result<Vec<u8>, CryptoError>)
    ensures
        encrypted@.len() < NONCE_SIZE + TAG_SIZE ==> r == Err::<Vec<u8>, CryptoError>(
            CryptoError::InvalidDataLength,
        ),
        encrypted@.len() >= NONCE_SIZE + TAG_SIZE ==> match r {
            Ok(p) => xchacha20poly1305_open(
                key@,
                encrypted@.take(NONCE_SIZE as int),
                encrypted@.skip(NONCE_SIZE as int),
            ) == Some(p@),
            Err(e) => xchacha20poly1305_open(
                key@,
                encrypted@.take(NONCE_SIZE as int),
                encrypted@.skip(NONCE_SIZE as int),
            ) is None && (e matches CryptoError::DecryptionFailed(m) && m@ == "aead::Error"@),
        },
        forall|nonce: Seq<u8>, p: Seq<u8>|
            encrypted@ == #[trigger] sealed_chunk(key@, nonce, p) && nonce.len() == NONCE_SIZE
                && fits_one_message(p.len()) && encrypted@.len() >= NONCE_SIZE + TAG_SIZE
                ==> (r matches Ok(v) && v@ == p),
{
    if encrypted.len() < NONCE_SIZE + TAG_SIZE {
        return Err(CryptoError::InvalidDataLength);
    }
    let (nonce, ciphertext) = encrypted.split_at(NONCE_SIZE);
    assert(nonce@ =~= encrypted@.take(NONCE_SIZE as int));
    assert(ciphertext@ =~= encrypted@.skip(NONCE_SIZE as int));
    let r = open(key, nonce, ciphertext);
    proof {
        assert forall|n: Seq<u8>, p: Seq<u8>|
            encrypted@ == #[trigger] sealed_chunk(key@, n, p) && n.len() == NONCE_SIZE
                && fits_one_message(p.len()) implies (r matches Ok(v) && v@ == p) by {
            assert(nonce@ =~= n);
            assert(ciphertext@ =~= xchacha20poly1305_seal(key@, n, p));
        }
    }
    match r {
        Ok(p) => Ok(p),
        Err(e) => Err(CryptoError::DecryptionFailed(aead_error_text(&e))),
    }
}

/// Encrypts an entire file (for files up to 50 MB): the output of `encrypt_chunk` with a
/// random nonce.
pub fn encrypt_file(key: &[u8; KEY_SIZE], plaintext: &[u8]) -> (r: Result<Vec<u8>, CryptoError>)
    ensures
        r is Ok <==> fits_one_message(plaintext@.len()),
        r matches Ok(out) ==> out@.len() == plaintext@.len() + NONCE_SIZE + TAG_SIZE,
        r matches Ok(out) ==> exists|nonce: Seq<u8>|
            nonce.len() == NONCE_SIZE && out@ == #[trigger] sealed_chunk(key@, nonce, plaintext@),
        r matches Err(e) ==> (e matches CryptoError::EncryptionFailed(m) && m@ == "aead::Error"@),
{
    match encrypt_chunk(key, plaintext, 0, None) {
        Ok((encrypted, nonce)) => {
            assert(nonce@.len() == NONCE_SIZE);
            Ok(encrypted)
        },
        Err(e) => Err(e),
    }
}

/// Decrypts an entire file: `decrypt_chunk` of the whole input.
pub fn decrypt_file(key: &[u8; KEY_SIZE], encrypted: &[u8]) -> (r: Result<Vec<u8>, CryptoError>)
    ensures
        encrypted@.len() < NONCE_SIZE + TAG_SIZE ==> r == Err::<Vec<u8>, CryptoError>(
            CryptoError::InvalidDataLength,
        ),
        encrypted@.len() >= NONCE_SIZE + TAG_SIZE ==> match r {
            Ok(p) => xchacha20poly1305_open(
                key@,
                encrypted@.take(NONCE_SIZE as int),
                encrypted@.skip(NONCE_SIZE as int),
            ) == Some(p@),
            Err(e) => xchacha20poly1305_open(
                key@,
                encrypted@.take(NONCE_SIZE as int),
                encrypted@.skip(NONCE_SIZE as int),
            ) is None && (e matches CryptoError::DecryptionFailed(m) && m@ == "aead::Error"@),
        },
        forall|nonce: Seq<u8>, p: Seq<u8>|
            encrypted@ == #[trigger] sealed_chunk(key@, nonce, p) && nonce.len() == NONCE_SIZE
                && fits_one_message(p.len()) && encrypted@.len() >= NONCE_SIZE + TAG_SIZE
                ==> (r matches Ok(v) && v@ == p),
{
    decrypt_chunk(key, encrypted)
}

proof fn lemma_xor_cancel(a: u8, x: u8, y: u8)
    requires
        a ^ x == a ^ y,
    ensures
        x == y,
{
    assert(a ^ x == a ^ y ==> x == y) by (bit_vector);
}

/// Distinct chunks of one file get distinct nonces: the chunk nonce is injective in the
/// chunk index for every base nonce.
pub proof fn lemma_chunk_nonces_distinct(base: Seq<u8>, i: u64, j: u64)
    requires
        base.len() == NONCE_SIZE,
        i != j,
    ensures
        chunk_nonce(base, i) != chunk_nonce(base, j),
{
    let ni = chunk_nonce(base, i);
    let nj = chunk_nonce(base, j);
    if ni == nj {
        assert forall|k: int| 0 <= k < 8 implies #[trigger] le_byte(i, k) == le_byte(j, k) by {
            assert(ni[k + 16] == nj[k + 16]);
            lemma_xor_cancel(base[k + 16], le_byte(i, k), le_byte(j, k));
        }
        assert(le_byte(i, 0) == le_byte(j, 0));
        assert(le_byte(i, 1) == le_byte(j, 1));
        assert(le_byte(i, 2) == le_byte(j, 2));
        assert(le_byte(i, 3) == le_byte(j, 3));
        assert(le_byte(i, 4) == le_byte(j, 4));
        assert(le_byte(i, 5) == le_byte(j, 5));
        assert(le_byte(i, 6) == le_byte(j, 6));
        assert(le_byte(i, 7) == le_byte(j, 7));
        assert(((i >> 0u64) & 0xff) as u8 == ((j >> 0u64) & 0xff) as u8);
        assert(((i >> 8u64) & 0xff) as u8 == ((j >> 8u64) & 0xff) as u8);
        assert(((i >> 16u64) & 0xff) as u8 == ((j >> 16u64) & 0xff) as u8);
        assert(((i >> 24u64) & 0xff) as u8 == ((j >> 24u64) & 0xff) as u8);
        assert(((i >> 32u64) & 0xff) as u8 == ((j >> 32u64) & 0xff) as u8);
        assert(((i >> 40u64) & 0xff) as u8 == ((j >> 40u64) & 0xff) as u8);
        assert(((i >> 48u64) & 0xff) as u8 == ((j >> 48u64) & 0xff) as u8);
        assert(((i >> 56u64) & 0xff) as u8 == ((j >> 56u64) & 0xff) as u8);
        assert(i == j) by (bit_vector)
            requires
                ((i >> 0u64) & 0xff) as u8 == ((j >> 0u64) & 0xff) as u8,
                ((i >> 8u64) & 0xff) as u8 == ((j >> 8u64) & 0xff) as u8,
                ((i >> 16u64) & 0xff) as u8 == ((j >> 16u64) & 0xff) as u8,
                ((i >> 24u64) & 0xff) as u8 == ((j >> 24u64) & 0xff) as u8,
                ((i >> 32u64) & 0xff) as u8 == ((j >> 32u64) & 0xff) as u8,
                ((i >> 40u64) & 0xff) as u8 == ((j >> 40u64) & 0xff) as u8,
                ((i >> 48u64) & 0xff) as u8 == ((j >> 48u64) & 0xff) as u8,
                ((i >> 56u64) & 0xff) as u8 == ((j >> 56u64) & 0xff) as u8,
        ;
    }
}

} // verus!
