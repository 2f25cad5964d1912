//! License keys: `EXAD-` followed by the URL-safe, unpadded base64 of a
//! 12-byte nonce and the AES-256-GCM sealing of the payload's JSON text.
//! The JSON text itself is read and written by the caller.
use vstd::prelude::*;
use vstd::string::*;
use vstd::utf8::{decode_utf8, encode_utf8, valid_utf8};
use aes_gcm::aead::{Aead, KeyInit};
use aes_gcm::{Aes256Gcm, Nonce};
use base64::engine::general_purpose::URL_SAFE_NO_PAD;
use base64::Engine;
use sha2::{Digest, Sha256};
use crate::paths::starts_with_chars;
use crate::credentials::now_timestamp;

verus! {

/// Why a license key could not be made or read.
#[derive(Debug, Clone, Copy, PartialEq, Eq, Structural)]
pub enum CryptoError {
    InvalidFormat,
    DecryptionFailed,
    EncryptionFailed,
    InvalidPayload,
}

impl CryptoError {
    /// Text describing the error.
    pub fn message(&self) -> (r: String)
        ensures
            r@ == spec_crypto_message(*self),
    {
        match self {
            CryptoError::InvalidFormat => String::from_str("Invalid key format"),
            CryptoError::DecryptionFailed => String::from_str("Decryption failed"),
            CryptoError::EncryptionFailed => String::from_str("Encryption failed"),
            CryptoError::InvalidPayload => String::from_str("Invalid JSON payload"),
        }
    }
}

pub open spec fn spec_crypto_message(e: CryptoError) -> Seq<char> {
    match e {
        CryptoError::InvalidFormat => "Invalid key format"@,
        CryptoError::DecryptionFailed => "Decryption failed"@,
        CryptoError::EncryptionFailed => "Encryption failed"@,
        CryptoError::InvalidPayload => "Invalid JSON payload"@,
    }
}

/// What AES-256-GCM sealing of `plain` under `key` and `nonce` gives, with
/// no associated data; `None` where the cipher refuses.
pub uninterp spec fn aes256gcm_sealed(key: Seq<u8>, nonce: Seq<u8>, plain: Seq<u8>) -> Option<
    Seq<u8>,
>;

/// What AES-256-GCM opening of `sealed` under `key` and `nonce` gives;
/// `None` where authentication fails or the cipher refuses.
pub uninterp spec fn aes256gcm_opened(key: Seq<u8>, nonce: Seq<u8>, sealed: Seq<u8>) -> Option<
    Seq<u8>,
>;

/// URL-safe base64 text of `data`, without padding.
pub uninterp spec fn base64_url_encoded(data: Seq<u8>) -> Seq<char>;

/// Bytes of URL-safe, unpadded base64 `text`; `None` where it is not such
/// text.
pub uninterp spec fn base64_url_decoded(text: Seq<char>) -> Option<Seq<u8>>;

/// SHA-256 digest of `data`.
pub uninterp spec fn sha256_digest(data: Seq<u8>) -> Seq<u8>;

pub open spec fn opt_bytes(o: Option<Vec<u8>>) -> Option<Seq<u8>> {
    match o {
        Some(v) => Some(v@),
        None => None,
    }
}

/// Longest plaintext that AES-GCM seals (2^36 bytes).
pub const AES_GCM_MAX_PLAIN: u64 = 0x10_0000_0000;

/// Relies on `Aes256Gcm::new_from_slice` and `Aead::encrypt` of aes_gcm:
/// the cipher made from `key` seals `plain` under `nonce`. A 32-byte key is
/// accepted, and sealing fails only past `AES_GCM_MAX_PLAIN` bytes.
#[verifier::external_body]
fn aes_seal(key: &[u8], nonce: &[u8], plain: &[u8]) -> (r: Option<Vec<u8>>)
    requires
        nonce@.len() == 12,
    ensures
        opt_bytes(r) == aes256gcm_sealed(key@, nonce@, plain@),
        key@.len() == 32 && plain@.len() <= AES_GCM_MAX_PLAIN ==> r is Some,
{
    let cipher = Aes256Gcm::new_from_slice(key).ok()?;
    cipher.encrypt(Nonce::from_slice(nonce), plain).ok()
}

/// Relies on `Aes256Gcm::new_from_slice` and `Aead::decrypt` of aes_gcm:
/// the cipher made from `key` opens `sealed` under `nonce`.
#[verifier::external_body]
fn aes_open(key: &[u8], nonce: &[u8], sealed: &[u8]) -> (r: Option<Vec<u8>>)
    requires
        nonce@.len() == 12,
    ensures
        opt_bytes(r) == aes256gcm_opened(key@, nonce@, sealed@),
{
    let cipher = Aes256Gcm::new_from_slice(key).ok()?;
    cipher.decrypt(Nonce::from_slice(nonce), sealed).ok()
}

/// Relies on base64's `URL_SAFE_NO_PAD.encode`.
#[verifier::external_body]
fn b64_encode(data: &[u8]) -> (r: String)
    ensures
        r@ == base64_url_encoded(data@),
{
    URL_SAFE_NO_PAD.encode(data)
}

/// Relies on base64's `URL_SAFE_NO_PAD.decode`.
#[verifier::external_body]
fn b64_decode(text: &str) -> (r: Option<Vec<u8>>)
    ensures
        opt_bytes(r) == base64_url_decoded(text@),
{
    URL_SAFE_NO_PAD.decode(text).ok()
}

/// Relies on sha2's `Sha256::digest`, whose output has 32 bytes.
#[verifier::external_body]
pub(crate) fn sha256(data: &[u8]) -> (r: Vec<u8>)
    ensures
        r@ == sha256_digest(data@),
        r@.len() == 32,
{
    Sha256::digest(data).to_vec()
}

/// Relies on `String::from_utf8`: it accepts exactly valid UTF-8 and then
/// holds the characters that the bytes encode.
#[verifier::external_body]
fn utf8_text(bytes: Vec<u8>) -> (r: Option<String>)
    ensures
        r is Some <==> valid_utf8(bytes@),
        r matches Some(s) ==> s@ == decode_utf8(bytes@),
{
    String::from_utf8(bytes).ok()
}

/// Relies on `rand::random`: twelve bytes drawn at random. Nothing is
/// known of their values.
#[verifier::external_body]
fn random_nonce() -> (r: Vec<u8>)
    ensures
        r@.len() == 12,
{
    rand::random::<[u8; 12]>().to_vec()
}

/// Relies on `i64::to_le_bytes`: the eight bytes of the value's two's
/// complement form, least significant first.
#[verifier::external_body]
fn le_bytes(v: i64) -> (r: Vec<u8>)
    ensures
        r@ == spec_le_bytes(v),
{
    v.to_le_bytes().to_vec()
}

/// Relies on `hex::encode`: two lowercase hexadecimal digits per byte, the
/// high digit first.
#[verifier::external_body]
pub(crate) fn hex_encode(data: &[u8]) -> (r: String)
    ensures
        r@ == hex_of(data@),
{
    hex::encode(data)
}

/// Byte `k` (counting from the least significant) of the non-negative `u`.
pub open spec fn byte_of(u: int, k: nat) -> u8
    decreases k,
{
    if k == 0 {
        (u % 256) as u8
    } else {
        byte_of(u / 256, (k - 1) as nat)
    }
}

/// The eight little-endian bytes of the two's complement form of `v`.
pub open spec fn spec_le_bytes(v: i64) -> Seq<u8> {
    let u: int = if v >= 0 {
        v as int
    } else {
        v as int + 0x1_0000_0000_0000_0000
    };
    Seq::new(8, |k: int| byte_of(u, k as nat))
}

/// Lowercase hexadecimal digit of `n` (below 16).
pub open spec fn hex_digit(n: u8) -> char {
    seq!['0', '1', '2', '3', '4', '5', '6', '7', '8', '9', 'a', 'b', 'c', 'd', 'e', 'f'][n as int]
}

/// The hexadecimal form has two digits per byte.
pub proof fn lemma_hex_len(b: Seq<u8>)
    ensures
        hex_of(b).len() == 2 * b.len(),
    decreases b.len(),
{
    if b.len() > 0 {
        lemma_hex_len(b.drop_last());
    }
}

/// Two lowercase hexadecimal digits per byte of `b`, high digit first.
pub open spec fn hex_of(b: Seq<u8>) -> Seq<char>
    decreases b.len(),
{
    if b.len() == 0 {
        Seq::empty()
    } else {
        hex_of(b.drop_last()) + seq![hex_digit(b.last() / 16), hex_digit(b.last() % 16)]
    }
}

/// The characters `EXAD-` that open every license key.
pub open spec fn license_prefix() -> Seq<char> {
    seq!['E', 'X', 'A', 'D', '-']
}

/// The license key for plaintext `plain` sealed under `master` with `nonce`.
pub open spec fn spec_encrypt(plain: Seq<u8>, nonce: Seq<u8>, master: Seq<u8>) -> Result<
    Seq<char>,
    CryptoError,
> {
    match aes256gcm_sealed(master, nonce, plain) {
        None => Err(CryptoError::EncryptionFailed),
        Some(c) => Ok(license_prefix() + base64_url_encoded(nonce + c)),
    }
}

/// The text sealed in the decoded bytes `b` of a license key (a 12-byte
/// nonce, then the sealed text), opened under `master`.
pub open spec fn spec_open_decoded(b: Seq<u8>, master: Seq<u8>) -> Result<Seq<char>, CryptoError> {
    if b.len() < 13 {
        Err(CryptoError::InvalidFormat)
    } else {
        match aes256gcm_opened(master, b.take(12), b.skip(12)) {
            None => Err(CryptoError::DecryptionFailed),
            Some(p) => if valid_utf8(p) {
                Ok(decode_utf8(p))
            } else {
                Err(CryptoError::DecryptionFailed)
            },
        }
    }
}

/// The plaintext (as text) inside license key `key`, opened under `master`.
pub open spec fn spec_decrypt(key: Seq<char>, master: Seq<u8>) -> Result<Seq<char>, CryptoError> {
    if !license_prefix().is_prefix_of(key) {
        Err(CryptoError::InvalidFormat)
    } else {
        match base64_url_decoded(key.skip(5)) {
            None => Err(CryptoError::InvalidFormat),
            Some(b) => spec_open_decoded(b, master),
        }
    }
}

/// Whether `key` has the form of a license key: the prefix, then base64.
pub open spec fn spec_valid_format(key: Seq<char>) -> bool {
    license_prefix().is_prefix_of(key) && base64_url_decoded(key.skip(5)) is Some
}

pub open spec fn result_text(r: Result<String, CryptoError>) -> Result<Seq<char>, CryptoError> {
    match r {
        Ok(s) => Ok(s@),
        Err(e) => Err(e),
    }
}

/// Bytes `from..to` of `v`.
fn byte_range(v: &Vec<u8>, from: usize, to: usize) -> (r: Vec<u8>)
    requires
        from <= to <= v@.len(),
    ensures
        r@ == v@.subrange(from as int, to as int),
{
    let mut r: Vec<u8> = Vec::new();
    let mut i: usize = from;
    while i < to
        invariant
            from <= i <= to <= v@.len(),
            r@ == v@.subrange(from as int, i as int),
        decreases to - i,
    {
        r.push(v[i]);
        proof {
            assert(r@ =~= v@.subrange(from as int, i + 1));
        }
        i = i + 1;
    }
    r
}

fn license_prefix_text() -> (r: &'static str)
    ensures
        r@ == license_prefix(),
{
    let r = "EXAD-";
    proof {
        reveal_strlit("EXAD-");
        assert(r@ =~= license_prefix());
    }
    r
}

/// The license key for `plain` sealed under `master_key` with `nonce`.
pub fn encrypt_key_with_nonce(plain: &[u8], nonce: &[u8], master_key: &[u8]) -> (r: Result<
    String,
    CryptoError,
>)
    requires
        nonce@.len() == 12,
    ensures
        result_text(r) == spec_encrypt(plain@, nonce@, master_key@),
        master_key@.len() == 32 && plain@.len() <= AES_GCM_MAX_PLAIN ==> r is Ok,
{
    let sealed = match aes_seal(master_key, nonce, plain) {
        Some(c) => c,
        None => return Err(CryptoError::EncryptionFailed),
    };
    let mut combined: Vec<u8> = Vec::new();
    let mut i: usize = 0;
    while i < nonce.len()
        invariant
            i <= nonce@.len() == 12,
            combined@ == nonce@.subrange(0, i as int),
        decreases 12 - i,
    {
        combined.push(nonce[i]);
        proof {
            assert(combined@ =~= nonce@.subrange(0, i + 1));
        }
        i = i + 1;
    }
    proof {
        assert(nonce@.subrange(0, 12) =~= nonce@);
    }
    let mut rest = sealed;
    combined.append(&mut rest);
    let encoded = b64_encode(combined.as_slice());
    let mut key = String::from_str(license_prefix_text());
    key.append(encoded.as_str());
    Ok(key)
}

/// A license key for `plain` sealed under `master_key`, with a nonce drawn
/// at random: the key is the one that `encrypt_key_with_nonce` makes from
/// some 12-byte nonce.
pub fn encrypt_key(plain: &[u8], master_key: &[u8]) -> (r: Result<String, CryptoError>)
    ensures
        exists|nonce: Seq<u8>|
            nonce.len() == 12 && #[trigger] spec_encrypt(plain@, nonce, master_key@) == result_text(
                r,
            ),
        master_key@.len() == 32 && plain@.len() <= AES_GCM_MAX_PLAIN ==> r is Ok,
{
    let nonce = random_nonce();
    encrypt_key_with_nonce(plain, nonce.as_slice(), master_key)
}

/// The text sealed inside license key `key`, opened under `master_key`.
/// `InvalidFormat` when the prefix is missing, the rest is not base64 or
/// holds fewer than 13 bytes; `DecryptionFailed` when the cipher refuses
/// the bytes or they are not UTF-8 text.
pub fn decrypt_key(key: &str, master_key: &[u8]) -> (r: Result<String, CryptoError>)
    ensures
        result_text(r) == spec_decrypt(key@, master_key@),
{
    if !starts_with_chars(key, license_prefix_text()) {
        return Err(CryptoError::InvalidFormat);
    }
    let encoded = key.substring_char(5, key.unicode_len());
    proof {
        assert(encoded@ =~= key@.skip(5));
    }
    match b64_decode(encoded) {
        Some(combined) => open_decoded(&combined, master_key),
        None => Err(CryptoError::InvalidFormat),
    }
}

/// The text sealed in `combined`, the decoded bytes of a license key: a
/// 12-byte nonce then the sealed text, opened under `master_key`.
/// `InvalidFormat` when it holds fewer than 13 bytes; `DecryptionFailed`
/// when the cipher refuses the bytes or they are not UTF-8 text.
pub fn open_decoded(combined: &Vec<u8>, master_key: &[u8]) -> (r: Result<String, CryptoError>)
    ensures
        result_text(r) == spec_open_decoded(combined@, master_key@),
{
    if combined.len() < 13 {
        return Err(CryptoError::InvalidFormat);
    }
    let nonce = byte_range(combined, 0, 12);
    let sealed = byte_range(combined, 12, combined.len());
    proof {
        assert(nonce@ =~= combined@.take(12));
        assert(sealed@ =~= combined@.skip(12));
    }
    let plain = match aes_open(master_key, nonce.as_slice(), sealed.as_slice()) {
        Some(p) => p,
        None => return Err(CryptoError::DecryptionFailed),
    };
    match utf8_text(plain) {
        Some(text) => Ok(text),
        None => Err(CryptoError::DecryptionFailed),
    }
}

/// Whether `key` has the form of a license key (the `EXAD-` prefix, then
/// URL-safe base64), without opening it.
pub fn validate_key_format(key: &str) -> (r: bool)
    ensures
        r == spec_valid_format(key@),
{
    if !starts_with_chars(key, license_prefix_text()) {
        return false;
    }
    let encoded = key.substring_char(5, key.unicode_len());
    proof {
        assert(encoded@ =~= key@.skip(5));
    }
    b64_decode(encoded).is_some()
}

/// Identity carried by a license key.
#[derive(Debug, Clone, PartialEq, Eq)]
pub struct KeyPayload {
    pub uid: String,
    pub name: String,
    pub created: i64,
}

/// User id made from a name and a creation time: `u_` and the hexadecimal
/// form of the first 8 bytes of the SHA-256 digest of the name's UTF-8
/// bytes followed by the time's little-endian bytes.
pub open spec fn spec_uid(name: Seq<char>, created: i64) -> Seq<char> {
    seq!['u', '_'] + hex_of(sha256_digest(encode_utf8(name) + spec_le_bytes(created)).take(8))
}

/// Remote namespace of a user: `users/<uid>/`.
pub open spec fn spec_folder_prefix(uid: Seq<char>) -> Seq<char> {
    seq!['u', 's', 'e', 'r', 's', '/'] + uid + seq!['/']
}

/// The user id for `name` created at `created` (seconds since the epoch).
pub fn generate_uid(name: &str, created: i64) -> (r: String)
    ensures
        r@ == spec_uid(name@, created),
        r@.len() == 18,
{
    let mut data = name.as_bytes_vec();
    let mut tail = le_bytes(created);
    data.append(&mut tail);
    let digest = sha256(data.as_slice());
    let head = byte_range(&digest, 0, 8);
    proof {
        assert(head@ =~= digest@.take(8));
    }
    let digits = hex_encode(head.as_slice());
    proof {
        lemma_hex_len(head@);
    }
    let prefix = "u_";
    proof {
        reveal_strlit("u_");
        assert(prefix@ =~= seq!['u', '_']);
    }
    let mut r = String::from_str(prefix);
    r.append(digits.as_str());
    r
}

impl KeyPayload {
    /// A payload for `name` created now; its id is derived from the name
    /// and the creation time.
    pub fn new(name: &str) -> (r: KeyPayload)
        ensures
            r.name@ == name@,
            r.uid@ == spec_uid(name@, r.created),
            r.uid@.len() == 18,
    {
        let created = now_timestamp();
        KeyPayload { uid: generate_uid(name, created), name: String::from_str(name), created }
    }

    /// The remote folder prefix of this user.
    pub fn folder_prefix(&self) -> (r: String)
        ensures
            r@ == spec_folder_prefix(self.uid@),
    {
        let head = "users/";
        let tail = "/";
        proof {
            reveal_strlit("users/");
            reveal_strlit("/");
            assert(head@ =~= seq!['u', 's', 'e', 'r', 's', '/']);
        }
        let mut r = String::from_str(head);
        r.append(self.uid.as_str());
        r.append(tail);
        r
    }
}

} // verus!
