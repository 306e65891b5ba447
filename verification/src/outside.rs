//! The trusted boundary: every call into an outside crate is behind one of
//! the wrappers here, and each wrapper's contract states no more than the
//! crate's own source and documentation show. Deterministic results carry
//! names (`b64url_of`, `rs256_sig_of`, ...) that the rest of the library
//! reasons with; random or clock-dependent results only state what holds of
//! every outcome.

use vstd::prelude::*;
use vstd::utf8::encode_utf8;
use vstd::utf8::valid_utf8;

verus! {

/// The base64url (URL-safe alphabet, no padding) encoding of a byte string.
pub uninterp spec fn b64url_of(b: Seq<u8>) -> Seq<char>;

/// What strict standard base64 decoding yields on a string: the decoded
/// bytes, or nothing when the string is not canonical padded base64.
pub uninterp spec fn b64std_decoded(s: Seq<char>) -> Option<Seq<u8>>;

/// The base64url-encoded RSA-SHA256 (PKCS#1 v1.5, deterministic) signature
/// of a message under a private key given as PEM bytes.
pub uninterp spec fn rs256_sig_of(msg: Seq<u8>, pem: Seq<u8>) -> Seq<char>;

/// Whether PEM bytes parse as an RSA private key that RSA-SHA256 signing
/// accepts. Acceptance depends on the key alone: the digest the padding
/// wraps has a fixed size, so no message is ever rejected by itself.
pub uninterp spec fn rs256_key_ok(pem: Seq<u8>) -> bool;

/// Whether PEM bytes parse as an RSA public key usable for verification.
pub uninterp spec fn rs256_pub_key_ok(pem: Seq<u8>) -> bool;

/// Whether a base64url signature string checks out against a message under
/// an RSA public key given as PEM bytes; deterministic in the three inputs.
pub uninterp spec fn rs256_valid(sig: Seq<char>, msg: Seq<u8>, pem: Seq<u8>) -> bool;

/// Whether a password agrees with a bcrypt hash string; deterministic in
/// the two inputs.
pub uninterp spec fn bcrypt_matches(password: Seq<char>, hashed: Seq<char>) -> bool;

/// What the pem crate finds in a PEM document: its tag and its DER
/// contents, or nothing when the document does not parse.
pub uninterp spec fn pem_parsed(b: Seq<u8>) -> Option<(Seq<char>, Seq<u8>)>;

/// The modulus byte width of the RSA private key in a PKCS#1 DER document,
/// or nothing when the DER is not a consistent two-prime RSA key.
pub uninterp spec fn pkcs1_rsa_key_size(der: Seq<u8>) -> Option<int>;

/// The modulus byte width of the RSA private key in a PKCS#8 DER document.
pub uninterp spec fn pkcs8_rsa_key_size(der: Seq<u8>) -> Option<int>;

/// Whether PEM bytes hold an RSA private key wide enough to sign with:
/// a PKCS#1 v1.5 RSA-SHA256 signature needs a 62-byte modulus (19-byte
/// digest prefix, 32-byte digest, 11 bytes of padding). The rsa crate
/// aborts rather than erring below that width, so the signing wrapper
/// admits only keys this predicate accepts; `generate_jwt_token` turns the
/// rejection into `SigningError`.
pub open spec fn rs256_key_sized(pem: Seq<u8>) -> bool {
    match pem_parsed(pem) {
        None => false,
        Some(tc) => {
            let size = if tc.0 == "RSA PRIVATE KEY"@ {
                pkcs1_rsa_key_size(tc.1)
            } else if tc.0 == "PRIVATE KEY"@ {
                pkcs8_rsa_key_size(tc.1)
            } else {
                Option::None
            };
            size matches Some(n) && n >= 62
        },
    }
}

/// The shape of a bcrypt hash string under version `2b`: exactly 60
/// characters opening with `$2b$`.
pub open spec fn is_bcrypt_hash_shape(s: Seq<char>) -> bool {
    s.len() == 60 && s[0] == '$' && s[1] == '2' && s[2] == 'b' && s[3] == '$'
}

pub open spec fn is_hex_lower_char(c: char) -> bool {
    ('0' <= c && c <= '9') || ('a' <= c && c <= 'f')
}

/// The hyphenated lowercase-hex form of a UUID: five hex groups of lengths
/// 8, 4, 4, 4 and 12 separated by `-`, 36 characters in all.
pub open spec fn is_uuid_chars(s: Seq<char>) -> bool {
    &&& s.len() == 36
    &&& forall|i: int|
        0 <= i < 36 ==> if i == 8 || i == 13 || i == 18 || i == 23 {
            #[trigger] s[i] == '-'
        } else {
            is_hex_lower_char(s[i])
        }
}

/// Relies on base64's `URL_SAFE_NO_PAD` engine for encoding. The URL-safe
/// alphabet (`A-Z a-z 0-9 - _`) never contains `.`, which is what lets the
/// three token segments be recovered by splitting on dots.
#[verifier::external_body]
pub(crate) fn b64url_encode(b: &[u8]) -> (r: String)
    ensures
        r@ == b64url_of(b@),
        forall|i: int| 0 <= i < r@.len() ==> r@[i] != '.',
{
    base64::Engine::encode(&base64::engine::general_purpose::URL_SAFE_NO_PAD, b)
}

/// Relies on base64's `URL_SAFE_NO_PAD` engine for decoding: the engine is
/// strict (no padding accepted, no nonzero trailing bits), so it succeeds
/// exactly on canonical encodings and inverts `b64url_encode`.
#[verifier::external_body]
pub(crate) fn b64url_decode(s: &str) -> (r: Option<Vec<u8>>)
    ensures
        forall|b: Seq<u8>| s@ == b64url_of(b) ==> r is Some && r->0@ == b,
        r is Some ==> s@ == b64url_of(r->0@),
{
    match base64::Engine::decode(&base64::engine::general_purpose::URL_SAFE_NO_PAD, s) {
        Ok(v) => Some(v),
        Err(_) => None,
    }
}

/// Relies on base64's `STANDARD` engine for decoding the configured key
/// material (canonical padding required, no trailing bits).
#[verifier::external_body]
pub(crate) fn b64std_decode(s: &str) -> (r: Option<Vec<u8>>)
    ensures
        r is Some <==> b64std_decoded(s@) is Some,
        r is Some ==> r->0@ == b64std_decoded(s@)->0,
{
    match base64::Engine::decode(&base64::engine::general_purpose::STANDARD, s) {
        Ok(v) => Some(v),
        Err(_) => None,
    }
}

/// Relies on std's `String::from_utf8`: succeeds exactly on valid UTF-8 and
/// returns the string whose byte encoding is the input.
#[verifier::external_body]
pub(crate) fn string_from_utf8(v: Vec<u8>) -> (r: Option<String>)
    ensures
        r is Some <==> valid_utf8(v@),
        r is Some ==> encode_utf8(r->0@) == v@,
{
    match String::from_utf8(v) {
        Ok(s) => Some(s),
        Err(_) => None,
    }
}

/// Relies on chrono's `Utc::now` and `DateTime::timestamp`: the current
/// unix time in whole seconds. `DateTime<Utc>` spans about ±262,000 years
/// around the common era, so the timestamp stays within ±9 * 10^12.
#[verifier::external_body]
pub(crate) fn now_timestamp() -> (r: i64)
    ensures
        -9_000_000_000_000 <= r <= 9_000_000_000_000,
{
    chrono::Utc::now().timestamp()
}

/// Relies on uuid's `Uuid::new_v4` and its `Display`: a fresh random UUID,
/// printed in the hyphenated lowercase form, 36 characters. The value is
/// random, so nothing more is stated about it.
#[verifier::external_body]
pub(crate) fn new_uuid_string() -> (r: String)
    ensures
        is_uuid_chars(r@),
{
    uuid::Uuid::new_v4().to_string()
}

/// Relies on jsonwebtoken's `EncodingKey::from_rsa_pem` and `crypto::sign`
/// with `Algorithm::RS256`. Whether the PEM parses into a signing key
/// depends on the key bytes alone; the signature is the deterministic
/// PKCS#1 v1.5 one, returned base64url-encoded, hence free of `.`. The
/// backend aborts rather than erring on a modulus narrower than the padded
/// digest, so callers must first establish `rs256_key_sized`; on that
/// domain every path through the backend returns.
#[verifier::external_body]
pub(crate) fn rs256_sign(msg: &[u8], pem: &[u8]) -> (r: Option<String>)
    requires
        rs256_key_sized(pem@),
    ensures
        r is Some <==> rs256_key_ok(pem@),
        r is Some ==> r->0@ == rs256_sig_of(msg@, pem@),
        r is Some ==> forall|i: int| 0 <= i < r->0@.len() ==> r->0@[i] != '.',
{
    let key = match jsonwebtoken::EncodingKey::from_rsa_pem(pem) {
        Ok(k) => k,
        Err(_) => {
            return None;
        },
    };
    match jsonwebtoken::crypto::sign(msg, &key, jsonwebtoken::Algorithm::RS256) {
        Ok(s) => Some(s),
        Err(_) => None,
    }
}

/// Relies on jsonwebtoken's `DecodingKey::from_rsa_pem` and
/// `crypto::verify` with `Algorithm::RS256`. Whether the public PEM parses
/// depends on the key bytes alone; with a good key the outcome — signature
/// base64url-decodes and checks against the message — is a deterministic
/// function of the three inputs. A verify error (an undecodable signature)
/// is reported as `false`.
#[verifier::external_body]
pub(crate) fn rs256_verify(sig: &str, msg: &[u8], pem: &[u8]) -> (r: Option<bool>)
    ensures
        r is Some <==> rs256_pub_key_ok(pem@),
        r is Some ==> r->0 == rs256_valid(sig@, msg@, pem@),
{
    let key = match jsonwebtoken::DecodingKey::from_rsa_pem(pem) {
        Ok(k) => k,
        Err(_) => {
            return None;
        },
    };
    match jsonwebtoken::crypto::verify(sig, msg, &key, jsonwebtoken::Algorithm::RS256) {
        Ok(b) => Some(b),
        Err(_) => Some(false),
    }
}

/// Relies on bcrypt's `verify`: agreement of a password with a bcrypt hash
/// is a deterministic function of the two. An error (the hash string is not
/// a bcrypt hash) is reported as `false`.
#[verifier::external_body]
pub(crate) fn bcrypt_check(password: &str, hashed: &str) -> (r: bool)
    ensures
        r == bcrypt_matches(password@, hashed@),
{
    match bcrypt::verify(password, hashed) {
        Ok(b) => b,
        Err(_) => false,
    }
}

/// Relies on bcrypt's `hash` with `DEFAULT_COST`: a fresh hash of the
/// password under a random salt. The salt makes the hash itself
/// unpredictable; what bcrypt promises of every outcome is that the hash
/// verifies against the hashed password and has the fixed 60-character
/// `$2b$` form (the formatter writes version `2b` into an exactly
/// 60-byte ASCII buffer).
#[verifier::external_body]
pub(crate) fn bcrypt_hash(password: &str) -> (r: Option<String>)
    ensures
        r is Some ==> bcrypt_matches(password@, r->0@),
        r is Some ==> is_bcrypt_hash_shape(r->0@),
{
    match bcrypt::hash(password, bcrypt::DEFAULT_COST) {
        Ok(h) => Some(h),
        Err(_) => None,
    }
}

/// Relies on pem's `parse`: splits a PEM document into its tag and its
/// DER contents; deterministic in the bytes.
#[verifier::external_body]
pub(crate) fn pem_decode(b: &[u8]) -> (r: Option<(String, Vec<u8>)>)
    ensures
        r is Some <==> pem_parsed(b@) is Some,
        r matches Some(p) ==> pem_parsed(b@) matches Some(q) && p.0@ == q.0 && p.1@ == q.1,
{
    match pem::parse(b) {
        Ok(doc) => {
            let tag = doc.tag().to_string();
            Some((tag, doc.into_contents()))
        },
        Err(_) => None,
    }
}

/// Relies on rsa's `RsaPrivateKey::from_pkcs1_der` (which validates the
/// key's consistency) and `PublicKeyParts::size`: the modulus byte width
/// of a PKCS#1 private key; deterministic in the DER.
#[verifier::external_body]
pub(crate) fn rsa_pkcs1_key_size(der: &[u8]) -> (r: Option<usize>)
    ensures
        r is Some <==> pkcs1_rsa_key_size(der@) is Some,
        r matches Some(n) ==> pkcs1_rsa_key_size(der@) == Some(n as int),
{
    match <rsa::RsaPrivateKey as rsa::pkcs1::DecodeRsaPrivateKey>::from_pkcs1_der(der) {
        Ok(key) => Some(rsa::traits::PublicKeyParts::size(&key)),
        Err(_) => None,
    }
}

/// Relies on rsa's `RsaPrivateKey::from_pkcs8_der` (same validation) and
/// `PublicKeyParts::size`: the modulus byte width of a PKCS#8 private
/// key; deterministic in the DER.
#[verifier::external_body]
pub(crate) fn rsa_pkcs8_key_size(der: &[u8]) -> (r: Option<usize>)
    ensures
        r is Some <==> pkcs8_rsa_key_size(der@) is Some,
        r matches Some(n) ==> pkcs8_rsa_key_size(der@) == Some(n as int),
{
    match <rsa::RsaPrivateKey as rsa::pkcs8::DecodePrivateKey>::from_pkcs8_der(der) {
        Ok(key) => Some(rsa::traits::PublicKeyParts::size(&key)),
        Err(_) => None,
    }
}

} // verus!
