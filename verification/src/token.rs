//! The token codec: turns an identity into a time-bounded, RSA-SHA256
//! signed compact token (three base64url segments joined by dots), and
//! turns such a token back into trusted claims.
//!
//! The framing — header, claims payload, signature assembly and splitting,
//! algorithm pinning and expiry — is verified here; only base64url, the RSA
//! primitives, the clock and the UUID generator are trusted (see
//! `outside`).

use vstd::prelude::*;
use vstd::string::StrSliceExecFns;
use vstd::string::StringExecFns;
use vstd::utf8::decode_utf8;
use vstd::utf8::encode_utf8;
use vstd::utf8::valid_utf8;

use crate::claims::claims_json;
use crate::claims::claims_json_bytes;
use crate::claims::parse_claims;
use crate::claims::parse_claims_bytes;
use crate::outside::b64std_decoded;
use crate::outside::b64std_decode;
use crate::outside::b64url_decode;
use crate::outside::b64url_encode;
use crate::outside::b64url_of;
use crate::outside::is_uuid_chars;
use crate::outside::new_uuid_string;
use crate::outside::now_timestamp;
use crate::outside::pem_decode;
use crate::outside::rs256_key_ok;
use crate::outside::rs256_key_sized;
use crate::outside::rsa_pkcs1_key_size;
use crate::outside::rsa_pkcs8_key_size;
use crate::outside::rs256_pub_key_ok;
use crate::outside::rs256_sig_of;
use crate::outside::rs256_sign;
use crate::outside::rs256_valid;
use crate::outside::rs256_verify;
use crate::outside::string_from_utf8;

verus! {

/// A freshly issued token: the signed string, plus an echo of the subject
/// identity, token id (hyphenated UUID string) and expiry. Verification
/// returns the identity facts only, with `access_token` and `expires_in`
/// left empty.
#[derive(Debug)]
pub struct Token {
    pub access_token: Option<String>,
    pub user: String,
    pub token_uuid: String,
    pub expires_in: Option<i64>,
}

/// The claims carried inside the signed payload.
#[derive(Debug)]
pub struct TokenClaims {
    pub token_uuid: String,
    pub user: String,
    pub exp: i64,
}

/// Everything that can go wrong issuing or verifying a token.
#[derive(Debug, PartialEq, Eq, Clone, Copy)]
pub enum TokenError {
    /// The configured key material is not valid base64, UTF-8 or PEM.
    KeyDecodeError,
    /// Token construction failed although the key material decoded.
    SigningError,
    /// The presented token is not a well-formed signed structure.
    MalformedTokenError,
    /// The signature is fine but the expiry has passed.
    ExpiredTokenError,
}

impl TokenClaims {
    /// The canonical JSON payload carrying these claims.
    pub fn to_payload_bytes(&self) -> (r: Vec<u8>)
        ensures
            r@ == claims_json(
                encode_utf8(self.token_uuid@),
                encode_utf8(self.user@),
                self.exp as int,
            ),
    {
        claims_json_bytes(
            self.token_uuid.as_str().as_bytes(),
            self.user.as_str().as_bytes(),
            self.exp,
        )
    }

    /// The claims a payload carries, when it is a well-formed claims
    /// object whose two string fields are valid UTF-8; rejects everything
    /// else.
    pub fn from_payload_bytes(payload: &[u8]) -> (r: Option<TokenClaims>)
        ensures
            match r {
                Some(c) => parse_claims(payload@) matches Some(f) && encode_utf8(c.token_uuid@)
                    == f.0 && encode_utf8(c.user@) == f.1 && c.exp as int == f.2,
                None => parse_claims(payload@) is None || (parse_claims(payload@) matches Some(f)
                    && (!valid_utf8(f.0) || !valid_utf8(f.1))),
            },
    {
        match parse_claims_bytes(payload) {
            Some((uuid_bytes, user_bytes, exp)) => {
                let token_uuid = match string_from_utf8(uuid_bytes) {
                    Some(s) => s,
                    None => {
                        return None;
                    },
                };
                let user = match string_from_utf8(user_bytes) {
                    Some(s) => s,
                    None => {
                        return None;
                    },
                };
                Some(TokenClaims { token_uuid, user, exp })
            },
            None => None,
        }
    }
}

/// The fixed header these tokens carry: `{"typ":"JWT","alg":"RS256"}`.
/// Verification accepts exactly this header, so a token whose algorithm
/// was altered (for example to an unsigned scheme) is rejected outright.
pub open spec fn header_json() -> Seq<u8> {
    seq![123u8, 34u8, 116u8, 121u8, 112u8, 34u8, 58u8, 34u8, 74u8, 87u8, 84u8, 34u8, 44u8, 34u8, 97u8, 108u8, 103u8, 34u8, 58u8, 34u8, 82u8, 83u8, 50u8, 53u8, 54u8, 34u8, 125u8]
}

/// What the configured base64 key material decodes to: the PEM bytes, if
/// the string is canonical base64 of valid UTF-8.
pub open spec fn decoded_key(s: Seq<char>) -> Option<Seq<u8>> {
    match b64std_decoded(s) {
        None => None,
        Some(b) => if valid_utf8(b) {
            Some(b)
        } else {
            None
        },
    }
}

/// The two signed segments of a token for the given claims.
pub open spec fn signing_input_chars(token_uuid: Seq<char>, user: Seq<char>, exp: int) -> Seq<
    char,
> {
    b64url_of(header_json()) + seq!['.'] + b64url_of(
        claims_json(encode_utf8(token_uuid), encode_utf8(user), exp),
    )
}

/// The complete signed token string for the given claims and private key.
pub open spec fn token_chars(token_uuid: Seq<char>, user: Seq<char>, exp: int, pem: Seq<u8>) -> Seq<
    char,
> {
    signing_input_chars(token_uuid, user, exp) + seq!['.'] + rs256_sig_of(
        encode_utf8(signing_input_chars(token_uuid, user, exp)),
        pem,
    )
}

/// First index of `c` at or after `from`, or -1 if there is none.
pub open spec fn find_char(s: Seq<char>, c: char, from: int) -> int
    decreases s.len() - from,
{
    if from < 0 || from >= s.len() {
        -1
    } else if s[from] == c {
        from
    } else {
        find_char(s, c, from + 1)
    }
}

/// Splits a token into its three dot-separated segments, rejecting
/// anything that does not have exactly two dots.
pub open spec fn token_parts(s: Seq<char>) -> Option<(Seq<char>, Seq<char>, Seq<char>)> {
    let d1 = find_char(s, '.', 0);
    if d1 < 0 {
        None
    } else {
        let d2 = find_char(s, '.', d1 + 1);
        if d2 < 0 {
            None
        } else if find_char(s, '.', d2 + 1) >= 0 {
            None
        } else {
            Some((s.subrange(0, d1), s.subrange(d1 + 1, d2), s.subrange(d2 + 1, s.len() as int)))
        }
    }
}

/// The byte string a base64url segment canonically encodes, if any.
pub open spec fn b64url_preimage(s: Seq<char>) -> Option<Seq<u8>> {
    if exists|b: Seq<u8>| s == b64url_of(b) {
        Some(choose|b: Seq<u8>| s == b64url_of(b))
    } else {
        None
    }
}

/// What verification returns for a token string, a base64 public key and a
/// verification time: either the (user, token id) pair from the claims, or
/// the exact error. This is the functional model `verify_jwt_token_at`
/// realizes.
pub open spec fn spec_verify(token: Seq<char>, public_key: Seq<char>, now: int) -> Result<
    (Seq<char>, Seq<char>),
    TokenError,
> {
    if decoded_key(public_key) is None {
        Err(TokenError::KeyDecodeError)
    } else {
        let pem = decoded_key(public_key)->0;
        if !rs256_pub_key_ok(pem) {
            Err(TokenError::KeyDecodeError)
        } else {
            match token_parts(token) {
                None => Err(TokenError::MalformedTokenError),
                Some(parts) => {
                    let h = parts.0;
                    let p = parts.1;
                    let g = parts.2;
                    if h != b64url_of(header_json()) {
                        Err(TokenError::MalformedTokenError)
                    } else if !rs256_valid(g, encode_utf8(h + seq!['.'] + p), pem) {
                        Err(TokenError::MalformedTokenError)
                    } else {
                        match b64url_preimage(p) {
                            None => Err(TokenError::MalformedTokenError),
                            Some(bytes) => match parse_claims(bytes) {
                                None => Err(TokenError::MalformedTokenError),
                                Some(fields) => if !valid_utf8(fields.0) || !valid_utf8(fields.1) {
                                    Err(TokenError::MalformedTokenError)
                                } else if !is_uuid_chars(decode_utf8(fields.0)) {
                                    Err(TokenError::MalformedTokenError)
                                } else if fields.2 < now {
                                    Err(TokenError::ExpiredTokenError)
                                } else {
                                    Ok((decode_utf8(fields.1), decode_utf8(fields.0)))
                                },
                            },
                        }
                    }
                },
            }
        }
    }
}

/// How a verification result corresponds to the model: same error, or a
/// claims-only token carrying the modeled user and token id.
pub open spec fn verify_matches(r: Result<Token, TokenError>, m: Result<
    (Seq<char>, Seq<char>),
    TokenError,
>) -> bool {
    match r {
        Ok(t) => m matches Ok(pair) && t.user@ == pair.0 && t.token_uuid@ == pair.1
            && t.access_token is None && t.expires_in is None,
        Err(e) => m matches Err(e2) && e == e2,
    }
}

pub(crate) proof fn lemma_find_char_is(s: Seq<char>, c: char, from: int, k: int)
    requires
        0 <= from <= k <= s.len(),
        forall|j: int| from <= j < k ==> s[j] != c,
        k == s.len() || s[k] == c,
    ensures
        find_char(s, c, from) == if k == s.len() {
            -1int
        } else {
            k
        },
    decreases k - from,
{
    if from == k {
    } else {
        lemma_find_char_is(s, c, from + 1, k);
    }
}

/// Decodes base64 key material to PEM bytes, checking it is valid UTF-8 as
/// the configuration contract demands.
fn decode_key(encoded: &str) -> (r: Option<Vec<u8>>)
    ensures
        r is Some <==> decoded_key(encoded@) is Some,
        r is Some ==> r->0@ == decoded_key(encoded@)->0,
{
    match b64std_decode(encoded) {
        None => None,
        Some(bytes) => {
            match string_from_utf8(bytes.clone()) {
                Some(_) => Some(bytes),
                None => None,
            }
        },
    }
}

/// The fixed header bytes, as a vector.
fn header_bytes() -> (r: Vec<u8>)
    ensures
        r@ == header_json(),
{
    let hdr: [u8; 27] = [
        123,
        34,
        116,
        121,
        112,
        34,
        58,
        34,
        74,
        87,
        84,
        34,
        44,
        34,
        97,
        108,
        103,
        34,
        58,
        34,
        82,
        83,
        50,
        53,
        54,
        34,
        125,
    ];
    let mut v: Vec<u8> = Vec::new();
    v.extend_from_slice(hdr.as_slice());
    proof {
        assert(v@ =~= header_json());
    }
    v
}

/// Checks that a private-key PEM carries an RSA modulus wide enough for
/// an RSA-SHA256 signature, establishing the signing wrapper's
/// precondition; keys below that width are unusable and reported as
/// `SigningError` by issuance.
fn rs256_key_fits(pem: &Vec<u8>) -> (r: bool)
    ensures
        r == rs256_key_sized(pem@),
{
    match pem_decode(pem.as_slice()) {
        None => false,
        Some((tag, der)) => {
            let pkcs1_tag = String::from_str("RSA PRIVATE KEY");
            let pkcs8_tag = String::from_str("PRIVATE KEY");
            let size = if tag.eq(&pkcs1_tag) {
                rsa_pkcs1_key_size(der.as_slice())
            } else if tag.eq(&pkcs8_tag) {
                rsa_pkcs8_key_size(der.as_slice())
            } else {
                None
            };
            match size {
                Some(n) => n >= 62,
                None => false,
            }
        },
    }
}

/// Issues a token for `user_id` expiring at `now + ttl * 60`, with
/// `token_id` as the claims' token id. Deterministic given its arguments:
/// the exact token string is pinned by the contract. Fails with
/// `KeyDecodeError` exactly when the key material is not base64/UTF-8, and
/// with `SigningError` exactly when the decoded PEM is not a usable RSA
/// private key — be it unparseable, too narrow to sign with, or rejected
/// by the signer.
pub fn generate_jwt_token_at(
    user_id: String,
    ttl: i64,
    private_key: String,
    now: i64,
    token_id: String,
) -> (r: Result<Token, TokenError>)
    requires
        -9_000_000_000_000 <= now <= 9_000_000_000_000,
        // chrono aborts on a minute duration beyond about this range, so
        // such inputs are excluded rather than risked.
        -150_000_000_000_000 <= ttl <= 150_000_000_000_000,
    ensures
        ({
            let key = decoded_key(private_key@);
            match r {
                Err(e) => (key is None && e == TokenError::KeyDecodeError) || (key is Some && !(
                rs256_key_sized(key->0) && rs256_key_ok(key->0)) && e == TokenError::SigningError),
                Ok(t) => {
                    &&& key is Some
                    &&& rs256_key_sized(key->0)
                    &&& rs256_key_ok(key->0)
                    &&& t.user == user_id
                    &&& t.token_uuid == token_id
                    &&& t.expires_in matches Some(e) && e == now + ttl * 60
                    &&& t.access_token matches Some(tok) && tok@ == token_chars(
                        token_id@,
                        user_id@,
                        now + ttl * 60,
                        key->0,
                    )
                },
            }
        }),
{
    let pem = match decode_key(private_key.as_str()) {
        Some(p) => p,
        None => {
            return Err(TokenError::KeyDecodeError);
        },
    };
    if !rs256_key_fits(&pem) {
        return Err(TokenError::SigningError);
    }
    let exp = now + ttl * 60;
    let payload = claims_json_bytes(token_id.as_str().as_bytes(), user_id.as_str().as_bytes(), exp);
    let hdr = header_bytes();
    let h64 = b64url_encode(hdr.as_slice());
    let p64 = b64url_encode(payload.as_slice());
    let mut signing_input = h64;
    signing_input.append(".");
    signing_input.append(p64.as_str());
    proof {
        reveal_strlit(".");
        assert("."@ =~= seq!['.']);
        assert(signing_input@ =~= signing_input_chars(token_id@, user_id@, exp as int));
    }
    let sig = match rs256_sign(signing_input.as_str().as_bytes(), pem.as_slice()) {
        Some(s) => s,
        None => {
            return Err(TokenError::SigningError);
        },
    };
    let mut token = signing_input;
    token.append(".");
    token.append(sig.as_str());
    proof {
        reveal_strlit(".");
        assert("."@ =~= seq!['.']);
        assert(token@ =~= token_chars(token_id@, user_id@, exp as int, pem@));
    }
    Ok(
        Token {
            access_token: Some(token),
            user: user_id,
            token_uuid: token_id,
            expires_in: Some(exp),
        },
    )
}

/// Issues a token expiring `ttl` minutes from now, with a fresh random
/// UUID as token id. Which errors come back does not depend on the clock
/// or the drawn UUID, so the error cases are exact; the success case is
/// pinned up to the clock reading and the UUID.
pub fn generate_jwt_token(user_id: String, ttl: i64, private_key: String) -> (r: Result<
    Token,
    TokenError,
>)
    requires
        -150_000_000_000_000 <= ttl <= 150_000_000_000_000,
    ensures
        ({
            let key = decoded_key(private_key@);
            match r {
                Err(e) => (key is None && e == TokenError::KeyDecodeError) || (key is Some && !(
                rs256_key_sized(key->0) && rs256_key_ok(key->0)) && e == TokenError::SigningError),
                Ok(t) => {
                    &&& key is Some
                    &&& rs256_key_sized(key->0)
                    &&& rs256_key_ok(key->0)
                    &&& t.user == user_id
                    &&& is_uuid_chars(t.token_uuid@)
                    &&& t.expires_in is Some
                    &&& t.access_token matches Some(tok) && (exists|now: int|
                        -9_000_000_000_000 <= now <= 9_000_000_000_000 && t.expires_in == Some(
                            #[trigger] ((now + ttl * 60) as i64),
                        ) && tok@ == token_chars(
                            t.token_uuid@,
                            user_id@,
                            now + ttl * 60,
                            key->0,
                        ))
                },
            }
        }),
{
    let now = now_timestamp();
    let token_id = new_uuid_string();
    let ghost user_view = user_id@;
    let ghost key_view = private_key@;
    let r = generate_jwt_token_at(user_id, ttl, private_key, now, token_id);
    proof {
        if r is Ok {
            let t = r->Ok_0;
            assert((now as int + ttl * 60) as i64 == now as int + ttl * 60);
            assert(-9_000_000_000_000 <= now as int <= 9_000_000_000_000 && t.expires_in == Some(
                (now as int + ttl * 60) as i64,
            ) && t.access_token->0@ == token_chars(
                t.token_uuid@,
                user_view,
                now as int + ttl * 60,
                decoded_key(key_view)->0,
            ));
        }
    }
    r
}

/// Checks the hyphenated-UUID shape of a string.
pub fn is_uuid_string(s: &str) -> (r: bool)
    ensures
        r == is_uuid_chars(s@),
{
    let n = s.unicode_len();
    if n != 36 {
        return false;
    }
    let mut i: usize = 0;
    while i < 36
        invariant
            0 <= i <= 36,
            s@.len() == 36,
            forall|j: int|
                0 <= j < i ==> if j == 8 || j == 13 || j == 18 || j == 23 {
                    #[trigger] s@[j] == '-'
                } else {
                    crate::outside::is_hex_lower_char(s@[j])
                },
        decreases 36 - i,
    {
        let c = s.get_char(i);
        if i == 8 || i == 13 || i == 18 || i == 23 {
            if c != '-' {
                return false;
            }
        } else {
            if !(('0' <= c && c <= '9') || ('a' <= c && c <= 'f')) {
                return false;
            }
        }
        i += 1;
    }
    true
}

/// Finds the first `.` at or after `from`, mirroring `find_char`.
fn find_dot(s: &str, from: usize) -> (r: Option<usize>)
    requires
        from <= s@.len(),
    ensures
        match r {
            Some(k) => from <= k < s@.len() && find_char(s@, '.', from as int) == k && s@[
                k as int
            ] == '.',
            None => find_char(s@, '.', from as int) == -1,
        },
{
    let n = s.unicode_len();
    let mut i: usize = from;
    while i < n
        invariant
            from <= i <= n == s@.len(),
            forall|j: int| from <= j < i ==> s@[j] != '.',
        decreases n - i,
    {
        if s.get_char(i) == '.' {
            proof {
                lemma_find_char_is(s@, '.', from as int, i as int);
            }
            return Some(i);
        }
        i += 1;
    }
    proof {
        lemma_find_char_is(s@, '.', from as int, n as int);
    }
    None
}

/// Verifies a token against a base64 public key at time `now`, realizing
/// exactly the functional model `spec_verify`: same errors on the same
/// inputs, and on success a claims-only token carrying the user identity
/// and token id recovered from the payload.
pub fn verify_jwt_token_at(token: &str, public_key: &str, now: i64) -> (r: Result<
    Token,
    TokenError,
>)
    ensures
        verify_matches(r, spec_verify(token@, public_key@, now as int)),
{
    let pem = match decode_key(public_key) {
        Some(p) => p,
        None => {
            return Err(TokenError::KeyDecodeError);
        },
    };
    // A bad key outranks a bad token: key material is configuration and
    // its faults are reported first; probe the key on an empty message.
    let empty: [u8; 0] = [];
    match rs256_verify("", empty.as_slice(), pem.as_slice()) {
        Some(_) => {},
        None => {
            return Err(TokenError::KeyDecodeError);
        },
    }
    let n = token.unicode_len();
    let d1 = match find_dot(token, 0) {
        Some(k) => k,
        None => {
            return Err(TokenError::MalformedTokenError);
        },
    };
    let d2 = match find_dot(token, d1 + 1) {
        Some(k) => k,
        None => {
            return Err(TokenError::MalformedTokenError);
        },
    };
    match find_dot(token, d2 + 1) {
        Some(_) => {
            return Err(TokenError::MalformedTokenError);
        },
        None => {},
    }
    let ghost parts = token_parts(token@);
    proof {
        assert(parts matches Some(p) && p.0 == token@.subrange(0, d1 as int) && p.1
            == token@.subrange(d1 as int + 1, d2 as int) && p.2 == token@.subrange(
            d2 as int + 1,
            token@.len() as int,
        ));
    }
    let hdr = header_bytes();
    let h64 = b64url_encode(hdr.as_slice());
    let seg_h = String::from_str(token.substring_char(0, d1));
    if !seg_h.eq(&h64) {
        return Err(TokenError::MalformedTokenError);
    }
    let signing_input = token.substring_char(0, d2);
    let sig = token.substring_char(d2 + 1, n);
    proof {
        assert(signing_input@ =~= token@.subrange(0, d1 as int) + seq!['.'] + token@.subrange(
            d1 as int + 1,
            d2 as int,
        ));
    }
    let valid = match rs256_verify(sig, signing_input.as_bytes(), pem.as_slice()) {
        Some(b) => b,
        None => {
            // The key was probed fine above, so this cannot happen.
            assert(false);
            return Err(TokenError::KeyDecodeError);
        },
    };
    if !valid {
        return Err(TokenError::MalformedTokenError);
    }
    let seg_p = token.substring_char(d1 + 1, d2);
    let payload = match b64url_decode(seg_p) {
        Some(v) => v,
        None => {
            proof {
                if exists|b: Seq<u8>| seg_p@ == b64url_of(b) {
                    let b = choose|b: Seq<u8>| seg_p@ == b64url_of(b);
                }
            }
            return Err(TokenError::MalformedTokenError);
        },
    };
    proof {
        assert(b64url_preimage(seg_p@) == Some(payload@)) by {
            assert(seg_p@ == b64url_of(payload@));
            let b = choose|b: Seq<u8>| seg_p@ == b64url_of(b);
        }
    }
    let fields = match parse_claims_bytes(payload.as_slice()) {
        Some(f) => f,
        None => {
            return Err(TokenError::MalformedTokenError);
        },
    };
    let (uuid_bytes, user_bytes, exp) = fields;
    let uuid_str = match string_from_utf8(uuid_bytes) {
        Some(s) => s,
        None => {
            return Err(TokenError::MalformedTokenError);
        },
    };
    let user_str = match string_from_utf8(user_bytes) {
        Some(s) => s,
        None => {
            return Err(TokenError::MalformedTokenError);
        },
    };
    proof {
        vstd::utf8::encode_utf8_decode_utf8(uuid_str@);
        vstd::utf8::encode_utf8_decode_utf8(user_str@);
    }
    if !is_uuid_string(uuid_str.as_str()) {
        return Err(TokenError::MalformedTokenError);
    }
    if exp < now {
        return Err(TokenError::ExpiredTokenError);
    }
    Ok(Token { access_token: None, user: user_str, token_uuid: uuid_str, expires_in: None })
}

/// Verifies a token at the current time. The clock only moves the expiry
/// cutoff: every outcome agrees with the functional model at some in-range
/// reading of the clock.
pub fn verify_jwt_token(token: &str, public_key: &str) -> (r: Result<Token, TokenError>)
    ensures
        exists|now: int|
            -9_000_000_000_000 <= now <= 9_000_000_000_000 && verify_matches(
                r,
                spec_verify(token@, public_key@, now),
            ),
{
    let now = now_timestamp();
    verify_jwt_token_at(token, public_key, now)
}

} // verus!
