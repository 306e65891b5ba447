//! The library's laws: what holds of issuance, verification and
//! authentication across calls, proved once and for all over the
//! functional models that the executable functions realize.

use vstd::prelude::*;
use vstd::utf8::decode_utf8;
use vstd::utf8::encode_utf8;
use vstd::utf8::encode_utf8_decode_utf8;
use vstd::utf8::encode_utf8_valid_utf8;
use vstd::utf8::valid_utf8;

use crate::claims::claims_json;
use crate::claims::lemma_claims_round_trip;
use crate::claims::parse_claims;
use crate::jwt_auth::bearer_prefix;
use crate::jwt_auth::spec_authenticate;
use crate::outside::b64url_of;
use crate::outside::is_uuid_chars;
use crate::outside::rs256_pub_key_ok;
use crate::outside::rs256_sig_of;
use crate::outside::rs256_valid;
use crate::token::decoded_key;
use crate::token::find_char;
use crate::token::header_json;
use crate::token::lemma_find_char_is;
use crate::token::spec_verify;
use crate::token::token_chars;
use crate::token::token_parts;
use crate::token::TokenError;

verus! {

/// Writing claims and parsing them back loses nothing: for every token id,
/// user identity and 64-bit expiry, the canonical payload parses to
/// exactly those fields, as strings again — the UUID string form and the
/// user identity survive serialization unchanged.
pub proof fn lemma_claims_preserved(token_uuid: Seq<char>, user: Seq<char>, exp: int)
    requires
        -0x8000000000000000 <= exp <= 0x7fffffffffffffff,
    ensures
        parse_claims(claims_json(encode_utf8(token_uuid), encode_utf8(user), exp)) matches Some(f)
            && decode_utf8(f.0) == token_uuid && decode_utf8(f.1) == user && f.2 == exp
            && valid_utf8(f.0) && valid_utf8(f.1),
{
    lemma_claims_round_trip(encode_utf8(token_uuid), encode_utf8(user), exp);
    encode_utf8_valid_utf8(token_uuid);
    encode_utf8_valid_utf8(user);
    encode_utf8_decode_utf8(token_uuid);
    encode_utf8_decode_utf8(user);
}

/// Verification never succeeds without the signature checking out: an
/// accepted token's third segment is a valid RSA-SHA256 signature of its
/// first two under the configured public key. A token made under a
/// non-matching private key carries no such signature, so it is rejected.
pub proof fn lemma_verify_needs_valid_signature(token: Seq<char>, public_key: Seq<char>, now: int)
    ensures
        spec_verify(token, public_key, now) is Ok ==> {
            &&& decoded_key(public_key) is Some
            &&& rs256_pub_key_ok(decoded_key(public_key)->0)
            &&& token_parts(token) matches Some(parts) && rs256_valid(
                parts.2,
                encode_utf8(parts.0 + seq!['.'] + parts.1),
                decoded_key(public_key)->0,
            )
        },
{
}

/// What verification makes of a token this library issued: provided the
/// base64url segments are dot-free and the payload segment has no second
/// preimage (base64url is injective), the key material decodes, and the
/// signature checks out under the verification key, the outcome is fully
/// determined — `ExpiredTokenError` when the expiry lies before the
/// verification time, and otherwise acceptance returning exactly the user
/// and token id that were issued. With a fresh token and a matching key
/// pair this is the round trip; with `exp` in the past it is the expiry
/// guarantee.
pub proof fn lemma_verify_of_generated(
    token_uuid: Seq<char>,
    user: Seq<char>,
    exp: int,
    priv_pem: Seq<u8>,
    public_key: Seq<char>,
    now: int,
)
    ensures
        ({
            let h = b64url_of(header_json());
            let payload_bytes = claims_json(encode_utf8(token_uuid), encode_utf8(user), exp);
            let p = b64url_of(payload_bytes);
            let msg = encode_utf8(h + seq!['.'] + p);
            let sig = rs256_sig_of(msg, priv_pem);
            let tok = token_chars(token_uuid, user, exp, priv_pem);
            ({
                &&& (forall|i: int| 0 <= i < h.len() ==> #[trigger] h[i] != '.')
                &&& (forall|i: int| 0 <= i < p.len() ==> #[trigger] p[i] != '.')
                &&& (forall|i: int| 0 <= i < sig.len() ==> #[trigger] sig[i] != '.')
                &&& (forall|b: Seq<u8>| p == #[trigger] b64url_of(b) ==> b == payload_bytes)
                &&& decoded_key(public_key) is Some
                &&& rs256_pub_key_ok(decoded_key(public_key)->0)
                &&& rs256_valid(sig, msg, decoded_key(public_key)->0)
                &&& is_uuid_chars(token_uuid)
                &&& -0x8000000000000000 <= exp <= 0x7fffffffffffffff
            }) ==> spec_verify(tok, public_key, now) == (if exp < now {
                Err::<(Seq<char>, Seq<char>), TokenError>(TokenError::ExpiredTokenError)
            } else {
                Ok::<(Seq<char>, Seq<char>), TokenError>((user, token_uuid))
            })
        }),
{
    let h = b64url_of(header_json());
    let payload_bytes = claims_json(encode_utf8(token_uuid), encode_utf8(user), exp);
    let p = b64url_of(payload_bytes);
    let msg = encode_utf8(h + seq!['.'] + p);
    let sig = rs256_sig_of(msg, priv_pem);
    let tok = token_chars(token_uuid, user, exp, priv_pem);
    let hyp = {
        &&& (forall|i: int| 0 <= i < h.len() ==> #[trigger] h[i] != '.')
        &&& (forall|i: int| 0 <= i < p.len() ==> #[trigger] p[i] != '.')
        &&& (forall|i: int| 0 <= i < sig.len() ==> #[trigger] sig[i] != '.')
        &&& (forall|b: Seq<u8>| p == #[trigger] b64url_of(b) ==> b == payload_bytes)
        &&& decoded_key(public_key) is Some
        &&& rs256_pub_key_ok(decoded_key(public_key)->0)
        &&& rs256_valid(sig, msg, decoded_key(public_key)->0)
        &&& is_uuid_chars(token_uuid)
        &&& -0x8000000000000000 <= exp <= 0x7fffffffffffffff
    };
    if hyp {
        let hl = h.len() as int;
        let pl = p.len() as int;
        let d2 = hl + 1 + pl;
        assert(tok =~= h + seq!['.'] + p + seq!['.'] + sig);
        assert(tok.len() == hl + 1 + pl + 1 + sig.len());
        assert(forall|j: int| 0 <= j < hl ==> #[trigger] tok[j] == h[j]);
        assert(tok[hl] == '.');
        assert(forall|j: int| hl + 1 <= j < d2 ==> #[trigger] tok[j] == p[j - hl - 1]);
        assert(tok[d2] == '.');
        assert(forall|j: int| d2 + 1 <= j < tok.len() ==> #[trigger] tok[j] == sig[j - d2 - 1]);
        lemma_find_char_is(tok, '.', 0, hl);
        assert(find_char(tok, '.', 0) == hl);
        lemma_find_char_is(tok, '.', hl + 1, d2);
        assert(find_char(tok, '.', hl + 1) == d2);
        lemma_find_char_is(tok, '.', d2 + 1, tok.len() as int);
        assert(find_char(tok, '.', d2 + 1) == -1);
        assert(tok.subrange(0, hl) =~= h);
        assert(tok.subrange(hl + 1, d2) =~= p);
        assert(tok.subrange(d2 + 1, tok.len() as int) =~= sig);
        assert(token_parts(tok) == Some((h, p, sig)));
        // The signature covers exactly the first two segments.
        assert(h + seq!['.'] + p =~= tok.subrange(0, hl) + seq!['.'] + tok.subrange(hl + 1, d2));
        // The payload segment decodes to the canonical claims object and
        // to nothing else.
        assert(p == b64url_of(payload_bytes));
        let b0 = choose|b: Seq<u8>| p == b64url_of(b);
        assert(p == b64url_of(b0));
        assert(b0 == payload_bytes);
        assert(crate::token::b64url_preimage(p) == Some(payload_bytes));
        lemma_claims_round_trip(encode_utf8(token_uuid), encode_utf8(user), exp);
        encode_utf8_valid_utf8(token_uuid);
        encode_utf8_valid_utf8(user);
        encode_utf8_decode_utf8(token_uuid);
        encode_utf8_decode_utf8(user);
    }
}

/// An `Authorization` header carrying only the `Bearer ` scheme and no
/// token never authenticates (and in particular never faults): the empty
/// remainder is handed to the codec, which can only reject it.
pub proof fn lemma_empty_bearer_fails(public_key: Seq<char>, now: int)
    ensures
        spec_authenticate(None, Some(bearer_prefix()), public_key, now) is Err,
{
    let h = bearer_prefix();
    assert(h.subrange(0, 7) =~= h);
    let tok = h.skip(7);
    assert(tok =~= Seq::<char>::empty());
    assert(find_char(tok, '.', 0) == -1);
    assert(spec_verify(tok, public_key, now) is Err);
}

/// The cookie outranks the header: with a cookie present, the outcome of
/// authentication is the same whatever the `Authorization` header says —
/// in particular, with two different valid tokens the principal is the
/// cookie's, not the header's.
pub proof fn lemma_cookie_preferred(
    cookie: Seq<char>,
    header_a: Option<Seq<char>>,
    header_b: Option<Seq<char>>,
    public_key: Seq<char>,
    now: int,
)
    ensures
        spec_authenticate(Some(cookie), header_a, public_key, now) == spec_authenticate(
            Some(cookie),
            header_b,
            public_key,
            now,
        ),
{
}

} // verus!
