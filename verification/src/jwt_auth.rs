//! The request authenticator: extracts a candidate token from a request's
//! credential-bearing fields (cookie first, then the `Authorization:
//! Bearer` header), hands it to the token codec, and produces either an
//! authenticated principal or a structured unauthorized failure.

use vstd::prelude::*;
use vstd::string::StrSliceExecFns;
use vstd::string::StringExecFns;

use crate::token::spec_verify;
use crate::token::verify_jwt_token_at;
use crate::token::TokenError;
use crate::outside::now_timestamp;

verus! {

/// The authenticated principal handed to protected handlers: the subject
/// identity from the verified claims, and the token string that was
/// presented.
#[derive(Debug)]
pub struct JWTAuthToken {
    pub user: String,
    pub access_token: String,
}

/// Why a request could not be authenticated.
#[derive(Debug, PartialEq, Eq, Clone, Copy)]
pub enum AuthError {
    /// No credential was presented at all (or the header had no `Bearer `
    /// scheme).
    MissingCredentialsError,
    /// A credential was presented but the token codec rejected it.
    InvalidTokenError(TokenError),
}

/// The structured body an unauthorized response carries.
#[derive(Debug)]
pub struct ErrorResponse {
    pub status: String,
    pub message: String,
}

/// The characters of `Bearer ` — the scheme prefix, trailing space
/// included, seven characters.
pub open spec fn bearer_prefix() -> Seq<char> {
    seq!['B', 'e', 'a', 'r', 'e', 'r', ' ']
}

/// Which token string a request presents: the cookie wins; otherwise a
/// well-formed `Bearer ` header yields its remainder; otherwise nothing.
pub open spec fn extracted_token(cookie: Option<Seq<char>>, header: Option<Seq<char>>) -> Option<
    Seq<char>,
> {
    match cookie {
        Some(c) => Some(c),
        None => match header {
            Some(h) => if h.len() >= 7 && h.subrange(0, 7) == bearer_prefix() {
                Some(h.skip(7))
            } else {
                None
            },
            None => None,
        },
    }
}

/// The functional model of authentication: extraction, then verification,
/// with codec failures wrapped. `Ok` carries the verified user identity
/// and the token string that was presented.
pub open spec fn spec_authenticate(
    cookie: Option<Seq<char>>,
    header: Option<Seq<char>>,
    public_key: Seq<char>,
    now: int,
) -> Result<(Seq<char>, Seq<char>), AuthError> {
    match extracted_token(cookie, header) {
        None => Err(AuthError::MissingCredentialsError),
        Some(tok) => match spec_verify(tok, public_key, now) {
            Ok(pair) => Ok((pair.0, tok)),
            Err(e) => Err(AuthError::InvalidTokenError(e)),
        },
    }
}

pub open spec fn opt_view(o: Option<String>) -> Option<Seq<char>> {
    match o {
        Some(s) => Some(s@),
        None => None,
    }
}

/// How an authentication result corresponds to the model.
pub open spec fn auth_matches(r: Result<JWTAuthToken, AuthError>, m: Result<
    (Seq<char>, Seq<char>),
    AuthError,
>) -> bool {
    match r {
        Ok(p) => m matches Ok(pair) && p.user@ == pair.0 && p.access_token@ == pair.1,
        Err(e) => m matches Err(e2) && e == e2,
    }
}

/// Authenticates a request's credential fields at time `now`, realizing
/// exactly `spec_authenticate`: the cookie is preferred, a header shorter
/// than the `Bearer ` prefix or with a different scheme fails with
/// `MissingCredentialsError` (never a fault), and codec failures come back
/// wrapped in `InvalidTokenError`.
pub fn authenticate_at(
    cookie: Option<String>,
    authorization_header: Option<String>,
    public_key: &str,
    now: i64,
) -> (r: Result<JWTAuthToken, AuthError>)
    ensures
        auth_matches(
            r,
            spec_authenticate(opt_view(cookie), opt_view(authorization_header), public_key@, now as int),
        ),
{
    let token: String = match cookie {
        Some(c) => c,
        None => {
            match authorization_header {
                Some(h) => {
                    let hl = h.as_str().unicode_len();
                    if hl < 7 {
                        return Err(AuthError::MissingCredentialsError);
                    }
                    let prefix = String::from_str(h.as_str().substring_char(0, 7));
                    let bearer = String::from_str("Bearer ");
                    proof {
                        reveal_strlit("Bearer ");
                        assert("Bearer "@ =~= bearer_prefix());
                    }
                    if !prefix.eq(&bearer) {
                        return Err(AuthError::MissingCredentialsError);
                    }
                    let rest = String::from_str(h.as_str().substring_char(7, hl));
                    proof {
                        assert(rest@ =~= h@.skip(7));
                    }
                    rest
                },
                None => {
                    return Err(AuthError::MissingCredentialsError);
                },
            }
        },
    };
    match verify_jwt_token_at(token.as_str(), public_key, now) {
        Ok(t) => Ok(JWTAuthToken { user: t.user, access_token: token }),
        Err(e) => Err(AuthError::InvalidTokenError(e)),
    }
}

/// Authenticates at the current time; the clock only moves the expiry
/// cutoff inside verification.
pub fn authenticate(
    cookie: Option<String>,
    authorization_header: Option<String>,
    public_key: &str,
) -> (r: Result<JWTAuthToken, AuthError>)
    ensures
        exists|now: int|
            -9_000_000_000_000 <= now <= 9_000_000_000_000 && auth_matches(
                r,
                spec_authenticate(
                    opt_view(cookie),
                    opt_view(authorization_header),
                    public_key@,
                    now,
                ),
            ),
{
    let ghost c = opt_view(cookie);
    let ghost h = opt_view(authorization_header);
    let now = now_timestamp();
    let r = authenticate_at(cookie, authorization_header, public_key, now);
    proof {
        assert(-9_000_000_000_000 <= now as int <= 9_000_000_000_000 && auth_matches(
            r,
            spec_authenticate(c, h, public_key@, now as int),
        ));
    }
    r
}

/// The categorical reason string for each authentication failure: it names
/// the failure class and never carries key material or token contents.
pub open spec fn auth_error_message(e: AuthError) -> Seq<char> {
    match e {
        AuthError::MissingCredentialsError => "You are not logged in, please provide token"@,
        AuthError::InvalidTokenError(TokenError::KeyDecodeError) => "KeyDecodeError"@,
        AuthError::InvalidTokenError(TokenError::SigningError) => "SigningError"@,
        AuthError::InvalidTokenError(TokenError::MalformedTokenError) => "MalformedTokenError"@,
        AuthError::InvalidTokenError(TokenError::ExpiredTokenError) => "ExpiredTokenError"@,
    }
}

/// Renders an authentication failure as the structured body the transport
/// turns into a 401 response: status `FAILED` and the categorical reason.
pub fn auth_error_response(e: &AuthError) -> (r: ErrorResponse)
    ensures
        r.status@ == "FAILED"@,
        r.message@ == auth_error_message(*e),
{
    let message = match e {
        AuthError::MissingCredentialsError => String::from_str(
            "You are not logged in, please provide token",
        ),
        AuthError::InvalidTokenError(TokenError::KeyDecodeError) => String::from_str(
            "KeyDecodeError",
        ),
        AuthError::InvalidTokenError(TokenError::SigningError) => String::from_str("SigningError"),
        AuthError::InvalidTokenError(TokenError::MalformedTokenError) => String::from_str(
            "MalformedTokenError",
        ),
        AuthError::InvalidTokenError(TokenError::ExpiredTokenError) => String::from_str(
            "ExpiredTokenError",
        ),
    };
    ErrorResponse { status: String::from_str("FAILED"), message }
}

// --- rendering the error body as JSON ---------------------------------------

/// Lowercase hex digit, as a character.
pub open spec fn hex_digit_char(n: u32) -> char {
    if n == 0 {
        '0'
    } else if n == 1 {
        '1'
    } else if n == 2 {
        '2'
    } else if n == 3 {
        '3'
    } else if n == 4 {
        '4'
    } else if n == 5 {
        '5'
    } else if n == 6 {
        '6'
    } else if n == 7 {
        '7'
    } else if n == 8 {
        '8'
    } else if n == 9 {
        '9'
    } else if n == 10 {
        'a'
    } else if n == 11 {
        'b'
    } else if n == 12 {
        'c'
    } else if n == 13 {
        'd'
    } else if n == 14 {
        'e'
    } else {
        'f'
    }
}

/// How one character of a string value appears inside a JSON string.
pub open spec fn esc_char(c: char) -> Seq<char> {
    if c == '"' {
        seq!['\\', '"']
    } else if c == '\\' {
        seq!['\\', '\\']
    } else if (c as u32) < 32 {
        seq!['\\', 'u', '0', '0', hex_digit_char((c as u32) / 16), hex_digit_char((c as u32) % 16)]
    } else {
        seq![c]
    }
}

/// JSON escaping of a whole character string.
pub open spec fn esc_chars(s: Seq<char>) -> Seq<char>
    decreases s.len(),
{
    if s.len() == 0 {
        Seq::empty()
    } else {
        esc_chars(s.drop_last()) + esc_char(s.last())
    }
}

/// The JSON rendering of an error body:
/// `{"status":"...","message":"..."}` with both values escaped.
pub open spec fn error_json_chars(status: Seq<char>, message: Seq<char>) -> Seq<char> {
    seq!['{', '"', 's', 't', 'a', 't', 'u', 's', '"', ':', '"'] + esc_chars(status) + seq![
        '"',
        ',',
        '"',
        'm',
        'e',
        's',
        's',
        'a',
        'g',
        'e',
        '"',
        ':',
        '"',
    ] + esc_chars(message) + seq!['"', '}']
}

/// Appends one character's JSON escape to `out`.
fn push_esc_char(out: &mut String, s: &str, i: usize)
    requires
        i < s@.len(),
        i < usize::MAX,
    ensures
        final(out)@ == old(out)@ + esc_char(s@[i as int]),
{
    let c = s.get_char(i);
    if c == '"' {
        out.append("\\\"");
        proof {
            reveal_strlit("\\\"");
            assert("\\\""@ =~= esc_char('"'));
        }
    } else if c == '\\' {
        out.append("\\\\");
        proof {
            reveal_strlit("\\\\");
            assert("\\\\"@ =~= esc_char('\\'));
        }
    } else if (c as u32) < 32 {
        let hi = (c as u32) / 16;
        let lo = (c as u32) % 16;
        let h1 = hex_digit_str(hi);
        let h2 = hex_digit_str(lo);
        out.append("\\u00");
        out.append(h1);
        out.append(h2);
        proof {
            reveal_strlit("\\u00");
            assert("\\u00"@ + h1@ + h2@ =~= esc_char(c));
        }
    } else {
        out.append(s.substring_char(i, i + 1));
        proof {
            assert(s@.subrange(i as int, i as int + 1) =~= seq![s@[i as int]]);
            assert(seq![s@[i as int]] =~= esc_char(c));
        }
    }
}

/// The one-character string for a hex digit.
fn hex_digit_str(n: u32) -> (r: &'static str)
    requires
        n < 16,
    ensures
        r@ == seq![hex_digit_char(n)],
{
    proof {
        reveal_strlit("0");
        reveal_strlit("1");
        reveal_strlit("2");
        reveal_strlit("3");
        reveal_strlit("4");
        reveal_strlit("5");
        reveal_strlit("6");
        reveal_strlit("7");
        reveal_strlit("8");
        reveal_strlit("9");
        reveal_strlit("a");
        reveal_strlit("b");
        reveal_strlit("c");
        reveal_strlit("d");
        reveal_strlit("e");
        reveal_strlit("f");
    }
    if n == 0 {
        "0"
    } else if n == 1 {
        "1"
    } else if n == 2 {
        "2"
    } else if n == 3 {
        "3"
    } else if n == 4 {
        "4"
    } else if n == 5 {
        "5"
    } else if n == 6 {
        "6"
    } else if n == 7 {
        "7"
    } else if n == 8 {
        "8"
    } else if n == 9 {
        "9"
    } else if n == 10 {
        "a"
    } else if n == 11 {
        "b"
    } else if n == 12 {
        "c"
    } else if n == 13 {
        "d"
    } else if n == 14 {
        "e"
    } else {
        "f"
    }
}

/// Appends the escaped form of a whole string value.
fn push_escaped_chars(out: &mut String, s: &str)
    ensures
        final(out)@ == old(out)@ + esc_chars(s@),
{
    let n = s.unicode_len();
    let mut i: usize = 0;
    proof {
        assert(s@.take(0) =~= Seq::<char>::empty());
    }
    while i < n
        invariant
            0 <= i <= n == s@.len(),
            out@ == old(out)@ + esc_chars(s@.take(i as int)),
        decreases n - i,
    {
        push_esc_char(out, s, i);
        proof {
            assert(s@.take(i + 1).drop_last() =~= s@.take(i as int));
            assert(s@.take(i + 1).last() == s@[i as int]);
        }
        i += 1;
    }
    proof {
        assert(s@.take(n as int) =~= s@);
    }
}

impl ErrorResponse {
    /// The JSON body of this response, exactly
    /// `{"status":"...","message":"..."}` with both fields escaped the way
    /// standard JSON writers do.
    pub fn to_json_string(&self) -> (r: String)
        ensures
            r@ == error_json_chars(self.status@, self.message@),
    {
        let mut out = String::from_str("{\"status\":\"");
        proof {
            reveal_strlit("{\"status\":\"");
            assert("{\"status\":\""@ =~= seq![
                '{',
                '"',
                's',
                't',
                'a',
                't',
                'u',
                's',
                '"',
                ':',
                '"',
            ]);
        }
        push_escaped_chars(&mut out, self.status.as_str());
        out.append("\",\"message\":\"");
        proof {
            reveal_strlit("\",\"message\":\"");
            assert("\",\"message\":\""@ =~= seq![
                '"',
                ',',
                '"',
                'm',
                'e',
                's',
                's',
                'a',
                'g',
                'e',
                '"',
                ':',
                '"',
            ]);
        }
        push_escaped_chars(&mut out, self.message.as_str());
        out.append("\"}");
        proof {
            reveal_strlit("\"}");
            assert("\"}"@ =~= seq!['"', '}']);
            assert(out@ =~= error_json_chars(self.status@, self.message@));
        }
        out
    }
}

} // verus!
