//! User accounts: the registration and login decision logic. Persistence
//! is an external collaborator — the caller performs the lookup or insert
//! and hands the outcome in — while every decision (validation gating,
//! password comparison, token issuance, the exact status responses) is
//! made and verified here.

use vstd::prelude::*;
use vstd::string::StringExecFns;

use crate::outside::bcrypt_check;
use crate::outside::bcrypt_hash;
use crate::outside::bcrypt_matches;
use crate::outside::is_bcrypt_hash_shape;
use crate::outside::rs256_key_sized;
use crate::outside::is_uuid_chars;
use crate::outside::rs256_key_ok;
use crate::response::StatusResponse;
use crate::token::decoded_key;
use crate::token::generate_jwt_token;
use crate::token::token_chars;
use crate::validation::is_valid_email;
use crate::validation::validate_email;
use crate::validation::validate_password;

verus! {

/// A registration request: the plaintext password never persists; it is
/// hashed on the way to a `UserDB` record.
#[derive(Debug)]
pub struct User {
    pub email: String,
    pub name: String,
    pub dateofbirth: Option<String>,
    pub contact: Option<String>,
    pub password: String,
}

/// The persisted credential record; `password` holds the bcrypt hash.
#[derive(Debug)]
pub struct UserDB {
    pub email: String,
    pub username: String,
    pub dateofbirth: Option<String>,
    pub contact: Option<String>,
    pub password: String,
}

/// A login request, and also the (email, password hash) projection the
/// credential lookup returns.
#[derive(Debug)]
pub struct LoginUser {
    pub email: String,
    pub password: String,
}

/// What the credential store said when asked for a user record.
#[derive(Debug)]
pub enum UserLookup {
    Found(UserDB),
    NotFound,
    LookupFailed(String),
}

/// What the credential store said when asked for a login projection.
#[derive(Debug)]
pub enum CredentialLookup {
    Found(LoginUser),
    NotFound,
    LookupFailed(String),
}

/// What the credential store said about inserting a new record.
#[derive(Debug)]
pub enum InsertOutcome {
    Inserted,
    InsertFailed(String),
}

fn clone_opt_string(o: &Option<String>) -> (r: Option<String>)
    ensures
        r.deep_view() == o.deep_view(),
{
    match o {
        Some(s) => Some(s.clone()),
        None => None,
    }
}

impl User {
    /// A fresh copy of this request, field for field.
    pub fn new_user(&self) -> (r: Self)
        ensures
            r.email@ == self.email@,
            r.name@ == self.name@,
            r.dateofbirth.deep_view() == self.dateofbirth.deep_view(),
            r.contact.deep_view() == self.contact.deep_view(),
            r.password@ == self.password@,
    {
        Self {
            email: self.email.clone(),
            name: self.name.clone(),
            dateofbirth: clone_opt_string(&self.dateofbirth),
            contact: clone_opt_string(&self.contact),
            password: self.password.clone(),
        }
    }

    /// The record to persist: same fields, with the password replaced by a
    /// bcrypt hash that verifies against it — a 60-character `$2b$`
    /// string, so the stored value never has the shape-free plaintext's
    /// form. Returns nothing when the hashing primitive rejects the
    /// password, so no input can abort the caller.
    pub fn to_user_db(&self) -> (r: Option<UserDB>)
        ensures
            r matches Some(u) ==> {
                &&& u.email@ == self.email@
                &&& u.username@ == self.name@
                &&& u.dateofbirth.deep_view() == self.dateofbirth.deep_view()
                &&& u.contact.deep_view() == self.contact.deep_view()
                &&& bcrypt_matches(self.password@, u.password@)
                &&& is_bcrypt_hash_shape(u.password@)
            },
    {
        match bcrypt_hash(self.password.as_str()) {
            Some(hashed) => Some(
                UserDB {
                    email: self.email.clone(),
                    username: self.name.clone(),
                    dateofbirth: clone_opt_string(&self.dateofbirth),
                    contact: clone_opt_string(&self.contact),
                    password: hashed,
                },
            ),
            None => None,
        }
    }
}

impl UserDB {
    /// The request-shaped view of a stored record (the password field
    /// carries the hash, as in the stored record).
    pub fn to_user(&self) -> (r: User)
        ensures
            r.email@ == self.email@,
            r.name@ == self.username@,
            r.dateofbirth.deep_view() == self.dateofbirth.deep_view(),
            r.contact.deep_view() == self.contact.deep_view(),
            r.password@ == self.password@,
    {
        User {
            email: self.email.clone(),
            name: self.username.clone(),
            dateofbirth: clone_opt_string(&self.dateofbirth),
            contact: clone_opt_string(&self.contact),
            password: self.password.clone(),
        }
    }
}

/// The syntactic gate run before any persistence work: rejects a bad email
/// shape, then a too-short password, with the exact failure responses;
/// passes exactly when both checks hold.
pub fn register_precheck(user_data: &User) -> (r: Option<StatusResponse>)
    ensures
        match r {
            Some(resp) => {
                &&& resp.status@ == "FAILED"@
                &&& (!is_valid_email(user_data.email@) && resp.message@ == "Invalid Email"@) || (
                is_valid_email(user_data.email@) && user_data.password@.len() < 8 && resp.message@
                    == "Password must be atleast 8 character long."@)
            },
            None => is_valid_email(user_data.email@) && user_data.password@.len() >= 8,
        },
{
    if !validate_email(user_data.email.as_str()) {
        return Some(
            StatusResponse {
                status: String::from_str("FAILED"),
                message: String::from_str("Invalid Email"),
            },
        );
    }
    if !validate_password(user_data.password.as_str()) {
        return Some(
            StatusResponse {
                status: String::from_str("FAILED"),
                message: String::from_str("Password must be atleast 8 character long."),
            },
        );
    }
    None
}

/// Decides a registration given the request and the store's answer about
/// an existing record: validation failures and an existing user yield the
/// exact failure responses; a fresh email yields the hashed record to
/// insert.
pub fn register_user(user_data: &User, lookup: &UserLookup) -> (r: Result<UserDB, StatusResponse>)
    ensures
        ({
            let email_ok = is_valid_email(user_data.email@);
            let pw_ok = user_data.password@.len() >= 8;
            match r {
                Ok(u) => {
                    &&& email_ok
                    &&& pw_ok
                    &&& *lookup is NotFound
                    &&& u.email@ == user_data.email@
                    &&& u.username@ == user_data.name@
                    &&& u.dateofbirth.deep_view() == user_data.dateofbirth.deep_view()
                    &&& u.contact.deep_view() == user_data.contact.deep_view()
                    &&& bcrypt_matches(user_data.password@, u.password@)
                    &&& is_bcrypt_hash_shape(u.password@)
                },
                Err(resp) => {
                    &&& resp.status@ == "FAILED"@
                    &&& {
                        ||| (!email_ok && resp.message@ == "Invalid Email"@)
                        ||| (email_ok && !pw_ok && resp.message@
                            == "Password must be atleast 8 character long."@)
                        ||| (email_ok && pw_ok && *lookup is Found && resp.message@
                            == "User Already Exist"@)
                        ||| (*lookup matches UserLookup::LookupFailed(m) && email_ok && pw_ok
                            && resp.message@ == "Error while checking for existing user: "@ + m@)
                        ||| (email_ok && pw_ok && *lookup is NotFound && resp.message@
                            == "Password hashing failed"@)
                    }
                },
            }
        }),
{
    if let Some(resp) = register_precheck(user_data) {
        return Err(resp);
    }
    match lookup {
        UserLookup::Found(_) => Err(
            StatusResponse {
                status: String::from_str("FAILED"),
                message: String::from_str("User Already Exist"),
            },
        ),
        UserLookup::LookupFailed(m) => Err(
            StatusResponse {
                status: String::from_str("FAILED"),
                message: String::from_str("Error while checking for existing user: ").concat(
                    m.as_str(),
                ),
            },
        ),
        UserLookup::NotFound => {
            match user_data.to_user_db() {
                Some(u) => Ok(u),
                None => Err(
                    StatusResponse {
                        status: String::from_str("FAILED"),
                        message: String::from_str("Password hashing failed"),
                    },
                ),
            }
        },
    }
}

/// The response to report after the store has tried to insert the fresh
/// record.
pub fn register_insert_response(outcome: &InsertOutcome) -> (r: StatusResponse)
    ensures
        match outcome {
            InsertOutcome::Inserted => r.status@ == "SUCCESS"@ && r.message@
                == "User Registered Successfully"@,
            InsertOutcome::InsertFailed(m) => r.status@ == "FAILED"@ && r.message@
                == "Error while inserting data, "@ + m@,
        },
{
    match outcome {
        InsertOutcome::Inserted => StatusResponse {
            status: String::from_str("SUCCESS"),
            message: String::from_str("User Registered Successfully"),
        },
        InsertOutcome::InsertFailed(m) => StatusResponse {
            status: String::from_str("FAILED"),
            message: String::from_str("Error while inserting data, ").concat(m.as_str()),
        },
    }
}

/// Decides a login given the request, the store's credential lookup, the
/// configured time-to-live and the base64 private key: every failure path
/// returns its exact response, and success returns `SUCCESS` carrying a
/// freshly signed token for the login email.
pub fn login_user(
    login_data: &LoginUser,
    lookup: &CredentialLookup,
    ttl: i64,
    private_key: &str,
) -> (r: StatusResponse)
    requires
        -150_000_000_000_000 <= ttl <= 150_000_000_000_000,
    ensures
        ({
            let email_ok = is_valid_email(login_data.email@);
            let key = decoded_key(private_key@);
            &&& (!email_ok ==> r.status@ == "FAILED"@ && r.message@ == "Invalid Email"@)
            &&& (email_ok && *lookup is NotFound ==> r.status@ == "FAILED"@ && r.message@
                == "No user found with given email"@)
            &&& (*lookup matches CredentialLookup::LookupFailed(m) ==> (email_ok ==> r.status@
                == "FAILED"@ && r.message@ == "Error while checking existing database, "@ + m@))
            &&& (*lookup matches CredentialLookup::Found(d) ==> (email_ok && !bcrypt_matches(
                login_data.password@,
                d.password@,
            ) ==> r.status@ == "FAILED"@ && r.message@ == "Invalid Password"@))
            &&& (*lookup matches CredentialLookup::Found(d) ==> (email_ok && bcrypt_matches(
                login_data.password@,
                d.password@,
            ) && key is None ==> r.status@ == "FAILED"@ && r.message@ == "KeyDecodeError"@))
            &&& (*lookup matches CredentialLookup::Found(d) ==> (email_ok && bcrypt_matches(
                login_data.password@,
                d.password@,
            ) && key is Some && !(rs256_key_sized(key->0) && rs256_key_ok(key->0)) ==> r.status@
                == "FAILED"@ && r.message@ == "SigningError"@))
            &&& (*lookup matches CredentialLookup::Found(d) ==> (email_ok && bcrypt_matches(
                login_data.password@,
                d.password@,
            ) && key is Some && rs256_key_sized(key->0) && rs256_key_ok(key->0) ==> r.status@
                == "SUCCESS"@ && (exists|
                id: Seq<char>,
                now: int,
            |
                is_uuid_chars(id) && -9_000_000_000_000 <= now <= 9_000_000_000_000
                    && r.message@ == #[trigger] token_chars(
                    id,
                    login_data.email@,
                    now + ttl * 60,
                    key->0,
                ))))
        }),
{
    if !validate_email(login_data.email.as_str()) {
        return StatusResponse {
            status: String::from_str("FAILED"),
            message: String::from_str("Invalid Email"),
        };
    }
    let data = match lookup {
        CredentialLookup::Found(d) => d,
        CredentialLookup::NotFound => {
            return StatusResponse {
                status: String::from_str("FAILED"),
                message: String::from_str("No user found with given email"),
            };
        },
        CredentialLookup::LookupFailed(m) => {
            return StatusResponse {
                status: String::from_str("FAILED"),
                message: String::from_str("Error while checking existing database, ").concat(
                    m.as_str(),
                ),
            };
        },
    };
    if !bcrypt_check(login_data.password.as_str(), data.password.as_str()) {
        return StatusResponse {
            status: String::from_str("FAILED"),
            message: String::from_str("Invalid Password"),
        };
    }
    match generate_jwt_token(login_data.email.clone(), ttl, String::from_str(private_key)) {
        Ok(t) => {
            let token = match t.access_token {
                Some(tok) => tok,
                None => {
                    assert(false);
                    String::new()
                },
            };
            StatusResponse { status: String::from_str("SUCCESS"), message: token }
        },
        Err(e) => {
            match e {
                crate::token::TokenError::KeyDecodeError => StatusResponse {
                    status: String::from_str("FAILED"),
                    message: String::from_str("KeyDecodeError"),
                },
                _ => StatusResponse {
                    status: String::from_str("FAILED"),
                    message: String::from_str("SigningError"),
                },
            }
        },
    }
}

} // verus!
