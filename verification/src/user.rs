//! Rules on user accounts and roles: what a new account needs, what a new
//! password needs, and where a password is reset.

use crate::error::{EngineError, Failure};
use crate::models::{CreateUserRequest, ResetPasswordRequest, UpdateUserRequest};
use crate::security::{
    has_lowercase, has_number, has_uppercase, is_valid_email, password_complaint, valid_email,
    validate_password_strength,
};
use crate::text::{byte_len, byte_length};
use crate::text::digit_char;
use vstd::prelude::*;

verus! {

/// Why the account of a request cannot be created, or `None` when it can:
/// it needs a user name, an address and a password; the address must have
/// the shape of one; the password must be strong.
pub open spec fn account_complaint(req: CreateUserRequest) -> Option<Failure> {
    if req.username@.len() == 0 || req.email@.len() == 0 || req.password@.len() == 0 {
        Some(Failure::InvalidState("username, email y password son requeridos"@))
    } else if !valid_email(req.email@) {
        Some(Failure::InvalidState("Formato de email inválido"@))
    } else {
        match password_complaint(
            byte_length(req.password@),
            has_lowercase(req.password@),
            has_uppercase(req.password@),
            has_number(req.password@),
        ) {
            Some(complaint) => Some(Failure::InvalidState(complaint)),
            None => None,
        }
    }
}

/// Decides whether the account of the request `req` may be created.
pub fn create_user(req: &CreateUserRequest) -> (r: Result<(), EngineError>)
    ensures
        match account_complaint(*req) {
            Some(failure) => r is Err && r->Err_0@ == failure,
            None => r is Ok,
        },
{
    if req.username.as_str().is_empty() || req.email.as_str().is_empty()
        || req.password.as_str().is_empty() {
        return Err(EngineError::invalid_state("username, email y password son requeridos"));
    }
    if !is_valid_email(req.email.as_str()) {
        return Err(EngineError::invalid_state("Formato de email inválido"));
    }
    match validate_password_strength(req.password.as_str()) {
        Ok(_) => Ok(()),
        Err(complaint) => Err(EngineError::InvalidState(complaint)),
    }
}

/// The password that a change of an account sets: the one of the request
/// when it gives one that is not empty.
pub fn update_user(req: &UpdateUserRequest) -> (password: Option<&str>)
    ensures
        match req.password {
            Some(given) => if given@.len() > 0 {
                password is Some && password->0@ == given@
            } else {
                password is None
            },
            None => password is None,
        },
{
    match &req.password {
        Some(given) => {
            if given.as_str().is_empty() {
                None
            } else {
                Some(given.as_str())
            }
        },
        None => None,
    }
}

/// The least number of bytes of a password set with a reset token.
pub const MIN_RESET_PASSWORD_BYTES: usize = 6;

/// Why the password of a request cannot be set with its token, or `None`
/// when it can: it needs a token and a password of six bytes at least.
pub open spec fn reset_complaint(req: ResetPasswordRequest) -> Option<Failure> {
    if req.token@.len() == 0 || req.password@.len() == 0 {
        Some(Failure::InvalidState("Token y contraseña son requeridos"@))
    } else if byte_length(req.password@) < MIN_RESET_PASSWORD_BYTES {
        Some(Failure::InvalidState("La contraseña debe tener al menos 6 caracteres"@))
    } else {
        None
    }
}

/// Decides whether the password of the request `req` may be set with its
/// token, before the token itself is looked up.
pub fn reset_password(req: &ResetPasswordRequest) -> (r: Result<(), EngineError>)
    ensures
        match reset_complaint(*req) {
            Some(failure) => r is Err && r->Err_0@ == failure,
            None => r is Ok,
        },
{
    if req.token.as_str().is_empty() || req.password.as_str().is_empty() {
        return Err(EngineError::invalid_state("Token y contraseña son requeridos"));
    }
    if byte_len(req.password.as_str()) < MIN_RESET_PASSWORD_BYTES {
        return Err(EngineError::invalid_state("La contraseña debe tener al menos 6 caracteres"));
    }
    Ok(())
}

/// Writes the link that resets a password with `token` on the front end at
/// `frontend_url`.
pub fn reset_link(frontend_url: &str, token: &str) -> (link: String)
    ensures
        link@ == frontend_url@ + "/reset-password?token="@ + token@,
{
    let mut link = String::from_str(frontend_url);
    link.append("/reset-password?token=");
    link.append(token);
    link
}

/// Decides whether a role named `name` may be stored, as a new record or in
/// place of another: it needs a name.
pub fn check_role(name: &str) -> (r: Result<(), EngineError>)
    ensures
        name@.len() == 0 ==> r is Err && r->Err_0@ == Failure::InvalidState(
            "El nombre es requerido"@,
        ),
        name@.len() != 0 ==> r is Ok,
{
    if name.is_empty() {
        Err(EngineError::invalid_state("El nombre es requerido"))
    } else {
        Ok(())
    }
}

/// The work factor with which passwords are hashed.
pub const BCRYPT_COST: u32 = 10;

/// The number of random bytes in a reset token.
pub const RESET_TOKEN_BYTES: usize = 32;

/// `bcrypt::hash` of the `bcrypt` crate: the hash of `password` at the work
/// factor `cost`, with a salt that the call draws from the system's
/// randomness. Nothing is claimed of the hash: two calls on one password
/// differ. An error of the call gives `None`.
#[verifier::external_body]
pub(crate) fn bcrypt_hash(password: &str, cost: u32) -> (hashed: Option<String>) {
    bcrypt::hash(password, cost).ok()
}

/// `rand::random` of the `rand` crate, for an array of 32 bytes, as a list.
/// The bytes are drawn at random: all that is claimed is their number.
#[verifier::external_body]
pub(crate) fn random_token_bytes() -> (bytes: Vec<u8>)
    ensures
        bytes@.len() == RESET_TOKEN_BYTES,
{
    rand::random::<[u8; 32]>().to_vec()
}

/// `hex::encode` of the `hex` crate: each byte written as two hexadecimal
/// digits in lower case, the high half first, as its documentation and its
/// table `0123456789abcdef` say.
#[verifier::external_body]
pub(crate) fn hex_encode(bytes: &Vec<u8>) -> (text: String)
    ensures
        text@ == hex_text(bytes@),
{
    hex::encode(bytes)
}

/// The hexadecimal digit, in lower case, that writes `n`.
pub open spec fn hex_digit(n: nat) -> char {
    if n < 10 {
        digit_char(n)
    } else if n == 10 {
        'a'
    } else if n == 11 {
        'b'
    } else if n == 12 {
        'c'
    } else if n == 13 {
        'd'
    } else if n == 14 {
        'e'
    } else {
        'f'
    }
}

/// Whether `c` is a hexadecimal digit in lower case.
pub open spec fn is_hex_digit(c: char) -> bool {
    ('0' <= c <= '9') || ('a' <= c <= 'f')
}

/// The bytes `bytes` in hexadecimal: two digits in lower case for each
/// byte, the high half first.
pub open spec fn hex_text(bytes: Seq<u8>) -> Seq<char>
    decreases bytes.len(),
{
    if bytes.len() == 0 {
        Seq::empty()
    } else {
        hex_text(bytes.drop_last()).push(hex_digit((bytes.last() / 16) as nat)).push(
            hex_digit((bytes.last() % 16) as nat),
        )
    }
}

/// Bytes in hexadecimal take two digits each, and nothing but digits.
pub proof fn lemma_hex_text(bytes: Seq<u8>)
    ensures
        hex_text(bytes).len() == 2 * bytes.len(),
        forall|i: int| 0 <= i < hex_text(bytes).len() ==> is_hex_digit(#[trigger] hex_text(bytes)[i]),
    decreases bytes.len(),
{
    if bytes.len() > 0 {
        lemma_hex_text(bytes.drop_last());
    }
}

/// What a request for the hash of a password comes to, given what the
/// hashing made: the hash, or a failure without any detail.
pub fn password_hash_reply(hashed: Option<String>) -> (r: Result<String, EngineError>)
    ensures
        match hashed {
            Some(hash) => r == Ok::<String, EngineError>(hash),
            None => r is Err && r->Err_0@ == Failure::IoFailed("Error procesando contraseña"@),
        },
{
    match hashed {
        Some(hash) => Ok(hash),
        None => Err(EngineError::io_failed("Error procesando contraseña")),
    }
}

/// Hashes `password` for the store. The hash is salted at random, so
/// nothing is said of it; a failure never says why.
pub fn hash_password(password: &str) -> (r: Result<String, EngineError>)
    ensures
        r is Err ==> r->Err_0@ == Failure::IoFailed("Error procesando contraseña"@),
{
    password_hash_reply(bcrypt_hash(password, BCRYPT_COST))
}

/// Writes the reset token made of the bytes `bytes`: their hexadecimal
/// text.
pub fn token_of(bytes: &Vec<u8>) -> (token: String)
    ensures
        token@ == hex_text(bytes@),
        token@.len() == 2 * bytes@.len(),
        forall|i: int| 0 <= i < token@.len() ==> is_hex_digit(#[trigger] token@[i]),
{
    proof {
        lemma_hex_text(bytes@);
    }
    hex_encode(bytes)
}

/// Draws the token of a password reset: 32 random bytes in hexadecimal,
/// which makes 64 digits.
pub fn reset_token() -> (token: String)
    ensures
        token@.len() == 2 * RESET_TOKEN_BYTES,
        forall|i: int| 0 <= i < token@.len() ==> is_hex_digit(#[trigger] token@[i]),
{
    let bytes = random_token_bytes();
    token_of(&bytes)
}

} // verus!
