//! Salted password hashing built on Argon2.
//!
//! `hash_password` draws a fresh random salt for every call and derives a
//! memory-hard hash in PHC string form; `verify_password` recomputes and
//! compares. A mismatch is an ordinary `false`; only a structurally corrupt
//! stored hash is an error.

use vstd::prelude::*;
use vstd::utf8::encode_utf8;

use crate::error::ModelError;

verus! {

/// The longest password, in UTF-8 bytes, that Argon2 accepts; longer input
/// is rejected rather than hashed.
pub const MAX_PASSWORD_BYTES: usize = 0xFFFFFFFF;

/// The PHC string that Argon2 with default parameters derives from a
/// password and a salt.
pub uninterp spec fn argon2_hash_of(password: Seq<char>, salt: Seq<char>) -> Seq<char>;

/// Whether Argon2 verification of `password` against the PHC string `stored`
/// succeeds; a function of the two arguments alone.
pub uninterp spec fn argon2_verifies(password: Seq<char>, stored: Seq<char>) -> bool;

/// Whether a salt string is one that Argon2 hashing accepts: the shape
/// `SaltString::generate` produces, a canonical B64 encoding of sixteen
/// bytes.
pub uninterp spec fn hashable_salt(s: Seq<char>) -> bool;

#[verifier::external_type_specification]
#[verifier::external_body]
pub struct ExPasswordHashError(argon2::password_hash::Error);

/// A freshly derived password hash together with the salt that produced it.
pub struct HashedPassword {
    pub hash: String,
    pub salt: String,
}

/// Relies on `SaltString::generate` over the operating system's entropy
/// source: the salt value is random, but it is always a canonical B64
/// encoding of sixteen fresh bytes, a shape Argon2 hashing accepts.
#[verifier::external_body]
fn gen_salt() -> (r: String)
    ensures
        hashable_salt(r@),
{
    argon2::password_hash::SaltString::generate(&mut argon2::password_hash::rand_core::OsRng)
        .as_str()
        .to_string()
}

/// Relies on `Argon2::hash_password` with default parameters: on success the
/// resulting PHC string is a function of the password and the salt alone, and
/// verifying the same password against it succeeds. With a salt of the shape
/// `SaltString::generate` produces, the only failure left is a password over
/// Argon2's byte-length limit.
#[verifier::external_body]
fn hash_with_salt(password: &str, salt: &str) -> (r: Result<
    String,
    argon2::password_hash::Error,
>)
    ensures
        r matches Ok(h) ==> h@ == argon2_hash_of(password@, salt@) && argon2_verifies(
            password@,
            h@,
        ),
        r is Err ==> !hashable_salt(salt@) || encode_utf8(password@).len() > MAX_PASSWORD_BYTES,
{
    let salt = argon2::password_hash::Salt::from_b64(salt)?;
    let hash = argon2::password_hash::PasswordHasher::hash_password(
        &argon2::Argon2::default(),
        password.as_bytes(),
        salt,
    )?;
    Ok(hash.to_string())
}

/// Relies on `PasswordHash::new` and `Argon2::verify_password`: parsing
/// accepts every Argon2-produced PHC string, and verification succeeds
/// exactly when recomputing with the parameters embedded in `stored`
/// reproduces it.
#[verifier::external_body]
fn verify_with_hash(password: &str, stored: &str) -> (r: Result<
    bool,
    argon2::password_hash::Error,
>)
    ensures
        r matches Ok(b) ==> b == argon2_verifies(password@, stored@),
        r is Err ==> forall|p: Seq<char>, s: Seq<char>|
            stored@ != #[trigger] argon2_hash_of(p, s),
{
    let parsed = argon2::password_hash::PasswordHash::new(stored)?;
    Ok(
        argon2::password_hash::PasswordVerifier::verify_password(
            &argon2::Argon2::default(),
            password.as_bytes(),
            &parsed,
        ).is_ok(),
    )
}

/// Derives a salted hash for `password` with a freshly generated random
/// salt. Hashing is owed to succeed; only a password over Argon2's
/// byte-length limit is refused.
pub fn hash_password(password: &str) -> (r: Result<HashedPassword, ModelError>)
    ensures
        r matches Ok(hp) ==> hp.hash@ == argon2_hash_of(password@, hp.salt@) && argon2_verifies(
            password@,
            hp.hash@,
        ),
        r matches Err(e) ==> e == ModelError::PasswordHashError,
        r is Err ==> encode_utf8(password@).len() > MAX_PASSWORD_BYTES,
{
    let salt = gen_salt();
    match hash_with_salt(password, salt.as_str()) {
        Ok(hash) => Ok(HashedPassword { hash, salt }),
        Err(_) => Err(ModelError::PasswordHashError),
    }
}

/// Checks `password` against a stored PHC hash string. A mismatch yields
/// `Ok(false)`; only a stored hash that Argon2 never produced can fail.
pub fn verify_password(password: &str, stored: &str) -> (r: Result<bool, ModelError>)
    ensures
        r matches Ok(b) ==> b == argon2_verifies(password@, stored@),
        r matches Err(e) ==> e == ModelError::PasswordHashError && (forall|
            p: Seq<char>,
            s: Seq<char>,
        |
            stored@ != #[trigger] argon2_hash_of(p, s)),
{
    match verify_with_hash(password, stored) {
        Ok(b) => Ok(b),
        Err(_) => Err(ModelError::PasswordHashError),
    }
}

} // verus!
