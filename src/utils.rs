//! Password hashing and verification, through argon2.
use vstd::prelude::*;

use crate::errors::ServiceError;

verus! {

#[verifier::external_type_specification]
#[verifier::external_body]
pub struct ExArgon2Error(argon2::Error);

/// The argon2 encoding (parameters, salt and digest) of `password` hashed
/// with the salt's sixteen little-endian bytes, or `None` where hashing fails.
pub uninterp spec fn argon2_encoding(password: Seq<char>, salt: u128) -> Option<Seq<char>>;

/// Whether `password` matches the argon2 encoding `encoded`, or `None` where
/// `encoded` cannot be decoded.
pub uninterp spec fn argon2_verdict(encoded: Seq<char>, password: Seq<char>) -> Option<bool>;

/// Relies on argon2::hash_encoded with the crate's default configuration:
/// the encoding depends on the password and the salt alone, and carries the
/// parameters with which argon2::verify_encoded recomputes the same digest,
/// so that it accepts the password.
#[verifier::external_body]
fn hash_encoded(password: &str, salt: u128) -> (r: Result<String, argon2::Error>)
    ensures
        match r {
            Ok(h) => argon2_encoding(password@, salt) == Some(h@) && argon2_verdict(h@, password@) == Some(true),
            Err(_) => argon2_encoding(password@, salt) is None,
        },
{
    argon2::hash_encoded(password.as_bytes(), &salt.to_le_bytes(), &argon2::Config::default())
}

/// Relies on argon2::verify_encoded: it decodes the parameters and salt from
/// `encoded`, hashes `password` with them and compares; it fails only where
/// `encoded` is malformed.
#[verifier::external_body]
fn verify_encoded(encoded: &str, password: &str) -> (r: Result<bool, argon2::Error>)
    ensures
        match r {
            Ok(b) => argon2_verdict(encoded@, password@) == Some(b),
            Err(_) => argon2_verdict(encoded@, password@) is None,
        },
{
    argon2::verify_encoded(encoded, password.as_bytes())
}

/// The stored form of `password`, salted with `salt`.
pub fn hash_password(password: &str, salt: u128) -> (r: Result<String, ServiceError>)
    ensures
        match r {
            Ok(h) => argon2_encoding(password@, salt) == Some(h@) && argon2_verdict(h@, password@) == Some(true),
            Err(e) => e == ServiceError::InternalServerError && argon2_encoding(
                password@,
                salt,
            ) is None,
        },
{
    match hash_encoded(password, salt) {
        Ok(h) => Ok(h),
        Err(_) => Err(ServiceError::InternalServerError),
    }
}

/// Whether `password` matches the stored hash; a malformed hash is reported
/// as `Unauthorized`, like a mismatch would be by the callers.
pub fn verify(hash: &str, password: &str) -> (r: Result<bool, ServiceError>)
    ensures
        match r {
            Ok(b) => argon2_verdict(hash@, password@) == Some(b),
            Err(e) => e == ServiceError::Unauthorized && argon2_verdict(hash@, password@) is None,
        },
{
    match verify_encoded(hash, password) {
        Ok(b) => Ok(b),
        Err(_) => Err(ServiceError::Unauthorized),
    }
}

/// Whether `a` comes no later than `b` in lexicographic order of code points.
pub open spec fn text_le(a: Seq<char>, b: Seq<char>) -> bool
    decreases a.len(),
{
    if a.len() == 0 {
        true
    } else if b.len() == 0 {
        false
    } else if a[0] as u32 != b[0] as u32 {
        (a[0] as u32) < (b[0] as u32)
    } else {
        text_le(a.drop_first(), b.drop_first())
    }
}

/// Of two texts, one comes no later than the other.
pub proof fn lemma_text_le_total(a: Seq<char>, b: Seq<char>)
    ensures
        text_le(a, b) || text_le(b, a),
    decreases a.len(),
{
    if a.len() > 0 && b.len() > 0 && a[0] as u32 == b[0] as u32 {
        lemma_text_le_total(a.drop_first(), b.drop_first());
    }
}

/// The order of texts is transitive.
pub proof fn lemma_text_le_transitive(a: Seq<char>, b: Seq<char>, c: Seq<char>)
    requires
        text_le(a, b),
        text_le(b, c),
    ensures
        text_le(a, c),
    decreases a.len(),
{
    if a.len() > 0 && b.len() > 0 && c.len() > 0 && a[0] as u32 == b[0] as u32 && b[0] as u32 == c[0] as u32 {
        lemma_text_le_transitive(a.drop_first(), b.drop_first(), c.drop_first());
    }
}

/// Whether `a` comes no later than `b`, comparing code points in turn.
pub fn str_le(a: &str, b: &str) -> (r: bool)
    ensures
        r == text_le(a@, b@),
{
    let la = a.unicode_len();
    let lb = b.unicode_len();
    let mut i: usize = 0;
    assert(a@.skip(0) =~= a@ && b@.skip(0) =~= b@);
    while i < la && i < lb
        invariant
            i <= la,
            i <= lb,
            la == a@.len(),
            lb == b@.len(),
            text_le(a@, b@) == text_le(a@.skip(i as int), b@.skip(i as int)),
        decreases la - i,
    {
        let ca = a.get_char(i);
        let cb = b.get_char(i);
        if ca as u32 != cb as u32 {
            return (ca as u32) < (cb as u32);
        }
        assert(a@.skip(i as int).drop_first() =~= a@.skip(i + 1));
        assert(b@.skip(i as int).drop_first() =~= b@.skip(i + 1));
        i = i + 1;
    }
    assert(i == la ==> a@.skip(i as int).len() == 0);
    i == la
}

} // verus!
