//! The master key: random salts, and the key derived from the master
//! password and the salt with Argon2.

use rand::RngCore;
use vstd::prelude::*;
use vstd::string::StringSliceAdditionalSpecFns;

use crate::encoding::{
    base64_decode, base64_encode, hex_encode, spec_base64_decode, spec_base64_encode,
    spec_hex_lower,
};
use crate::text::to_owned_string;

verus! {

/// The key that encrypts the database.
pub struct MasterKey(pub Vec<u8>);

/// Why a salt or a master key could not be produced.
#[derive(Debug, PartialEq, Eq, Structural)]
pub enum SecurityError {
    /// The operating system's random number generator failed.
    RandomUnavailable,
    /// The salt is not valid Base64.
    InvalidSaltEncoding,
    /// Argon2 refused the password or the salt.
    KeyDerivationFailed,
}

/// Calls `rand::rngs::OsRng.try_fill_bytes` on a buffer of `len` bytes: the
/// random bytes, or `None` where the operating system's generator fails.
/// Which bytes come out is chance, so nothing more is stated of them.
#[verifier::external_body]
pub(crate) fn random_bytes(len: usize) -> (res: Option<Vec<u8>>)
    ensures
        res matches Some(v) ==> v@.len() == len,
{
    let mut bytes = vec![0u8; len];
    match rand::rngs::OsRng.try_fill_bytes(&mut bytes) {
        Ok(()) => Some(bytes),
        Err(_) => None,
    }
}

/// What `argon2::Argon2::default().hash_password_into` writes into a 32-byte
/// output for a password and a salt.
pub uninterp spec fn spec_argon2_key(password: Seq<u8>, salt: Seq<u8>) -> Seq<u8>;

/// The inputs Argon2 with its default parameters accepts: a salt of 8 to
/// 2^32 - 1 bytes and a password of at most 2^32 - 1 bytes.
pub open spec fn argon2_accepts(password: Seq<u8>, salt: Seq<u8>) -> bool {
    8 <= salt.len() <= 0xFFFF_FFFF && password.len() <= 0xFFFF_FFFF
}

/// Calls `argon2::Argon2::default().hash_password_into` with a 32-byte
/// output. It succeeds exactly on the inputs of `argon2_accepts` (its other
/// checks, on the output length and the memory, always pass here).
#[verifier::external_body]
fn argon2_hash(password: &str, salt: &[u8]) -> (res: Option<Vec<u8>>)
    ensures
        res is Some <==> argon2_accepts(password.spec_bytes(), salt@),
        res matches Some(k) ==> k@ == spec_argon2_key(password.spec_bytes(), salt@) && k@.len() == 32,
{
    let mut out = vec![0u8; 32];
    match argon2::Argon2::default().hash_password_into(password.as_bytes(), salt, &mut out) {
        Ok(()) => Some(out),
        Err(_) => None,
    }
}

/// A new random salt: 32 random bytes in Base64.
pub fn generate_salt() -> (r: Result<String, SecurityError>)
    ensures
        match r {
            Ok(s) => exists|bytes: Seq<u8>|
                bytes.len() == 32 && s@ == #[trigger] spec_base64_encode(bytes) && spec_base64_decode(s@)
                    == Some(bytes),
            Err(e) => e == SecurityError::RandomUnavailable,
        },
{
    match random_bytes(32) {
        Some(bytes) => {
            let s = base64_encode(bytes.as_slice());
            assert(spec_base64_decode(s@) == Some(bytes@));
            Ok(s)
        },
        None => Err(SecurityError::RandomUnavailable),
    }
}

/// The master key for a password and a Base64 salt, where both are accepted.
pub open spec fn spec_derive_key(password: Seq<u8>, salt: Seq<char>) -> Result<Seq<u8>, SecurityError> {
    match spec_base64_decode(salt) {
        None => Err(SecurityError::InvalidSaltEncoding),
        Some(bytes) => if argon2_accepts(password, bytes) {
            Ok(spec_argon2_key(password, bytes))
        } else {
            Err(SecurityError::KeyDerivationFailed)
        },
    }
}

/// Derives the master key from the master password and the Base64 salt.
pub fn derive_key(password: &str, salt: &str) -> (r: Result<MasterKey, SecurityError>)
    ensures
        match spec_derive_key(password.spec_bytes(), salt@) {
            Ok(k) => r matches Ok(key) && key.0@ == k,
            Err(e) => r matches Err(x) && x == e,
        },
{
    let salt_bytes = match base64_decode(salt) {
        Some(b) => b,
        None => {
            return Err(SecurityError::InvalidSaltEncoding);
        },
    };
    match argon2_hash(password, salt_bytes.as_slice()) {
        Some(out) => Ok(MasterKey(out)),
        None => Err(SecurityError::KeyDerivationFailed),
    }
}

/// The master key for the contents of a salt file: the salt is the file's
/// text without surrounding whitespace.
pub fn derive_key_from_salt_file(password: &str, salt_file: &str) -> (r: Result<MasterKey, SecurityError>)
    ensures
        match spec_derive_key(password.spec_bytes(), crate::text::spec_trim(salt_file@)) {
            Ok(k) => r matches Ok(key) && key.0@ == k,
            Err(e) => r matches Err(x) && x == e,
        },
{
    derive_key(password, crate::text::trim(salt_file))
}

/// A salt made by `generate_salt` is always accepted by `derive_key`, for
/// any password Argon2 takes, and one password with one salt always gives
/// the same key.
pub proof fn law_generated_salt_accepted(password: Seq<u8>, bytes: Seq<u8>, salt: Seq<char>)
    requires
        bytes.len() == 32,
        spec_base64_decode(salt) == Some(bytes),
        password.len() <= 0xFFFF_FFFF,
    ensures
        spec_derive_key(password, salt) == Ok::<Seq<u8>, SecurityError>(spec_argon2_key(password, bytes)),
{
}

/// Calls `zeroize::Zeroize::zeroize` on the key bytes: they are overwritten
/// with zeros and the vector is left empty.
#[verifier::external_body]
fn zeroize_bytes(bytes: &mut Vec<u8>)
    ensures
        final(bytes)@.len() == 0,
{
    zeroize::Zeroize::zeroize(bytes)
}

impl MasterKey {
    /// Overwrites the key bytes with zeros and empties the key.
    pub fn wipe(&mut self)
        ensures
            final(self).0@.len() == 0,
    {
        zeroize_bytes(&mut self.0);
    }

    /// The statement that opens the encrypted database with this key:
    /// `PRAGMA key = 'x''<hex>'''`, with the key in lowercase hex.
    pub fn key_pragma(&self) -> (r: String)
        ensures
            r@ == "PRAGMA key = 'x''"@ + spec_hex_lower(self.0@) + "'''"@,
    {
        to_owned_string("PRAGMA key = 'x''").concat(hex_encode(self.0.as_slice()).as_str()).concat(
            "'''",
        )
    }
}

} // verus!
