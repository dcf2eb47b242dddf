use vstd::prelude::*;
use vstd::string::StringSliceAdditionalSpecFns;
use argon2::password_hash::rand_core::{OsRng, RngCore};
use argon2::password_hash::{Salt, SaltString};
use argon2::{Argon2, PasswordHash, PasswordHasher, PasswordVerifier};

verus! {

#[verifier::external_type_specification]
#[verifier::external_body]
pub struct ExPasswordHashError(argon2::password_hash::Error);

/// Number of random bytes in a salt.
pub const SALT_LENGTH: usize = 16;

/// Whether Argon2 with default parameters accepts `password` against the
/// stored hash string `stored`.
pub uninterp spec fn password_accepted(password: Seq<char>, stored: Seq<char>) -> bool;

/// The PHC string that Argon2 with default parameters makes of `password`
/// under the salt bytes `salt`.
pub uninterp spec fn phc_of(password: Seq<char>, salt: Seq<u8>) -> Seq<char>;

/// How every hash string begins: the algorithm (Argon2id), the version (19)
/// and the default parameters (19 MiB of memory, 2 passes, 1 lane).
pub open spec fn phc_prefix() -> Seq<char> {
    seq![
        '$', 'a', 'r', 'g', 'o', 'n', '2', 'i', 'd', '$', 'v', '=', '1', '9', '$', 'm', '=', '1',
        '9', '4', '5', '6', ',', 't', '=', '2', ',', 'p', '=', '1', '$',
    ]
}

/// A hash string as `hash_password_with_salt` makes it of `password` and
/// `salt`: the named result, which starts with `phc_prefix`, which embeds the
/// salt (no other salt gives it), and which verifies against `password`.
pub open spec fn is_phc_for(h: Seq<char>, password: Seq<char>, salt: Seq<u8>) -> bool {
    &&& h == phc_of(password, salt)
    &&& h.len() > phc_prefix().len()
    &&& h.take(phc_prefix().len() as int) == phc_prefix()
    &&& forall|other: Seq<u8>|
        other.len() == SALT_LENGTH && #[trigger] phc_of(password, other) == h ==> other == salt
    &&& password_accepted(password, h)
}

/// Relies on rand_core's `OsRng::try_fill_bytes`: the operating system's
/// entropy source fills `Salt::RECOMMENDED_LENGTH` (16) random bytes, or its
/// failure is reported as password-hash's `Error::Crypto`.
#[verifier::external_body]
fn random_salt() -> (r: Result<Vec<u8>, argon2::password_hash::Error>)
    ensures
        r is Ok ==> r->Ok_0@.len() == SALT_LENGTH,
{
    let mut bytes = vec![0u8; Salt::RECOMMENDED_LENGTH];
    OsRng.try_fill_bytes(&mut bytes).map_err(|_| argon2::password_hash::Error::Crypto)?;
    Ok(bytes)
}

/// Relies on password-hash's `SaltString::encode_b64` and argon2's
/// `PasswordHasher::hash_password` with `Argon2::default()`. A 16-byte salt is
/// within Argon2's bounds, so hashing fails only on a password longer than
/// `argon2::MAX_PWD_LEN` bytes. The PHC string returned is a function of the
/// password and the salt; it names Argon2id, version 19 and the default
/// parameters, carries the salt in B64, and `PasswordVerifier::verify_password`
/// accepts the same password against it.
#[verifier::external_body]
fn argon2_hash(password: &str, salt: &[u8]) -> (r: Result<String, argon2::password_hash::Error>)
    requires
        salt@.len() == SALT_LENGTH,
    ensures
        password.spec_bytes().len() <= 0xFFFF_FFFF ==> r is Ok,
        r is Ok ==> r->Ok_0@ == phc_of(password@, salt@),
        r is Ok ==> r->Ok_0@.len() > phc_prefix().len() && r->Ok_0@.take(
            phc_prefix().len() as int,
        ) == phc_prefix(),
        r is Ok ==> forall|other: Seq<u8>|
            other.len() == SALT_LENGTH && #[trigger] phc_of(password@, other) == r->Ok_0@ ==> other
                == salt@,
        r is Ok ==> password_accepted(password@, r->Ok_0@),
{
    let salt = SaltString::encode_b64(salt)?;
    Argon2::default().hash_password(password.as_bytes(), &salt).map(|h| h.to_string())
}

/// Relies on argon2's `PasswordHash::new` and `PasswordVerifier::verify_password`:
/// the result depends on the password and the stored string alone, and a
/// stored string that is empty or does not start with `$` does not parse, so
/// it is refused.
#[verifier::external_body]
fn argon2_verify(password: &str, stored: &str) -> (r: bool)
    ensures
        r == password_accepted(password@, stored@),
        stored@.len() == 0 || stored@[0] != '$' ==> !r,
{
    match PasswordHash::new(stored) {
        Ok(h) => Argon2::default().verify_password(password.as_bytes(), &h).is_ok(),
        Err(_) => false,
    }
}

/// Hashes `password` with Argon2 under the given 16-byte `salt`. It succeeds
/// for every password up to Argon2's length limit, and gives the named PHC
/// string for the pair.
pub fn hash_password_with_salt(password: &str, salt: &[u8]) -> (r: Result<
    String,
    argon2::password_hash::Error,
>)
    requires
        salt@.len() == SALT_LENGTH,
    ensures
        password.spec_bytes().len() <= 0xFFFF_FFFF ==> r is Ok,
        r is Ok ==> is_phc_for(r->Ok_0@, password@, salt@),
{
    argon2_hash(password, salt)
}

/// Hashes `password` with Argon2 under a fresh random salt. The result is a
/// self-describing PHC string that `verify_password` accepts for `password`;
/// an error reports a failure of the entropy source or of the hasher.
pub fn hash_password(password: &str) -> (r: Result<String, argon2::password_hash::Error>)
    ensures
        r is Ok ==> exists|salt: Seq<u8>|
            salt.len() == SALT_LENGTH && #[trigger] is_phc_for(r->Ok_0@, password@, salt),
{
    let salt = match random_salt() {
        Ok(bytes) => bytes,
        Err(e) => return Err(e),
    };
    let r = hash_password_with_salt(password, salt.as_slice());
    proof {
        if r is Ok {
            assert(is_phc_for(r->Ok_0@, password@, salt@));
        }
    }
    r
}

/// Whether `password` matches the stored hash `hash`; a stored hash that is
/// empty or does not start with `$` gives `false`.
pub fn verify_password(password: &str, hash: &str) -> (r: bool)
    ensures
        r == password_accepted(password@, hash@),
        hash@.len() == 0 || hash@[0] != '$' ==> !r,
{
    argon2_verify(password, hash)
}

} // verus!
