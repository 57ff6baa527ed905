use vstd::prelude::*;

verus! {

/// Whether the bcrypt check of this password against this stored hash
/// succeeds. The outcome is a function of the two arguments alone: the
/// salt is part of the hash.
pub uninterp spec fn bcrypt_verifies(pass: Seq<char>, hash: Seq<char>) -> bool;

/// Relies on bcrypt::hash with the crate's default cost: it produces a
/// salted one-way hash that bcrypt::verify accepts for exactly the
/// password that was hashed. The salt is random, so nothing else is
/// assumed of the result.
#[verifier::external_body]
pub(crate) fn hash_password(pass: &str) -> (r: Option<String>)
    ensures
        r matches Some(h) ==> bcrypt_verifies(pass@, h@),
{
    bcrypt::hash(pass, bcrypt::DEFAULT_COST).ok()
}

/// Relies on bcrypt::verify: deterministic in the password and the
/// stored hash; an error (such as a malformed hash) counts as a failed
/// match, so the check fails closed.
#[verifier::external_body]
pub(crate) fn verify_password(pass: &str, hash: &str) -> (r: bool)
    ensures
        r == bcrypt_verifies(pass@, hash@),
{
    match bcrypt::verify(pass, hash) {
        Ok(ok) => ok,
        Err(_) => false,
    }
}

/// Relies on passwords::PasswordGenerator being a plain configuration
/// record for the random password generator.
#[verifier::external_type_specification]
#[verifier::external_body]
pub struct ExPasswordGenerator(passwords::PasswordGenerator);

/// Relies on passwords::PasswordGenerator: the configuration the system
/// uses for generated secrets — twelve characters from all classes but
/// spaces, similar-looking characters excluded, every class required.
#[verifier::external_body]
pub fn create_pg() -> passwords::PasswordGenerator {
    passwords::PasswordGenerator {
        length: 12,
        numbers: true,
        lowercase_letters: true,
        uppercase_letters: true,
        symbols: true,
        spaces: false,
        exclude_similar_characters: true,
        strict: true,
    }
}

/// Relies on passwords::PasswordGenerator::generate_one. The result is
/// random, so nothing is assumed of it.
#[verifier::external_body]
pub(crate) fn generate_one(pg: &passwords::PasswordGenerator) -> (r: Option<String>)
{
    pg.generate_one().ok()
}

} // verus!
