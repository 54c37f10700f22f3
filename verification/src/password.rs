//! Wallet passwords: bcrypt hashing and checking.
use vstd::prelude::*;

use crate::text::digit_char;

verus! {

#[verifier::external_type_specification]
#[verifier::external_body]
pub struct ExBcryptError(bcrypt::BcryptError);

/// The bcrypt cost the wallet hashes with.
pub const DEFAULT_COST: u32 = 12;

/// What `bcrypt::verify(password, hash)` gives: `Some(matches)`, or `None`
/// when it fails (a hash it cannot read).
pub uninterp spec fn bcrypt_verify(password: Seq<char>, hash: Seq<char>) -> Option<bool>;

/// The prefix of every hash that `bcrypt::hash` writes.
pub open spec fn bcrypt_prefix() -> Seq<char> {
    seq!['$', '2', 'b', '$']
}

/// `hash` is a bcrypt hash of `password` as `bcrypt::hash` writes them: 60
/// characters starting `$2b$`, which `bcrypt::verify` accepts for that
/// password.
pub open spec fn is_bcrypt_hash_of(password: Seq<char>, hash: Seq<char>) -> bool {
    &&& hash.len() == 60
    &&& hash.take(4) == bcrypt_prefix()
    &&& bcrypt_verify(password, hash) == Some(true)
}

/// The cost field of a bcrypt hash: the cost in two decimal digits, then
/// `$`.
pub open spec fn bcrypt_cost_field(cost: u32) -> Seq<char> {
    seq![digit_char((cost / 10) as nat), digit_char((cost % 10) as nat), '$']
}

/// Why hashing a password failed.
#[derive(Debug)]
pub enum HashError {
    /// The cost lies outside 4..=31.
    CostNotAllowed(u32),
    /// The operating system's random source failed while drawing the salt
    /// (`BcryptError::Rand`).
    Random(bcrypt::BcryptError),
    /// Any other `BcryptError`; `bcrypt::hash` returns none of them.
    Unexpected(bcrypt::BcryptError),
}

/// `bcrypt::hash(password, cost)`, its error told apart by variant.
///
/// The salt is random, so the hash itself is not named. Claims: the only
/// errors are `CostNotAllowed` for a cost outside 4..=31 (with that cost) and
/// `Rand` from the operating system's random source, which is drawn first;
/// a hash that comes back is `$2b$`, the cost in two digits, `$`, 22
/// characters of salt and 31 of digest (60 in all), and `bcrypt::verify`
/// recomputes it from the same password, salt and cost, so it accepts it.
/// Whether the random source fails is left open.
#[verifier::external_body]
fn bcrypt_hash(password: &str, cost: u32) -> (hashed: Result<String, HashError>)
    ensures
        (cost < 4 || cost > 31) ==> hashed is Err,
        hashed matches Err(e) ==> {
            ||| e is Random
            ||| (e matches HashError::CostNotAllowed(c) && c == cost && (cost < 4 || cost > 31))
        },
        hashed matches Ok(h) ==> {
            &&& is_bcrypt_hash_of(password@, h@)
            &&& h@.subrange(4, 7) == bcrypt_cost_field(cost)
        },
{
    match bcrypt::hash(password, cost) {
        Ok(h) => Ok(h),
        Err(bcrypt::BcryptError::CostNotAllowed(c)) => Err(HashError::CostNotAllowed(c)),
        Err(e @ bcrypt::BcryptError::Rand(_)) => Err(HashError::Random(e)),
        Err(e) => Err(HashError::Unexpected(e)),
    }
}

/// `bcrypt::verify(password, hash)`, named by `bcrypt_verify`.
#[verifier::external_body]
fn bcrypt_check(password: &str, hash: &str) -> (checked: Result<bool, bcrypt::BcryptError>)
    ensures
        match checked {
            Ok(matches) => bcrypt_verify(password@, hash@) == Some(matches),
            Err(_) => bcrypt_verify(password@, hash@) is None,
        },
{
    bcrypt::verify(password, hash)
}

/// Hashes a new wallet's password with the default cost, 12: the hash
/// begins `$2b$12$`. It fails only when the random source fails.
pub fn hash_password(password: &str) -> (hashed: Result<String, HashError>)
    ensures
        hashed matches Ok(h) ==> {
            &&& is_bcrypt_hash_of(password@, h@)
            &&& h@.subrange(4, 7) == seq!['1', '2', '$']
        },
        hashed matches Err(e) ==> e is Random,
{
    bcrypt_hash(password, DEFAULT_COST)
}

/// Why a wallet refused a password.
#[derive(Debug)]
pub enum PasswordError {
    /// `bcrypt::verify` failed on the stored hash.
    Verification(bcrypt::BcryptError),
    /// The password does not match the stored hash.
    Incorrect,
}

/// A password opens a wallet when the wallet stores no hash, or when the
/// stored hash accepts it.
pub open spec fn password_accepted(password: Seq<char>, stored: Seq<char>) -> bool {
    stored.len() == 0 || bcrypt_verify(password, stored) == Some(true)
}

/// Checks the password typed at login against the stored hash.
pub fn check_wallet_password(password: &str, stored: &str) -> (checked: Result<(), PasswordError>)
    ensures
        checked is Ok <==> password_accepted(password@, stored@),
        checked matches Err(PasswordError::Incorrect) <==> (stored@.len() > 0 && bcrypt_verify(
            password@,
            stored@,
        ) == Some(false)),
        checked matches Err(PasswordError::Verification(_)) <==> (stored@.len() > 0
            && bcrypt_verify(password@, stored@) is None),
{
    if stored.is_empty() {
        return Ok(());
    }
    match bcrypt_check(password, stored) {
        Ok(true) => Ok(()),
        Ok(false) => Err(PasswordError::Incorrect),
        Err(e) => Err(PasswordError::Verification(e)),
    }
}

/// A wallet created with a password opens with that password: a hash made
/// by `hash_password` accepts the password it was made from.
pub proof fn law_own_password_opens(password: Seq<char>, hash: Seq<char>)
    ensures
        is_bcrypt_hash_of(password, hash) ==> password_accepted(password, hash),
{
}

/// A wallet that stores no password opens with any password.
pub proof fn law_no_password_opens(password: Seq<char>)
    ensures
        password_accepted(password, Seq::<char>::empty()),
{
}

} // verus!
