//! Naming wallet files and stamping receiving addresses.
use vstd::prelude::*;

use crate::text::{decimal_digits, decimal_string, decimal_value, is_digit};

verus! {

/// Seconds a generated receiving address stays current.
pub const ADDRESS_LIFETIME_SECS: u64 = 3600;

/// Why a wallet name was refused.
#[derive(Debug, PartialEq, Eq, Structural)]
pub enum WalletNameError {
    /// The name is empty.
    Empty,
}

/// The file name of a wallet: its name followed by `.wallet`; an empty name
/// is refused.
pub fn wallet_file_name(name: &str) -> (file_name: Result<String, WalletNameError>)
    ensures
        file_name is Err <==> name@.len() == 0,
        file_name matches Ok(f) ==> f@ == name@ + ".wallet"@,
{
    if name.is_empty() {
        return Err(WalletNameError::Empty);
    }
    Ok(String::from_str(name).concat(".wallet"))
}

/// When an address generated at `now_secs` (Unix time) expires; `None`
/// when that time does not fit in 64 bits.
pub fn address_expiration(now_secs: u64) -> (expires: Option<u64>)
    ensures
        expires is Some <==> now_secs + ADDRESS_LIFETIME_SECS <= u64::MAX,
        expires matches Some(e) ==> e == now_secs + ADDRESS_LIFETIME_SECS,
{
    now_secs.checked_add(ADDRESS_LIFETIME_SECS)
}

/// The expiration of an address generated at `now_secs`, as the decimal
/// text the wallet file stores.
pub fn expiration_text(now_secs: u64) -> (text: Option<String>)
    ensures
        text is Some <==> now_secs + ADDRESS_LIFETIME_SECS <= u64::MAX,
        text matches Some(t) ==> {
            &&& t@ == decimal_digits((now_secs + ADDRESS_LIFETIME_SECS) as nat)
            &&& decimal_value(t@) == now_secs + ADDRESS_LIFETIME_SECS
            &&& forall|i: int| 0 <= i < t@.len() ==> is_digit(#[trigger] t@[i])
        },
{
    match address_expiration(now_secs) {
        Some(e) => Some(decimal_string(e)),
        None => None,
    }
}

} // verus!
