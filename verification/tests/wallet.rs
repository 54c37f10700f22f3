use litebag::wallet::{address_expiration, expiration_text, wallet_file_name, WalletNameError};

#[test]
fn empty_wallet_name_is_refused() {
    assert_eq!(wallet_file_name(""), Err(WalletNameError::Empty));
}

#[test]
fn wallet_file_name_appends_extension() {
    assert_eq!(wallet_file_name("ahorros").unwrap(), "ahorros.wallet");
    assert_eq!(wallet_file_name("mi cartera").unwrap(), "mi cartera.wallet");
}

#[test]
fn address_expires_an_hour_later() {
    assert_eq!(address_expiration(1_700_000_000), Some(1_700_003_600));
    assert_eq!(address_expiration(u64::MAX - 3600), Some(u64::MAX));
    assert_eq!(address_expiration(u64::MAX - 3599), None);
}

#[test]
fn expiration_is_stored_in_decimal() {
    assert_eq!(expiration_text(1_700_000_000).unwrap(), "1700003600");
    assert_eq!(expiration_text(0).unwrap(), "3600");
    assert_eq!(expiration_text(u64::MAX), None);
}
