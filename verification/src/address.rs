//! Litecoin receiving addresses.
//!
//! An address is derived from a 32-byte secret key: the compressed secp256k1
//! public key is hashed with HASH160 (RIPEMD-160 of SHA-256), the 20 bytes
//! of that digest follow the version byte `0x30`, a 4-byte checksum (the
//! first bytes of the double SHA-256 of those 21 bytes) is appended, and the
//! 25 bytes are written in base58.
use vstd::prelude::*;

use crate::entropy::random_32_bytes;

verus! {

/// The version byte of a Litecoin pay-to-public-key-hash address.
pub const ADDRESS_VERSION: u8 = 0x30;

/// Length of the public key's hash.
pub const KEY_HASH_LEN: usize = 20;

/// Number of checksum bytes at the end of an address.
pub const CHECKSUM_LEN: usize = 4;

/// Length in bytes of an address before base58 encoding.
pub const ADDRESS_BYTES_LEN: usize = 25;

/// The value of `bytes` read as a big-endian unsigned number.
pub open spec fn big_endian_value(bytes: Seq<u8>) -> nat
    decreases bytes.len(),
{
    if bytes.len() == 0 {
        0
    } else {
        big_endian_value(bytes.drop_last()) * 256 + bytes.last() as nat
    }
}

/// The order of the secp256k1 group.
pub open spec fn secp256k1_order() -> nat {
    0xFFFF_FFFF_FFFF_FFFF_FFFF_FFFF_FFFF_FFFE_BAAE_DCE6_AF48_A03B_BFD2_5E8C_D036_4141nat
}

/// A secret key is 32 bytes whose big-endian value lies strictly between 0
/// and the group order.
pub open spec fn is_valid_secret_key(bytes: Seq<u8>) -> bool {
    &&& bytes.len() == 32
    &&& 0 < big_endian_value(bytes)
    &&& big_endian_value(bytes) < secp256k1_order()
}

/// The compressed secp256k1 public key of a secret key.
pub uninterp spec fn secp256k1_public_key(secret: Seq<u8>) -> Seq<u8>;

/// Double SHA-256.
pub uninterp spec fn sha256d(data: Seq<u8>) -> Seq<u8>;

/// HASH160: RIPEMD-160 of SHA-256.
pub uninterp spec fn hash160(data: Seq<u8>) -> Seq<u8>;

/// The base58 alphabet used by Bitcoin and Litecoin.
pub open spec fn base58_alphabet() -> Seq<char> {
    seq![
        '1', '2', '3', '4', '5', '6', '7', '8', '9', 'A', 'B', 'C', 'D', 'E', 'F', 'G', 'H',
        'J', 'K', 'L', 'M', 'N', 'P', 'Q', 'R', 'S', 'T', 'U', 'V', 'W', 'X', 'Y', 'Z', 'a',
        'b', 'c', 'd', 'e', 'f', 'g', 'h', 'i', 'j', 'k', 'm', 'n', 'o', 'p', 'q', 'r', 's',
        't', 'u', 'v', 'w', 'x', 'y', 'z',
    ]
}

/// Number of zero bytes at the front of `data`.
pub open spec fn leading_zero_bytes(data: Seq<u8>) -> nat
    decreases data.len(),
{
    if data.len() > 0 && data[0] == 0 {
        1 + leading_zero_bytes(data.drop_first())
    } else {
        0
    }
}

/// The base58 digits of `n`, most significant first; empty for zero.
pub open spec fn base58_digits(n: nat) -> Seq<char>
    decreases n,
{
    if n == 0 {
        seq![]
    } else {
        base58_digits(n / 58).push(base58_alphabet()[(n % 58) as int])
    }
}

/// Base58 encoding: one `1` for each leading zero byte, then the digits of
/// the big-endian value of the bytes.
pub open spec fn base58_encode(data: Seq<u8>) -> Seq<char> {
    Seq::new(leading_zero_bytes(data), |i: int| '1') + base58_digits(big_endian_value(data))
}

/// Version byte followed by the first 20 bytes of the public key's digest.
pub open spec fn spec_address_payload(key_digest: Seq<u8>) -> Seq<u8> {
    seq![ADDRESS_VERSION] + key_digest.take(KEY_HASH_LEN as int)
}

/// A payload followed by the first 4 bytes of the payload's digest.
pub open spec fn spec_with_checksum(payload: Seq<u8>, payload_digest: Seq<u8>) -> Seq<u8> {
    payload + payload_digest.take(CHECKSUM_LEN as int)
}

/// The 25 address bytes of a public key.
pub open spec fn spec_address_bytes(public_key: Seq<u8>) -> Seq<u8> {
    let payload = spec_address_payload(hash160(public_key));
    spec_with_checksum(payload, sha256d(payload))
}

/// The Litecoin address of a public key.
pub open spec fn spec_litecoin_address(public_key: Seq<u8>) -> Seq<char> {
    base58_encode(spec_address_bytes(public_key))
}

/// The checksum rule: 25 bytes whose last 4 are the first 4 bytes of the
/// double SHA-256 of the first 21.
pub open spec fn has_valid_checksum(bytes: Seq<u8>) -> bool {
    &&& bytes.len() == ADDRESS_BYTES_LEN
    &&& bytes.skip(21) == sha256d(bytes.take(21)).take(CHECKSUM_LEN as int)
}

/// Well-formed address bytes: 25 bytes, version byte `0x30`, valid
/// checksum.
pub open spec fn is_well_formed_address(bytes: Seq<u8>) -> bool {
    &&& bytes.len() == ADDRESS_BYTES_LEN
    &&& bytes[0] == ADDRESS_VERSION
    &&& has_valid_checksum(bytes)
}

/// `bitcoin::hashes::hash160::Hash::hash`: RIPEMD-160 of SHA-256 of `data`,
/// as an array of 20 bytes. The contract names the digest; it claims
/// nothing else.
#[verifier::external_body]
fn hash160_digest(data: &[u8]) -> (digest: [u8; 20])
    ensures
        digest@ == hash160(data@),
{
    let digest = <bitcoin::hashes::hash160::Hash as bitcoin::hashes::Hash>::hash(data);
    <bitcoin::hashes::hash160::Hash as bitcoin::hashes::Hash>::to_byte_array(digest)
}

/// `bitcoin::hashes::sha256d::Hash::hash`: double SHA-256 of `data`, as an
/// array of 32 bytes. The contract names the digest; it claims nothing else.
#[verifier::external_body]
fn sha256d_digest(data: &[u8]) -> (digest: [u8; 32])
    ensures
        digest@ == sha256d(data@),
{
    let digest = <bitcoin::hashes::sha256d::Hash as bitcoin::hashes::Hash>::hash(data);
    <bitcoin::hashes::sha256d::Hash as bitcoin::hashes::Hash>::to_byte_array(digest)
}

/// `bitcoin::key::PublicKey::from_private_key`, serialized with `to_bytes`,
/// for the compressed key that `PrivateKey::new` makes of
/// `secp256k1::SecretKey::from_slice(secret)`.
///
/// Claims: `from_slice` fails exactly when the secret is zero or not below
/// the group order (it runs `secp256k1_ec_seckey_verify`), and then `None`
/// comes back; otherwise the 33 bytes of the compressed key, which begin
/// with `0x02` or `0x03`. The network that `PrivateKey::new` records does
/// not enter the public key.
#[verifier::external_body]
fn compressed_public_key(secret: &[u8; 32]) -> (public_key: Option<Vec<u8>>)
    ensures
        public_key is Some <==> is_valid_secret_key(secret@),
        public_key matches Some(pk) ==> {
            &&& pk@ == secp256k1_public_key(secret@)
            &&& pk@.len() == 33
            &&& (pk@[0] == 2 || pk@[0] == 3)
        },
{
    match bitcoin::secp256k1::SecretKey::from_slice(secret) {
        Ok(key) => {
            let secp = bitcoin::secp256k1::Secp256k1::new();
            let private_key = bitcoin::PrivateKey::new(key, bitcoin::Network::Bitcoin);
            Some(bitcoin::key::PublicKey::from_private_key(&secp, &private_key).to_bytes())
        },
        Err(_) => None,
    }
}

/// `bitcoin::base58::encode` (the `base58ck` crate): the base58 text of
/// `data`, as `base58_encode` states it.
#[verifier::external_body]
fn base58_string(data: &[u8]) -> (text: String)
    ensures
        text@ == base58_encode(data@),
{
    bitcoin::base58::encode(data)
}

/// The address payload: version byte `0x30`, then the first 20 bytes of the
/// public key's digest.
pub fn address_payload(key_digest: &[u8]) -> (payload: Vec<u8>)
    requires
        key_digest@.len() >= KEY_HASH_LEN,
    ensures
        payload@ == spec_address_payload(key_digest@),
        payload@.len() == KEY_HASH_LEN + 1,
{
    let mut payload: Vec<u8> = Vec::new();
    payload.push(ADDRESS_VERSION);
    let mut i: usize = 0;
    while i < KEY_HASH_LEN
        invariant
            i <= KEY_HASH_LEN,
            key_digest@.len() >= KEY_HASH_LEN,
            payload@ == seq![ADDRESS_VERSION] + key_digest@.take(i as int),
        decreases KEY_HASH_LEN - i,
    {
        payload.push(key_digest[i]);
        i = i + 1;
        assert(key_digest@.take(i as int) == key_digest@.take(i - 1).push(key_digest@[i - 1]));
    }
    payload
}

/// A payload followed by the first 4 bytes of its digest.
pub fn append_checksum(payload: &[u8], payload_digest: &[u8]) -> (bytes: Vec<u8>)
    requires
        payload_digest@.len() >= CHECKSUM_LEN,
    ensures
        bytes@ == spec_with_checksum(payload@, payload_digest@),
{
    let mut bytes: Vec<u8> = Vec::new();
    let mut i: usize = 0;
    while i < payload.len()
        invariant
            i <= payload@.len(),
            bytes@ == payload@.take(i as int),
        decreases payload@.len() - i,
    {
        bytes.push(payload[i]);
        i = i + 1;
        assert(payload@.take(i as int) == payload@.take(i - 1).push(payload@[i - 1]));
    }
    assert(payload@.take(payload@.len() as int) == payload@);
    let mut j: usize = 0;
    while j < CHECKSUM_LEN
        invariant
            j <= CHECKSUM_LEN,
            payload_digest@.len() >= CHECKSUM_LEN,
            bytes@ == payload@ + payload_digest@.take(j as int),
        decreases CHECKSUM_LEN - j,
    {
        bytes.push(payload_digest[j]);
        j = j + 1;
        assert(payload_digest@.take(j as int) == payload_digest@.take(j - 1).push(
            payload_digest@[j - 1],
        ));
    }
    bytes
}

/// The 25 address bytes of a public key, checksum included.
pub fn address_bytes(public_key: &[u8]) -> (bytes: Vec<u8>)
    ensures
        bytes@ == spec_address_bytes(public_key@),
        bytes@.len() == ADDRESS_BYTES_LEN,
        bytes@[0] == ADDRESS_VERSION,
        bytes@.subrange(1, 21) == hash160(public_key@),
        has_valid_checksum(bytes@),
{
    let key_digest = hash160_digest(public_key);
    let payload = address_payload(&key_digest);
    let payload_digest = sha256d_digest(payload.as_slice());
    let bytes = append_checksum(payload.as_slice(), &payload_digest);
    assert(bytes@.take(21) == payload@);
    assert(bytes@.skip(21) == payload_digest@.take(CHECKSUM_LEN as int));
    assert(key_digest@.take(KEY_HASH_LEN as int) == key_digest@);
    assert(bytes@.subrange(1, 21) == key_digest@);
    bytes
}

/// The Litecoin address of a public key.
pub fn address_from_public_key(public_key: &[u8]) -> (address: String)
    ensures
        address@ == spec_litecoin_address(public_key@),
        is_well_formed_address(spec_address_bytes(public_key@)),
        exists|bytes: Seq<u8>| address@ == base58_encode(bytes) && is_well_formed_address(bytes),
{
    let bytes = address_bytes(public_key);
    let address = base58_string(bytes.as_slice());
    assert(address@ == base58_encode(bytes@) && is_well_formed_address(bytes@));
    address
}

/// The Litecoin address of a secret key; `None` when the bytes are not a
/// valid secp256k1 secret key (zero, or not below the group order).
pub fn address_from_secret(secret: &[u8; 32]) -> (address: Option<String>)
    ensures
        address is Some <==> is_valid_secret_key(secret@),
        address matches Some(a) ==> {
            &&& a@ == spec_litecoin_address(secp256k1_public_key(secret@))
            &&& is_well_formed_address(spec_address_bytes(secp256k1_public_key(secret@)))
            &&& exists|bytes: Seq<u8>| a@ == base58_encode(bytes) && is_well_formed_address(bytes)
        },
{
    match compressed_public_key(secret) {
        Some(public_key) => Some(address_from_public_key(public_key.as_slice())),
        None => None,
    }
}

/// Why no address was generated.
#[derive(Debug)]
pub enum GenerateError {
    /// The operating system's random source failed.
    RandomSourceFailed,
    /// The random bytes drawn are not a valid secret key (zero, or not below
    /// the group order), which happens with probability below 2^-127.
    InvalidSecret([u8; 32]),
}

/// Draws a fresh secret key and returns it with its address.
pub fn generate_litecoin_address() -> (generated: Result<([u8; 32], String), GenerateError>)
    ensures
        match generated {
            Ok((secret, address)) => {
                &&& is_valid_secret_key(secret@)
                &&& address@ == spec_litecoin_address(secp256k1_public_key(secret@))
                &&& is_well_formed_address(spec_address_bytes(secp256k1_public_key(secret@)))
                &&& exists|bytes: Seq<u8>|
                    address@ == base58_encode(bytes) && is_well_formed_address(bytes)
            },
            Err(GenerateError::InvalidSecret(secret)) => !is_valid_secret_key(secret@),
            Err(GenerateError::RandomSourceFailed) => true,
        },
{
    let secret = match random_32_bytes() {
        Some(bytes) => bytes,
        None => return Err(GenerateError::RandomSourceFailed),
    };
    match address_from_secret(&secret) {
        Some(address) => Ok((secret, address)),
        None => Err(GenerateError::InvalidSecret(secret)),
    }
}

} // verus!
