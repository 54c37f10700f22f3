use litebag::address::{
    address_bytes, address_from_public_key, address_from_secret, address_payload,
    append_checksum, generate_litecoin_address,
};

fn hex(s: &str) -> Vec<u8> {
    (0..s.len()).step_by(2).map(|i| u8::from_str_radix(&s[i..i + 2], 16).unwrap()).collect()
}

fn secret(last: u8) -> [u8; 32] {
    let mut s = [0u8; 32];
    s[31] = last;
    s
}

const G: &str = "0279be667ef9dcbbac55a06295ce870b07029bfcdb2dce28d959f2815b16f81798";

#[test]
fn payload_is_version_byte_and_first_twenty_digest_bytes() {
    let digest: Vec<u8> = (0u8..32).collect();
    let payload = address_payload(&digest);
    let mut expected = vec![0x30u8];
    expected.extend(0u8..20);
    assert_eq!(payload, expected);
}

#[test]
fn checksum_is_first_four_digest_bytes() {
    let payload = vec![0x30u8, 1, 2];
    let digest: Vec<u8> = (100u8..132).collect();
    assert_eq!(append_checksum(&payload, &digest), vec![0x30, 1, 2, 100, 101, 102, 103]);
}

#[test]
fn key_hash_is_hash160_of_the_public_key() {
    // HASH160 of the compressed generator point, as in Bitcoin's address 1BgGZ9tcN4rm9KBzDn7KprQz87SZ26SAMH.
    let bytes = address_bytes(&hex(G));
    assert_eq!(bytes[1..21].to_vec(), hex("751e76e8199196d454941c45d1b3a323f1433bd6"));
}

#[test]
fn address_bytes_of_generator_point() {
    let bytes = address_bytes(&hex(G));
    assert_eq!(bytes, hex("30751e76e8199196d454941c45d1b3a323f1433bd6e987c9bf"));
    assert_eq!(bytes.len(), 25);
    assert_eq!(bytes[0], 0x30);
}

#[test]
fn address_of_generator_point() {
    assert_eq!(address_from_public_key(&hex(G)), "LVuDpNCSSj6pQ7t9Pv6d6sUkLKoqDEVUnJ");
}

#[test]
fn address_of_small_secrets() {
    assert_eq!(address_from_secret(&secret(1)).unwrap(), "LVuDpNCSSj6pQ7t9Pv6d6sUkLKoqDEVUnJ");
    assert_eq!(address_from_secret(&secret(2)).unwrap(), "LKqJxEKxN7SnCEpj3ia3Z9DuAD1HNjh1hx");
}

#[test]
fn largest_secret_is_accepted() {
    let mut s = [0u8; 32];
    s.copy_from_slice(&hex("fffffffffffffffffffffffffffffffebaaedce6af48a03bbfd25e8cd0364140"));
    assert_eq!(address_from_secret(&s).unwrap(), "Lb5HTyoEcUDMnP5TamqB9PuiB94rDWF48R");
}

#[test]
fn zero_secret_is_refused() {
    assert_eq!(address_from_secret(&[0u8; 32]), None);
}

#[test]
fn group_order_and_above_are_refused() {
    let mut s = [0u8; 32];
    s.copy_from_slice(&hex("fffffffffffffffffffffffffffffffebaaedce6af48a03bbfd25e8cd0364141"));
    assert_eq!(address_from_secret(&s), None);
    assert_eq!(address_from_secret(&[0xffu8; 32]), None);
}

#[test]
fn generated_address_matches_its_secret() {
    let (secret, address) = generate_litecoin_address().expect("valid key");
    assert_eq!(address_from_secret(&secret), Some(address.clone()));
    assert!(address.starts_with('L'));
    assert_eq!(address.len(), 34);
}

#[test]
fn two_generated_secrets_differ() {
    let (a, _) = generate_litecoin_address().unwrap();
    let (b, _) = generate_litecoin_address().unwrap();
    assert_ne!(a, b);
}
