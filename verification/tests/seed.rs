use litebag::seed::{generate_seed, seed_from_entropy, seed_phrase_confirmed};

#[test]
fn zero_entropy_gives_the_abandon_phrase() {
    let (phrase, seed) = seed_from_entropy(&[0u8; 32]);
    let mut words = vec!["abandon"; 23];
    words.push("art");
    assert_eq!(phrase, words.join(" "));
    let expected = "408b285c123836004f4b8842c89324c1f01382450c0d439af345ba7fc49acf70\
                    5489c6fc77dbd4e3dc1dd8cc6bc9f043db8ada1e243c4a0eafb290d399480840";
    let seed_hex: String = seed.iter().map(|b| format!("{:02x}", b)).collect();
    assert_eq!(seed_hex, expected);
}

#[test]
fn same_entropy_same_phrase() {
    let e = [7u8; 32];
    assert_eq!(seed_from_entropy(&e), seed_from_entropy(&e));
}

#[test]
fn generated_seed_has_24_words_and_64_bytes() {
    let (phrase, seed) = generate_seed().expect("random source");
    assert_eq!(phrase.split(' ').count(), 24);
    assert_eq!(seed.len(), 64);
}

#[test]
fn confirmation_needs_the_exact_phrase() {
    let phrase = String::from("abandon art");
    assert!(seed_phrase_confirmed(&String::from("abandon art"), &phrase));
    assert!(!seed_phrase_confirmed(&String::from("abandon  art"), &phrase));
    assert!(!seed_phrase_confirmed(&String::new(), &phrase));
}
