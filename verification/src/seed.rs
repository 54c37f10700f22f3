//! The wallet's BIP-39 recovery phrase and seed.
use vstd::prelude::*;

use crate::entropy::random_32_bytes;

verus! {

/// The English BIP-39 phrase of some entropy: its words joined by single
/// spaces.
pub uninterp spec fn bip39_english_phrase(entropy: Seq<u8>) -> Seq<char>;

/// The 64-byte BIP-39 seed of the phrase of some entropy, with a
/// passphrase.
pub uninterp spec fn bip39_seed(entropy: Seq<u8>, passphrase: Seq<char>) -> Seq<u8>;

/// BIP-39 accepts 128 to 256 bits of entropy, in steps of 32 bits.
pub open spec fn is_valid_entropy_len(len: nat) -> bool {
    len % 4 == 0 && 16 <= len <= 32
}

/// `bip39::Mnemonic::from_entropy_in` with `Language::English`, then the
/// mnemonic's text (`Display`) and `Mnemonic::to_seed(passphrase)`.
///
/// Claims: `from_entropy_in` fails exactly when the entropy is not 16 to 32
/// bytes in steps of 4 (the bit-count check in its source), and then `None`
/// comes back; otherwise the phrase and the seed, named as functions of the
/// entropy (and of the passphrase, for the seed).
#[verifier::external_body]
fn english_mnemonic(entropy: &[u8], passphrase: &str) -> (mnemonic: Option<(String, [u8; 64])>)
    ensures
        mnemonic is Some <==> is_valid_entropy_len(entropy@.len()),
        mnemonic matches Some((phrase, seed)) ==> {
            &&& phrase@ == bip39_english_phrase(entropy@)
            &&& seed@ == bip39_seed(entropy@, passphrase@)
        },
{
    match bip39::Mnemonic::from_entropy_in(bip39::Language::English, entropy) {
        Ok(m) => Some((m.to_string(), m.to_seed(passphrase))),
        Err(_) => None,
    }
}

/// The phrase and the seed (with no passphrase) of 32 bytes of entropy
/// (24 words).
pub fn seed_from_entropy(entropy: &[u8; 32]) -> (phrase_and_seed: (String, Vec<u8>))
    ensures
        phrase_and_seed.0@ == bip39_english_phrase(entropy@),
        phrase_and_seed.1@ == bip39_seed(entropy@, Seq::<char>::empty()),
        phrase_and_seed.1@.len() == 64,
{
    let no_passphrase = "";
    proof {
        reveal_strlit("");
        assert(no_passphrase@ =~= Seq::<char>::empty());
    }
    match english_mnemonic(entropy, no_passphrase) {
        Some((phrase, seed)) => (phrase, vstd::slice::slice_to_vec(&seed)),
        None => {
            // 32 bytes is a valid entropy length, so this arm is never taken.
            assert(false);
            (String::new(), Vec::new())
        },
    }
}

/// The phrase and seed of a draw of 32 random bytes; `None` when the draw
/// failed.
pub fn seed_from_draw(draw: Option<[u8; 32]>) -> (phrase_and_seed: Option<(String, Vec<u8>)>)
    ensures
        match draw {
            None => phrase_and_seed is None,
            Some(entropy) => phrase_and_seed matches Some((phrase, seed)) && {
                &&& phrase@ == bip39_english_phrase(entropy@)
                &&& seed@ == bip39_seed(entropy@, Seq::<char>::empty())
                &&& seed@.len() == 64
            },
        },
{
    match draw {
        Some(entropy) => Some(seed_from_entropy(&entropy)),
        None => None,
    }
}

/// A fresh recovery phrase and its seed, from 32 random bytes of entropy;
/// `None` when the operating system's random source fails.
pub fn generate_seed() -> (phrase_and_seed: Option<(String, Vec<u8>)>)
    ensures
        phrase_and_seed matches Some((phrase, seed)) ==> {
            &&& exists|entropy: Seq<u8>|
                {
                    &&& entropy.len() == 32
                    &&& phrase@ == #[trigger] bip39_english_phrase(entropy)
                    &&& seed@ == bip39_seed(entropy, Seq::<char>::empty())
                }
            &&& seed@.len() == 64
        },
{
    let draw = random_32_bytes();
    proof {
        if let Some(entropy) = draw {
            assert(entropy@.len() == 32);
        }
    }
    seed_from_draw(draw)
}

/// Whether the phrase the user typed back is the one shown.
pub fn seed_phrase_confirmed(entered: &String, phrase: &String) -> (confirmed: bool)
    ensures
        confirmed == (entered@ == phrase@),
{
    *entered == *phrase
}

} // verus!
