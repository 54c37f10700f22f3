# litebag

The verified core of Litebag, a small Litecoin wallet with a GTK 4 interface.

- `src/` is the library, checked by Verus:
  - `address`: receiving addresses derived from secp256k1 secret keys
    (version byte `0x30`, HASH160 of the public key, double SHA-256
    checksum, base58).
  - `seed`: BIP-39 recovery phrase and seed from 32 bytes of entropy, and the
    confirmation of the phrase.
  - `password`: bcrypt hashing of the wallet password and the login check.
  - `monitor`: which polled transactions are new, with the laws that a
    transaction is reported once and only when confirmed.
  - `wallet`, `text`: wallet file names, address expiration stamps, decimal text.
  - `models`: the transaction records.
- `app/` is the program: GTK windows, the SQLite wallet file, HTTP polling of
  the block explorer.
- `tests/` runs the library against the real outside crates.
