//! Public-key authenticated encryption: X25519 key agreement, HSalsa20 key
//! whitening, and XSalsa20 with Poly1305 over the ciphertext and associated
//! data, composed into one box.

mod keys;
mod salsa_box;

pub use keys::{
    generate_nonce, x25519_public_of, x25519_shared_of, PublicKey, SecretKey, KEY_SIZE, NONCE_SIZE,
};
pub use salsa_box::{
    apply_keystream, derivation_input, hsalsa20_of, lemma_round_trip, lemma_wrong_tag_refused,
    le_bytes, mac_input, mac_key, opened, pad_len, poly1305_of, sealed, session_key, tag_of,
    xsalsa20_keystream_byte, zero_padded, Box, Error, SalsaBox, TAG_SIZE,
};
