use vstd::prelude::*;

verus! {

/// Size of a public or secret key in bytes.
pub const KEY_SIZE: usize = 32;

/// Size of a nonce in bytes.
pub const NONCE_SIZE: usize = 24;

/// The public key that X25519 derives from the secret key `secret`.
pub uninterp spec fn x25519_public_of(secret: Seq<u8>) -> Seq<u8>;

/// The X25519 shared secret of the secret key `secret` and the public key `public`.
pub uninterp spec fn x25519_shared_of(secret: Seq<u8>, public: Seq<u8>) -> Seq<u8>;

/// Relies on rand_core's `RngCore::fill_bytes`: the array is filled from the generator.
#[verifier::external_body]
fn random_bytes<T: rand_core::RngCore + rand_core::CryptoRng, const N: usize>(
    csprng: &mut T,
) -> (r: [u8; N]) {
    let mut bytes = [0u8; N];
    rand_core::RngCore::fill_bytes(csprng, &mut bytes);
    bytes
}

/// Relies on x25519_dalek's `PublicKey::from(&StaticSecret)`: the public key
/// is a function of the secret key's bytes.
#[verifier::external_body]
fn x25519_public(secret: &[u8; 32]) -> (r: [u8; 32])
    ensures
        r@ == x25519_public_of(secret@),
{
    let secret = x25519_dalek::StaticSecret::from(*secret);
    x25519_dalek::PublicKey::from(&secret).to_bytes()
}

/// Relies on x25519_dalek's `StaticSecret::diffie_hellman`: the shared secret
/// is a function of both keys, and two parties that each hold a secret key and
/// the other's public key compute the same one (both sides multiply the base
/// point by the two clamped scalars).
#[verifier::external_body]
fn x25519_shared(secret: &[u8; 32], public: &[u8; 32]) -> (r: [u8; 32])
    ensures
        r@ == x25519_shared_of(secret@, public@),
        forall|other: Seq<u8>|
            other.len() == 32 && public@ == x25519_public_of(other) ==> r@ == x25519_shared_of(
                other,
                x25519_public_of(secret@),
            ),
{
    let secret = x25519_dalek::StaticSecret::from(*secret);
    secret.diffie_hellman(&x25519_dalek::PublicKey::from(*public)).to_bytes()
}

/// Sets every byte of `bytes` to zero.
pub(crate) fn wipe(bytes: &mut [u8; KEY_SIZE])
    ensures
        forall|i: int| 0 <= i < KEY_SIZE ==> final(bytes)@[i] == 0,
    opens_invariants none
    no_unwind
{
    let mut i: usize = 0;
    while i < KEY_SIZE
        invariant
            0 <= i <= KEY_SIZE,
            forall|j: int| 0 <= j < i ==> bytes@[j] == 0,
        decreases KEY_SIZE - i,
    {
        bytes[i] = 0;
        i = i + 1;
    }
}

/// Draws a fresh random nonce. Every message sealed under one key needs a
/// nonce of its own.
pub fn generate_nonce<T: rand_core::RngCore + rand_core::CryptoRng>(
    csprng: &mut T,
) -> (r: [u8; NONCE_SIZE])
    ensures
        r@.len() == NONCE_SIZE,
{
    random_bytes(csprng)
}

/// A Curve25519 public key: 32 bytes, freely shareable.
#[derive(Clone, Copy, Debug)]
pub struct PublicKey {
    bytes: [u8; KEY_SIZE],
}

impl View for PublicKey {
    type V = Seq<u8>;

    closed spec fn view(&self) -> Seq<u8> {
        self.bytes@
    }
}

impl PublicKey {
    /// The key's 32 bytes.
    pub fn as_bytes(&self) -> (r: &[u8; KEY_SIZE])
        ensures
            r@ == self@,
    {
        &self.bytes
    }

    /// The key's 32 bytes, copied out.
    pub fn to_bytes(&self) -> (r: [u8; KEY_SIZE])
        ensures
            r@ == self@,
    {
        self.bytes
    }
}

impl From<[u8; KEY_SIZE]> for PublicKey {
    /// Every 32-byte value is accepted as a public key.
    fn from(bytes: [u8; KEY_SIZE]) -> (r: PublicKey)
        ensures
            r@ == bytes@,
    {
        PublicKey { bytes }
    }
}

impl vstd::std_specs::convert::FromSpecImpl<[u8; KEY_SIZE]> for PublicKey {
    open spec fn obeys_from_spec() -> bool {
        true
    }

    closed spec fn from_spec(bytes: [u8; KEY_SIZE]) -> PublicKey {
        PublicKey { bytes }
    }
}

impl<'a> From<&'a SecretKey> for PublicKey {
    /// The public key that belongs to `secret_key`.
    fn from(secret_key: &'a SecretKey) -> (r: PublicKey)
        ensures
            r@ == x25519_public_of(secret_key@),
    {
        secret_key.public_key()
    }
}

impl<'a> vstd::std_specs::convert::FromSpecImpl<&'a SecretKey> for PublicKey {
    open spec fn obeys_from_spec() -> bool {
        false
    }

    closed spec fn from_spec(secret_key: &'a SecretKey) -> PublicKey {
        arbitrary()
    }
}

/// A Curve25519 secret key: 32 bytes that its holder never shares.
#[derive(Clone)]
pub struct SecretKey {
    bytes: [u8; KEY_SIZE],
}

impl View for SecretKey {
    type V = Seq<u8>;

    closed spec fn view(&self) -> Seq<u8> {
        self.bytes@
    }
}

impl SecretKey {
    /// Draws a random secret key from `csprng`.
    pub fn generate<T: rand_core::RngCore + rand_core::CryptoRng>(csprng: &mut T) -> (r: SecretKey)
        ensures
            r@.len() == KEY_SIZE,
    {
        SecretKey { bytes: random_bytes(csprng) }
    }

    /// The public key that belongs to this secret key.
    pub fn public_key(&self) -> (r: PublicKey)
        ensures
            r@ == x25519_public_of(self@),
    {
        PublicKey { bytes: x25519_public(&self.bytes) }
    }

    /// The key's 32 bytes.
    pub fn to_bytes(&self) -> (r: [u8; KEY_SIZE])
        ensures
            r@ == self@,
    {
        self.bytes
    }

    /// The X25519 shared secret of this key and `public`. Two parties that each
    /// hold a secret key and the other's public key get the same value.
    pub fn diffie_hellman(&self, public: &PublicKey) -> (r: [u8; KEY_SIZE])
        ensures
            r@ == x25519_shared_of(self@, public@),
            forall|other: SecretKey|
                #![trigger x25519_public_of(other@)]
                public@ == x25519_public_of(other@) ==> r@ == x25519_shared_of(
                    other@,
                    x25519_public_of(self@),
                ),
    {
        let r = x25519_shared(&self.bytes, &public.bytes);
        assert forall|other: SecretKey|
            #![trigger x25519_public_of(other@)]
            public@ == x25519_public_of(other@) implies r@ == x25519_shared_of(
            other@,
            x25519_public_of(self@),
        ) by {
            assert(other@.len() == 32);
        }
        r
    }
}

impl Drop for SecretKey {
    /// Overwrites the key's bytes before its memory is released.
    fn drop(&mut self)
        opens_invariants none
        no_unwind
    {
        wipe(&mut self.bytes);
    }
}

impl From<[u8; KEY_SIZE]> for SecretKey {
    /// Every 32-byte value is accepted as a secret key.
    fn from(bytes: [u8; KEY_SIZE]) -> (r: SecretKey)
        ensures
            r@ == bytes@,
    {
        SecretKey { bytes }
    }
}

impl vstd::std_specs::convert::FromSpecImpl<[u8; KEY_SIZE]> for SecretKey {
    open spec fn obeys_from_spec() -> bool {
        true
    }

    closed spec fn from_spec(bytes: [u8; KEY_SIZE]) -> SecretKey {
        SecretKey { bytes }
    }
}

} // verus!
