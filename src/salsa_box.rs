use vstd::prelude::*;
use crate::keys::{wipe, PublicKey, SecretKey, KEY_SIZE, NONCE_SIZE};
use poly1305::universal_hash::generic_array::GenericArray;
use poly1305::universal_hash::KeyInit;
use salsa20::cipher::{KeyIvInit, StreamCipher};

verus! {

use crate::keys::{x25519_public_of, x25519_shared_of};

/// Size of an authentication tag in bytes.
pub const TAG_SIZE: usize = 16;

/// HSalsa20 of the 32-byte `key` and the 16-byte `input`.
pub uninterp spec fn hsalsa20_of(key: Seq<u8>, input: Seq<u8>) -> Seq<u8>;

/// Byte `i` of the XSalsa20 keystream under `key` and `nonce`.
pub uninterp spec fn xsalsa20_keystream_byte(key: Seq<u8>, nonce: Seq<u8>, i: nat) -> u8;

/// The Poly1305 tag of `message` under the one-time key `key`.
pub uninterp spec fn poly1305_of(key: Seq<u8>, message: Seq<u8>) -> [u8; 16];

/// The constant input of the key derivation: sixteen zero bytes.
pub open spec fn derivation_input() -> Seq<u8> {
    Seq::new(16, |i: int| 0u8)
}

/// The session key of a box built from `secret` and the peer's `public` key:
/// the X25519 shared secret, whitened by HSalsa20.
pub open spec fn session_key(secret: Seq<u8>, public: Seq<u8>) -> Seq<u8> {
    hsalsa20_of(x25519_shared_of(secret, public), derivation_input())
}

/// The one-time Poly1305 key of a message: the first 32 keystream bytes.
pub open spec fn mac_key(key: Seq<u8>, nonce: Seq<u8>) -> Seq<u8> {
    Seq::new(32, |i: int| xsalsa20_keystream_byte(key, nonce, i as nat))
}

/// `data` XORed with the keystream that follows the one-time key. This both
/// encrypts and decrypts.
pub open spec fn apply_keystream(key: Seq<u8>, nonce: Seq<u8>, data: Seq<u8>) -> Seq<u8> {
    Seq::new(data.len(), |i: int| data[i] ^ xsalsa20_keystream_byte(key, nonce, (i + 32) as nat))
}

/// The number of zero bytes that pad `n` bytes to a multiple of sixteen.
pub open spec fn pad_len(n: nat) -> nat {
    ((16 - n % 16) % 16) as nat
}

/// `data` padded with zero bytes to a multiple of sixteen.
pub open spec fn zero_padded(data: Seq<u8>) -> Seq<u8> {
    data + Seq::new(pad_len(data.len()), |i: int| 0u8)
}

/// The eight little-endian bytes of `x`.
pub open spec fn le_bytes(x: u64) -> Seq<u8> {
    Seq::new(8, |i: int| (x >> ((8 * i) as u64)) as u8)
}

/// What the tag authenticates: the associated data and the ciphertext, each
/// padded, then both lengths. Empty associated data is authenticated as empty.
pub open spec fn mac_input(aad: Seq<u8>, ciphertext: Seq<u8>) -> Seq<u8> {
    zero_padded(aad) + zero_padded(ciphertext) + le_bytes(aad.len() as u64) + le_bytes(
        ciphertext.len() as u64,
    )
}

/// The tag of `ciphertext` under `aad`.
pub open spec fn tag_of(key: Seq<u8>, nonce: Seq<u8>, aad: Seq<u8>, ciphertext: Seq<u8>) -> Seq<u8> {
    poly1305_of(mac_key(key, nonce), mac_input(aad, ciphertext))@
}

/// The sealed form of `plaintext`: the ciphertext followed by its tag.
pub open spec fn sealed(key: Seq<u8>, nonce: Seq<u8>, aad: Seq<u8>, plaintext: Seq<u8>) -> Seq<u8> {
    let c = apply_keystream(key, nonce, plaintext);
    c + tag_of(key, nonce, aad, c)
}

/// What `input` (a ciphertext followed by its tag) opens to under `key`,
/// `nonce` and `aad`: the plaintext where the tag is the right one, else none.
pub open spec fn opened(key: Seq<u8>, nonce: Seq<u8>, aad: Seq<u8>, input: Seq<u8>) -> Option<
    Seq<u8>,
> {
    if input.len() < TAG_SIZE {
        None
    } else {
        let c = input.subrange(0, input.len() - TAG_SIZE);
        let t = input.subrange(input.len() - TAG_SIZE, input.len() as int);
        if t == tag_of(key, nonce, aad, c) {
            Some(apply_keystream(key, nonce, c))
        } else {
            None
        }
    }
}

/// The one error of the box: a message did not authenticate. Sealing never
/// fails.
#[derive(Clone, Copy, Debug, PartialEq, Eq, Structural)]
pub struct Error;

/// Relies on salsa20's `hsalsa` with 20 rounds: a function of its two inputs.
#[verifier::external_body]
fn hsalsa20(key: &[u8; 32], input: &[u8; 16]) -> (r: [u8; 32])
    ensures
        r@ == hsalsa20_of(key@, input@),
{
    let key = salsa20::cipher::Array::from(*key);
    let input = salsa20::cipher::Array::from(*input);
    salsa20::hsalsa::<salsa20::cipher::consts::U10>(&key, &input).into()
}

/// Relies on salsa20's `XSalsa20` with `StreamCipher::apply_keystream`: each
/// byte is XORed with the keystream byte at its position, counted from the
/// start of the stream. The 64-bit block counter outlasts any buffer.
#[verifier::external_body]
fn xsalsa20_xor(key: &[u8; 32], nonce: &[u8; 24], buffer: &mut [u8])
    ensures
        final(buffer)@.len() == old(buffer)@.len(),
        forall|i: int|
            0 <= i < old(buffer)@.len() ==> #[trigger] final(buffer)@[i] == old(buffer)@[i]
                ^ xsalsa20_keystream_byte(key@, nonce@, i as nat),
{
    let mut cipher = salsa20::XSalsa20::new(&(*key).into(), &(*nonce).into());
    cipher.apply_keystream(buffer);
}

/// Relies on poly1305's `Poly1305::compute_unpadded`: the tag is a function of
/// the key and the message.
#[verifier::external_body]
fn poly1305(key: &[u8; 32], message: &[u8]) -> (r: [u8; 16])
    ensures
        r == poly1305_of(key@, message@),
{
    poly1305::Poly1305::new(GenericArray::from_slice(key)).compute_unpadded(message).into()
}

/// Appends the bytes of `data` to `out`.
fn push_all(out: &mut Vec<u8>, data: &[u8])
    ensures
        final(out)@ == old(out)@ + data@,
{
    let mut i: usize = 0;
    while i < data.len()
        invariant
            0 <= i <= data@.len(),
            out@ == old(out)@ + data@.subrange(0, i as int),
        decreases data@.len() - i,
    {
        out.push(data[i]);
        i = i + 1;
        assert(out@ =~= old(out)@ + data@.subrange(0, i as int));
    }
    assert(data@.subrange(0, data@.len() as int) =~= data@);
}

/// Appends `n` zero bytes to `out`.
fn push_zeros(out: &mut Vec<u8>, n: usize)
    ensures
        final(out)@ == old(out)@ + Seq::new(n as nat, |i: int| 0u8),
{
    let mut i: usize = 0;
    while i < n
        invariant
            0 <= i <= n,
            out@ == old(out)@ + Seq::new(i as nat, |j: int| 0u8),
        decreases n - i,
    {
        out.push(0u8);
        i = i + 1;
        assert(out@ =~= old(out)@ + Seq::new(i as nat, |j: int| 0u8));
    }
}

/// Appends `data` and its zero padding to `out`.
fn push_padded(out: &mut Vec<u8>, data: &[u8])
    ensures
        final(out)@ == old(out)@ + zero_padded(data@),
{
    push_all(out, data);
    push_zeros(out, (16 - data.len() % 16) % 16);
    assert(out@ =~= old(out)@ + zero_padded(data@));
}

/// Appends the eight little-endian bytes of `x` to `out`.
fn push_le_bytes(out: &mut Vec<u8>, x: u64)
    ensures
        final(out)@ == old(out)@ + le_bytes(x),
{
    let mut i: u64 = 0;
    while i < 8
        invariant
            0 <= i <= 8,
            out@ == old(out)@ + le_bytes(x).subrange(0, i as int),
        decreases 8 - i,
    {
        out.push((x >> (8 * i)) as u8);
        i = i + 1;
        assert(out@ =~= old(out)@ + le_bytes(x).subrange(0, i as int));
    }
    assert(le_bytes(x).subrange(0, 8) =~= le_bytes(x));
}

/// The bytes that the tag of `ciphertext` under `aad` authenticates.
fn build_mac_input(aad: &[u8], ciphertext: &[u8]) -> (r: Vec<u8>)
    ensures
        r@ == mac_input(aad@, ciphertext@),
{
    let mut out: Vec<u8> = Vec::new();
    push_padded(&mut out, aad);
    push_padded(&mut out, ciphertext);
    push_le_bytes(&mut out, aad.len() as u64);
    push_le_bytes(&mut out, ciphertext.len() as u64);
    out
}

/// Whether two tags are equal, read in full whatever they hold.
fn tags_equal(a: &[u8; TAG_SIZE], b: &[u8; TAG_SIZE]) -> (r: bool)
    ensures
        r <==> a@ == b@,
{
    let mut diff: u8 = 0;
    let mut i: usize = 0;
    while i < TAG_SIZE
        invariant
            0 <= i <= TAG_SIZE,
            (diff == 0) <==> (forall|j: int| 0 <= j < i ==> a@[j] == b@[j]),
        decreases TAG_SIZE - i,
    {
        let x = a[i];
        let y = b[i];
        let next = diff | (x ^ y);
        assert((next == 0) <==> (diff == 0 && x == y)) by (bit_vector)
            requires
                next == diff | (x ^ y),
        ;
        diff = next;
        i = i + 1;
    }
    if diff == 0 {
        assert(a@ =~= b@);
    }
    diff == 0
}

/// XORing with the same byte twice gives the byte back.
proof fn lemma_xor_twice(x: u8, k: u8)
    ensures
        (x ^ k) ^ k == x,
{
    assert((x ^ k) ^ k == x) by (bit_vector);
}

/// Sealing then opening under the same key, nonce and associated data gives
/// the plaintext back.
pub proof fn lemma_round_trip(key: Seq<u8>, nonce: Seq<u8>, aad: Seq<u8>, plaintext: Seq<u8>)
    ensures
        opened(key, nonce, aad, sealed(key, nonce, aad, plaintext)) == Some(plaintext),
{
    let c = apply_keystream(key, nonce, plaintext);
    let s = sealed(key, nonce, aad, plaintext);
    let t = tag_of(key, nonce, aad, c);
    assert(t.len() == TAG_SIZE);
    assert(s.subrange(0, s.len() - TAG_SIZE) =~= c);
    assert(s.subrange(s.len() - TAG_SIZE, s.len() as int) =~= t);
    assert forall|i: int| 0 <= i < plaintext.len() implies apply_keystream(key, nonce, c)[i]
        == plaintext[i] by {
        lemma_xor_twice(plaintext[i], xsalsa20_keystream_byte(key, nonce, (i + 32) as nat));
    }
    assert(apply_keystream(key, nonce, c) =~= plaintext);
}

/// A ciphertext opens under exactly one tag: any other tag, such as the right
/// one with a bit flipped, is refused.
pub proof fn lemma_wrong_tag_refused(
    key: Seq<u8>,
    nonce: Seq<u8>,
    aad: Seq<u8>,
    ciphertext: Seq<u8>,
    tag: Seq<u8>,
)
    requires
        tag.len() == TAG_SIZE,
        tag != tag_of(key, nonce, aad, ciphertext),
    ensures
        opened(key, nonce, aad, ciphertext + tag) is None,
{
    let s = ciphertext + tag;
    assert(s.subrange(0, s.len() - TAG_SIZE) =~= ciphertext);
    assert(s.subrange(s.len() - TAG_SIZE, s.len() as int) =~= tag);
}

/// A box between one party's secret key and a peer's public key: it holds
/// the session key derived from the two and seals and opens messages with it.
pub struct SalsaBox {
    key: [u8; KEY_SIZE],
}

/// The box of this library, under its short name.
pub type Box = SalsaBox;

impl View for SalsaBox {
    type V = Seq<u8>;

    /// The session key.
    closed spec fn view(&self) -> Seq<u8> {
        self.key@
    }
}

impl Drop for SalsaBox {
    /// Overwrites the session key before its memory is released.
    fn drop(&mut self)
        opens_invariants none
        no_unwind
    {
        wipe(&mut self.key);
    }
}

impl SalsaBox {
    /// Builds the box of `secret_key` and the peer's `public_key`. The peer,
    /// building its box from its own secret key and this party's public key,
    /// derives the same session key.
    pub fn new(public_key: &PublicKey, secret_key: &SecretKey) -> (r: SalsaBox)
        ensures
            r@ == session_key(secret_key@, public_key@),
            forall|peer: SecretKey|
                #![trigger x25519_public_of(peer@)]
                public_key@ == x25519_public_of(peer@) ==> r@ == session_key(
                    peer@,
                    x25519_public_of(secret_key@),
                ),
    {
        let shared = secret_key.diffie_hellman(public_key);
        let input = [0u8; 16];
        assert(input@ =~= derivation_input());
        let key = hsalsa20(&shared, &input);
        SalsaBox { key }
    }

    /// The one-time Poly1305 key of messages under `nonce`.
    fn mac_key_for(&self, nonce: &[u8; NONCE_SIZE]) -> (r: [u8; 32])
        ensures
            r@ == mac_key(self@, nonce@),
    {
        let mut k = [0u8; 32];
        let ghost zeros = k@;
        xsalsa20_xor(&self.key, nonce, &mut k);
        assert forall|i: int| 0 <= i < 32 implies k@[i] == mac_key(self@, nonce@)[i] by {
            let b = xsalsa20_keystream_byte(self@, nonce@, i as nat);
            assert(zeros[i] == 0);
            assert(0u8 ^ b == b) by (bit_vector);
        }
        assert(k@ =~= mac_key(self@, nonce@));
        k
    }

    /// The tag of `ciphertext` under `nonce` and `aad`.
    fn tag_for(&self, nonce: &[u8; NONCE_SIZE], aad: &[u8], ciphertext: &[u8]) -> (r: [u8;
        TAG_SIZE])
        ensures
            r@ == tag_of(self@, nonce@, aad@, ciphertext@),
    {
        let k = self.mac_key_for(nonce);
        let input = build_mac_input(aad, ciphertext);
        poly1305(&k, input.as_slice())
    }

    /// XORs `buffer` in place with the keystream that follows the one-time key.
    fn apply_keystream_to(&self, nonce: &[u8; NONCE_SIZE], buffer: &mut [u8])
        ensures
            final(buffer)@ == apply_keystream(self@, nonce@, old(buffer)@),
    {
        let mut work: Vec<u8> = Vec::new();
        push_zeros(&mut work, 32);
        push_all(&mut work, buffer);
        let ghost before = work@;
        xsalsa20_xor(&self.key, nonce, work.as_mut_slice());
        let work_len = work.len();
        let mut i: usize = 0;
        while i < buffer.len()
            invariant
                0 <= i <= buffer@.len(),
                buffer@.len() == old(buffer)@.len(),
                work@.len() == old(buffer)@.len() + 32,
                work_len == work@.len(),
                before == Seq::new(32, |j: int| 0u8) + old(buffer)@,
                forall|j: int|
                    0 <= j < work@.len() ==> #[trigger] work@[j] == before[j]
                        ^ xsalsa20_keystream_byte(self@, nonce@, j as nat),
                forall|j: int|
                    0 <= j < i ==> buffer@[j] == apply_keystream(self@, nonce@, old(buffer)@)[j],
                forall|j: int| i <= j < buffer@.len() ==> buffer@[j] == old(buffer)@[j],
            decreases buffer@.len() - i,
        {
            assert(work@[i + 32] == before[i + 32] ^ xsalsa20_keystream_byte(
                self@,
                nonce@,
                (i + 32) as nat,
            ));
            buffer[i] = work[i + 32];
            i = i + 1;
        }
        assert(buffer@ =~= apply_keystream(self@, nonce@, old(buffer)@));
    }

    /// Encrypts `buffer` in place and returns the tag apart from it. This
    /// never fails.
    pub fn encrypt_in_place_detached(
        &self,
        nonce: &[u8; NONCE_SIZE],
        associated_data: &[u8],
        buffer: &mut [u8],
    ) -> (r: Result<[u8; TAG_SIZE], Error>)
        ensures
            r is Ok,
            final(buffer)@ == apply_keystream(self@, nonce@, old(buffer)@),
            r->Ok_0@ == tag_of(self@, nonce@, associated_data@, final(buffer)@),
            final(buffer)@ + r->Ok_0@ == sealed(self@, nonce@, associated_data@, old(buffer)@),
    {
        self.apply_keystream_to(nonce, buffer);
        Ok(self.tag_for(nonce, associated_data, buffer))
    }

    /// Checks `tag` against `buffer` and `associated_data` and, only if it is
    /// the right one, decrypts `buffer` in place. On failure the buffer is left
    /// as it was.
    pub fn decrypt_in_place_detached(
        &self,
        nonce: &[u8; NONCE_SIZE],
        associated_data: &[u8],
        buffer: &mut [u8],
        tag: &[u8; TAG_SIZE],
    ) -> (r: Result<(), Error>)
        ensures
            r is Ok <==> tag@ == tag_of(self@, nonce@, associated_data@, old(buffer)@),
            r is Ok ==> final(buffer)@ == apply_keystream(self@, nonce@, old(buffer)@),
            r is Err ==> final(buffer)@ == old(buffer)@,
            r is Ok <==> opened(self@, nonce@, associated_data@, old(buffer)@ + tag@) is Some,
            r is Ok ==> opened(self@, nonce@, associated_data@, old(buffer)@ + tag@) == Some(
                final(buffer)@,
            ),
            final(buffer)@.len() == old(buffer)@.len(),
    {
        let ghost s = old(buffer)@ + tag@;
        assert(s.subrange(0, s.len() - TAG_SIZE) =~= old(buffer)@);
        assert(s.subrange(s.len() - TAG_SIZE, s.len() as int) =~= tag@);
        let expected = self.tag_for(nonce, associated_data, buffer);
        if tags_equal(&expected, tag) {
            self.apply_keystream_to(nonce, buffer);
            Ok(())
        } else {
            Err(Error)
        }
    }

    /// Encrypts `buffer` in place and appends the tag to it. This never fails.
    pub fn encrypt_in_place(
        &self,
        nonce: &[u8; NONCE_SIZE],
        associated_data: &[u8],
        buffer: &mut Vec<u8>,
    ) -> (r: Result<(), Error>)
        ensures
            r is Ok,
            final(buffer)@ == sealed(self@, nonce@, associated_data@, old(buffer)@),
            final(buffer)@.len() == old(buffer)@.len() + TAG_SIZE,
    {
        match self.encrypt_in_place_detached(nonce, associated_data, buffer.as_mut_slice()) {
            Ok(tag) => {
                buffer.extend_from_slice(&tag);
                Ok(())
            },
            Err(e) => Err(e),
        }
    }

    /// Takes the tag from the end of `buffer`, checks it and, only if it is
    /// the right one, decrypts the rest in place and drops the tag. On failure
    /// the buffer is left as it was.
    pub fn decrypt_in_place(
        &self,
        nonce: &[u8; NONCE_SIZE],
        associated_data: &[u8],
        buffer: &mut Vec<u8>,
    ) -> (r: Result<(), Error>)
        ensures
            r is Ok <==> opened(self@, nonce@, associated_data@, old(buffer)@) is Some,
            r is Ok ==> opened(self@, nonce@, associated_data@, old(buffer)@) == Some(
                final(buffer)@,
            ),
            r is Err ==> final(buffer)@ == old(buffer)@,
    {
        let len = buffer.len();
        if len < TAG_SIZE {
            return Err(Error);
        }
        let body_len = len - TAG_SIZE;
        let mut tag = [0u8; TAG_SIZE];
        let mut i: usize = 0;
        while i < TAG_SIZE
            invariant
                buffer@ == old(buffer)@,
                len == buffer@.len(),
                body_len + TAG_SIZE == len,
                0 <= i <= TAG_SIZE,
                forall|j: int| 0 <= j < i ==> tag@[j] == buffer@[body_len + j],
            decreases TAG_SIZE - i,
        {
            tag[i] = buffer[body_len + i];
            i = i + 1;
        }
        buffer.truncate(body_len);
        assert(old(buffer)@ =~= buffer@ + tag@);
        match self.decrypt_in_place_detached(nonce, associated_data, buffer.as_mut_slice(), &tag) {
            Ok(()) => Ok(()),
            Err(e) => {
                buffer.extend_from_slice(&tag);
                assert(buffer@ =~= old(buffer)@);
                Err(e)
            },
        }
    }

    /// Seals `plaintext`: the ciphertext followed by the tag. This never fails.
    pub fn encrypt(&self, nonce: &[u8; NONCE_SIZE], plaintext: &[u8], associated_data: &[u8]) -> (r:
        Result<Vec<u8>, Error>)
        ensures
            r is Ok,
            r->Ok_0@ == sealed(self@, nonce@, associated_data@, plaintext@),
            r->Ok_0@.len() == plaintext@.len() + TAG_SIZE,
    {
        let mut buffer: Vec<u8> = Vec::with_capacity(plaintext.len());
        push_all(&mut buffer, plaintext);
        match self.encrypt_in_place(nonce, associated_data, &mut buffer) {
            Ok(()) => Ok(buffer),
            Err(e) => Err(e),
        }
    }

    /// Opens `ciphertext` (the ciphertext followed by the tag) and returns the
    /// plaintext, only if the tag is the right one.
    pub fn decrypt(&self, nonce: &[u8; NONCE_SIZE], ciphertext: &[u8], associated_data: &[u8]) -> (r:
        Result<Vec<u8>, Error>)
        ensures
            r is Ok <==> opened(self@, nonce@, associated_data@, ciphertext@) is Some,
            r is Ok ==> opened(self@, nonce@, associated_data@, ciphertext@) == Some(r->Ok_0@),
    {
        let mut buffer: Vec<u8> = Vec::with_capacity(ciphertext.len());
        push_all(&mut buffer, ciphertext);
        match self.decrypt_in_place(nonce, associated_data, &mut buffer) {
            Ok(()) => Ok(buffer),
            Err(e) => Err(e),
        }
    }
}

} // verus!
