//! Key pairs and the sealed-box construction: X25519 Diffie-Hellman with
//! XSalsa20-Poly1305 authenticated encryption, one nonce per message.
//!
//! Sealing and opening are done by the `crypto_box` crate behind trusted
//! wrappers; what they return is named by uninterpreted spec functions, and
//! everything that reads the results is verified against those names.

use vstd::prelude::*;
use vstd::slice::slice_to_vec;

use crypto_box::aead::{Aead, AeadCore};

verus! {

/// Length in bytes of an X25519 public or secret key.
pub const KEY_LEN: usize = 32;

/// Length in bytes of a box nonce.
pub const NONCE_LEN: usize = 24;

/// Bytes a sealed box adds to its plaintext (the Poly1305 tag).
pub const TAG_LEN: usize = 16;

/// Whether a byte sequence has the exact length of a key.
pub open spec fn is_key(s: Seq<u8>) -> bool {
    s.len() == KEY_LEN
}

/// A 32-byte public identity, also an X25519 Diffie-Hellman public value.
#[derive(Debug)]
pub struct PublicKey {
    pub bytes: Vec<u8>,
}

/// A 32-byte X25519 private scalar. It is never rendered; only sealing and
/// opening read it.
pub struct SecretKey {
    pub bytes: Vec<u8>,
}

impl View for PublicKey {
    type V = Seq<u8>;

    open spec fn view(&self) -> Seq<u8> {
        self.bytes@
    }
}

impl View for SecretKey {
    type V = Seq<u8>;

    open spec fn view(&self) -> Seq<u8> {
        self.bytes@
    }
}

impl PublicKey {
    /// A fresh key holding the same 32 bytes.
    pub fn clone_key(&self) -> (r: PublicKey)
        ensures
            r@ == self@,
    {
        PublicKey { bytes: slice_to_vec(self.bytes.as_slice()) }
    }
}

/// The public key derived from a secret key by X25519.
pub uninterp spec fn pub_of(sk: Seq<u8>) -> Seq<u8>;

/// The ciphertext sealed from plaintext `m` by the sender's secret key, the
/// recipient's public key, and the given nonce.
pub uninterp spec fn sealed_of(m: Seq<u8>, sk: Seq<u8>, pk: Seq<u8>, nonce: Seq<u8>) -> Seq<u8>;

/// What opening a box returns: the plaintext when nonce, ciphertext and the
/// two keys fit together, and nothing otherwise.
pub uninterp spec fn open_of(nonce: Seq<u8>, ct: Seq<u8>, sk: Seq<u8>, pk: Seq<u8>) -> Option<
    Seq<u8>,
>;

/// Relies on crypto_box::SecretKey::generate and SecretKey::public_key: a
/// fresh 32-byte X25519 secret key from the operating system's randomness,
/// and the public key derived from it.
#[verifier::external_body]
pub fn generate_keypair() -> (r: (PublicKey, SecretKey))
    ensures
        r.1@.len() == KEY_LEN,
        r.0@ == pub_of(r.1@),
        r.0@.len() == KEY_LEN,
{
    let sk = crypto_box::SecretKey::generate(&mut crypto_box::aead::OsRng);
    let pk = sk.public_key();
    (
        PublicKey { bytes: pk.as_bytes().to_vec() },
        SecretKey { bytes: sk.to_bytes().to_vec() },
    )
}

/// Relies on crypto_box::SecretKey::public_key: X25519 public-key
/// derivation, a function of the secret key bytes alone.
#[verifier::external_body]
pub fn public_key_of(sk: &SecretKey) -> (r: PublicKey)
    requires
        is_key(sk@),
    ensures
        r@ == pub_of(sk@),
        r@.len() == KEY_LEN,
{
    let k = crypto_box::SecretKey::from_slice(&sk.bytes).unwrap();
    PublicKey { bytes: k.public_key().as_bytes().to_vec() }
}

/// Relies on crypto_box::SalsaBox::encrypt (NaCl box: X25519 followed by
/// XSalsa20-Poly1305), with a nonce drawn from the operating system's
/// randomness. Given the nonce, the ciphertext is a function of the
/// plaintext and the two keys alone; it is 16 bytes longer than the
/// plaintext; and a box sealed to a recipient's public key opens with that
/// recipient's secret key and the sender's public key.
#[verifier::external_body]
pub fn seal(m: &Vec<u8>, sk: &SecretKey, recipient: &PublicKey) -> (r: (Vec<u8>, Vec<u8>))
    requires
        is_key(sk@),
        is_key(recipient@),
    ensures
        r.0@.len() == NONCE_LEN,
        r.1@ == sealed_of(m@, sk@, recipient@, r.0@),
        r.1@.len() == m@.len() + TAG_LEN,
        forall|rsk: Seq<u8>|
            pub_of(rsk) == recipient@ ==> #[trigger] open_of(r.0@, r.1@, rsk, pub_of(sk@))
                == Some(m@),
{
    let sk2 = crypto_box::SecretKey::from_slice(&sk.bytes).unwrap();
    let pk2 = crypto_box::PublicKey::from_slice(&recipient.bytes).unwrap();
    let sbox = crypto_box::SalsaBox::new(&pk2, &sk2);
    let nonce = crypto_box::SalsaBox::generate_nonce(&mut crypto_box::aead::OsRng);
    let ct = sbox.encrypt(&nonce, m.as_slice()).unwrap();
    (nonce.to_vec(), ct)
}

/// Relies on crypto_box::SalsaBox::decrypt: authenticated decryption, which
/// fails closed on any tampering with the nonce, the ciphertext, or either
/// key, and never returns partial plaintext.
#[verifier::external_body]
pub fn open(nonce: &Vec<u8>, ct: &Vec<u8>, sk: &SecretKey, sender: &PublicKey) -> (r: Option<
    Vec<u8>,
>)
    requires
        is_key(sk@),
        is_key(sender@),
        nonce@.len() == NONCE_LEN,
    ensures
        (match r {
            Some(m) => Some(m@),
            None => None,
        }) == open_of(nonce@, ct@, sk@, sender@),
{
    let sk2 = crypto_box::SecretKey::from_slice(&sk.bytes).unwrap();
    let pk2 = crypto_box::PublicKey::from_slice(&sender.bytes).unwrap();
    let sbox = crypto_box::SalsaBox::new(&pk2, &sk2);
    let nonce2 = crypto_box::Nonce::from(<[u8; 24]>::try_from(nonce.as_slice()).unwrap());
    match sbox.decrypt(&nonce2, ct.as_slice()) {
        Ok(m) => Some(m),
        Err(_) => None,
    }
}

} // verus!
