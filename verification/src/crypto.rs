//! AEAD-AES-256-GCM for voice packets, with the RTP header as the
//! associated data ("aead_aes256_gcm_rtpsize").

use vstd::prelude::*;
use aes_gcm::Aes256Gcm;
use aes_gcm::KeyInit;
use aes_gcm::aead::Aead;

verus! {

/// What AES-256-GCM encryption yields — the ciphertext followed by the
/// 16-byte tag; a pure function of key, nonce, associated data and
/// plaintext, whose exact bytes are the cipher's business.
pub uninterp spec fn aead_ct_of(key: Seq<u8>, nonce: Seq<u8>, aad: Seq<u8>, msg: Seq<u8>) -> Seq<
    u8,
>;

/// An AES-256-GCM cipher, kept together with the 32-byte key it was built
/// from; its view is that key, which the contracts speak of.
#[verifier::external_body]
pub struct VoiceCrypto {
    key: Vec<u8>,
    cipher: Aes256Gcm,
}

/// The key a cipher value encrypts under.
pub uninterp spec fn crypto_key(c: &VoiceCrypto) -> Seq<u8>;

impl View for VoiceCrypto {
    type V = Seq<u8>;

    open spec fn view(&self) -> Seq<u8> {
        crypto_key(self)
    }
}

impl VoiceCrypto {
    /// Relies on aes_gcm's `Aes256Gcm::new`: builds the cipher for exactly
    /// this 32-byte key.
    #[verifier::external_body]
    pub fn new(secret_key: &[u8]) -> (r: Self)
        requires
            secret_key@.len() == 32,
        ensures
            crypto_key(&r) == secret_key@,
    {
        let key = aes_gcm::Key::<Aes256Gcm>::from_slice(secret_key);
        VoiceCrypto { key: secret_key.to_vec(), cipher: Aes256Gcm::new(key) }
    }

    /// Relies on the cipher's `Clone`: the copy encrypts under the same
    /// key.
    #[verifier::external_body]
    pub fn duplicate(&self) -> (r: Self)
        ensures
            crypto_key(&r) == crypto_key(self),
    {
        VoiceCrypto { key: self.key.clone(), cipher: self.cipher.clone() }
    }

    /// Relies on aes_gcm's `encrypt`: the AES-256-GCM ciphertext and tag
    /// for this key, nonce and associated data, 16 bytes longer than the
    /// plaintext and deterministic in all four inputs; the bounds are the
    /// cipher's own input limits, past which it refuses to encrypt.
    #[verifier::external_body]
    pub fn encrypt(&self, packet: &[u8], nonce: &[u8], ad: &[u8]) -> (r: Vec<u8>)
        requires
            nonce@.len() == 12,
            packet@.len() <= 0x1000000000,
            ad@.len() <= 0x1000000000,
        ensures
            r@ == aead_ct_of(crypto_key(self), nonce@, ad@, packet@),
            r@.len() == packet@.len() + 16,
    {
        let n = aes_gcm::Nonce::from_slice(nonce);
        self.cipher.encrypt(n, aes_gcm::aead::Payload { msg: packet, aad: ad }).unwrap()
    }

    /// Relies on aes_gcm's `decrypt`: it succeeds exactly on what
    /// encryption under this key, nonce and associated data yields, and
    /// returns that plaintext — so decrypting an encryption gives the
    /// original back.
    #[verifier::external_body]
    pub fn decrypt(&self, ct: &[u8], nonce: &[u8], ad: &[u8]) -> (r: Option<Vec<u8>>)
        requires
            nonce@.len() == 12,
            ad@.len() <= 0x1000000000,
        ensures
            r matches Some(p) ==> ct@ == aead_ct_of(crypto_key(self), nonce@, ad@, p@) && (forall|
                m: Seq<u8>,
            |
                ct@ == aead_ct_of(crypto_key(self), nonce@, ad@, m) ==> m == p@),
            forall|m: Seq<u8>|
                ct@ == aead_ct_of(crypto_key(self), nonce@, ad@, m) && m.len() <= 0x1000000000
                    ==> r is Some,
    {
        let n = aes_gcm::Nonce::from_slice(nonce);
        self.cipher.decrypt(n, aes_gcm::aead::Payload { msg: ct, aad: ad }).ok()
    }
}

} // verus!
