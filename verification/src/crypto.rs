//! Trusted wrappers around the cryptographic primitives and the other
//! platform services the vault layer needs.
//!
//! Each wrapper names the outside function it relies on.  The two
//! uninterpreted functions stand for results that are deterministic in
//! their arguments but far too long to state: the Argon2id digest and the
//! single-chunk authenticated seal.

use chacha20poly1305::KeyInit;
use vstd::prelude::*;

verus! {

/// Length of the derived symmetric key, in bytes.
pub const KEY_LEN: usize = 32;

/// Length of the random salt in the vault header.
pub const SALT_LEN: usize = 32;

/// Length of the random nonce in the vault header: the prefix the stream
/// construction takes, with its counter and last-block flag making up the
/// cipher's full 24-byte nonce.
pub const NONCE_LEN: usize = 19;

/// Length of the authentication tag the seal appends.
pub const TAG_LEN: usize = 16;

/// Argon2id lane count.
pub const ARGON_LANES: u32 = 8;

/// Argon2id memory cost in KiB (16 MiB).
pub const ARGON_MEM_KIB: u32 = 16384;

/// Argon2id pass count.
pub const ARGON_ITERATIONS: u32 = 8;

/// Derived key length as the key-derivation parameter.
pub const ARGON_HASH_LEN: u32 = 32;

/// Largest plaintext sealed in one chunk; far below the cipher's limit.
pub const MAX_PLAINTEXT_LEN: usize = 0x4000_0000;

/// Largest password, salt or other input the key derivation accepts.
pub const MAX_KDF_INPUT_LEN: usize = 0xFFFF_FFFF;

/// The Argon2id digest of `password` and `salt` under the given
/// parameters: a fixed mathematical function of its arguments alone.
pub uninterp spec fn argon2id_key(
    password: Seq<u8>,
    salt: Seq<u8>,
    lanes: u32,
    mem_kib: u32,
    iterations: u32,
    hash_len: u32,
) -> Seq<u8>;

/// The XChaCha20-Poly1305 single-chunk seal of `plaintext` under `key` and
/// the 19-byte stream nonce prefix: the ciphertext with its tag appended,
/// a fixed mathematical function of its arguments alone.
pub uninterp spec fn seal_of(key: Seq<u8>, nonce: Seq<u8>, plaintext: Seq<u8>) -> Seq<u8>;

/// Relies on `argon2::hash_raw` of the `rust-argon2` crate: with the lane,
/// memory, pass and output parameters inside the crate's accepted ranges
/// and a salt of at least 8 bytes, validation cannot fail and the call
/// returns the raw Argon2id digest of `hash_len` bytes, a deterministic
/// function of password, salt and parameters.
#[verifier::external_body]
pub(crate) fn argon2id_hash(
    password: &[u8],
    salt: &[u8],
    lanes: u32,
    mem_kib: u32,
    iterations: u32,
    hash_len: u32,
) -> (r: Vec<u8>)
    requires
        password@.len() <= MAX_KDF_INPUT_LEN,
        8 <= salt@.len() <= MAX_KDF_INPUT_LEN,
        1 <= lanes <= 0xFF_FFFF,
        8 <= mem_kib <= 0x20_0000,
        8 * lanes <= mem_kib,
        1 <= iterations,
        4 <= hash_len,
    ensures
        r@.len() == hash_len,
        r@ == argon2id_key(password@, salt@, lanes, mem_kib, iterations, hash_len),
{
    let config = argon2::Config {
        ad: &[],
        hash_length: hash_len,
        lanes,
        mem_cost: mem_kib,
        secret: &[],
        thread_mode: argon2::ThreadMode::Sequential,
        time_cost: iterations,
        variant: argon2::Variant::Argon2id,
        version: argon2::Version::Version13,
    };
    argon2::hash_raw(password, salt, &config).expect("parameters are within the accepted ranges")
}

/// Relies on `chacha20poly1305::XChaCha20Poly1305` through the `aead`
/// stream construction (`EncryptorBE32::encrypt_next`): one seal of one
/// chunk, which appends a 16-byte tag and cannot fail for chunks under the
/// cipher's size limit.
#[verifier::external_body]
pub(crate) fn aead_seal(key: &[u8], nonce: &[u8], plaintext: &[u8]) -> (r: Vec<u8>)
    requires
        key@.len() == KEY_LEN,
        nonce@.len() == NONCE_LEN,
        plaintext@.len() <= MAX_PLAINTEXT_LEN,
    ensures
        r@ == seal_of(key@, nonce@, plaintext@),
        r@.len() == plaintext@.len() + TAG_LEN,
{
    let aead = chacha20poly1305::XChaCha20Poly1305::new(key.into());
    let mut enc = chacha20poly1305::aead::stream::EncryptorBE32::from_aead(aead, nonce.into());
    enc.encrypt_next(plaintext).expect("one chunk within the size limit")
}

/// Relies on `DecryptorBE32::decrypt_next` of the same construction: it
/// verifies the Poly1305 tag and inverts the seal.  Decrypting a genuine
/// seal under the same key and nonce yields exactly the sealed plaintext,
/// and whatever it accepts is a genuine seal of its result.
#[verifier::external_body]
pub(crate) fn aead_open(key: &[u8], nonce: &[u8], ciphertext: &[u8]) -> (r: Option<Vec<u8>>)
    requires
        key@.len() == KEY_LEN,
        nonce@.len() == NONCE_LEN,
    ensures
        r matches Some(p) ==> ciphertext@ == seal_of(key@, nonce@, p@),
        r matches Some(p) ==> forall|q: Seq<u8>|
            ciphertext@ == seal_of(key@, nonce@, q) ==> q == p@,
        r is None ==> forall|q: Seq<u8>| ciphertext@ != seal_of(key@, nonce@, q),
{
    let aead = chacha20poly1305::XChaCha20Poly1305::new(key.into());
    let mut dec = chacha20poly1305::aead::stream::DecryptorBE32::from_aead(aead, nonce.into());
    dec.decrypt_next(ciphertext).ok()
}

/// Relies on `rand::rngs::OsRng::try_fill_bytes`: on success the buffer is
/// filled from the operating system's randomness source.  Nothing is
/// assumed about the values; only the length is kept.
#[verifier::external_body]
pub(crate) fn fill_random(buf: &mut Vec<u8>) -> (ok: bool)
    ensures
        final(buf)@.len() == old(buf)@.len(),
{
    rand::RngCore::try_fill_bytes(&mut rand::rngs::OsRng, buf.as_mut_slice()).is_ok()
}

/// Relies on `zeroize::Zeroize` for `Vec<u8>`: the buffer's whole capacity
/// is overwritten with zeroes and the vector is cleared.
#[verifier::external_body]
pub(crate) fn zeroize_bytes(buf: &mut Vec<u8>)
    ensures
        final(buf)@.len() == 0,
{
    zeroize::Zeroize::zeroize(buf);
}

/// Relies on `zeroize::Zeroize` for `String`: the backing memory is
/// overwritten with zeroes and the string is cleared.
#[verifier::external_body]
pub(crate) fn zeroize_string(s: &mut String)
    ensures
        final(s)@.len() == 0,
{
    zeroize::Zeroize::zeroize(s);
}

} // verus!
