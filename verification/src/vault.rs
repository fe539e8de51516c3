//! The on-disk vault frame: salt, nonce, then the sealed payload.
//!
//! Encrypting serializes the store, draws a fresh salt and nonce, derives
//! the key from the passphrase and salt, and seals the payload as one
//! authenticated chunk.  Opening reads the two header fields back, derives
//! the same key, and refuses to release anything unless the seal
//! authenticates and the plaintext is a canonical payload.
//!
//! The round trip is part of the contracts: `encrypt_vault` promises a
//! well-formed frame for its store, and `open_vault` promises to accept
//! every well-formed frame and return the records unchanged.  Each error
//! names its cause: a short file, an oversized passphrase, a seal that
//! does not authenticate, or an authenticated payload that is not a
//! serialized store.

use vstd::prelude::*;
use vstd::slice::slice_subrange;
use vstd::utf8::encode_utf8;
use crate::codec::{
    lemma_pars_body_of_ser, lemma_ser_body_ignores_password, parse_store, pars_body, ser_body,
    serialize_store,
};
use crate::crypto::{
    aead_open, aead_seal, argon2id_hash, fill_random, zeroize_bytes, ARGON_HASH_LEN,
    ARGON_ITERATIONS, ARGON_LANES, ARGON_MEM_KIB, KEY_LEN, MAX_KDF_INPUT_LEN, MAX_PLAINTEXT_LEN,
    NONCE_LEN, SALT_LEN, TAG_LEN,
};
use crate::crypto::{argon2id_key, seal_of};
use crate::entry::{DatabaseFile, DbView};
use crate::error::VaultError;

verus! {

/// Length of the fixed vault header: the salt and the nonce.
pub const HEADER_LEN: usize = 51;

/// The key a frame is sealed under: the Argon2id digest of the password
/// and the frame's own salt, under the fixed parameters.
pub open spec fn frame_key(data: Seq<u8>, password: Seq<char>) -> Seq<u8> {
    argon2id_key(
        encode_utf8(password),
        data.take(SALT_LEN as int),
        ARGON_LANES,
        ARGON_MEM_KIB,
        ARGON_ITERATIONS,
        ARGON_HASH_LEN,
    )
}

/// True when the bytes after the header are the seal of `payload` under
/// the frame's own key and nonce.
pub open spec fn frame_seals(data: Seq<u8>, password: Seq<char>, payload: Seq<u8>) -> bool {
    data.skip(HEADER_LEN as int) == seal_of(
        frame_key(data, password),
        data.subrange(SALT_LEN as int, HEADER_LEN as int),
        payload,
    )
}

/// True when `data` is a well-formed vault frame for `password` sealing
/// `payload`: 32 bytes of salt, 19 bytes of nonce, then the seal of the
/// payload under the key derived from the password and that salt.
pub open spec fn is_vault_frame(data: Seq<u8>, password: Seq<char>, payload: Seq<u8>) -> bool {
    &&& data.len() >= HEADER_LEN
    &&& frame_seals(data, password, payload)
}

/// Encrypt the store into a fresh vault frame under its own passphrase.
///
/// On success the result is a well-formed frame of the expected length
/// sealing exactly the store's canonical payload.  An oversized payload
/// and an oversized passphrase are reported as such, in that order of
/// checking; beyond those, failure happens only when the operating
/// system's randomness source fails.
pub fn encrypt_vault(db: &DatabaseFile) -> (r: Result<Vec<u8>, VaultError>)
    ensures
        r matches Ok(v) ==> is_vault_frame(v@, db@.password, ser_body(db@)) && v@.len()
            == HEADER_LEN + ser_body(db@).len() + TAG_LEN && encode_utf8(db@.password).len()
            <= MAX_KDF_INPUT_LEN,
        ser_body(db@).len() > MAX_PLAINTEXT_LEN ==> r == Err::<Vec<u8>, VaultError>(
            VaultError::PayloadTooLarge,
        ),
        ser_body(db@).len() <= MAX_PLAINTEXT_LEN && encode_utf8(db@.password).len()
            > MAX_KDF_INPUT_LEN ==> r == Err::<Vec<u8>, VaultError>(VaultError::KeyDerivation),
        r matches Err(e) ==> {
            ||| e == VaultError::RandomSource
            ||| (e == VaultError::PayloadTooLarge && ser_body(db@).len() > MAX_PLAINTEXT_LEN)
            ||| (e == VaultError::KeyDerivation && encode_utf8(db@.password).len()
                > MAX_KDF_INPUT_LEN)
        },
{
    let payload = serialize_store(db);
    if payload.len() > MAX_PLAINTEXT_LEN {
        return Err(VaultError::PayloadTooLarge);
    }
    let password_bytes = db.password.as_str().as_bytes();
    if password_bytes.len() > MAX_KDF_INPUT_LEN {
        return Err(VaultError::KeyDerivation);
    }
    let mut salt: Vec<u8> = vec![0u8; SALT_LEN];
    if !fill_random(&mut salt) {
        return Err(VaultError::RandomSource);
    }
    let mut nonce: Vec<u8> = vec![0u8; NONCE_LEN];
    if !fill_random(&mut nonce) {
        return Err(VaultError::RandomSource);
    }
    let mut key = argon2id_hash(
        password_bytes,
        salt.as_slice(),
        ARGON_LANES,
        ARGON_MEM_KIB,
        ARGON_ITERATIONS,
        ARGON_HASH_LEN,
    );
    let mut ciphertext = aead_seal(key.as_slice(), nonce.as_slice(), payload.as_slice());
    zeroize_bytes(&mut key);
    let ghost salt_bytes = salt@;
    let ghost nonce_bytes = nonce@;
    let mut out = salt;
    out.append(&mut nonce);
    out.append(&mut ciphertext);
    proof {
        assert(out@.take(SALT_LEN as int) =~= salt_bytes);
        assert(out@.subrange(SALT_LEN as int, HEADER_LEN as int) =~= nonce_bytes);
        assert(out@.skip(HEADER_LEN as int) =~= seal_of(
            argon2id_key(
                encode_utf8(db@.password),
                salt_bytes,
                ARGON_LANES,
                ARGON_MEM_KIB,
                ARGON_ITERATIONS,
                ARGON_HASH_LEN,
            ),
            nonce_bytes,
            ser_body(db@),
        ));
    }
    Ok(out)
}

/// Open a vault frame with the given passphrase.
///
/// Round trip: every well-formed frame for this passphrase is accepted,
/// and the records inside come back exactly as they were sealed, with the
/// passphrase stored for the session and `last_access` still as sealed.
/// Conversely, whatever is accepted is a well-formed frame sealing the
/// canonical payload of the result.  No partial plaintext is ever
/// released, and each error pins its cause: `MalformedHeader` exactly for
/// a file shorter than the header, `KeyDerivation` exactly for an
/// oversized passphrase, `AuthenticationFailed` exactly when the bytes
/// after the header seal no payload at all under this password, and
/// `InvalidPayload` exactly when they seal one that is no canonical
/// serialized store.
pub fn open_vault(data: &[u8], password: &str) -> (r: Result<DatabaseFile, VaultError>)
    ensures
        r matches Ok(d) ==> is_vault_frame(data@, password@, ser_body(d@)) && d@.password
            == password@,
        forall|v: DbView|
            is_vault_frame(data@, password@, ser_body(v)) && encode_utf8(password@).len()
                <= MAX_KDF_INPUT_LEN ==> {
                &&& r matches Ok(d)
                &&& d@.entries == v.entries
                &&& d@.config == v.config
                &&& d@.last_access == v.last_access
                &&& d@.password == password@
            },
        r == Err::<DatabaseFile, VaultError>(VaultError::MalformedHeader) <==> data@.len()
            < HEADER_LEN,
        r == Err::<DatabaseFile, VaultError>(VaultError::KeyDerivation) <==> data@.len()
            >= HEADER_LEN && encode_utf8(password@).len() > MAX_KDF_INPUT_LEN,
        r == Err::<DatabaseFile, VaultError>(VaultError::AuthenticationFailed) ==> !(exists|
            p: Seq<u8>,
        | #[trigger] frame_seals(data@, password@, p)),
        data@.len() >= HEADER_LEN && encode_utf8(password@).len() <= MAX_KDF_INPUT_LEN && !(exists|
            p: Seq<u8>,
        | #[trigger] frame_seals(data@, password@, p)) ==> r == Err::<DatabaseFile, VaultError>(
            VaultError::AuthenticationFailed,
        ),
        r == Err::<DatabaseFile, VaultError>(VaultError::InvalidPayload) ==> exists|p: Seq<u8>|
            #[trigger] frame_seals(data@, password@, p) && pars_body(p) is None,
        data@.len() >= HEADER_LEN && encode_utf8(password@).len() <= MAX_KDF_INPUT_LEN && (exists|
            p: Seq<u8>,
        |
            #[trigger] frame_seals(data@, password@, p) && pars_body(p) is None) ==> r == Err::<
            DatabaseFile,
            VaultError,
        >(VaultError::InvalidPayload),
{
    if data.len() < HEADER_LEN {
        return Err(VaultError::MalformedHeader);
    }
    let password_bytes = password.as_bytes();
    if password_bytes.len() > MAX_KDF_INPUT_LEN {
        return Err(VaultError::KeyDerivation);
    }
    let salt = slice_subrange(data, 0, SALT_LEN);
    let nonce = slice_subrange(data, SALT_LEN, HEADER_LEN);
    let ciphertext = slice_subrange(data, HEADER_LEN, data.len());
    proof {
        assert(salt@ =~= data@.take(SALT_LEN as int));
        assert(ciphertext@ =~= data@.skip(HEADER_LEN as int));
    }
    let mut key = argon2id_hash(
        password_bytes,
        salt,
        ARGON_LANES,
        ARGON_MEM_KIB,
        ARGON_ITERATIONS,
        ARGON_HASH_LEN,
    );
    proof {
        assert(key@ == frame_key(data@, password@));
    }
    let opened = aead_open(key.as_slice(), nonce, ciphertext);
    zeroize_bytes(&mut key);
    match opened {
        None => {
            proof {
                assert forall|p: Seq<u8>| !(#[trigger] frame_seals(data@, password@, p)) by {}
                assert forall|v: DbView|
                    is_vault_frame(data@, password@, ser_body(v)) && encode_utf8(password@).len()
                        <= MAX_KDF_INPUT_LEN implies false by {}
            }
            Err(VaultError::AuthenticationFailed)
        },
        Some(payload) => {
            proof {
                assert(frame_seals(data@, password@, payload@));
                assert forall|p: Seq<u8>|
                    #[trigger] frame_seals(data@, password@, p) implies p == payload@ by {}
            }
            match parse_store(payload.as_slice()) {
                None => {
                    proof {
                        assert(frame_seals(data@, password@, payload@) && pars_body(payload@)
                            is None);
                        assert forall|v: DbView|
                            is_vault_frame(data@, password@, ser_body(v)) && encode_utf8(
                                password@,
                            ).len() <= MAX_KDF_INPUT_LEN implies false by {
                            lemma_pars_body_of_ser(v);
                        }
                    }
                    Err(VaultError::InvalidPayload)
                },
                Some(mut db) => {
                    db.password = password.to_owned();
                    proof {
                        assert forall|v: DbView|
                            is_vault_frame(data@, password@, ser_body(v)) && encode_utf8(
                                password@,
                            ).len() <= MAX_KDF_INPUT_LEN implies {
                            &&& db@.entries == v.entries
                            &&& db@.config == v.config
                            &&& db@.last_access == v.last_access
                        } by {
                            lemma_pars_body_of_ser(v);
                        }
                        lemma_ser_body_ignores_password(db@, Seq::<char>::empty());
                        assert(ser_body(DbView { password: Seq::<char>::empty(), ..db@ })
                            == ser_body(db@));
                        assert forall|p: Seq<u8>|
                            #[trigger] frame_seals(data@, password@, p) implies !(pars_body(p)
                            is None) by {}
                    }
                    Ok(db)
                },
            }
        },
    }
}

} // verus!
