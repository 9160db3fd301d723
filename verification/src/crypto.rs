//! Layered AES-256-GCM encryption of file contents.
//!
//! A file is sent encrypted under the common key with a fresh random nonce.
//! A file received from the server is sealed twice: the outer layer under a
//! per-file data-encryption key (DEK), the inner layer under the common key.
//! A sealed layer is the 12-byte nonce followed by the AES-256-GCM ciphertext.

use vstd::prelude::*;
use vstd::slice::slice_subrange;
use aes_gcm::aead::Aead;
use aes_gcm::KeyInit;
use rand::RngCore;

verus! {

/// The length of an AES-256 key.
pub const KEY_LEN: usize = 32;

/// The length of an AES-GCM nonce.
pub const NONCE_LEN: usize = 12;

/// The length of an AES-GCM authentication tag.
pub const TAG_LEN: usize = 16;

/// The longest plaintext that AES-GCM encrypts: 2^36 bytes.
pub const MAX_PLAINTEXT_LEN: u64 = 0x10_0000_0000;

/// The ciphertext (with its tag) that AES-256-GCM gives for `plaintext`
/// under `key` and `nonce`, without associated data.
pub uninterp spec fn aes256gcm_encrypt(key: Seq<u8>, nonce: Seq<u8>, plaintext: Seq<u8>) -> Seq<u8>;

/// What AES-256-GCM decryption of `ciphertext` (with its tag) gives under
/// `key` and `nonce`, without associated data: `None` where the tag does not
/// authenticate it.
pub uninterp spec fn aes256gcm_decrypt(key: Seq<u8>, nonce: Seq<u8>, ciphertext: Seq<u8>) -> Option<Seq<u8>>;

#[verifier::external_type_specification]
#[verifier::external_body]
pub struct ExThreadRng(rand::rngs::ThreadRng);

/// Calls `Aes256Gcm::new_from_slice` and then `Aead::encrypt` of the `aes-gcm`
/// crate. Encryption succeeds exactly on plaintexts of at most 2^36 bytes; the
/// ciphertext is the named AES-256-GCM result, the plaintext's length plus a
/// 16-byte tag.
#[verifier::external_body]
fn aes256gcm_seal(key: &[u8], nonce: &[u8], plaintext: &[u8]) -> (r: Option<Vec<u8>>)
    requires
        key@.len() == KEY_LEN,
        nonce@.len() == NONCE_LEN,
    ensures
        r is Some <==> plaintext@.len() <= MAX_PLAINTEXT_LEN,
        r matches Some(c) ==> c@ == aes256gcm_encrypt(key@, nonce@, plaintext@) && c@.len()
            == plaintext@.len() + TAG_LEN,
{
    let cipher = aes_gcm::Aes256Gcm::new_from_slice(key).ok()?;
    cipher.encrypt(aes_gcm::Nonce::from_slice(nonce), plaintext).ok()
}

/// Calls `Aes256Gcm::new_from_slice` and then `Aead::decrypt` of the `aes-gcm`
/// crate. The result is the named AES-256-GCM decryption; a ciphertext shorter
/// than a tag is refused, and a ciphertext that encryption gave under the same
/// key and nonce decrypts to its plaintext.
#[verifier::external_body]
fn aes256gcm_open(key: &[u8], nonce: &[u8], ciphertext: &[u8]) -> (r: Option<Vec<u8>>)
    requires
        key@.len() == KEY_LEN,
        nonce@.len() == NONCE_LEN,
    ensures
        match r {
            Some(p) => aes256gcm_decrypt(key@, nonce@, ciphertext@) == Some(p@),
            None => aes256gcm_decrypt(key@, nonce@, ciphertext@) is None,
        },
        ciphertext@.len() < TAG_LEN ==> r is None,
        forall|p: Seq<u8>|
            p.len() <= MAX_PLAINTEXT_LEN && #[trigger] aes256gcm_encrypt(key@, nonce@, p)
                == ciphertext@ ==> r is Some && r.unwrap()@ == p,
{
    let cipher = aes_gcm::Aes256Gcm::new_from_slice(key).ok()?;
    cipher.decrypt(aes_gcm::Nonce::from_slice(nonce), ciphertext).ok()
}

/// Calls `rand::rng`, the handle to the thread's random generator.
#[verifier::external_body]
fn thread_rng() -> rand::rngs::ThreadRng {
    rand::rng()
}

/// Calls `RngCore::fill_bytes` on `nonce`. The bytes are random: nothing is
/// stated of them.
#[verifier::external_body]
fn fill_random(rng: &mut rand::rngs::ThreadRng, nonce: &mut [u8; 12]) {
    rng.fill_bytes(nonce)
}

/// Why a file could not be encrypted.
#[derive(Clone, Copy, Debug, PartialEq, Eq, Structural)]
pub enum EncryptError {
    /// The common key is not 32 bytes long.
    KeyLength,
    /// The file is too large for AES-GCM.
    EncryptionFailed,
}

/// Encrypts `data` under `key` with the given nonce; gives the ciphertext and
/// the nonce.
pub fn encrypt_with_nonce(key: &[u8], nonce: [u8; 12], data: &[u8]) -> (r: Result<
    (Vec<u8>, [u8; 12]),
    EncryptError,
>)
    ensures
        match r {
            Ok((c, n)) => {
                &&& key@.len() == KEY_LEN
                &&& data@.len() <= MAX_PLAINTEXT_LEN
                &&& n == nonce
                &&& c@ == aes256gcm_encrypt(key@, nonce@, data@)
                &&& c@.len() == data@.len() + TAG_LEN
            },
            Err(EncryptError::KeyLength) => key@.len() != KEY_LEN,
            Err(EncryptError::EncryptionFailed) => key@.len() == KEY_LEN && data@.len()
                > MAX_PLAINTEXT_LEN,
        },
{
    if key.len() != KEY_LEN {
        return Err(EncryptError::KeyLength);
    }
    match aes256gcm_seal(key, nonce.as_slice(), data) {
        Some(c) => Ok((c, nonce)),
        None => Err(EncryptError::EncryptionFailed),
    }
}

/// Encrypts a file's contents under the common key with a fresh random nonce;
/// gives the ciphertext and the nonce. Whatever nonce was drawn, the
/// ciphertext is the encryption of `data` under it.
#[allow(non_snake_case)]
pub fn EncryptFile(key: &[u8], data: &[u8]) -> (r: Result<(Vec<u8>, [u8; 12]), EncryptError>)
    ensures
        match r {
            Ok((c, n)) => {
                &&& key@.len() == KEY_LEN
                &&& data@.len() <= MAX_PLAINTEXT_LEN
                &&& c@ == aes256gcm_encrypt(key@, n@, data@)
                &&& c@.len() == data@.len() + TAG_LEN
            },
            Err(EncryptError::KeyLength) => key@.len() != KEY_LEN,
            Err(EncryptError::EncryptionFailed) => key@.len() == KEY_LEN && data@.len()
                > MAX_PLAINTEXT_LEN,
        },
{
    if key.len() != KEY_LEN {
        return Err(EncryptError::KeyLength);
    }
    let mut nonce = [0u8; 12];
    let mut rng = thread_rng();
    fill_random(&mut rng, &mut nonce);
    encrypt_with_nonce(key, nonce, data)
}

/// What opening a sealed layer under `key` gives: the decryption of what
/// follows the 12-byte nonce.
pub open spec fn open_sealed(key: Seq<u8>, sealed: Seq<u8>) -> Option<Seq<u8>> {
    aes256gcm_decrypt(
        key,
        sealed.subrange(0, NONCE_LEN as int),
        sealed.subrange(NONCE_LEN as int, sealed.len() as int),
    )
}

/// The layer that sealing `plaintext` under `key` and `nonce` gives.
pub open spec fn sealed_layer(key: Seq<u8>, nonce: Seq<u8>, plaintext: Seq<u8>) -> Seq<u8> {
    nonce + aes256gcm_encrypt(key, nonce, plaintext)
}

/// Why a received file could not be decrypted.
#[derive(Clone, Copy, Debug, PartialEq, Eq, Structural)]
pub enum DecryptError {
    /// The decrypted DEK is not 32 bytes long; holds its length.
    DekLength(usize),
    /// The DEK-encrypted file is too small to hold a nonce.
    SealedFileTooSmall,
    /// The DEK layer does not decrypt.
    DekDecryptionFailed,
    /// What the DEK layer gave is too small to hold a nonce.
    IntermediateTooSmall,
    /// The common key is not 32 bytes long; holds its length.
    CommonKeyLength(usize),
    /// The common-key layer does not decrypt.
    CommonDecryptionFailed,
    /// The DEK-encrypted file could not be read.
    SealedFileUnreadable,
    /// The common key could not be read.
    CommonKeyUnreadable,
}

/// Opens a sealed layer whose nonce is present.
fn open_layer(key: &[u8], sealed: &[u8]) -> (r: Option<Vec<u8>>)
    requires
        key@.len() == KEY_LEN,
        sealed@.len() >= NONCE_LEN,
    ensures
        match r {
            Some(p) => open_sealed(key@, sealed@) == Some(p@),
            None => open_sealed(key@, sealed@) is None,
        },
        forall|n: Seq<u8>, p: Seq<u8>|
            n.len() == NONCE_LEN && p.len() <= MAX_PLAINTEXT_LEN && sealed@ == #[trigger] sealed_layer(
                key@,
                n,
                p,
            ) ==> (r matches Some(q) && q@ == p),
{
    let nonce = slice_subrange(sealed, 0, NONCE_LEN);
    let ciphertext = slice_subrange(sealed, NONCE_LEN, sealed.len());
    let r = aes256gcm_open(key, nonce, ciphertext);
    assert forall|n: Seq<u8>, p: Seq<u8>|
        n.len() == NONCE_LEN && p.len() <= MAX_PLAINTEXT_LEN && sealed@ == #[trigger] sealed_layer(
            key@,
            n,
            p,
        ) implies (r matches Some(q) && q@ == p) by {
        assert(nonce@ =~= n);
        assert(ciphertext@ =~= aes256gcm_encrypt(key@, n, p));
    }
    r
}

/// Checks the length of the DEK that PGP decryption gave.
pub fn check_dek(dek: &[u8]) -> (r: Result<(), DecryptError>)
    ensures
        r is Ok <==> dek@.len() == KEY_LEN,
        r is Err ==> r == Err::<(), DecryptError>(DecryptError::DekLength(dek@.len() as usize)),
{
    if dek.len() != KEY_LEN {
        Err(DecryptError::DekLength(dek.len()))
    } else {
        Ok(())
    }
}

/// Opens the outer layer of a received file under its DEK. A layer sealed
/// under the DEK gives back what was sealed.
pub fn open_dek_layer(dek: &[u8], sealed: &[u8]) -> (r: Result<Vec<u8>, DecryptError>)
    requires
        dek@.len() == KEY_LEN,
    ensures
        match r {
            Ok(p) => sealed@.len() >= NONCE_LEN && open_sealed(dek@, sealed@) == Some(p@),
            Err(DecryptError::SealedFileTooSmall) => sealed@.len() < NONCE_LEN,
            Err(DecryptError::DekDecryptionFailed) => sealed@.len() >= NONCE_LEN && open_sealed(
                dek@,
                sealed@,
            ) is None,
            Err(_) => false,
        },
        forall|n: Seq<u8>, p: Seq<u8>|
            n.len() == NONCE_LEN && p.len() <= MAX_PLAINTEXT_LEN && sealed@ == #[trigger] sealed_layer(
                dek@,
                n,
                p,
            ) ==> (r matches Ok(q) && q@ == p),
{
    if sealed.len() < NONCE_LEN {
        return Err(DecryptError::SealedFileTooSmall);
    }
    match open_layer(dek, sealed) {
        Some(p) => Ok(p),
        None => Err(DecryptError::DekDecryptionFailed),
    }
}

/// Checks that what the outer layer gave can hold a nonce.
pub fn check_intermediate(intermediate: &[u8]) -> (r: Result<(), DecryptError>)
    ensures
        r is Ok <==> intermediate@.len() >= NONCE_LEN,
        r is Err ==> r == Err::<(), DecryptError>(DecryptError::IntermediateTooSmall),
{
    if intermediate.len() < NONCE_LEN {
        Err(DecryptError::IntermediateTooSmall)
    } else {
        Ok(())
    }
}

/// Opens the inner layer of a received file under the common key. A layer
/// sealed under the common key, as `EncryptFile` seals a file before it is
/// sent, gives back the file.
pub fn open_common_layer(common_key: &[u8], intermediate: &[u8]) -> (r: Result<Vec<u8>, DecryptError>)
    requires
        intermediate@.len() >= NONCE_LEN,
    ensures
        match r {
            Ok(p) => common_key@.len() == KEY_LEN && open_sealed(common_key@, intermediate@) == Some(
                p@,
            ),
            Err(DecryptError::CommonKeyLength(n)) => common_key@.len() != KEY_LEN && n
                == common_key@.len(),
            Err(DecryptError::CommonDecryptionFailed) => common_key@.len() == KEY_LEN
                && open_sealed(common_key@, intermediate@) is None,
            Err(_) => false,
        },
        forall|n: Seq<u8>, p: Seq<u8>|
            common_key@.len() == KEY_LEN && n.len() == NONCE_LEN && p.len() <= MAX_PLAINTEXT_LEN
                && intermediate@ == #[trigger] sealed_layer(common_key@, n, p) ==> (r matches Ok(q)
                && q@ == p),
{
    if common_key.len() != KEY_LEN {
        return Err(DecryptError::CommonKeyLength(common_key.len()));
    }
    match open_layer(common_key, intermediate) {
        Some(p) => Ok(p),
        None => Err(DecryptError::CommonDecryptionFailed),
    }
}

/// The contents of a file that may not have been read.
pub open spec fn bytes_of(contents: Option<&[u8]>) -> Option<Seq<u8>> {
    match contents {
        Some(b) => Some(b@),
        None => None,
    }
}

/// What decrypting a received file gives, step by step in this order: the
/// DEK's length, the DEK-encrypted file (`None` where it could not be read),
/// the DEK layer, what it gave, the common key (`None` where it could not be
/// read), and the common-key layer.
pub open spec fn received_plaintext(
    dek: Seq<u8>,
    sealed: Option<Seq<u8>>,
    common_key: Option<Seq<u8>>,
) -> Result<Seq<u8>, DecryptError> {
    if dek.len() != KEY_LEN {
        Err(DecryptError::DekLength(dek.len() as usize))
    } else {
        match sealed {
            None => Err(DecryptError::SealedFileUnreadable),
            Some(s) => if s.len() < NONCE_LEN {
                Err(DecryptError::SealedFileTooSmall)
            } else {
                match open_sealed(dek, s) {
                    None => Err(DecryptError::DekDecryptionFailed),
                    Some(i) => if i.len() < NONCE_LEN {
                        Err(DecryptError::IntermediateTooSmall)
                    } else {
                        match common_key {
                            None => Err(DecryptError::CommonKeyUnreadable),
                            Some(k) => if k.len() != KEY_LEN {
                                Err(DecryptError::CommonKeyLength(k.len() as usize))
                            } else {
                                match open_sealed(k, i) {
                                    None => Err(DecryptError::CommonDecryptionFailed),
                                    Some(p) => Ok(p),
                                }
                            },
                        }
                    },
                }
            },
        }
    }
}

/// Decrypts a received file: the DEK layer under the DEK that PGP gave, then
/// the common-key layer. `sealed` and `common_key` are the contents of the
/// DEK-encrypted file and of the common key file, `None` where they could not
/// be read. A file that the server sealed under the DEK around a layer that
/// `EncryptFile` sealed under the common key gives back the file.
#[allow(non_snake_case)]
pub fn DecryptReceivedFile(dek: &[u8], sealed: Option<&[u8]>, common_key: Option<&[u8]>) -> (r: Result<
    Vec<u8>,
    DecryptError,
>)
    ensures
        match r {
            Ok(p) => received_plaintext(dek@, bytes_of(sealed), bytes_of(common_key))
                == Ok::<Seq<u8>, DecryptError>(p@),
            Err(e) => received_plaintext(dek@, bytes_of(sealed), bytes_of(common_key))
                == Err::<Seq<u8>, DecryptError>(e),
        },
        forall|n1: Seq<u8>, n2: Seq<u8>, p: Seq<u8>|
            dek@.len() == KEY_LEN && common_key is Some && common_key.unwrap()@.len() == KEY_LEN
                && n1.len() == NONCE_LEN && n2.len() == NONCE_LEN && p.len() <= MAX_PLAINTEXT_LEN
                && sealed_layer(common_key.unwrap()@, n2, p).len() <= MAX_PLAINTEXT_LEN
                && sealed is Some && sealed.unwrap()@ == #[trigger] sealed_layer(
                dek@,
                n1,
                sealed_layer(common_key.unwrap()@, n2, p),
            ) ==> r == Ok::<Vec<u8>, DecryptError>(r.unwrap()) && r.unwrap()@ == p,
{
    if let Err(e) = check_dek(dek) {
        return Err(e);
    }
    let sealed = match sealed {
        Some(s) => s,
        None => return Err(DecryptError::SealedFileUnreadable),
    };
    let intermediate = match open_dek_layer(dek, sealed) {
        Ok(i) => i,
        Err(e) => return Err(e),
    };
    if let Err(e) = check_intermediate(&intermediate) {
        return Err(e);
    }
    let common_key = match common_key {
        Some(k) => k,
        None => return Err(DecryptError::CommonKeyUnreadable),
    };
    open_common_layer(common_key, &intermediate)
}

} // verus!
