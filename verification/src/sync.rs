//! Preparing the sync payload of a changed file: its contents are encrypted
//! under the common key with a fresh nonce and framed with its name and the
//! client's manifest.

use vstd::prelude::*;
use vstd::string::*;
use crate::crypto::{aes256gcm_encrypt, EncryptError, EncryptFile, KEY_LEN, MAX_PLAINTEXT_LEN, TAG_LEN};
use crate::protocol::{build_sync_payload, sync_payload, SyncError, SYNC_HEADER_SIZE};
use crate::ethernet::{
    build_sync_frame, first_usable_interface, frame_bytes, usable_interface, InterfaceInfo,
    ETHERNET_HEADER_LEN, SYNC_ETHERTYPE,
};
use crate::mac::{mac_octets, parse_mac};

verus! {

/// Why a file could not be prepared for syncing.
#[derive(Clone, Copy, Debug, PartialEq, Eq, Structural)]
pub enum SyncFailure {
    /// The file could not be encrypted.
    Encrypt(EncryptError),
    /// The payload could not be framed.
    Payload(SyncError),
    /// The server's address is not a MAC address.
    InvalidServerAddress,
    /// No network interface is up, not the loopback, with a non-zero address.
    NoInterface,
}

/// The length of the sync payload for a file called `name` (in UTF-8) with
/// contents `data`: the header, the name, the ciphertext (the contents and a
/// tag) and the manifest.
pub open spec fn sync_payload_len(name: Seq<u8>, data: Seq<u8>, manifest: Seq<u8>) -> int {
    SYNC_HEADER_SIZE + name.len() + data.len() + TAG_LEN + manifest.len()
}

/// The payload can be prepared: the key, the contents, the name and the
/// manifest all have sizes that the sync protocol takes.
pub open spec fn payload_ready(key: Seq<u8>, name: Seq<u8>, data: Seq<u8>, manifest: Seq<u8>) -> bool {
    key.len() == KEY_LEN && data.len() <= MAX_PLAINTEXT_LEN && name.len() <= 0xFFFF && manifest.len()
        <= 0xFFFF_FFFF
}

/// The frame that is sent, and on which interface.
pub struct SyncFrame {
    /// The position of the chosen interface in the list handed over.
    pub interface: usize,
    pub frame: Vec<u8>,
}

/// Encrypts `file_data` under `common_key` with a fresh random nonce and
/// builds the sync payload for it, with the file's name and the manifest.
/// Whatever nonce was drawn, the payload carries it and the encryption of the
/// file under it.
pub fn prepare_sync_payload(
    common_key: &[u8],
    file_name: &str,
    file_data: &[u8],
    manifest: &[u8],
) -> (r: Result<
    Vec<u8>,
    SyncFailure,
>)
    ensures
        match r {
            Ok(payload) => {
                &&& common_key@.len() == KEY_LEN
                &&& file_data@.len() <= MAX_PLAINTEXT_LEN
                &&& file_name.spec_bytes().len() <= 0xFFFF
                &&& manifest@.len() <= 0xFFFF_FFFF
                &&& payload@.len() == sync_payload_len(file_name.spec_bytes(), file_data@, manifest@)
                &&& exists|nonce: Seq<u8>|
                    nonce.len() == 12 && payload@ == sync_payload(
                        file_name.spec_bytes(),
                        #[trigger] aes256gcm_encrypt(common_key@, nonce, file_data@),
                        nonce,
                        manifest@,
                    )
            },
            Err(SyncFailure::Encrypt(EncryptError::KeyLength)) => common_key@.len() != KEY_LEN,
            Err(SyncFailure::Encrypt(EncryptError::EncryptionFailed)) => common_key@.len()
                == KEY_LEN && file_data@.len() > MAX_PLAINTEXT_LEN,
            Err(SyncFailure::Payload(SyncError::NameTooLong)) => common_key@.len() == KEY_LEN
                && file_data@.len() <= MAX_PLAINTEXT_LEN && file_name.spec_bytes().len() > 0xFFFF,
            Err(SyncFailure::Payload(SyncError::ManifestTooLarge)) => common_key@.len() == KEY_LEN
                && file_data@.len() <= MAX_PLAINTEXT_LEN && file_name.spec_bytes().len() <= 0xFFFF
                && manifest@.len() > 0xFFFF_FFFF,
            Err(SyncFailure::Payload(SyncError::FileTooLarge)) => false,
            Err(_) => false,
        },
{
    let (encrypted, nonce) = match EncryptFile(common_key, file_data) {
        Ok(sealed) => sealed,
        Err(e) => return Err(SyncFailure::Encrypt(e)),
    };
    match build_sync_payload(file_name, &encrypted, &nonce, manifest) {
        Ok(payload) => {
            assert(payload@ == sync_payload(
                file_name.spec_bytes(),
                aes256gcm_encrypt(common_key@, nonce@, file_data@),
                nonce@,
                manifest@,
            ));
            Ok(payload)
        },
        Err(e) => Err(SyncFailure::Payload(e)),
    }
}

/// Prepares the frame that syncs a changed file: its contents are encrypted
/// under `common_key` with a fresh random nonce and framed with its name and
/// the manifest; the frame goes to the server at `server_mac` from the first
/// usable interface of `interfaces`, with the sync EtherType. Whatever nonce
/// was drawn, the frame carries it and the encryption of the file under it.
#[allow(non_snake_case)]
pub fn Sync(
    common_key: &[u8],
    file_name: &str,
    file_data: &[u8],
    manifest: &[u8],
    server_mac: &str,
    interfaces: &Vec<InterfaceInfo>,
) -> (r: Result<SyncFrame, SyncFailure>)
    requires
        payload_ready(common_key@, file_name.spec_bytes(), file_data@, manifest@) ==> sync_payload_len(
            file_name.spec_bytes(),
            file_data@,
            manifest@,
        ) + ETHERNET_HEADER_LEN <= usize::MAX,
    ensures
        match r {
            Ok(sent) => {
                &&& payload_ready(common_key@, file_name.spec_bytes(), file_data@, manifest@)
                &&& mac_octets(server_mac@) is Some
                &&& sent.interface < interfaces@.len()
                &&& usable_interface(interfaces@[sent.interface as int])
                &&& forall|j: int|
                    0 <= j < sent.interface ==> !usable_interface(#[trigger] interfaces@[j])
                &&& sent.frame@.len() == ETHERNET_HEADER_LEN + sync_payload_len(
                    file_name.spec_bytes(),
                    file_data@,
                    manifest@,
                )
                &&& exists|nonce: Seq<u8>|
                    nonce.len() == 12 && sent.frame@ == frame_bytes(
                        mac_octets(server_mac@).unwrap(),
                        interfaces@[sent.interface as int].mac.unwrap()@,
                        SYNC_ETHERTYPE,
                        sync_payload(
                            file_name.spec_bytes(),
                            #[trigger] aes256gcm_encrypt(common_key@, nonce, file_data@),
                            nonce,
                            manifest@,
                        ),
                    )
            },
            Err(SyncFailure::Encrypt(EncryptError::KeyLength)) => common_key@.len() != KEY_LEN,
            Err(SyncFailure::Encrypt(EncryptError::EncryptionFailed)) => common_key@.len()
                == KEY_LEN && file_data@.len() > MAX_PLAINTEXT_LEN,
            Err(SyncFailure::Payload(SyncError::NameTooLong)) => common_key@.len() == KEY_LEN
                && file_data@.len() <= MAX_PLAINTEXT_LEN && file_name.spec_bytes().len() > 0xFFFF,
            Err(SyncFailure::Payload(SyncError::ManifestTooLarge)) => common_key@.len() == KEY_LEN
                && file_data@.len() <= MAX_PLAINTEXT_LEN && file_name.spec_bytes().len() <= 0xFFFF
                && manifest@.len() > 0xFFFF_FFFF,
            Err(SyncFailure::Payload(SyncError::FileTooLarge)) => false,
            Err(SyncFailure::InvalidServerAddress) => payload_ready(
                common_key@,
                file_name.spec_bytes(),
                file_data@,
                manifest@,
            ) && mac_octets(server_mac@) is None,
            Err(SyncFailure::NoInterface) => {
                &&& payload_ready(common_key@, file_name.spec_bytes(), file_data@, manifest@)
                &&& mac_octets(server_mac@) is Some
                &&& forall|j: int|
                    0 <= j < interfaces@.len() ==> !usable_interface(#[trigger] interfaces@[j])
            },
        },
{
    let payload = match prepare_sync_payload(common_key, file_name, file_data, manifest) {
        Ok(p) => p,
        Err(e) => return Err(e),
    };
    let server = match parse_mac(server_mac) {
        Ok(octets) => octets,
        Err(_) => return Err(SyncFailure::InvalidServerAddress),
    };
    let index = match first_usable_interface(interfaces) {
        Some(i) => i,
        None => return Err(SyncFailure::NoInterface),
    };
    let source = match interfaces[index].mac {
        Some(m) => m,
        None => return Err(SyncFailure::NoInterface),
    };
    let frame = build_sync_frame(server, source, &payload);
    Ok(SyncFrame { interface: index, frame })
}

} // verus!
