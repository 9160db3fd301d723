//! The two payloads exchanged with the server inside Ethernet frames.
//!
//! A sync payload, sent by the client when a file changes:
//!
//! | field               | bytes |
//! |---------------------|-------|
//! | magic `SYNC`        | 4     |
//! | version             | 1     |
//! | file name length    | 2     |
//! | manifest length     | 4     |
//! | encrypted file len. | 8     |
//! | nonce               | 12    |
//!
//! followed by the file name, the encrypted file and the manifest.
//!
//! A file-transfer payload, sent by the server:
//!
//! | field               | bytes |
//! |---------------------|-------|
//! | magic `FILE`        | 4     |
//! | version             | 1     |
//! | file name length    | 2     |
//! | encrypted DEK len.  | 4     |
//! | encrypted file len. | 8     |
//!
//! followed by the file name, the encrypted data-encryption key and the
//! encrypted file. All lengths are big-endian.

use vstd::prelude::*;
use vstd::slice::{slice_subrange, slice_to_vec};
use vstd::string::*;
use vstd::utf8::{decode_utf8, valid_utf8};
use crate::bytes::{
    append_bytes, be16, be32, be64, get_be16, get_be32, get_be64, lemma_be16_roundtrip,
    lemma_be32_roundtrip, lemma_be64_roundtrip, lemma_read_be16_positional, lemma_read_be32_positional,
    lemma_read_be64_positional, push_be16, push_be32, push_be64, read_be16, read_be32, read_be64,
};
use crate::text::{
    contains_double_dot, ends_with_str, first_char_is, has_double_dot, has_suffix, strip_suffix_str,
    utf8_string,
};

verus! {

/// The version byte of both payloads.
pub const PROTOCOL_VERSION: u8 = 1;

/// The size of the fixed part of a sync payload.
pub const SYNC_HEADER_SIZE: usize = 31;

/// The size of the fixed part of a file-transfer payload.
pub const TRANSFER_HEADER_SIZE: usize = 19;

/// The bytes of `SYNC`.
pub open spec fn sync_magic() -> Seq<u8> {
    seq![0x53u8, 0x59u8, 0x4Eu8, 0x43u8]
}

/// The bytes of `FILE`.
pub open spec fn transfer_magic() -> Seq<u8> {
    seq![0x46u8, 0x49u8, 0x4Cu8, 0x45u8]
}

/// The sync payload for a file called `name` (in UTF-8), its encrypted
/// contents, the nonce they were encrypted with, and the manifest.
pub open spec fn sync_payload(name: Seq<u8>, file: Seq<u8>, nonce: Seq<u8>, manifest: Seq<u8>) -> Seq<u8> {
    sync_magic() + seq![PROTOCOL_VERSION] + be16(name.len() as u16) + be32(manifest.len() as u32)
        + be64(file.len() as u64) + nonce + name + file + manifest
}

/// Why a sync payload cannot be built.
#[derive(Clone, Copy, Debug, PartialEq, Eq, Structural)]
pub enum SyncError {
    /// The file name takes more than 65535 bytes.
    NameTooLong,
    /// The manifest takes more than 2^32 - 1 bytes.
    ManifestTooLarge,
    /// The encrypted file takes more than 2^64 - 1 bytes.
    FileTooLarge,
}

/// Builds the sync payload for `file_name`, its encrypted contents, their
/// nonce and the manifest.
pub fn build_sync_payload(
    file_name: &str,
    encrypted_file: &[u8],
    nonce: &[u8; 12],
    manifest: &[u8],
) -> (r: Result<Vec<u8>, SyncError>)
    ensures
        match r {
            Ok(payload) => {
                &&& file_name.spec_bytes().len() <= 0xFFFF
                &&& manifest@.len() <= 0xFFFF_FFFF
                &&& payload@ == sync_payload(
                    file_name.spec_bytes(),
                    encrypted_file@,
                    nonce@,
                    manifest@,
                )
                &&& payload@.len() == SYNC_HEADER_SIZE + file_name.spec_bytes().len()
                    + encrypted_file@.len() + manifest@.len()
            },
            Err(SyncError::NameTooLong) => file_name.spec_bytes().len() > 0xFFFF,
            Err(SyncError::ManifestTooLarge) => file_name.spec_bytes().len() <= 0xFFFF
                && manifest@.len() > 0xFFFF_FFFF,
            Err(SyncError::FileTooLarge) => file_name.spec_bytes().len() <= 0xFFFF
                && manifest@.len() <= 0xFFFF_FFFF && encrypted_file@.len()
                > 0xFFFF_FFFF_FFFF_FFFF,
        },
{
    let name = file_name.as_bytes();
    if name.len() > 0xFFFF {
        return Err(SyncError::NameTooLong);
    }
    if manifest.len() > 0xFFFF_FFFF {
        return Err(SyncError::ManifestTooLarge);
    }
    if encrypted_file.len() as u128 > 0xFFFF_FFFF_FFFF_FFFFu128 {
        return Err(SyncError::FileTooLarge);
    }
    let mut payload: Vec<u8> = Vec::new();
    payload.push(0x53);
    payload.push(0x59);
    payload.push(0x4E);
    payload.push(0x43);
    payload.push(PROTOCOL_VERSION);
    push_be16(&mut payload, name.len() as u16);
    push_be32(&mut payload, manifest.len() as u32);
    push_be64(&mut payload, encrypted_file.len() as u64);
    append_bytes(&mut payload, nonce.as_slice());
    append_bytes(&mut payload, name);
    append_bytes(&mut payload, encrypted_file);
    append_bytes(&mut payload, manifest);
    assert(payload@ =~= sync_payload(name@, encrypted_file@, nonce@, manifest@));
    Ok(payload)
}

/// The file name length declared in a file-transfer header.
pub open spec fn declared_name_len(p: Seq<u8>) -> int {
    read_be16(p, 5) as int
}

/// The encrypted-key length declared in a file-transfer header.
pub open spec fn declared_dek_len(p: Seq<u8>) -> int {
    read_be32(p, 7) as int
}

/// The encrypted-file length declared in a file-transfer header.
pub open spec fn declared_file_len(p: Seq<u8>) -> int {
    read_be64(p, 11) as int
}

/// The whole size that a file-transfer header declares.
pub open spec fn declared_size(p: Seq<u8>) -> int {
    TRANSFER_HEADER_SIZE + declared_name_len(p) + declared_dek_len(p) + declared_file_len(p)
}

/// The header is one that is checked against its declared size.
pub open spec fn header_accepted(p: Seq<u8>) -> bool {
    p.len() >= TRANSFER_HEADER_SIZE && p.subrange(0, 4) == transfer_magic() && p[4]
        == PROTOCOL_VERSION
}

/// A received file name may be stored: it is not empty, does not climb up
/// with `..`, and is not absolute.
pub open spec fn valid_received_name(name: Seq<char>) -> bool {
    &&& name.len() > 0
    &&& !has_double_dot(name)
    &&& name[0] != '/'
    &&& name[0] != '\\'
}

/// Why a file-transfer payload is refused.
#[derive(Clone, Copy, Debug, PartialEq, Eq, Structural)]
pub enum TransferError {
    /// Shorter than the fixed header; holds the payload's length.
    PayloadTooSmall(usize),
    /// The payload does not start with `FILE`.
    InvalidMagic,
    /// The version byte is not the one this client speaks; holds it.
    UnsupportedVersion(u8),
    /// The payload is shorter than its header declares. The declared size is
    /// given in full, even where it exceeds what a `usize` holds.
    IncompletePacket { expected: u128, received: usize },
    /// The file name is not valid UTF-8.
    InvalidUtf8Name,
    /// The file name is empty, holds `..`, or starts with a slash or backslash.
    InvalidFileName,
}

/// What a file-transfer payload holds.
pub struct FileTransfer {
    pub file_name: String,
    pub encrypted_dek: Vec<u8>,
    pub encrypted_file: Vec<u8>,
}

/// What parsing a file-transfer payload gives: the file name, the encrypted
/// data-encryption key and the encrypted file, or why it is refused.
pub open spec fn parse_transfer(p: Seq<u8>) -> Result<(Seq<char>, Seq<u8>, Seq<u8>), TransferError> {
    if p.len() < TRANSFER_HEADER_SIZE {
        Err(TransferError::PayloadTooSmall(p.len() as usize))
    } else if p.subrange(0, 4) != transfer_magic() {
        Err(TransferError::InvalidMagic)
    } else if p[4] != PROTOCOL_VERSION {
        Err(TransferError::UnsupportedVersion(p[4]))
    } else if p.len() < declared_size(p) {
        Err(
            TransferError::IncompletePacket {
                expected: declared_size(p) as u128,
                received: p.len() as usize,
            },
        )
    } else {
        let a = TRANSFER_HEADER_SIZE as int;
        let b = a + declared_name_len(p);
        let c = b + declared_dek_len(p);
        let d = c + declared_file_len(p);
        let name_bytes = p.subrange(a, b);
        if !valid_utf8(name_bytes) {
            Err(TransferError::InvalidUtf8Name)
        } else if !valid_received_name(decode_utf8(name_bytes)) {
            Err(TransferError::InvalidFileName)
        } else {
            Ok((decode_utf8(name_bytes), p.subrange(b, c), p.subrange(c, d)))
        }
    }
}

/// Parses a file-transfer payload. Bytes after the declared contents, such as
/// the padding of a short Ethernet frame, are ignored.
pub fn parse_file_transfer(payload: &[u8]) -> (r: Result<FileTransfer, TransferError>)
    ensures
        match r {
            Ok(t) => parse_transfer(payload@) == Ok::<(Seq<char>, Seq<u8>, Seq<u8>), TransferError>(
                (t.file_name@, t.encrypted_dek@, t.encrypted_file@),
            ),
            Err(e) => parse_transfer(payload@) == Err::<(Seq<char>, Seq<u8>, Seq<u8>), TransferError>(e),
        },
{
    let len = payload.len();
    if len < TRANSFER_HEADER_SIZE {
        return Err(TransferError::PayloadTooSmall(len));
    }
    if !(payload[0] == 0x46 && payload[1] == 0x49 && payload[2] == 0x4C && payload[3] == 0x45) {
        assert(payload@.subrange(0, 4) != transfer_magic()) by {
            let s = payload@.subrange(0, 4);
            assert(s[0] == payload@[0] && s[1] == payload@[1] && s[2] == payload@[2] && s[3] == payload@[3]);
        }
        return Err(TransferError::InvalidMagic);
    }
    assert(payload@.subrange(0, 4) =~= transfer_magic());
    let version = payload[4];
    if version != PROTOCOL_VERSION {
        return Err(TransferError::UnsupportedVersion(version));
    }
    let name_len = get_be16(payload, 5);
    let dek_len = get_be32(payload, 7);
    let file_len = get_be64(payload, 11);
    let expected = TRANSFER_HEADER_SIZE as u128 + name_len as u128 + dek_len as u128
        + file_len as u128;
    if (len as u128) < expected {
        return Err(TransferError::IncompletePacket { expected, received: len });
    }
    let a = TRANSFER_HEADER_SIZE;
    let b = a + name_len as usize;
    let c = b + dek_len as usize;
    let d = c + file_len as usize;
    let file_name = match utf8_string(slice_subrange(payload, a, b)) {
        Some(name) => name,
        None => return Err(TransferError::InvalidUtf8Name),
    };
    let name = file_name.as_str();
    if name.is_empty() || contains_double_dot(name) || first_char_is(name, '/') || first_char_is(name, '\\') {
        return Err(TransferError::InvalidFileName);
    }
    let encrypted_dek = slice_to_vec(slice_subrange(payload, b, c));
    let encrypted_file = slice_to_vec(slice_subrange(payload, c, d));
    Ok(FileTransfer { file_name, encrypted_dek, encrypted_file })
}

/// The suffix of a file received from the server before it is decrypted.
pub open spec fn server_suffix() -> Seq<char> {
    seq!['.', 's', 'e', 'r', 'v', 'e', 'r', '.', 'e', 'n', 'c']
}

/// The name under which a received file is stored once decrypted: its name
/// without the `.server.enc` suffix, or its name unchanged.
pub open spec fn decrypted_name(name: Seq<char>) -> Seq<char> {
    if has_suffix(name, server_suffix()) {
        name.subrange(0, name.len() - server_suffix().len())
    } else {
        name
    }
}

/// The name under which a received file is stored once decrypted.
pub fn decrypted_file_name(file_name: &str) -> (r: String)
    ensures
        r@ == decrypted_name(file_name@),
{
    let suffix = ".server.enc";
    proof {
        reveal_strlit(".server.enc");
        assert(suffix@ =~= server_suffix());
    }
    match strip_suffix_str(file_name, suffix) {
        Some(stem) => stem,
        None => file_name.to_owned(),
    }
}

/// Whether the received encrypted file is a temporary to remove once its
/// plaintext is stored: it is, unless the plaintext is stored under the same
/// name (a name without the `.server.enc` suffix), which removing it would
/// delete.
pub fn sealed_file_is_temporary(file_name: &str) -> (r: bool)
    ensures
        r == (decrypted_name(file_name@) != file_name@),
{
    let suffix = ".server.enc";
    proof {
        reveal_strlit(".server.enc");
        assert(suffix@ =~= server_suffix());
        if has_suffix(file_name@, server_suffix()) {
            assert(decrypted_name(file_name@).len() < file_name@.len());
        }
    }
    ends_with_str(file_name, suffix)
}

/// A name that the server gave the `.server.enc` suffix is stored under the
/// name without it.
pub proof fn lemma_decrypted_name_strips_suffix(name: Seq<char>)
    ensures
        decrypted_name(name + server_suffix()) == name,
{
    let s = name + server_suffix();
    assert(s.subrange(s.len() - server_suffix().len(), s.len() as int) =~= server_suffix());
    assert(s.subrange(0, s.len() - server_suffix().len()) =~= name);
}

/// The length fields of a sync payload hold the lengths of the name, the
/// manifest and the encrypted file, each byte weighed by its position, most
/// significant first; the payload starts with `SYNC` and the version, and the
/// nonce, name, file and manifest follow the header in that order.
pub proof fn lemma_sync_payload_fields(name: Seq<u8>, file: Seq<u8>, nonce: Seq<u8>, manifest: Seq<u8>)
    requires
        name.len() <= 0xFFFF,
        manifest.len() <= 0xFFFF_FFFF,
        file.len() <= 0xFFFF_FFFF_FFFF_FFFF,
        nonce.len() == 12,
    ensures
        ({
            let p = sync_payload(name, file, nonce, manifest);
            &&& p.len() == SYNC_HEADER_SIZE + name.len() + file.len() + manifest.len()
            &&& p[0] == 0x53 && p[1] == 0x59 && p[2] == 0x4E && p[3] == 0x43 && p[4] == 1
            &&& p[5] as int * 0x100 + p[6] as int == name.len()
            &&& p[7] as int * 0x100_0000 + p[8] as int * 0x1_0000 + p[9] as int * 0x100 + p[10] as int
                == manifest.len()
            &&& p[11] as int * 0x100_0000_0000_0000 + p[12] as int * 0x1_0000_0000_0000 + p[13] as int
                * 0x100_0000_0000 + p[14] as int * 0x1_0000_0000 + p[15] as int * 0x100_0000
                + p[16] as int * 0x1_0000 + p[17] as int * 0x100 + p[18] as int == file.len()
            &&& p.subrange(19, 31) == nonce
            &&& p.subrange(31, 31 + name.len() as int) == name
            &&& p.subrange(31 + name.len() as int, 31 + name.len() as int + file.len() as int) == file
            &&& p.subrange(31 + name.len() as int + file.len() as int, p.len() as int) == manifest
        }),
{
    let p = sync_payload(name, file, nonce, manifest);
    assert(p.subrange(5, 7) =~= be16(name.len() as u16));
    assert(p.subrange(7, 11) =~= be32(manifest.len() as u32));
    assert(p.subrange(11, 19) =~= be64(file.len() as u64));
    lemma_be16_roundtrip(name.len() as u16, p, 5);
    lemma_be32_roundtrip(manifest.len() as u32, p, 7);
    lemma_be64_roundtrip(file.len() as u64, p, 11);
    lemma_read_be16_positional(p, 5);
    lemma_read_be32_positional(p, 7);
    lemma_read_be64_positional(p, 11);
    assert(p.subrange(19, 31) =~= nonce);
    assert(p.subrange(31, 31 + name.len() as int) =~= name);
    assert(p.subrange(31 + name.len() as int, 31 + name.len() as int + file.len() as int) =~= file);
    assert(p.subrange(31 + name.len() as int + file.len() as int, p.len() as int) =~= manifest);
}

/// The lengths that a file-transfer header declares are its bytes weighed by
/// their positions, most significant first: the name length at 5..7, the
/// encrypted-key length at 7..11, the encrypted-file length at 11..19.
pub proof fn lemma_declared_lengths_positional(p: Seq<u8>)
    requires
        p.len() >= TRANSFER_HEADER_SIZE,
    ensures
        declared_name_len(p) == p[5] as int * 0x100 + p[6] as int,
        declared_dek_len(p) == p[7] as int * 0x100_0000 + p[8] as int * 0x1_0000 + p[9] as int
            * 0x100 + p[10] as int,
        declared_file_len(p) == p[11] as int * 0x100_0000_0000_0000 + p[12] as int
            * 0x1_0000_0000_0000 + p[13] as int * 0x100_0000_0000 + p[14] as int * 0x1_0000_0000
            + p[15] as int * 0x100_0000 + p[16] as int * 0x1_0000 + p[17] as int * 0x100 + p[18] as int,
{
    lemma_read_be16_positional(p, 5);
    lemma_read_be32_positional(p, 7);
    lemma_read_be64_positional(p, 11);
}

/// The file-transfer payload that carries `name` (in UTF-8), `dek` and `file`.
pub open spec fn transfer_payload(name: Seq<u8>, dek: Seq<u8>, file: Seq<u8>) -> Seq<u8> {
    transfer_magic() + seq![PROTOCOL_VERSION] + be16(name.len() as u16) + be32(dek.len() as u32)
        + be64(file.len() as u64) + name + dek + file
}

/// A payload laid out as the file-transfer header describes is parsed back
/// into its file name, encrypted key and encrypted file, whatever padding
/// follows it, provided the name may be stored.
pub proof fn lemma_transfer_roundtrip(name: Seq<char>, dek: Seq<u8>, file: Seq<u8>, padding: Seq<u8>)
    requires
        valid_received_name(name),
        vstd::utf8::encode_utf8(name).len() <= 0xFFFF,
        dek.len() <= 0xFFFF_FFFF,
        file.len() <= 0xFFFF_FFFF_FFFF_FFFF,
    ensures
        parse_transfer(transfer_payload(vstd::utf8::encode_utf8(name), dek, file) + padding) == Ok::<
            (Seq<char>, Seq<u8>, Seq<u8>),
            TransferError,
        >((name, dek, file)),
{
    broadcast use vstd::utf8::encode_utf8_valid_utf8, vstd::utf8::encode_utf8_decode_utf8;
    let nb = vstd::utf8::encode_utf8(name);
    let p = transfer_payload(nb, dek, file) + padding;
    let nl = nb.len() as u16;
    let dl = dek.len() as u32;
    let fl = file.len() as u64;
    assert(p.subrange(0, 4) =~= transfer_magic());
    assert(p.subrange(5, 7) =~= be16(nl));
    assert(p.subrange(7, 11) =~= be32(dl));
    assert(p.subrange(11, 19) =~= be64(fl));
    lemma_be16_roundtrip(nl, p, 5);
    lemma_be32_roundtrip(dl, p, 7);
    lemma_be64_roundtrip(fl, p, 11);
    let b = 19 + nb.len();
    let c = b + dek.len();
    let d = c + file.len();
    assert(p.subrange(19, b as int) =~= nb);
    assert(p.subrange(b as int, c as int) =~= dek);
    assert(p.subrange(c as int, d as int) =~= file);
}

} // verus!
