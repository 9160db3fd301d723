use rftmle::crypto::{
    DecryptReceivedFile, check_dek, check_intermediate, encrypt_with_nonce, open_common_layer, open_dek_layer,
    DecryptError, EncryptError, EncryptFile,
};
use rftmle::ethernet::InterfaceInfo;
use rftmle::sync::{prepare_sync_payload, Sync, SyncFailure};
use rftmle::protocol::SyncError;

fn hex(s: &str) -> Vec<u8> {
    (0..s.len()).step_by(2).map(|i| u8::from_str_radix(&s[i..i + 2], 16).unwrap()).collect()
}

fn sealed(key: &[u8], nonce: [u8; 12], data: &[u8]) -> Vec<u8> {
    let (c, n) = encrypt_with_nonce(key, nonce, data).unwrap();
    let mut s = n.to_vec();
    s.extend_from_slice(&c);
    s
}

#[test]
fn aes256gcm_known_answers() {
    let (c, n) = encrypt_with_nonce(&[0u8; 32], [0u8; 12], &[]).unwrap();
    assert_eq!(c, hex("530f8afbc74536b9a963b4f1c4cb738b"));
    assert_eq!(n, [0u8; 12]);
    let (c, _) = encrypt_with_nonce(&[0u8; 32], [0u8; 12], &[0u8; 16]).unwrap();
    assert_eq!(c, hex("cea7403d4d606b6e074ec5d3baf39d18d0d1c8a799996bf0265b98b5d48ab919"));
}

#[test]
fn encryption_needs_a_32_byte_key() {
    assert_eq!(EncryptFile(&[0u8; 31], b"x"), Err(EncryptError::KeyLength));
    assert_eq!(encrypt_with_nonce(&[0u8; 33], [0u8; 12], b"x"), Err(EncryptError::KeyLength));
}

#[test]
fn encrypted_file_opens_under_common_key() {
    let key = [7u8; 32];
    let (c, n) = EncryptFile(&key, b"hello world").unwrap();
    assert_eq!(c.len(), 11 + 16);
    let mut layer = n.to_vec();
    layer.extend_from_slice(&c);
    assert_eq!(open_common_layer(&key, &layer), Ok(b"hello world".to_vec()));
}

#[test]
fn two_layers_open_in_turn() {
    let common = [1u8; 32];
    let dek = [2u8; 32];
    let inner = sealed(&common, [3u8; 12], b"plain text");
    let outer = sealed(&dek, [4u8; 12], &inner);
    assert_eq!(check_dek(&dek), Ok(()));
    let intermediate = open_dek_layer(&dek, &outer).unwrap();
    assert_eq!(intermediate, inner);
    assert_eq!(check_intermediate(&intermediate), Ok(()));
    assert_eq!(open_common_layer(&common, &intermediate), Ok(b"plain text".to_vec()));
}

#[test]
fn decryption_errors() {
    assert_eq!(check_dek(&[0u8; 16]), Err(DecryptError::DekLength(16)));
    let dek = [2u8; 32];
    assert_eq!(open_dek_layer(&dek, &[0u8; 11]), Err(DecryptError::SealedFileTooSmall));
    let mut outer = sealed(&dek, [4u8; 12], b"abc");
    let last = outer.len() - 1;
    outer[last] ^= 1;
    assert_eq!(open_dek_layer(&dek, &outer), Err(DecryptError::DekDecryptionFailed));
    assert_eq!(check_intermediate(&[0u8; 11]), Err(DecryptError::IntermediateTooSmall));
    assert_eq!(open_common_layer(&[0u8; 5], &[0u8; 40]), Err(DecryptError::CommonKeyLength(5)));
    let wrong = sealed(&[9u8; 32], [0u8; 12], b"abc");
    assert_eq!(open_common_layer(&[8u8; 32], &wrong), Err(DecryptError::CommonDecryptionFailed));
}

#[test]
fn sync_payload_carries_the_encrypted_file() {
    let key = [5u8; 32];
    let p = prepare_sync_payload(&key, "doc.txt", b"contents", b"{}").unwrap();
    assert_eq!(&p[0..5], b"SYNC\x01");
    assert_eq!(&p[5..7], &[0, 7]);
    assert_eq!(&p[7..11], &[0, 0, 0, 2]);
    assert_eq!(&p[11..19], &(8u64 + 16).to_be_bytes());
    let nonce = &p[19..31];
    assert_eq!(&p[31..38], b"doc.txt");
    let cipher = &p[38..38 + 24];
    assert_eq!(&p[62..], b"{}");
    let mut layer = nonce.to_vec();
    layer.extend_from_slice(cipher);
    assert_eq!(open_common_layer(&key, &layer), Ok(b"contents".to_vec()));
}

#[test]
fn sync_payload_failures() {
    assert_eq!(prepare_sync_payload(&[0u8; 3], "a", b"", b""), Err(SyncFailure::Encrypt(EncryptError::KeyLength)));
    let long = "x".repeat(70000);
    assert_eq!(prepare_sync_payload(&[0u8; 32], &long, b"", b""), Err(SyncFailure::Payload(SyncError::NameTooLong)));
}

const SERVER: &str = "34:5A:60:94:2E:02";

fn ifaces() -> Vec<InterfaceInfo> {
    vec![
        InterfaceInfo { is_up: true, is_loopback: true, mac: Some([0; 6]) },
        InterfaceInfo { is_up: true, is_loopback: false, mac: Some([2, 0, 0, 0, 0, 7]) },
    ]
}

#[test]
fn sync_frame_goes_to_the_server_from_the_chosen_interface() {
    let key = [5u8; 32];
    let sent = Sync(&key, "doc.txt", b"contents", b"{}", SERVER, &ifaces()).unwrap();
    assert_eq!(sent.interface, 1);
    let f = &sent.frame;
    assert_eq!(f.len(), 14 + 31 + 7 + 8 + 16 + 2);
    assert_eq!(&f[0..6], &[0x34, 0x5A, 0x60, 0x94, 0x2E, 0x02]);
    assert_eq!(&f[6..12], &[2, 0, 0, 0, 0, 7]);
    assert_eq!(&f[12..14], &[0x88, 0xB5]);
    assert_eq!(&f[14..19], b"SYNC\x01");
    let mut layer = f[33..45].to_vec();
    layer.extend_from_slice(&f[52..76]);
    assert_eq!(open_common_layer(&key, &layer), Ok(b"contents".to_vec()));
}

#[test]
fn sync_frame_failures() {
    let key = [5u8; 32];
    assert_eq!(
        Sync(&key, "a", b"x", b"", "34:5A", &ifaces()).err(),
        Some(SyncFailure::InvalidServerAddress)
    );
    assert_eq!(
        Sync(&key, "a", b"x", b"", SERVER, &ifaces()[..1].iter().map(|i| InterfaceInfo { is_up: i.is_up, is_loopback: i.is_loopback, mac: i.mac }).collect()).err(),
        Some(SyncFailure::NoInterface)
    );
    assert_eq!(
        Sync(&[0u8; 1], "a", b"x", b"", "bad", &Vec::new()).err(),
        Some(SyncFailure::Encrypt(EncryptError::KeyLength))
    );
}

#[test]
fn encrypt_file_draws_fresh_nonces() {
    let key = [3u8; 32];
    let (c1, n1) = EncryptFile(&key, b"same").unwrap();
    let (c2, n2) = EncryptFile(&key, b"same").unwrap();
    assert_ne!(n1, n2);
    assert_ne!(c1, c2);
    assert_eq!(encrypt_with_nonce(&key, n1, b"same"), Ok((c1, n1)));
}

#[test]
fn received_file_decrypts_through_both_layers() {
    let common = [1u8; 32];
    let dek = [2u8; 32];
    let (c, n) = EncryptFile(&common, b"the file").unwrap();
    let mut inner = n.to_vec();
    inner.extend_from_slice(&c);
    let outer = sealed(&dek, [4u8; 12], &inner);
    assert_eq!(DecryptReceivedFile(&dek, Some(&outer), Some(&common)), Ok(b"the file".to_vec()));
}

#[test]
fn received_file_errors_come_in_order() {
    let common = [1u8; 32];
    let dek = [2u8; 32];
    assert_eq!(DecryptReceivedFile(&[0u8; 3], None, None), Err(DecryptError::DekLength(3)));
    assert_eq!(DecryptReceivedFile(&dek, None, Some(&common)), Err(DecryptError::SealedFileUnreadable));
    assert_eq!(DecryptReceivedFile(&dek, Some(&[0u8; 5]), None), Err(DecryptError::SealedFileTooSmall));
    let short_inner = sealed(&dek, [4u8; 12], &[9u8; 3]);
    assert_eq!(DecryptReceivedFile(&dek, Some(&short_inner), None), Err(DecryptError::IntermediateTooSmall));
    let inner = sealed(&common, [3u8; 12], b"x");
    let outer = sealed(&dek, [4u8; 12], &inner);
    assert_eq!(DecryptReceivedFile(&dek, Some(&outer), None), Err(DecryptError::CommonKeyUnreadable));
    assert_eq!(DecryptReceivedFile(&dek, Some(&outer), Some(&[0u8; 4])), Err(DecryptError::CommonKeyLength(4)));
    assert_eq!(DecryptReceivedFile(&dek, Some(&outer), Some(&[7u8; 32])), Err(DecryptError::CommonDecryptionFailed));
}
