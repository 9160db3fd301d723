use rftmle::protocol::{
    build_sync_payload, decrypted_file_name, parse_file_transfer, sealed_file_is_temporary,
    SyncError, TransferError,
};

fn transfer(name: &[u8], dek: &[u8], file: &[u8]) -> Vec<u8> {
    let mut p = b"FILE".to_vec();
    p.push(1);
    p.extend_from_slice(&(name.len() as u16).to_be_bytes());
    p.extend_from_slice(&(dek.len() as u32).to_be_bytes());
    p.extend_from_slice(&(file.len() as u64).to_be_bytes());
    p.extend_from_slice(name);
    p.extend_from_slice(dek);
    p.extend_from_slice(file);
    p
}

#[test]
fn sync_payload_layout() {
    let p = build_sync_payload("ab", &[1, 2, 3], &[9u8; 12], b"{}").unwrap();
    let mut expected = vec![0x53, 0x59, 0x4E, 0x43, 1, 0, 2, 0, 0, 0, 2, 0, 0, 0, 0, 0, 0, 0, 3];
    expected.extend_from_slice(&[9u8; 12]);
    expected.extend_from_slice(b"ab");
    expected.extend_from_slice(&[1, 2, 3]);
    expected.extend_from_slice(b"{}");
    assert_eq!(p, expected);
    assert_eq!(p.len(), 31 + 2 + 3 + 2);
}

#[test]
fn sync_payload_counts_name_in_utf8_bytes() {
    let p = build_sync_payload("é", &[], &[0u8; 12], &[]).unwrap();
    assert_eq!(&p[5..7], &[0, 2]);
    assert_eq!(&p[31..], "é".as_bytes());
}

#[test]
fn sync_payload_refuses_long_names() {
    let name = "n".repeat(65536);
    assert_eq!(build_sync_payload(&name, &[], &[0u8; 12], &[]), Err(SyncError::NameTooLong));
    let name = "n".repeat(65535);
    assert!(build_sync_payload(&name, &[], &[0u8; 12], &[]).is_ok());
}

#[test]
fn transfer_roundtrip_with_padding() {
    let mut p = transfer(b"report.pdf.server.enc", &[5, 6], &[7, 8, 9]);
    p.extend_from_slice(&[0u8; 20]);
    let t = parse_file_transfer(&p).unwrap();
    assert_eq!(t.file_name, "report.pdf.server.enc");
    assert_eq!(t.encrypted_dek, vec![5, 6]);
    assert_eq!(t.encrypted_file, vec![7, 8, 9]);
}

#[test]
fn transfer_errors() {
    assert_eq!(parse_file_transfer(&[0u8; 18]).err(), Some(TransferError::PayloadTooSmall(18)));
    let mut bad_magic = transfer(b"a", &[], &[]);
    bad_magic[0] = b'X';
    assert_eq!(parse_file_transfer(&bad_magic).err(), Some(TransferError::InvalidMagic));
    let mut bad_version = transfer(b"a", &[], &[]);
    bad_version[4] = 2;
    assert_eq!(parse_file_transfer(&bad_version).err(), Some(TransferError::UnsupportedVersion(2)));
    let mut short = transfer(b"abc", &[1], &[2, 3]);
    short.pop();
    assert_eq!(
        parse_file_transfer(&short).err(),
        Some(TransferError::IncompletePacket { expected: 25, received: 24 })
    );
    assert_eq!(parse_file_transfer(&transfer(&[0xff, 0xfe], &[], &[])).err(), Some(TransferError::InvalidUtf8Name));
    for name in ["", "../x", "a..b", "/etc/passwd", "\\x"] {
        assert_eq!(
            parse_file_transfer(&transfer(name.as_bytes(), &[], &[])).err(),
            Some(TransferError::InvalidFileName),
            "{}",
            name
        );
    }
    assert!(parse_file_transfer(&transfer(b"dir/a.b", &[], &[])).is_ok());
}

#[test]
fn oversized_declarations_are_incomplete_packets() {
    let mut p = transfer(b"a", &[], &[]);
    p[7..11].copy_from_slice(&u32::MAX.to_be_bytes());
    p[11..19].copy_from_slice(&u64::MAX.to_be_bytes());
    let expected = 19u128 + 1 + u32::MAX as u128 + u64::MAX as u128;
    assert_eq!(
        parse_file_transfer(&p).err(),
        Some(TransferError::IncompletePacket { expected, received: 20 })
    );
}

#[test]
fn sealed_file_is_removed_only_when_renamed() {
    assert!(sealed_file_is_temporary("a.txt.server.enc"));
    assert!(!sealed_file_is_temporary("a.txt"));
}

#[test]
fn decrypted_names() {
    assert_eq!(decrypted_file_name("report.pdf.server.enc"), "report.pdf");
    assert_eq!(decrypted_file_name("report.pdf"), "report.pdf");
    assert_eq!(decrypted_file_name(".server.enc"), "");
    assert_eq!(decrypted_file_name("a.server.enc.key"), "a.server.enc.key");
}
