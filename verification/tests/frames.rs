use rftmle::ethernet::{
    build_frame, build_sync_frame, classify_frame, first_usable_interface, FrameVerdict,
    InterfaceInfo, FILE_TRANSFER_ETHERTYPE,
};

const CLIENT: [u8; 6] = [0x02, 0x11, 0x22, 0x33, 0x44, 0x55];
const SERVER: [u8; 6] = [0x34, 0x5A, 0x60, 0x94, 0x2E, 0x02];

#[test]
fn frame_layout() {
    let f = build_frame(SERVER, CLIENT, 0x1234, &[9, 8]);
    assert_eq!(f, vec![0x34, 0x5A, 0x60, 0x94, 0x2E, 0x02, 0x02, 0x11, 0x22, 0x33, 0x44, 0x55, 0x12, 0x34, 9, 8]);
    let s = build_sync_frame(SERVER, CLIENT, &[1]);
    assert_eq!(&s[12..], &[0x88, 0xB5, 1]);
}

#[test]
fn transfer_to_client_is_accepted() {
    let f = build_frame(CLIENT, SERVER, FILE_TRANSFER_ETHERTYPE, &[1, 2, 3]);
    match classify_frame(&f, CLIENT) {
        FrameVerdict::Transfer(t) => {
            assert_eq!(t.payload, vec![1, 2, 3]);
            assert_eq!(t.source, SERVER);
            assert_eq!(t.destination, CLIENT);
            assert_eq!(t.ethertype, 0x88B6);
        }
        _ => panic!("not accepted"),
    }
}

#[test]
fn broadcast_transfer_is_accepted() {
    let f = build_frame([0xff; 6], SERVER, FILE_TRANSFER_ETHERTYPE, &[]);
    assert!(matches!(classify_frame(&f, CLIENT), FrameVerdict::Transfer(_)));
}

#[test]
fn other_frames_are_refused() {
    assert!(matches!(classify_frame(&[0u8; 13], CLIENT), FrameVerdict::Invalid));
    let other = build_frame(SERVER, CLIENT, FILE_TRANSFER_ETHERTYPE, &[1]);
    assert!(matches!(classify_frame(&other, CLIENT), FrameVerdict::NotForUs));
    let sync = build_sync_frame(CLIENT, SERVER, &[1]);
    assert!(matches!(classify_frame(&sync, CLIENT), FrameVerdict::OtherProtocol));
}

#[test]
fn interface_selection() {
    let ifaces = vec![
        InterfaceInfo { is_up: true, is_loopback: true, mac: Some([0; 6]) },
        InterfaceInfo { is_up: false, is_loopback: false, mac: Some(CLIENT) },
        InterfaceInfo { is_up: true, is_loopback: false, mac: Some([0; 6]) },
        InterfaceInfo { is_up: true, is_loopback: false, mac: None },
        InterfaceInfo { is_up: true, is_loopback: false, mac: Some(CLIENT) },
        InterfaceInfo { is_up: true, is_loopback: false, mac: Some(SERVER) },
    ];
    assert_eq!(first_usable_interface(&ifaces), Some(4));
    assert_eq!(first_usable_interface(&ifaces[..4].iter().map(|i| InterfaceInfo { is_up: i.is_up, is_loopback: i.is_loopback, mac: i.mac }).collect()), None);
}
