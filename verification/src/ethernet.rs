//! Ethernet frames: building the frame that carries a sync payload to the
//! server, and recognising the frames that carry a file transfer to this
//! client. The bytes are read and written through the packet views of `pnet`.

use vstd::prelude::*;
use pnet::packet::Packet;
use crate::bytes::{be16, read_be16};

verus! {

/// The length of an Ethernet header: destination, source, EtherType.
pub const ETHERNET_HEADER_LEN: usize = 14;

/// The EtherType of frames that carry a sync payload to the server.
pub const SYNC_ETHERTYPE: u16 = 0x88B5;

/// The EtherType of frames that carry a file transfer from the server.
pub const FILE_TRANSFER_ETHERTYPE: u16 = 0x88B6;

/// The destination address of a frame.
pub open spec fn destination_of(frame: Seq<u8>) -> Seq<u8> {
    frame.subrange(0, 6)
}

/// The source address of a frame.
pub open spec fn source_of(frame: Seq<u8>) -> Seq<u8> {
    frame.subrange(6, 12)
}

/// The EtherType of a frame.
pub open spec fn ethertype_of(frame: Seq<u8>) -> u16 {
    read_be16(frame, 12)
}

/// The payload of a frame: everything after the header.
pub open spec fn payload_of(frame: Seq<u8>) -> Seq<u8> {
    frame.subrange(ETHERNET_HEADER_LEN as int, frame.len() as int)
}

/// The frame with the given header fields and payload.
pub open spec fn frame_bytes(destination: Seq<u8>, source: Seq<u8>, ethertype: u16, payload: Seq<u8>) -> Seq<u8> {
    destination + source + be16(ethertype) + payload
}

/// The address that every station receives.
pub open spec fn broadcast_address() -> Seq<u8> {
    seq![0xffu8, 0xffu8, 0xffu8, 0xffu8, 0xffu8, 0xffu8]
}

/// The all-zero address.
pub open spec fn zero_address() -> Seq<u8> {
    seq![0u8, 0u8, 0u8, 0u8, 0u8, 0u8]
}

/// Calls `EthernetPacket::new` of `pnet`, which accepts a buffer exactly when
/// it can hold an Ethernet header.
#[verifier::external_body]
fn is_ethernet_frame(frame: &[u8]) -> (r: bool)
    ensures
        r == (frame@.len() >= ETHERNET_HEADER_LEN),
{
    pnet::packet::ethernet::EthernetPacket::new(frame).is_some()
}

/// Views the frame through `EthernetPacket::new` of `pnet` and calls
/// `get_destination`: the first six bytes.
#[verifier::external_body]
fn frame_destination(frame: &[u8]) -> (r: [u8; 6])
    requires
        frame@.len() >= ETHERNET_HEADER_LEN,
    ensures
        r@ == destination_of(frame@),
{
    pnet::packet::ethernet::EthernetPacket::new(frame).unwrap().get_destination().octets()
}

/// Views the frame through `EthernetPacket::new` of `pnet` and calls
/// `get_source`: bytes 6 to 12.
#[verifier::external_body]
fn frame_source(frame: &[u8]) -> (r: [u8; 6])
    requires
        frame@.len() >= ETHERNET_HEADER_LEN,
    ensures
        r@ == source_of(frame@),
{
    pnet::packet::ethernet::EthernetPacket::new(frame).unwrap().get_source().octets()
}

/// Views the frame through `EthernetPacket::new` of `pnet` and calls
/// `get_ethertype`: bytes 12 and 13, big-endian.
#[verifier::external_body]
fn frame_ethertype(frame: &[u8]) -> (r: u16)
    requires
        frame@.len() >= ETHERNET_HEADER_LEN,
    ensures
        r == ethertype_of(frame@),
{
    pnet::packet::ethernet::EthernetPacket::new(frame).unwrap().get_ethertype().0
}

/// Views the frame through `EthernetPacket::new` of `pnet` and calls
/// `Packet::payload`: everything from byte 14 on.
#[verifier::external_body]
fn frame_payload(frame: &[u8]) -> (r: Vec<u8>)
    requires
        frame@.len() >= ETHERNET_HEADER_LEN,
    ensures
        r@ == payload_of(frame@),
{
    pnet::packet::ethernet::EthernetPacket::new(frame).unwrap().payload().to_vec()
}

/// Views the buffer through `MutableEthernetPacket::new` of `pnet` and calls
/// `set_destination`: writes the first six bytes, leaves the rest.
#[verifier::external_body]
fn set_frame_destination(frame: &mut Vec<u8>, mac: [u8; 6])
    requires
        old(frame)@.len() >= ETHERNET_HEADER_LEN,
    ensures
        final(frame)@ == mac@ + old(frame)@.subrange(6, old(frame)@.len() as int),
{
    pnet::packet::ethernet::MutableEthernetPacket::new(frame.as_mut_slice()).unwrap().set_destination(
        pnet::util::MacAddr::from(mac),
    )
}

/// Views the buffer through `MutableEthernetPacket::new` of `pnet` and calls
/// `set_source`: writes bytes 6 to 12, leaves the rest.
#[verifier::external_body]
fn set_frame_source(frame: &mut Vec<u8>, mac: [u8; 6])
    requires
        old(frame)@.len() >= ETHERNET_HEADER_LEN,
    ensures
        final(frame)@ == old(frame)@.subrange(0, 6) + mac@ + old(frame)@.subrange(
            12,
            old(frame)@.len() as int,
        ),
{
    pnet::packet::ethernet::MutableEthernetPacket::new(frame.as_mut_slice()).unwrap().set_source(
        pnet::util::MacAddr::from(mac),
    )
}

/// Views the buffer through `MutableEthernetPacket::new` of `pnet` and calls
/// `set_ethertype`: writes bytes 12 and 13, big-endian, leaves the rest.
#[verifier::external_body]
fn set_frame_ethertype(frame: &mut Vec<u8>, ethertype: u16)
    requires
        old(frame)@.len() >= ETHERNET_HEADER_LEN,
    ensures
        final(frame)@ == old(frame)@.subrange(0, 12) + be16(ethertype) + old(frame)@.subrange(
            14,
            old(frame)@.len() as int,
        ),
{
    pnet::packet::ethernet::MutableEthernetPacket::new(frame.as_mut_slice()).unwrap().set_ethertype(
        pnet::packet::ethernet::EtherType::new(ethertype),
    )
}

/// Views the buffer through `MutableEthernetPacket::new` of `pnet` and calls
/// `set_payload`: copies `payload` to byte 14 on, leaves the rest.
#[verifier::external_body]
fn set_frame_payload(frame: &mut Vec<u8>, payload: &[u8])
    requires
        old(frame)@.len() >= ETHERNET_HEADER_LEN + payload@.len(),
    ensures
        final(frame)@ == old(frame)@.subrange(0, 14) + payload@ + old(frame)@.subrange(
            14 + payload@.len() as int,
            old(frame)@.len() as int,
        ),
{
    pnet::packet::ethernet::MutableEthernetPacket::new(frame.as_mut_slice()).unwrap().set_payload(
        payload,
    )
}

/// Calls `MacAddr::broadcast` of `pnet`: all six bytes 0xff.
#[verifier::external_body]
fn broadcast_mac() -> (r: [u8; 6])
    ensures
        r@ == broadcast_address(),
{
    pnet::util::MacAddr::broadcast().octets()
}

/// Calls `MacAddr::zero` of `pnet`: all six bytes 0.
#[verifier::external_body]
fn zero_mac() -> (r: [u8; 6])
    ensures
        r@ == zero_address(),
{
    pnet::util::MacAddr::zero().octets()
}

/// Whether two addresses are equal.
fn same_mac(a: &[u8; 6], b: &[u8; 6]) -> (r: bool)
    ensures
        r == (a@ == b@),
{
    for i in 0..6
        invariant
            forall|j: int| 0 <= j < i ==> a@[j] == b@[j],
    {
        if a[i] != b[i] {
            return false;
        }
    }
    assert(a@ =~= b@);
    true
}

/// Builds the frame with the given header fields and payload.
pub fn build_frame(destination: [u8; 6], source: [u8; 6], ethertype: u16, payload: &[u8]) -> (r: Vec<u8>)
    requires
        payload@.len() <= usize::MAX - ETHERNET_HEADER_LEN,
    ensures
        r@ == frame_bytes(destination@, source@, ethertype, payload@),
{
    let mut frame = vec![0u8; ETHERNET_HEADER_LEN + payload.len()];
    set_frame_destination(&mut frame, destination);
    set_frame_source(&mut frame, source);
    set_frame_ethertype(&mut frame, ethertype);
    set_frame_payload(&mut frame, payload);
    assert(frame@ =~= frame_bytes(destination@, source@, ethertype, payload@));
    frame
}

/// Builds the frame that carries a sync payload from `source` to the server.
pub fn build_sync_frame(server: [u8; 6], source: [u8; 6], payload: &[u8]) -> (r: Vec<u8>)
    requires
        payload@.len() <= usize::MAX - ETHERNET_HEADER_LEN,
    ensures
        r@ == frame_bytes(server@, source@, SYNC_ETHERTYPE, payload@),
{
    build_frame(server, source, SYNC_ETHERTYPE, payload)
}

/// A frame that carries a file transfer to this client.
pub struct TransferFrame {
    pub destination: [u8; 6],
    pub source: [u8; 6],
    pub ethertype: u16,
    pub payload: Vec<u8>,
}

/// What a received frame is to the client.
pub enum FrameVerdict {
    /// Too short to be an Ethernet frame.
    Invalid,
    /// Addressed neither to this client nor to everyone.
    NotForUs,
    /// Not a file transfer.
    OtherProtocol,
    /// A file transfer to this client.
    Transfer(TransferFrame),
}

/// What a received frame is to a client, by kind.
pub ghost enum FrameClass {
    Invalid,
    NotForUs,
    OtherProtocol,
    Transfer,
}

/// What a received frame is to the client whose address is `client`.
pub open spec fn frame_class(frame: Seq<u8>, client: Seq<u8>) -> FrameClass {
    if frame.len() < ETHERNET_HEADER_LEN {
        FrameClass::Invalid
    } else if destination_of(frame) != client && destination_of(frame) != broadcast_address() {
        FrameClass::NotForUs
    } else if ethertype_of(frame) != FILE_TRANSFER_ETHERTYPE {
        FrameClass::OtherProtocol
    } else {
        FrameClass::Transfer
    }
}

impl FrameVerdict {
    /// The verdict's kind.
    pub open spec fn class(&self) -> FrameClass {
        match self {
            FrameVerdict::Invalid => FrameClass::Invalid,
            FrameVerdict::NotForUs => FrameClass::NotForUs,
            FrameVerdict::OtherProtocol => FrameClass::OtherProtocol,
            FrameVerdict::Transfer(_) => FrameClass::Transfer,
        }
    }
}

/// Decides whether a received frame carries a file transfer to the client
/// whose address is `client`: it must be an Ethernet frame, addressed to the
/// client or broadcast, with the file-transfer EtherType.
pub fn classify_frame(frame: &[u8], client: [u8; 6]) -> (r: FrameVerdict)
    ensures
        r.class() == frame_class(frame@, client@),
        r matches FrameVerdict::Transfer(t) ==> {
            &&& t.destination@ == destination_of(frame@)
            &&& t.source@ == source_of(frame@)
            &&& t.ethertype == ethertype_of(frame@)
            &&& t.payload@ == payload_of(frame@)
        },
{
    if !is_ethernet_frame(frame) {
        return FrameVerdict::Invalid;
    }
    let destination = frame_destination(frame);
    let broadcast = broadcast_mac();
    if !same_mac(&destination, &client) && !same_mac(&destination, &broadcast) {
        return FrameVerdict::NotForUs;
    }
    let ethertype = frame_ethertype(frame);
    if ethertype != FILE_TRANSFER_ETHERTYPE {
        return FrameVerdict::OtherProtocol;
    }
    FrameVerdict::Transfer(
        TransferFrame {
            destination,
            source: frame_source(frame),
            ethertype,
            payload: frame_payload(frame),
        },
    )
}

/// What the caller knows of a network interface.
pub struct InterfaceInfo {
    pub is_up: bool,
    pub is_loopback: bool,
    pub mac: Option<[u8; 6]>,
}

/// An interface can carry the client's frames: it is up, not the loopback,
/// and has a non-zero hardware address.
pub open spec fn usable_interface(i: InterfaceInfo) -> bool {
    i.is_up && !i.is_loopback && (i.mac matches Some(m) && m@ != zero_address())
}

/// The first interface that can carry the client's frames.
pub fn first_usable_interface(interfaces: &Vec<InterfaceInfo>) -> (r: Option<usize>)
    ensures
        match r {
            Some(i) => i < interfaces@.len() && usable_interface(interfaces@[i as int]) && forall|
                j: int,
            | 0 <= j < i ==> !usable_interface(#[trigger] interfaces@[j]),
            None => forall|j: int|
                0 <= j < interfaces@.len() ==> !usable_interface(#[trigger] interfaces@[j]),
        },
{
    let zero = zero_mac();
    let n = interfaces.len();
    for i in 0..n
        invariant
            n == interfaces@.len(),
            zero@ == zero_address(),
            forall|j: int| 0 <= j < i ==> !usable_interface(#[trigger] interfaces@[j]),
    {
        let candidate = &interfaces[i];
        if candidate.is_up && !candidate.is_loopback {
            match &candidate.mac {
                Some(m) => {
                    if !same_mac(m, &zero) {
                        return Some(i);
                    }
                },
                None => {},
            }
        }
    }
    None
}

/// A frame built for the client with the file-transfer EtherType is taken as
/// a transfer, and its payload comes back whole; a frame built as a sync frame
/// is never taken for one.
pub proof fn lemma_frame_roundtrip(
    client: Seq<u8>,
    source: Seq<u8>,
    ethertype: u16,
    payload: Seq<u8>,
)
    requires
        client.len() == 6,
        source.len() == 6,
    ensures
        ({
            let f = frame_bytes(client, source, ethertype, payload);
            &&& destination_of(f) == client
            &&& source_of(f) == source
            &&& ethertype_of(f) == ethertype
            &&& payload_of(f) == payload
            &&& frame_class(f, client) == if ethertype == FILE_TRANSFER_ETHERTYPE {
                FrameClass::Transfer
            } else {
                FrameClass::OtherProtocol
            }
        }),
{
    let f = frame_bytes(client, source, ethertype, payload);
    assert(destination_of(f) =~= client);
    assert(source_of(f) =~= source);
    assert(payload_of(f) =~= payload);
    assert(f.subrange(12, 14) =~= be16(ethertype));
    crate::bytes::lemma_be16_roundtrip(ethertype, f, 12);
}

/// The frame is addressed to `client` or to every station, byte by byte.
pub open spec fn addressed_to(frame: Seq<u8>, client: Seq<u8>) -> bool {
    (forall|i: int| 0 <= i < 6 ==> #[trigger] frame[i] == client[i]) || (forall|i: int|
        0 <= i < 6 ==> #[trigger] frame[i] == 0xff)
}

/// How a received frame is classified, in terms of its bytes: too short to
/// hold a header; addressed neither to the client nor to everyone; any
/// EtherType but 0x88B6 (bytes 0x88, 0xB6), whatever the destination,
/// broadcast included; otherwise a transfer.
pub proof fn lemma_frame_class_by_bytes(frame: Seq<u8>, client: Seq<u8>)
    requires
        client.len() == 6,
    ensures
        (frame_class(frame, client) == FrameClass::Invalid) <==> frame.len() < 14,
        (frame_class(frame, client) == FrameClass::NotForUs) <==> (frame.len() >= 14
            && !addressed_to(frame, client)),
        (frame_class(frame, client) == FrameClass::OtherProtocol) <==> (frame.len() >= 14
            && addressed_to(frame, client) && !(frame[12] == 0x88 && frame[13] == 0xB6)),
        (frame_class(frame, client) == FrameClass::Transfer) <==> (frame.len() >= 14
            && addressed_to(frame, client) && frame[12] == 0x88 && frame[13] == 0xB6),
{
    if frame.len() >= 14 {
        let d = destination_of(frame);
        assert((d == client) <==> (forall|i: int| 0 <= i < 6 ==> #[trigger] frame[i] == client[i])) by {
            if forall|i: int| 0 <= i < 6 ==> #[trigger] frame[i] == client[i] {
                assert(d =~= client);
            }
            if d == client {
                assert forall|i: int| 0 <= i < 6 implies #[trigger] frame[i] == client[i] by {
                    assert(d[i] == frame[i]);
                }
            }
        }
        assert((d == broadcast_address()) <==> (forall|i: int| 0 <= i < 6 ==> #[trigger] frame[i] == 0xff)) by {
            if forall|i: int| 0 <= i < 6 ==> #[trigger] frame[i] == 0xff {
                assert(d =~= broadcast_address());
            }
            if d == broadcast_address() {
                assert forall|i: int| 0 <= i < 6 implies #[trigger] frame[i] == 0xff by {
                    assert(d[i] == frame[i]);
                }
            }
        }
        crate::bytes::lemma_read_be16_positional(frame, 12);
    }
}

/// A built frame holds, byte by byte, the destination, the source, the
/// EtherType most significant byte first, and the payload.
pub proof fn lemma_frame_bytes_layout(destination: Seq<u8>, source: Seq<u8>, ethertype: u16, payload: Seq<u8>)
    requires
        destination.len() == 6,
        source.len() == 6,
    ensures
        ({
            let f = frame_bytes(destination, source, ethertype, payload);
            &&& f.len() == 14 + payload.len()
            &&& f.subrange(0, 6) == destination
            &&& f.subrange(6, 12) == source
            &&& f[12] as int == ethertype as int / 0x100
            &&& f[13] as int == ethertype as int % 0x100
            &&& f.subrange(14, f.len() as int) == payload
        }),
{
    let f = frame_bytes(destination, source, ethertype, payload);
    crate::bytes::lemma_be16_digits(ethertype);
    assert(f[12] == be16(ethertype)[0]);
    assert(f[13] == be16(ethertype)[1]);
    assert(f.subrange(0, 6) =~= destination);
    assert(f.subrange(6, 12) =~= source);
    assert(f.subrange(14, f.len() as int) =~= payload);
}

} // verus!
