//! What becomes of a packet on its way from the kernel to the peers, and of
//! one on its way back.

use vstd::prelude::*;

verus! {

/// What the bytes of an IP packet were found to be.
#[derive(Debug, Copy, Clone, PartialEq, Eq)]
pub enum Inspection {
    /// An IPv4 packet, with its destination and the number of bytes that
    /// belong to it.
    V4 { destination: u32, size: usize },
    /// An IPv6 packet.
    V6,
    /// Neither.
    Invalid,
}

/// The number whose big-endian bytes are `a`, `b`.
pub open spec fn be_u16(a: u8, b: u8) -> int {
    a as int * 256 + b as int
}

/// The number whose big-endian bytes are `a`, `b`, `c`, `d`.
pub open spec fn be_u32(a: u8, b: u8, c: u8, d: u8) -> int {
    a as int * 16777216 + b as int * 65536 + c as int * 256 + d as int
}

/// The length in bytes of the IPv4 header that starts with `first`.
pub open spec fn header_bytes(first: u8) -> int {
    (first % 16) * 4
}

/// The number of bytes that belong to the IPv4 packet at the front of
/// `bytes`: those of its header, and those that its length field counts
/// beyond them.
pub open spec fn packet_size(bytes: Seq<u8>) -> int {
    let header = header_bytes(bytes[0]);
    let total = be_u16(bytes[2], bytes[3]);
    if total >= header {
        total
    } else {
        header
    }
}

/// What a buffer of at least one byte is as an IP packet. The version is
/// the upper half of the first byte. An IPv4 packet has at least twenty
/// bytes, and no fewer than its header length and its length field say.
pub open spec fn inspection(bytes: Seq<u8>) -> Inspection {
    if bytes[0] / 16 == 4 {
        if bytes.len() >= 20 && bytes.len() >= header_bytes(bytes[0]) && bytes.len() >= be_u16(
            bytes[2],
            bytes[3],
        ) {
            Inspection::V4 {
                destination: be_u32(bytes[16], bytes[17], bytes[18], bytes[19]) as u32,
                size: packet_size(bytes) as usize,
            }
        } else {
            Inspection::Invalid
        }
    } else if bytes[0] / 16 == 6 {
        Inspection::V6
    } else {
        Inspection::Invalid
    }
}

/// Parses `data` with `packet::ip::Packet::new` and, for an IPv4 packet,
/// reads its `destination` and the length of what `as_ref` gives. Trusted:
/// the parser goes by the version in the first byte, which must be there;
/// asks of an IPv4 packet twenty bytes, its header length and its total
/// length; and asks nothing more of an IPv6 packet.
#[verifier::external_body]
fn inspect(data: &[u8]) -> (r: Inspection)
    requires
        data@.len() >= 1,
    ensures
        r == inspection(data@),
{
    match packet::ip::Packet::new(data) {
        Ok(packet::ip::Packet::V4(p)) => Inspection::V4 {
            destination: p.destination().into(),
            size: p.as_ref().len(),
        },
        Ok(packet::ip::Packet::V6(_)) => Inspection::V6,
        Err(_) => Inspection::Invalid,
    }
}

/// An IPv4 packet as contracts see it.
pub struct Ipv4PacketView {
    pub bytes: Seq<u8>,
    pub destination: u32,
}

/// An IPv4 packet on its way to the peers.
#[derive(Debug, PartialEq, Eq)]
pub struct Ipv4Packet {
    bytes: Vec<u8>,
    destination: u32,
}

impl View for Ipv4Packet {
    type V = Ipv4PacketView;

    closed spec fn view(&self) -> Ipv4PacketView {
        Ipv4PacketView { bytes: self.bytes@, destination: self.destination }
    }
}

impl Ipv4Packet {
    /// The address that the packet is for, most significant byte first.
    pub fn destination(&self) -> (ip: u32)
        ensures
            ip == self@.destination,
    {
        self.destination
    }

    /// The bytes of the packet.
    pub fn as_bytes(&self) -> (bytes: &[u8])
        ensures
            bytes@ == self@.bytes,
    {
        self.bytes.as_slice()
    }

    /// A copy of this packet, as each peer's writer gets one.
    pub fn duplicate(&self) -> (copy: Ipv4Packet)
        ensures
            copy@ == self@,
    {
        Ipv4Packet {
            bytes: vstd::slice::slice_to_vec(self.bytes.as_slice()),
            destination: self.destination,
        }
    }
}

/// What to do with a packet that the kernel handed over.
#[derive(Debug, PartialEq, Eq)]
pub enum Ingress {
    /// An IPv4 packet: publish it to the peers' writers.
    Publish(Ipv4Packet),
    /// An IPv6 packet: drop it, silently.
    DropV6,
    /// No IP packet: report it and drop it.
    Malformed,
}

/// What is to be done with `data`, which the kernel handed over.
pub open spec fn ingress_of(data: Seq<u8>) -> Option<Ipv4PacketView> {
    if data.len() >= 1 && inspection(data) is V4 {
        Some(
            Ipv4PacketView {
                bytes: data.take(packet_size(data)),
                destination: inspection(data)->destination,
            },
        )
    } else {
        None
    }
}

/// Whether `data` is an IPv6 packet.
pub open spec fn is_v6(data: Seq<u8>) -> bool {
    data.len() >= 1 && inspection(data) is V6
}

/// Decides what to do with a packet that the kernel handed over: an IPv4
/// packet is published, cut to the bytes that belong to it; an IPv6 packet
/// is dropped; anything else, an empty buffer too, is malformed.
pub fn handle_packet_from_kernel(data: &[u8]) -> (r: Ingress)
    ensures
        match ingress_of(data@) {
            Some(p) => r matches Ingress::Publish(q) && q@ == p,
            None => if is_v6(data@) {
                r == Ingress::DropV6
            } else {
                r == Ingress::Malformed
            },
        },
{
    if data.len() == 0 {
        return Ingress::Malformed;
    }
    match inspect(data) {
        Inspection::V4 { destination, size } => {
            let whole = vstd::slice::slice_subrange(data, 0, size);
            Ingress::Publish(Ipv4Packet { bytes: vstd::slice::slice_to_vec(whole), destination })
        },
        Inspection::V6 => Ingress::DropV6,
        Inspection::Invalid => Ingress::Malformed,
    }
}

/// Decides what to write to the kernel for a packet that a peer's reader
/// delivered: the packet as it is, or nothing where it is empty.
pub fn prep_packet_for_kernel(packet: Vec<u8>) -> (r: Option<Vec<u8>>)
    ensures
        packet@.len() == 0 ==> r is None,
        packet@.len() > 0 ==> r == Some(packet),
{
    if packet.len() == 0 {
        None
    } else {
        Some(packet)
    }
}

} // verus!
