//! The Ethernet header, read and written through `pnet::packet::ethernet`.
//!
//! | bytes  | field       |
//! |--------|-------------|
//! | 0..6   | destination |
//! | 6..12  | source      |
//! | 12..14 | ethertype   |
//! | 14..   | payload     |

use pnet::packet::ethernet::{EtherType, EthernetPacket, MutableEthernetPacket};
use pnet::packet::{Packet, PacketSize};
use vstd::prelude::*;

use crate::addr::MacAddr;
use crate::bytes::{be16, put, u16_at};

verus! {

/// The ethertype of IPv4.
pub const ETHERTYPE_IPV4: u16 = 0x0800;

/// The ethertype of ARP.
pub const ETHERTYPE_ARP: u16 = 0x0806;

/// The address that the six bytes from `at` on spell.
pub open spec fn mac_at(b: Seq<u8>, at: int) -> MacAddr {
    MacAddr(b[at], b[at + 1], b[at + 2], b[at + 3], b[at + 4], b[at + 5])
}

/// Whom the frame is addressed to.
pub open spec fn destination(frame: Seq<u8>) -> MacAddr {
    mac_at(frame, 0)
}

/// Who sent the frame.
pub open spec fn source(frame: Seq<u8>) -> MacAddr {
    mac_at(frame, 6)
}

/// What the frame carries.
pub open spec fn ethertype(frame: Seq<u8>) -> u16 {
    u16_at(frame, 12)
}

/// What follows the header.
pub open spec fn payload(frame: Seq<u8>) -> Seq<u8> {
    frame.skip(14)
}

/// The header with these fields.
pub open spec fn header(dst: MacAddr, src: MacAddr, ethertype: u16) -> Seq<u8> {
    dst.octets() + src.octets() + be16(ethertype)
}

/// `EthernetPacket::get_destination`: the address in bytes 0 to 5.
#[verifier::external_body]
pub(crate) fn get_destination(frame: &[u8]) -> (mac: MacAddr)
    requires
        frame@.len() >= 14,
    ensures
        mac == destination(frame@),
{
    let mac = EthernetPacket::new(frame).unwrap().get_destination();
    MacAddr(mac.0, mac.1, mac.2, mac.3, mac.4, mac.5)
}

/// `EthernetPacket::get_source`: the address in bytes 6 to 11.
#[verifier::external_body]
pub(crate) fn get_source(frame: &[u8]) -> (mac: MacAddr)
    requires
        frame@.len() >= 14,
    ensures
        mac == source(frame@),
{
    let mac = EthernetPacket::new(frame).unwrap().get_source();
    MacAddr(mac.0, mac.1, mac.2, mac.3, mac.4, mac.5)
}

/// `EthernetPacket::get_ethertype`: the big-endian number in bytes 12 and 13.
#[verifier::external_body]
pub(crate) fn get_ethertype(frame: &[u8]) -> (ty: u16)
    requires
        frame@.len() >= 14,
    ensures
        ty == ethertype(frame@),
{
    EthernetPacket::new(frame).unwrap().get_ethertype().0
}

/// `EthernetPacket::payload`: a copy of everything from byte 14 on.
#[verifier::external_body]
pub(crate) fn get_payload(frame: &[u8]) -> (bytes: Vec<u8>)
    requires
        frame@.len() >= 14,
    ensures
        bytes@ == payload(frame@),
{
    EthernetPacket::new(frame).unwrap().payload().to_vec()
}

/// `EthernetPacket::packet_size`: an Ethernet header takes 14 bytes, whatever it holds.
#[verifier::external_body]
pub(crate) fn packet_size(frame: &[u8]) -> (size: usize)
    requires
        frame@.len() >= 14,
    ensures
        size == 14,
{
    EthernetPacket::new(frame).unwrap().packet_size()
}

/// `MutableEthernetPacket::set_destination`: stores the address in bytes 0 to 5 and nothing else.
#[verifier::external_body]
pub(crate) fn set_destination(frame: &mut [u8], mac: MacAddr)
    requires
        old(frame)@.len() >= 14,
    ensures
        final(frame)@ == put(old(frame)@, 0, mac.octets()),
{
    let octets = [mac.0, mac.1, mac.2, mac.3, mac.4, mac.5];
    MutableEthernetPacket::new(frame).unwrap().set_destination(octets.into());
}

/// `MutableEthernetPacket::set_source`: stores the address in bytes 6 to 11 and nothing else.
#[verifier::external_body]
pub(crate) fn set_source(frame: &mut [u8], mac: MacAddr)
    requires
        old(frame)@.len() >= 14,
    ensures
        final(frame)@ == put(old(frame)@, 6, mac.octets()),
{
    let octets = [mac.0, mac.1, mac.2, mac.3, mac.4, mac.5];
    MutableEthernetPacket::new(frame).unwrap().set_source(octets.into());
}

/// `MutableEthernetPacket::set_ethertype`: stores the number big-endian in bytes 12 and 13 and
/// nothing else.
#[verifier::external_body]
pub(crate) fn set_ethertype(frame: &mut [u8], ty: u16)
    requires
        old(frame)@.len() >= 14,
    ensures
        final(frame)@ == put(old(frame)@, 12, be16(ty)),
{
    MutableEthernetPacket::new(frame).unwrap().set_ethertype(EtherType::new(ty));
}

} // verus!
