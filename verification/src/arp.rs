//! The ARP packet for IPv4 over Ethernet, written through `pnet::packet::arp`, and the question for
//! the address of a host.
//!
//! | bytes  | field                             |
//! |--------|-----------------------------------|
//! | 0..2   | hardware type                     |
//! | 2..4   | protocol type                     |
//! | 4      | length of a hardware address      |
//! | 5      | length of a protocol address      |
//! | 6..8   | operation                         |
//! | 8..14  | hardware address of the sender    |
//! | 14..18 | protocol address of the sender    |
//! | 18..24 | hardware address of the target    |
//! | 24..28 | protocol address of the target    |

use pnet::packet::arp::{ArpHardwareType, ArpOperation, ArpPacket, MutableArpPacket};
use pnet::packet::ethernet::EtherType;
use pnet::packet::PacketSize;
use vstd::prelude::*;

use crate::addr::{Ipv4Addr, MacAddr};
use crate::bytes::{be16, put};
use crate::ethernet;

verus! {

/// The hardware type of Ethernet.
pub const ARP_HARDWARE_ETHERNET: u16 = 1;

/// The operation of a request.
pub const ARP_REQUEST: u16 = 1;

/// `MutableArpPacket::set_hardware_type`: stores the number big-endian in bytes 0 and 1 and
/// nothing else.
#[verifier::external_body]
pub(crate) fn set_hardware_type(arp: &mut [u8], ty: u16)
    requires
        old(arp)@.len() >= 28,
    ensures
        final(arp)@ == put(old(arp)@, 0, be16(ty)),
{
    MutableArpPacket::new(arp).unwrap().set_hardware_type(ArpHardwareType::new(ty));
}

/// `MutableArpPacket::set_protocol_type`: stores the ethertype big-endian in bytes 2 and 3 and
/// nothing else.
#[verifier::external_body]
pub(crate) fn set_protocol_type(arp: &mut [u8], ty: u16)
    requires
        old(arp)@.len() >= 28,
    ensures
        final(arp)@ == put(old(arp)@, 2, be16(ty)),
{
    MutableArpPacket::new(arp).unwrap().set_protocol_type(EtherType::new(ty));
}

/// `MutableArpPacket::set_hw_addr_len`: stores the number in byte 4 and nothing else.
#[verifier::external_body]
pub(crate) fn set_hw_addr_len(arp: &mut [u8], len: u8)
    requires
        old(arp)@.len() >= 28,
    ensures
        final(arp)@ == put(old(arp)@, 4, seq![len]),
{
    MutableArpPacket::new(arp).unwrap().set_hw_addr_len(len);
}

/// `MutableArpPacket::set_proto_addr_len`: stores the number in byte 5 and nothing else.
#[verifier::external_body]
pub(crate) fn set_proto_addr_len(arp: &mut [u8], len: u8)
    requires
        old(arp)@.len() >= 28,
    ensures
        final(arp)@ == put(old(arp)@, 5, seq![len]),
{
    MutableArpPacket::new(arp).unwrap().set_proto_addr_len(len);
}

/// `MutableArpPacket::set_operation`: stores the number big-endian in bytes 6 and 7 and nothing
/// else.
#[verifier::external_body]
pub(crate) fn set_operation(arp: &mut [u8], operation: u16)
    requires
        old(arp)@.len() >= 28,
    ensures
        final(arp)@ == put(old(arp)@, 6, be16(operation)),
{
    MutableArpPacket::new(arp).unwrap().set_operation(ArpOperation::new(operation));
}

/// `MutableArpPacket::set_sender_hw_addr`: stores the address in bytes 8 to 13 and nothing else.
#[verifier::external_body]
pub(crate) fn set_sender_hw_addr(arp: &mut [u8], mac: MacAddr)
    requires
        old(arp)@.len() >= 28,
    ensures
        final(arp)@ == put(old(arp)@, 8, mac.octets()),
{
    let octets = [mac.0, mac.1, mac.2, mac.3, mac.4, mac.5];
    MutableArpPacket::new(arp).unwrap().set_sender_hw_addr(octets.into());
}

/// `MutableArpPacket::set_sender_proto_addr`: stores the address in bytes 14 to 17 and nothing
/// else.
#[verifier::external_body]
pub(crate) fn set_sender_proto_addr(arp: &mut [u8], ip: Ipv4Addr)
    requires
        old(arp)@.len() >= 28,
    ensures
        final(arp)@ == put(old(arp)@, 14, ip.octets()),
{
    MutableArpPacket::new(arp).unwrap().set_sender_proto_addr([ip.0, ip.1, ip.2, ip.3].into());
}

/// `MutableArpPacket::set_target_hw_addr`: stores the address in bytes 18 to 23 and nothing else.
#[verifier::external_body]
pub(crate) fn set_target_hw_addr(arp: &mut [u8], mac: MacAddr)
    requires
        old(arp)@.len() >= 28,
    ensures
        final(arp)@ == put(old(arp)@, 18, mac.octets()),
{
    let octets = [mac.0, mac.1, mac.2, mac.3, mac.4, mac.5];
    MutableArpPacket::new(arp).unwrap().set_target_hw_addr(octets.into());
}

/// `MutableArpPacket::set_target_proto_addr`: stores the address in bytes 24 to 27 and nothing
/// else.
#[verifier::external_body]
pub(crate) fn set_target_proto_addr(arp: &mut [u8], ip: Ipv4Addr)
    requires
        old(arp)@.len() >= 28,
    ensures
        final(arp)@ == put(old(arp)@, 24, ip.octets()),
{
    MutableArpPacket::new(arp).unwrap().set_target_proto_addr([ip.0, ip.1, ip.2, ip.3].into());
}

/// `ArpPacket::packet_size`: an ARP packet takes 28 bytes, whatever it holds.
#[verifier::external_body]
pub(crate) fn packet_size(arp: &[u8]) -> (size: usize)
    requires
        arp@.len() >= 28,
    ensures
        size == 28,
{
    ArpPacket::new(arp).unwrap().packet_size()
}

/// The question who has the address `dest_ip`, asked of everyone.
pub open spec fn arp_frame(source_mac: MacAddr, source_ip: Ipv4Addr, dest_ip: Ipv4Addr) -> Seq<
    u8,
> {
    let everyone = MacAddr(0xff, 0xff, 0xff, 0xff, 0xff, 0xff);
    ethernet::header(everyone, source_mac, ethernet::ETHERTYPE_ARP) + be16(
        ARP_HARDWARE_ETHERNET,
    ) + be16(ethernet::ETHERTYPE_IPV4) + seq![6u8, 4] + be16(ARP_REQUEST)
        + source_mac.octets() + source_ip.octets() + everyone.octets() + dest_ip.octets()
}

/// Writes the question who has the address `dest_ip` to the front of `buf` and returns its length.
pub fn handle_arp(
    source_mac: MacAddr,
    source_ip: Ipv4Addr,
    dest_ip: Ipv4Addr,
    buf: &mut [u8],
) -> (len: Option<usize>)
    requires
        old(buf)@.len() >= 42,
    ensures
        len == Some(42usize),
        final(buf)@ == arp_frame(source_mac, source_ip, dest_ip) + old(buf)@.skip(42),
{
    let mut len: usize = 0;
    ethernet::set_source(buf, source_mac);
    ethernet::set_destination(buf, MacAddr(0xff, 0xff, 0xff, 0xff, 0xff, 0xff));
    ethernet::set_ethertype(buf, ethernet::ETHERTYPE_ARP);
    len += ethernet::packet_size(buf);

    let (_ether, arp) = buf.split_at_mut(14);
    set_hardware_type(arp, ARP_HARDWARE_ETHERNET);
    set_protocol_type(arp, ethernet::ETHERTYPE_IPV4);
    set_hw_addr_len(arp, 6);
    set_proto_addr_len(arp, 4);
    set_operation(arp, ARP_REQUEST);
    set_sender_hw_addr(arp, source_mac);
    set_sender_proto_addr(arp, source_ip);
    set_target_hw_addr(arp, MacAddr(0xff, 0xff, 0xff, 0xff, 0xff, 0xff));
    set_target_proto_addr(arp, dest_ip);
    len += packet_size(arp);
    Some(len)
}

} // verus!
