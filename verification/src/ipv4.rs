//! The IPv4 header, read and written through `pnet::packet::ipv4`.
//!
//! | bytes  | field                                             |
//! |--------|---------------------------------------------------|
//! | 0      | version (high 4 bits), header length (low 4 bits) |
//! | 1      | DSCP (high 6 bits), ECN (low 2 bits)              |
//! | 2..4   | total length                                      |
//! | 4..6   | identification                                    |
//! | 6..8   | flags (high 3 bits), fragment offset              |
//! | 8      | time to live                                      |
//! | 9      | protocol                                          |
//! | 10..12 | checksum                                          |
//! | 12..16 | source                                            |
//! | 16..20 | destination                                       |

use pnet::packet::ip::IpNextHeaderProtocol;
use pnet::packet::ipv4::{Ipv4Packet, MutableIpv4Packet};
use vstd::prelude::*;
use vstd::slice::slice_subrange;

use crate::addr::Ipv4Addr;
use crate::bytes::{be16, put, u16_at};

verus! {

/// The protocol number of TCP.
pub const PROTOCOL_TCP: u8 = 6;

/// The address that the four bytes from `at` on spell.
pub open spec fn ip_at(b: Seq<u8>, at: int) -> Ipv4Addr {
    Ipv4Addr(b[at], b[at + 1], b[at + 2], b[at + 3])
}

/// The length of the header in 32-bit words, as the header announces it.
pub open spec fn header_length(ip: Seq<u8>) -> u8 {
    ip[0] % 16
}

/// The length of header and payload in bytes, as the header announces it.
pub open spec fn total_length(ip: Seq<u8>) -> u16 {
    u16_at(ip, 2)
}

/// What the packet carries.
pub open spec fn protocol(ip: Seq<u8>) -> u8 {
    ip[9]
}

/// Who sent the packet.
pub open spec fn source(ip: Seq<u8>) -> Ipv4Addr {
    ip_at(ip, 12)
}

/// Whom the packet is addressed to.
pub open spec fn destination(ip: Seq<u8>) -> Ipv4Addr {
    ip_at(ip, 16)
}

/// Where the payload starts: after the announced header, and never inside the fixed 20 bytes.
pub open spec fn payload_start(ip: Seq<u8>) -> int {
    if header_length(ip) < 5 { 20 } else { 4 * header_length(ip) }
}

/// What follows the header, to the end of the buffer, whatever total length the header announces.
pub open spec fn payload(ip: Seq<u8>) -> Seq<u8> {
    if ip.len() <= payload_start(ip) {
        Seq::empty()
    } else {
        ip.skip(payload_start(ip))
    }
}

/// `Ipv4Packet::new`: a buffer is taken as a packet when it has room for the fixed 20 bytes.
#[verifier::external_body]
pub(crate) fn holds_header(ip: &[u8]) -> (holds: bool)
    ensures
        holds == (ip@.len() >= 20),
{
    Ipv4Packet::new(ip).is_some()
}

/// `Ipv4Packet::get_source`: the address in bytes 12 to 15.
#[verifier::external_body]
pub(crate) fn get_source(ip: &[u8]) -> (addr: Ipv4Addr)
    requires
        ip@.len() >= 20,
    ensures
        addr == source(ip@),
{
    let octets = Ipv4Packet::new(ip).unwrap().get_source().octets();
    Ipv4Addr(octets[0], octets[1], octets[2], octets[3])
}

/// `Ipv4Packet::get_destination`: the address in bytes 16 to 19.
#[verifier::external_body]
pub(crate) fn get_destination(ip: &[u8]) -> (addr: Ipv4Addr)
    requires
        ip@.len() >= 20,
    ensures
        addr == destination(ip@),
{
    let octets = Ipv4Packet::new(ip).unwrap().get_destination().octets();
    Ipv4Addr(octets[0], octets[1], octets[2], octets[3])
}

/// `Ipv4Packet::get_next_level_protocol`: the number in byte 9.
#[verifier::external_body]
pub(crate) fn get_next_level_protocol(ip: &[u8]) -> (number: u8)
    requires
        ip@.len() >= 20,
    ensures
        number == protocol(ip@),
{
    Ipv4Packet::new(ip).unwrap().get_next_level_protocol().0
}

/// `Ipv4Packet::get_header_length`: the low four bits of byte 0.
#[verifier::external_body]
pub(crate) fn get_header_length(ip: &[u8]) -> (words: u8)
    requires
        ip@.len() >= 20,
    ensures
        words == header_length(ip@),
{
    Ipv4Packet::new(ip).unwrap().get_header_length()
}

/// The length of the header in bytes, never less than its fixed part.
pub(crate) fn header_size(ip: &[u8]) -> (size: usize)
    requires
        ip@.len() >= 20,
    ensures
        size == payload_start(ip@),
{
    let words: u8 = get_header_length(ip);
    if words < 5 {
        20
    } else {
        words as usize * 4
    }
}

/// What follows the header, to the end of the buffer. `Ipv4Packet::payload` is not used for it: that
/// ends where the announced total length does, and a total length is not relied upon here.
pub(crate) fn get_payload(ip: &[u8]) -> (bytes: &[u8])
    requires
        ip@.len() >= 20,
    ensures
        bytes@ == payload(ip@),
{
    let mut start: usize = header_size(ip);
    if start > ip.len() {
        start = ip.len();
    }
    slice_subrange(ip, start, ip.len())
}

/// `MutableIpv4Packet::set_version`: stores the number in the high four bits of byte 0 and
/// nothing else.
#[verifier::external_body]
pub(crate) fn set_version(ip: &mut [u8], version: u8)
    requires
        old(ip)@.len() >= 20,
        version < 16,
    ensures
        final(ip)@ == put(old(ip)@, 0, seq![(16 * version + old(ip)@[0] % 16) as u8]),
{
    MutableIpv4Packet::new(ip).unwrap().set_version(version);
}

/// `MutableIpv4Packet::set_header_length`: stores the number in the low four bits of byte 0 and
/// nothing else.
#[verifier::external_body]
pub(crate) fn set_header_length(ip: &mut [u8], words: u8)
    requires
        old(ip)@.len() >= 20,
        words < 16,
    ensures
        final(ip)@ == put(old(ip)@, 0, seq![(old(ip)@[0] / 16 * 16 + words) as u8]),
{
    MutableIpv4Packet::new(ip).unwrap().set_header_length(words);
}

/// `MutableIpv4Packet::set_dscp`: stores the number in the high six bits of byte 1 and nothing
/// else.
#[verifier::external_body]
pub(crate) fn set_dscp(ip: &mut [u8], dscp: u8)
    requires
        old(ip)@.len() >= 20,
        dscp < 64,
    ensures
        final(ip)@ == put(old(ip)@, 1, seq![(4 * dscp + old(ip)@[1] % 4) as u8]),
{
    MutableIpv4Packet::new(ip).unwrap().set_dscp(dscp);
}

/// `MutableIpv4Packet::set_ecn`: stores the number in the low two bits of byte 1 and nothing else.
#[verifier::external_body]
pub(crate) fn set_ecn(ip: &mut [u8], ecn: u8)
    requires
        old(ip)@.len() >= 20,
        ecn < 4,
    ensures
        final(ip)@ == put(old(ip)@, 1, seq![(old(ip)@[1] / 4 * 4 + ecn) as u8]),
{
    MutableIpv4Packet::new(ip).unwrap().set_ecn(ecn);
}

/// `MutableIpv4Packet::set_total_length`: stores the number big-endian in bytes 2 and 3 and
/// nothing else.
#[verifier::external_body]
pub(crate) fn set_total_length(ip: &mut [u8], len: u16)
    requires
        old(ip)@.len() >= 20,
    ensures
        final(ip)@ == put(old(ip)@, 2, be16(len)),
{
    MutableIpv4Packet::new(ip).unwrap().set_total_length(len);
}

/// `MutableIpv4Packet::set_identification`: stores the number big-endian in bytes 4 and 5 and
/// nothing else.
#[verifier::external_body]
pub(crate) fn set_identification(ip: &mut [u8], id: u16)
    requires
        old(ip)@.len() >= 20,
    ensures
        final(ip)@ == put(old(ip)@, 4, be16(id)),
{
    MutableIpv4Packet::new(ip).unwrap().set_identification(id);
}

/// `MutableIpv4Packet::set_flags`: stores the number in the high three bits of byte 6 and nothing
/// else.
#[verifier::external_body]
pub(crate) fn set_flags(ip: &mut [u8], flags: u8)
    requires
        old(ip)@.len() >= 20,
        flags < 8,
    ensures
        final(ip)@ == put(old(ip)@, 6, seq![(32 * flags + old(ip)@[6] % 32) as u8]),
{
    MutableIpv4Packet::new(ip).unwrap().set_flags(flags);
}

/// `MutableIpv4Packet::set_ttl`: stores the number in byte 8 and nothing else.
#[verifier::external_body]
pub(crate) fn set_ttl(ip: &mut [u8], ttl: u8)
    requires
        old(ip)@.len() >= 20,
    ensures
        final(ip)@ == put(old(ip)@, 8, seq![ttl]),
{
    MutableIpv4Packet::new(ip).unwrap().set_ttl(ttl);
}

/// `MutableIpv4Packet::set_next_level_protocol`: stores the number in byte 9 and nothing else.
#[verifier::external_body]
pub(crate) fn set_next_level_protocol(ip: &mut [u8], number: u8)
    requires
        old(ip)@.len() >= 20,
    ensures
        final(ip)@ == put(old(ip)@, 9, seq![number]),
{
    let protocol = IpNextHeaderProtocol::new(number);
    MutableIpv4Packet::new(ip).unwrap().set_next_level_protocol(protocol);
}

/// `MutableIpv4Packet::set_checksum`: stores the number big-endian in bytes 10 and 11 and nothing
/// else.
#[verifier::external_body]
pub(crate) fn set_checksum(ip: &mut [u8], checksum: u16)
    requires
        old(ip)@.len() >= 20,
    ensures
        final(ip)@ == put(old(ip)@, 10, be16(checksum)),
{
    MutableIpv4Packet::new(ip).unwrap().set_checksum(checksum);
}

/// `MutableIpv4Packet::set_source`: stores the address in bytes 12 to 15 and nothing else.
#[verifier::external_body]
pub(crate) fn set_source(ip: &mut [u8], addr: Ipv4Addr)
    requires
        old(ip)@.len() >= 20,
    ensures
        final(ip)@ == put(old(ip)@, 12, addr.octets()),
{
    MutableIpv4Packet::new(ip).unwrap().set_source([addr.0, addr.1, addr.2, addr.3].into());
}

/// `MutableIpv4Packet::set_destination`: stores the address in bytes 16 to 19 and nothing else.
#[verifier::external_body]
pub(crate) fn set_destination(ip: &mut [u8], addr: Ipv4Addr)
    requires
        old(ip)@.len() >= 20,
    ensures
        final(ip)@ == put(old(ip)@, 16, addr.octets()),
{
    MutableIpv4Packet::new(ip).unwrap().set_destination([addr.0, addr.1, addr.2, addr.3].into());
}

} // verus!
