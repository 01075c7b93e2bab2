//! The layers of a frame as text.

use pnet::packet::ethernet::EthernetPacket;
use pnet::packet::ipv4::Ipv4Packet;
use pnet::packet::tcp::TcpPacket;
use vstd::prelude::*;

use crate::ethernet;
use crate::ipv4;
use crate::tcp;

verus! {

/// How `pnet` writes out an Ethernet frame.
pub uninterp spec fn ethernet_text(frame: Seq<u8>) -> Seq<char>;

/// How `pnet` writes out an IPv4 packet.
pub uninterp spec fn ipv4_text(ip: Seq<u8>) -> Seq<char>;

/// How `pnet` writes out a TCP segment.
pub uninterp spec fn tcp_text(segment: Seq<u8>) -> Seq<char>;

/// The `Debug` output of `EthernetPacket`, which the bytes of the frame alone decide.
#[verifier::external_body]
fn describe_ethernet(frame: &[u8]) -> (text: String)
    requires
        frame@.len() >= 14,
    ensures
        text@ == ethernet_text(frame@),
{
    format!("{:?}", EthernetPacket::new(frame).unwrap())
}

/// The `Debug` output of `Ipv4Packet`, which the bytes of the packet alone decide.
#[verifier::external_body]
fn describe_ipv4(ip: &[u8]) -> (text: String)
    requires
        ip@.len() >= 20,
    ensures
        text@ == ipv4_text(ip@),
{
    format!("{:?}", Ipv4Packet::new(ip).unwrap())
}

/// The `Debug` output of `TcpPacket`, which the bytes of the segment alone decide.
#[verifier::external_body]
fn describe_tcp(segment: &[u8]) -> (text: String)
    requires
        segment@.len() >= 20,
    ensures
        text@ == tcp_text(segment@),
{
    format!("{:?}", TcpPacket::new(segment).unwrap())
}

/// Whether a frame carries an IPv4 packet.
pub open spec fn carries_ipv4(frame: Seq<u8>) -> bool {
    ethernet::ethertype(frame) == ethernet::ETHERTYPE_IPV4
}

/// Whether a frame carries a TCP segment in an IPv4 packet.
pub open spec fn carries_tcp(frame: Seq<u8>) -> bool {
    carries_ipv4(frame) && ipv4::protocol(ethernet::payload(frame)) == ipv4::PROTOCOL_TCP
}

/// Whether every layer that a frame announces is there, as far as its header goes.
pub open spec fn is_whole(frame: Seq<u8>) -> bool {
    &&& frame.len() >= 14
    &&& carries_ipv4(frame) ==> ethernet::payload(frame).len() >= 20
    &&& carries_tcp(frame) ==> ipv4::payload(ethernet::payload(frame)).len() >= 20
}

/// Tells whether [`dump_input`] can describe a frame.
pub fn can_dump(packet_data: &[u8]) -> (can: bool)
    ensures
        can == is_whole(packet_data@),
{
    if packet_data.len() < 14 {
        return false;
    }
    if ethernet::get_ethertype(packet_data) != ethernet::ETHERTYPE_IPV4 {
        return true;
    }
    let ip = ethernet::get_payload(packet_data);
    if !ipv4::holds_header(&ip) {
        return false;
    }
    ipv4::get_next_level_protocol(&ip) != ipv4::PROTOCOL_TCP || tcp::holds_header(
        ipv4::get_payload(&ip),
    )
}

/// Describes a frame, one line for each layer: Ethernet, then IPv4 if the frame carries it, then
/// TCP if the packet carries it.
pub fn dump_input(packet_data: &[u8]) -> (lines: Vec<String>)
    requires
        is_whole(packet_data@),
    ensures
        lines@.len() == 1 + (if carries_ipv4(packet_data@) { 1int } else { 0 }) + (
        if carries_tcp(packet_data@) { 1int } else { 0 }),
        lines@[0]@ == ethernet_text(packet_data@),
        carries_ipv4(packet_data@) ==> lines@[1]@ == ipv4_text(ethernet::payload(packet_data@)),
        carries_tcp(packet_data@) ==> lines@[2]@ == tcp_text(
            ipv4::payload(ethernet::payload(packet_data@)),
        ),
{
    let mut lines: Vec<String> = Vec::new();
    lines.push(describe_ethernet(packet_data));
    if ethernet::get_ethertype(packet_data) == ethernet::ETHERTYPE_IPV4 {
        let ip = ethernet::get_payload(packet_data);
        lines.push(describe_ipv4(&ip));
        if ipv4::get_next_level_protocol(&ip) == ipv4::PROTOCOL_TCP {
            lines.push(describe_tcp(ipv4::get_payload(&ip)));
        }
    }
    lines
}

} // verus!
