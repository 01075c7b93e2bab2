//! Answers to requests.

use vstd::prelude::*;

use crate::addr::{Ipv4Addr, MacAddr};
use crate::bytes::{be16, be32, u32_to_oct};
use crate::ethernet;
use crate::ingress::IngressPacket;
use crate::ipv4;
use crate::services::{HostConfig, SequenceRequest, Services, SynCookie, TimestampRequest};
use crate::tcp;

verus! {

/// The length of an answer.
pub const MIN_REPLY_BUF_LEN: usize = 78;

/// The timestamps option with these two stamps.
pub open spec fn timestamps_option(timestamp: u32, echo: [u8; 4]) -> Seq<u8> {
    seq![tcp::OPTION_TIMESTAMPS, 10] + be32(timestamp) + echo@
}

/// The options of an answer, written over `old`: the five bytes of padding stay as they were.
pub open spec fn reply_options(pkt: IngressPacket, cookie: SynCookie, old: Seq<u8>) -> Seq<u8> {
    seq![tcp::OPTION_MSS, 4] + be16(cookie.mss) + seq![tcp::OPTION_SACK_PERMITTED, 2]
        + timestamps_option(cookie.timestamp, pkt.tcp_timestamp) + seq![
        tcp::OPTION_WSCALE,
        3,
        7,
    ] + old.subrange(19, 24)
}

/// The number after `n`, where zero follows the last one.
pub open spec fn next32(n: u32) -> u32 {
    ((n + 1) % 0x1_0000_0000) as u32
}

/// The segment that answers `pkt`, written over `old`: the reserved bits, the urgent pointer and
/// the padding stay as they were.
pub open spec fn reply_segment(
    pkt: IngressPacket,
    cookie: SynCookie,
    old: Seq<u8>,
    checksum: u16,
) -> Seq<u8> {
    be16(pkt.tcp_destination) + be16(pkt.tcp_source) + be32(cookie.sequence) + be32(
        next32(pkt.tcp_sequence),
    ) + seq![(11 * 16 + old[12] % 16 / 2 * 2) as u8, 0x12] + be16(0xffff) + be16(checksum)
        + old.subrange(18, 20) + reply_options(pkt, cookie, old.subrange(20, 44))
}

/// The IPv4 header of the answer to `pkt`, written over `old`: the fragment offset stays as it
/// was.
pub open spec fn reply_ipv4(pkt: IngressPacket, old: Seq<u8>, checksum: u16) -> Seq<u8> {
    seq![0x45u8, 0] + be16(64) + be16(0) + seq![
        (2 * 32 + old[6] % 32) as u8,
        old[7],
        126,
        ipv4::PROTOCOL_TCP,
    ] + be16(checksum) + pkt.ipv4_destination.octets() + pkt.ipv4_source.octets()
}

/// The frame that answers `pkt`, written over `old`. What follows the answer stays as it was.
pub open spec fn reply_frame(
    pkt: IngressPacket,
    source_mac: MacAddr,
    cookie: SynCookie,
    old: Seq<u8>,
    tcp_checksum: u16,
    ip_checksum: u16,
) -> Seq<u8> {
    ethernet::header(pkt.ether_source, source_mac, ethernet::ETHERTYPE_IPV4) + reply_ipv4(
        pkt,
        old.subrange(14, 34),
        ip_checksum,
    ) + reply_segment(pkt, cookie, old.subrange(34, 78), tcp_checksum) + old.skip(78)
}

/// Whether `new` is the answer to `pkt` with the SYN cookie `cookie`, written over `old`, and with
/// the checksums that `services` gave: the one of the segment with its checksum at zero, and that
/// of the finished segment under an IPv4 header with its checksum at zero.
pub open spec fn is_reply<
    L: Fn(Ipv4Addr) -> Option<HostConfig>,
    S: Fn(SequenceRequest) -> (u32, u16),
    C: Fn(TimestampRequest) -> u32,
    T: Fn(&[u8], Ipv4Addr, Ipv4Addr) -> u16,
    I: Fn(&[u8]) -> u16,
>(
    services: Services<L, S, C, T, I>,
    pkt: IngressPacket,
    source_mac: MacAddr,
    cookie: SynCookie,
    old: Seq<u8>,
    new: Seq<u8>,
) -> bool {
    exists|tcp_checksum: u16, ip_checksum: u16|
        {
            &&& #[trigger] services.sums_segment(
                reply_segment(pkt, cookie, old.subrange(34, 78), 0),
                pkt.ipv4_destination,
                pkt.ipv4_source,
                tcp_checksum,
            )
            &&& #[trigger] services.sums_packet(
                ethernet::payload(reply_frame(pkt, source_mac, cookie, old, tcp_checksum, 0)),
                ip_checksum,
            )
            &&& new == reply_frame(pkt, source_mac, cookie, old, tcp_checksum, ip_checksum)
        }
}

/// Whether `new` is an answer to `pkt`, written over `old`, with the SYN cookie and the checksums
/// that `services` gave.
pub open spec fn answers<
    L: Fn(Ipv4Addr) -> Option<HostConfig>,
    S: Fn(SequenceRequest) -> (u32, u16),
    C: Fn(TimestampRequest) -> u32,
    T: Fn(&[u8], Ipv4Addr, Ipv4Addr) -> u16,
    I: Fn(&[u8]) -> u16,
>(
    services: Services<L, S, C, T, I>,
    pkt: IngressPacket,
    source_mac: MacAddr,
    old: Seq<u8>,
    new: Seq<u8>,
) -> bool {
    exists|cookie: SynCookie| #[trigger]
        services.bakes(pkt, cookie) && is_reply(services, pkt, source_mac, cookie, old, new)
}

/// Writes the timestamps option.
pub(crate) fn write_timestamps(option: &mut [u8], timestamp: u32, echo: [u8; 4])
    requires
        old(option)@.len() == 10,
    ensures
        final(option)@ == timestamps_option(timestamp, echo),
{
    tcp::set_option_number(option, tcp::OPTION_TIMESTAMPS);
    tcp::set_option_length(option, 10);
    let mine = u32_to_oct(timestamp);
    tcp::set_option_data(
        option,
        &[mine[0], mine[1], mine[2], mine[3], echo[0], echo[1], echo[2], echo[3]],
    );
}

/// Writes the options of an answer.
fn write_options(pkt: &IngressPacket, cookie: &SynCookie, options: &mut [u8])
    requires
        old(options)@.len() == 24,
    ensures
        final(options)@ == reply_options(*pkt, *cookie, old(options)@),
{
    let (mss, rest) = options.split_at_mut(4);
    tcp::set_option_number(mss, tcp::OPTION_MSS);
    tcp::set_option_length(mss, 4);
    let mss_val: u16 = cookie.mss;
    assert((mss_val >> 8) as u8 == (mss_val / 256) as u8 && (mss_val & 0xff) as u8 == (mss_val
        % 256) as u8) by (bit_vector);
    tcp::set_option_data(mss, &[(mss_val >> 8) as u8, (mss_val & 0xff) as u8]);
    let (sack, rest) = rest.split_at_mut(2);
    tcp::set_option_number(sack, tcp::OPTION_SACK_PERMITTED);
    tcp::set_option_length(sack, 2);
    let (stamps, rest) = rest.split_at_mut(10);
    write_timestamps(stamps, cookie.timestamp, pkt.tcp_timestamp);
    let (wscale, _padding) = rest.split_at_mut(3);
    tcp::set_option_number(wscale, tcp::OPTION_WSCALE);
    tcp::set_option_length(wscale, 3);
    tcp::set_option_data(wscale, &[7]);
}

/// Writes the segment that answers `pkt`, but for its checksum.
#[verifier::rlimit(40)]
fn write_segment(pkt: &IngressPacket, cookie: &SynCookie, segment: &mut [u8])
    requires
        old(segment)@.len() == 44,
    ensures
        final(segment)@ == reply_segment(*pkt, *cookie, old(segment)@, 0),
{
    tcp::set_source(segment, pkt.tcp_destination);
    tcp::set_destination(segment, pkt.tcp_source);
    tcp::set_sequence(segment, cookie.sequence);
    tcp::set_acknowledgement(segment, pkt.tcp_sequence.wrapping_add(1));
    tcp::set_window(segment, 65535);
    assert(0x002u16 | 0x010u16 == 0x012u16) by (bit_vector);
    tcp::set_flags(segment, tcp::TCP_SYN | tcp::TCP_ACK);
    tcp::set_data_offset(segment, 11);
    tcp::set_checksum(segment, 0);
    let (_header, options) = segment.split_at_mut(20);
    write_options(pkt, cookie, options);
}

/// Writes the answer to `pkt` from the station `source_mac` to the front of `reply`, and returns
/// its length.
#[verifier::rlimit(40)]
pub fn build_reply<
    L: Fn(Ipv4Addr) -> Option<HostConfig>,
    S: Fn(SequenceRequest) -> (u32, u16),
    C: Fn(TimestampRequest) -> u32,
    T: Fn(&[u8], Ipv4Addr, Ipv4Addr) -> u16,
    I: Fn(&[u8]) -> u16,
>(
    pkt: &IngressPacket,
    source_mac: MacAddr,
    services: &Services<L, S, C, T, I>,
    reply: &mut [u8],
) -> (len: usize)
    requires
        old(reply)@.len() >= MIN_REPLY_BUF_LEN,
        services.ready(),
    ensures
        len == MIN_REPLY_BUF_LEN,
        answers(*services, *pkt, source_mac, old(reply)@, final(reply)@),
{
    let mut len: usize = 0;
    ethernet::set_source(reply, source_mac);
    ethernet::set_destination(reply, pkt.ether_source);
    ethernet::set_ethertype(reply, ethernet::ETHERTYPE_IPV4);
    let ether_len: usize = ethernet::packet_size(reply);
    len += ether_len;

    let (_ether, ip) = reply.split_at_mut(14);
    ipv4::set_version(ip, 4);
    ipv4::set_dscp(ip, 0);
    ipv4::set_ecn(ip, 0);
    ipv4::set_identification(ip, 0);
    ipv4::set_header_length(ip, 5);
    ipv4::set_ttl(ip, 126);
    ipv4::set_flags(ip, 2);
    ipv4::set_next_level_protocol(ip, ipv4::PROTOCOL_TCP);
    ipv4::set_source(ip, pkt.ipv4_destination);
    ipv4::set_destination(ip, pkt.ipv4_source);
    ipv4::set_checksum(ip, 0);
    len += ipv4::header_size(ip);

    let cookie = services.bake(pkt);
    let (_header, rest) = ip.split_at_mut(20);
    let (segment, _tail) = rest.split_at_mut(44);
    assert(segment@ == old(reply)@.subrange(34, 78));
    write_segment(pkt, &cookie, segment);
    let tcp_sum: u16 = services.sum_segment(segment, pkt.ipv4_destination, pkt.ipv4_source);
    tcp::set_checksum(segment, tcp_sum);
    len += tcp::packet_size(segment);

    ipv4::set_total_length(ip, (len - ether_len) as u16);
    let ghost unsummed = reply_frame(*pkt, source_mac, cookie, old(reply)@, tcp_sum, 0);
    assert(ip@ == ethernet::payload(unsummed));
    let ip_sum: u16 = services.sum_packet(ip);
    ipv4::set_checksum(ip, ip_sum);
    assert(reply@ == reply_frame(*pkt, source_mac, cookie, old(reply)@, tcp_sum, ip_sum));
    assert(is_reply(*services, *pkt, source_mac, cookie, old(reply)@, reply@));
    len
}

} // verus!
