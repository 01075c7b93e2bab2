//! Answers written over one that is in place.
//!
//! A buffer that holds some IPv4 packet with a TCP segment becomes the answer to a request when
//! what depends on the request is written over it. Everything else stays as it was.

use vstd::prelude::*;

use crate::addr::{Ipv4Addr, MacAddr};
use crate::bytes::{be16, be32};
use crate::ethernet;
use crate::ingress::IngressPacket;
use crate::ipv4;
use crate::reply::{next32, timestamps_option, write_timestamps};
use crate::services::{HostConfig, SequenceRequest, Services, SynCookie, TimestampRequest};
use crate::tcp;

verus! {

/// Where the segment starts in a frame that holds IPv4: after the Ethernet header and the header
/// that the packet announces.
pub open spec fn segment_start(frame: Seq<u8>) -> int {
    14 + ipv4::payload_start(ethernet::payload(frame))
}

/// The 44 bytes of a frame from the start of the segment on.
pub open spec fn segment_in(frame: Seq<u8>) -> Seq<u8> {
    frame.subrange(segment_start(frame), segment_start(frame) + 44)
}

/// Whether an answer can be written over the one in `b`: it holds the headers and 44 bytes of
/// segment, and the announced options reach as far as the end of the timestamps.
pub open spec fn is_patchable(b: Seq<u8>) -> bool {
    &&& b.len() >= 34
    &&& b.len() >= segment_start(b) + 44
    &&& tcp::data_offset(segment_in(b)) >= 9
}

/// The length of the answer in `b`: that of the three headers as they announce it.
pub open spec fn announced_length(b: Seq<u8>) -> int {
    segment_start(b) + 4 * tcp::data_offset(segment_in(b))
}

/// Whether byte `i` of an answer depends on the request, where the segment starts at `start`: it
/// belongs to the two Ethernet addresses, the total length, the checksums, the IPv4 addresses, the
/// ports and numbers, or the timestamps option.
pub open spec fn is_patched(start: int, i: int) -> bool {
    ||| 0 <= i < 12
    ||| 16 <= i < 18
    ||| 24 <= i < 34
    ||| start <= i < start + 12
    ||| start + 16 <= i < start + 18
    ||| start + 26 <= i < start + 36
}

/// The IPv4 header of the answer to `pkt`, written over the header `old`.
pub open spec fn patched_ipv4(
    pkt: IngressPacket,
    old: Seq<u8>,
    total_length: u16,
    checksum: u16,
) -> Seq<u8> {
    old.subrange(0, 2) + be16(total_length) + old.subrange(4, 10) + be16(checksum)
        + pkt.ipv4_destination.octets() + pkt.ipv4_source.octets() + old.skip(20)
}

/// The segment that answers `pkt`, written over the segment `old`.
pub open spec fn patched_segment(
    pkt: IngressPacket,
    cookie: SynCookie,
    old: Seq<u8>,
    checksum: u16,
) -> Seq<u8> {
    be16(pkt.tcp_destination) + be16(pkt.tcp_source) + be32(cookie.sequence) + be32(
        next32(pkt.tcp_sequence),
    ) + old.subrange(12, 16) + be16(checksum) + old.subrange(18, 26) + timestamps_option(
        cookie.timestamp,
        pkt.tcp_timestamp,
    ) + old.subrange(36, 44)
}

/// The frame that answers `pkt`, written over the frame `old`.
pub open spec fn patched_frame(
    pkt: IngressPacket,
    source_mac: MacAddr,
    cookie: SynCookie,
    old: Seq<u8>,
    tcp_checksum: u16,
    ip_checksum: u16,
) -> Seq<u8> {
    pkt.ether_source.octets() + source_mac.octets() + old.subrange(12, 14) + patched_ipv4(
        pkt,
        old.subrange(14, segment_start(old)),
        (announced_length(old) - 14) as u16,
        ip_checksum,
    ) + patched_segment(pkt, cookie, segment_in(old), tcp_checksum) + old.skip(
        segment_start(old) + 44,
    )
}

/// Whether `new` is the answer to `pkt` with the SYN cookie `cookie`, written over the frame `old`,
/// and with the checksums that `services` gave: the one of the segment with its checksum at zero,
/// and that of the finished segment under an IPv4 header with its checksum at zero.
pub open spec fn is_patch<
    L: Fn(Ipv4Addr) -> Option<HostConfig>,
    S: Fn(SequenceRequest) -> (u32, u16),
    C: Fn(TimestampRequest) -> u32,
    T: Fn(&[u8], Ipv4Addr, Ipv4Addr) -> u16,
    I: Fn(&[u8]) -> u16,
>(
    services: Services<L, S, C, T, I>,
    pkt: IngressPacket,
    source_mac: MacAddr,
    cookie: SynCookie,
    old: Seq<u8>,
    new: Seq<u8>,
) -> bool {
    exists|tcp_checksum: u16, ip_checksum: u16|
        {
            &&& #[trigger] services.sums_segment(
                patched_segment(pkt, cookie, segment_in(old), 0),
                pkt.ipv4_destination,
                pkt.ipv4_source,
                tcp_checksum,
            )
            &&& #[trigger] services.sums_packet(
                ethernet::payload(patched_frame(pkt, source_mac, cookie, old, tcp_checksum, 0)),
                ip_checksum,
            )
            &&& new == patched_frame(pkt, source_mac, cookie, old, tcp_checksum, ip_checksum)
        }
}

/// Whether `new` is an answer to `pkt`, written over the frame `old`, with the SYN cookie and the
/// checksums that `services` gave.
pub open spec fn patches<
    L: Fn(Ipv4Addr) -> Option<HostConfig>,
    S: Fn(SequenceRequest) -> (u32, u16),
    C: Fn(TimestampRequest) -> u32,
    T: Fn(&[u8], Ipv4Addr, Ipv4Addr) -> u16,
    I: Fn(&[u8]) -> u16,
>(
    services: Services<L, S, C, T, I>,
    pkt: IngressPacket,
    source_mac: MacAddr,
    old: Seq<u8>,
    new: Seq<u8>,
) -> bool {
    exists|cookie: SynCookie| #[trigger]
        services.bakes(pkt, cookie) && is_patch(services, pkt, source_mac, cookie, old, new)
}

/// The checksums of an answer written over another.
pub(crate) proof fn lemma_patch_sums<
    L: Fn(Ipv4Addr) -> Option<HostConfig>,
    S: Fn(SequenceRequest) -> (u32, u16),
    C: Fn(TimestampRequest) -> u32,
    T: Fn(&[u8], Ipv4Addr, Ipv4Addr) -> u16,
    I: Fn(&[u8]) -> u16,
>(
    services: Services<L, S, C, T, I>,
    pkt: IngressPacket,
    source_mac: MacAddr,
    cookie: SynCookie,
    old: Seq<u8>,
    new: Seq<u8>,
) -> (sums: (u16, u16))
    requires
        is_patch(services, pkt, source_mac, cookie, old, new),
    ensures
        services.sums_segment(
            patched_segment(pkt, cookie, segment_in(old), 0),
            pkt.ipv4_destination,
            pkt.ipv4_source,
            sums.0,
        ),
        services.sums_packet(
            ethernet::payload(patched_frame(pkt, source_mac, cookie, old, sums.0, 0)),
            sums.1,
        ),
        new == patched_frame(pkt, source_mac, cookie, old, sums.0, sums.1),
{
    choose|tcp_checksum: u16, ip_checksum: u16|
        {
            &&& #[trigger] services.sums_segment(
                patched_segment(pkt, cookie, segment_in(old), 0),
                pkt.ipv4_destination,
                pkt.ipv4_source,
                tcp_checksum,
            )
            &&& #[trigger] services.sums_packet(
                ethernet::payload(patched_frame(pkt, source_mac, cookie, old, tcp_checksum, 0)),
                ip_checksum,
            )
            &&& new == patched_frame(pkt, source_mac, cookie, old, tcp_checksum, ip_checksum)
        }
}

/// What an answer in place holds where the new one depends on the request does not show in the new
/// one.
pub(crate) proof fn lemma_patched_bytes_do_not_show(
    pkt: IngressPacket,
    source_mac: MacAddr,
    cookie: SynCookie,
    one: Seq<u8>,
    other: Seq<u8>,
    sums: (u16, u16),
)
    requires
        is_patchable(one),
        one.len() == other.len(),
        forall|i: int|
            0 <= i < one.len() && !is_patched(segment_start(one), i) ==> #[trigger] one[i]
                == other[i],
    ensures
        is_patchable(other),
        segment_start(one) == segment_start(other),
        announced_length(one) == announced_length(other),
        patched_segment(pkt, cookie, segment_in(one), sums.0) == patched_segment(
            pkt,
            cookie,
            segment_in(other),
            sums.0,
        ),
        patched_frame(pkt, source_mac, cookie, one, sums.0, sums.1) == patched_frame(
            pkt,
            source_mac,
            cookie,
            other,
            sums.0,
            sums.1,
        ),
{
    let start = segment_start(one);
    assert(one[14] == other[14]);
    assert(ethernet::payload(one)[0] == ethernet::payload(other)[0]);
    assert(segment_start(other) == start);
    assert(one[start + 12] == other[start + 12]);
    assert(segment_in(one)[12] == segment_in(other)[12]);
    assert(announced_length(one) == announced_length(other));
    let new_segment = patched_segment(pkt, cookie, segment_in(one), sums.0);
    assert(new_segment == patched_segment(pkt, cookie, segment_in(other), sums.0));
    assert(one.subrange(12, 14) == other.subrange(12, 14));
    assert(one.skip(start + 44) == other.skip(start + 44));
    let one_header = one.subrange(14, start);
    let other_header = other.subrange(14, start);
    assert(one_header.subrange(0, 2) == other_header.subrange(0, 2));
    assert(one_header.subrange(4, 10) == other_header.subrange(4, 10));
    assert(one_header.skip(20) == other_header.skip(20));
}

/// Writes the segment that answers `pkt` over the one in `segment`, but for its checksum.
fn patch_segment(pkt: &IngressPacket, cookie: &SynCookie, segment: &mut [u8])
    requires
        old(segment)@.len() == 44,
    ensures
        final(segment)@ == patched_segment(*pkt, *cookie, old(segment)@, 0),
{
    tcp::set_source(segment, pkt.tcp_destination);
    tcp::set_destination(segment, pkt.tcp_source);
    tcp::set_sequence(segment, cookie.sequence);
    tcp::set_acknowledgement(segment, pkt.tcp_sequence.wrapping_add(1));
    tcp::set_checksum(segment, 0);
    let (_fixed, options) = segment.split_at_mut(20);
    let (_before, rest) = options.split_at_mut(6);
    let (stamps, _after) = rest.split_at_mut(10);
    write_timestamps(stamps, cookie.timestamp, pkt.tcp_timestamp);
}

/// Writes the answer to `pkt` from the station `source_mac` over the one in `reply`, and returns
/// its length as the headers announce it. The answer keeps the segment size and the other fields
/// that are in place.
#[verifier::rlimit(40)]
pub fn build_reply_fast<
    L: Fn(Ipv4Addr) -> Option<HostConfig>,
    S: Fn(SequenceRequest) -> (u32, u16),
    C: Fn(TimestampRequest) -> u32,
    T: Fn(&[u8], Ipv4Addr, Ipv4Addr) -> u16,
    I: Fn(&[u8]) -> u16,
>(
    pkt: &IngressPacket,
    source_mac: MacAddr,
    services: &Services<L, S, C, T, I>,
    reply: &mut [u8],
) -> (len: usize)
    requires
        is_patchable(old(reply)@),
        services.ready(),
    ensures
        len == announced_length(old(reply)@),
        patches(*services, *pkt, source_mac, old(reply)@, final(reply)@),
{
    let ghost before = old(reply)@;
    let mut len: usize = 0;
    ethernet::set_source(reply, source_mac);
    ethernet::set_destination(reply, pkt.ether_source);
    let ether_len: usize = ethernet::packet_size(reply);
    len += ether_len;

    let (_ether, ip) = reply.split_at_mut(14);
    ipv4::set_source(ip, pkt.ipv4_destination);
    ipv4::set_destination(ip, pkt.ipv4_source);
    ipv4::set_checksum(ip, 0);
    let header_len: usize = ipv4::header_size(ip);
    len += header_len;

    let cookie = services.bake(pkt);
    let (_header, rest) = ip.split_at_mut(header_len);
    let (segment, _tail) = rest.split_at_mut(44);
    assert(segment@ == segment_in(before));
    patch_segment(pkt, &cookie, segment);
    let tcp_sum: u16 = services.sum_segment(segment, pkt.ipv4_destination, pkt.ipv4_source);
    tcp::set_checksum(segment, tcp_sum);
    assert(segment@ == patched_segment(*pkt, cookie, segment_in(before), tcp_sum));
    len += tcp::packet_size(segment);

    ipv4::set_total_length(ip, (len - ether_len) as u16);
    let ghost unsummed = patched_frame(*pkt, source_mac, cookie, before, tcp_sum, 0);
    assert(ip@ == ethernet::payload(unsummed));
    let ip_sum: u16 = services.sum_packet(ip);
    ipv4::set_checksum(ip, ip_sum);
    assert(reply@ == patched_frame(*pkt, source_mac, cookie, before, tcp_sum, ip_sum));
    assert(is_patch(*services, *pkt, source_mac, cookie, before, reply@));
    len
}

} // verus!
