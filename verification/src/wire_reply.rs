//! What an answer is, told in the bytes on the wire and in plain numbers.
//!
//! A byte is given by its place, a number by the sum of its bytes, and what was asked of the services
//! by the calls themselves.

use vstd::prelude::*;

use crate::addr::{Ipv4Addr, MacAddr};
use crate::bytes::{be16, be32};
use crate::ethernet;
use crate::ingress::{input_action, Action, IngressPacket};
use crate::laws::lemma_reply_sums;
use crate::patch::{
    announced_length, is_patch, is_patchable, lemma_patch_sums, patched_frame, patched_ipv4,
    patched_segment, patches, segment_in, segment_start,
};
use crate::reply::{
    answers, is_reply, next32, reply_frame, reply_ipv4, reply_options, reply_segment,
    MIN_REPLY_BUF_LEN,
};
use crate::services::{
    sequence_request_for, timestamp_request_for, HostConfig, SequenceRequest, Services, SynCookie,
    TimestampRequest,
};
use crate::template::{answers_with_mss, blank, offered_mss, template_request, with_mss};
use crate::wire::{law_input_on_the_wire, law_network_byte_order};

verus! {

/// An answer takes 78 bytes.
pub proof fn law_length_of_an_answer()
    ensures
        MIN_REPLY_BUF_LEN == 78,
{
}

/// Services that take every question, where the checksums need only take what holds a whole header,
/// can be called upon.
pub proof fn law_willing_services_are_ready<
    L: Fn(Ipv4Addr) -> Option<HostConfig>,
    S: Fn(SequenceRequest) -> (u32, u16),
    C: Fn(TimestampRequest) -> u32,
    T: Fn(&[u8], Ipv4Addr, Ipv4Addr) -> u16,
    I: Fn(&[u8]) -> u16,
>(services: Services<L, S, C, T, I>)
    requires
        forall|ip: Ipv4Addr| call_requires(services.lookup, (ip,)),
        forall|request: SequenceRequest| call_requires(services.sequence_cookie, (request,)),
        forall|request: TimestampRequest| call_requires(services.timestamp_cookie, (request,)),
        forall|segment: &[u8], source: Ipv4Addr, destination: Ipv4Addr|
            segment@.len() >= 20 ==> #[trigger] call_requires(
                services.tcp_checksum,
                (segment, source, destination),
            ),
        forall|ip: &[u8]|
            ip@.len() >= 20 ==> #[trigger] call_requires(services.ip_checksum, (ip,)),
    ensures
        services.ready(),
{
}

/// The SYN cookie of an answer comes from four calls: the routing table is asked twice for the
/// destination of the request, the sequence number and the segment size are made from the request
/// and the low 32 bits of the one clock in the first reply, and the timestamp from the low 32 bits of
/// the other clock in the second.
pub proof fn law_cookie_comes_from_the_services<
    L: Fn(Ipv4Addr) -> Option<HostConfig>,
    S: Fn(SequenceRequest) -> (u32, u16),
    C: Fn(TimestampRequest) -> u32,
    T: Fn(&[u8], Ipv4Addr, Ipv4Addr) -> u16,
    I: Fn(&[u8]) -> u16,
>(
    services: Services<L, S, C, T, I>,
    pkt: IngressPacket,
    cookie: SynCookie,
)
    requires
        services.bakes(pkt, cookie),
    ensures
        exists|aged: Option<HostConfig>, stamped: Option<HostConfig>|
            {
                &&& #[trigger] call_ensures(services.lookup, (pkt.ipv4_destination,), aged)
                &&& call_ensures(
                    services.sequence_cookie,
                    (
                        SequenceRequest {
                            ipv4_source: pkt.ipv4_source,
                            ipv4_destination: pkt.ipv4_destination,
                            tcp_source: pkt.tcp_source,
                            tcp_destination: pkt.tcp_destination,
                            tcp_sequence: pkt.tcp_sequence,
                            tcp_mss: pkt.tcp_mss,
                            cookie_time: match aged {
                                Some(config) => (config.tcp_cookie_time % 0x1_0000_0000) as u32,
                                None => 0,
                            },
                        },
                    ),
                    (cookie.sequence, cookie.mss),
                )
                &&& #[trigger] call_ensures(services.lookup, (pkt.ipv4_destination,), stamped)
                &&& call_ensures(
                    services.timestamp_cookie,
                    (
                        TimestampRequest {
                            wscale: 7,
                            sack_permitted: 1,
                            ecn: 0,
                            tcp_time: match stamped {
                                Some(config) => (config.tcp_timestamp % 0x1_0000_0000) as u32,
                                None => 0,
                            },
                        },
                    ),
                    cookie.timestamp,
                )
            },
{
    let (aged, stamped) = choose|aged: Option<HostConfig>, stamped: Option<HostConfig>|
        {
            &&& #[trigger] services.finds(pkt.ipv4_destination, aged)
            &&& call_ensures(
                services.sequence_cookie,
                (sequence_request_for(pkt, aged),),
                (cookie.sequence, cookie.mss),
            )
            &&& #[trigger] services.finds(pkt.ipv4_destination, stamped)
            &&& call_ensures(
                services.timestamp_cookie,
                (timestamp_request_for(stamped),),
                cookie.timestamp,
            )
        };
    assert(call_ensures(services.lookup, (pkt.ipv4_destination,), aged));
    assert(call_ensures(services.lookup, (pkt.ipv4_destination,), stamped));
}

/// Whichever way an answer is written, it is written with a SYN cookie that was made for the
/// request. Written by way of a template, it offers the segment size of the template instead.
pub proof fn law_answers_have_a_cookie<
    L: Fn(Ipv4Addr) -> Option<HostConfig>,
    S: Fn(SequenceRequest) -> (u32, u16),
    C: Fn(TimestampRequest) -> u32,
    T: Fn(&[u8], Ipv4Addr, Ipv4Addr) -> u16,
    I: Fn(&[u8]) -> u16,
>(
    services: Services<L, S, C, T, I>,
    pkt: IngressPacket,
    source_mac: MacAddr,
    mss: u16,
    old: Seq<u8>,
    new: Seq<u8>,
)
    ensures
        answers(services, pkt, source_mac, old, new) ==> exists|cookie: SynCookie| #[trigger]
            services.bakes(pkt, cookie) && is_reply(services, pkt, source_mac, cookie, old, new),
        answers_with_mss(services, pkt, source_mac, mss, old, new) ==> exists|cookie: SynCookie|
            #[trigger] services.bakes(pkt, cookie) && is_reply(
                services,
                pkt,
                source_mac,
                SynCookie { sequence: cookie.sequence, mss, timestamp: cookie.timestamp },
                old,
                new,
            ),
        patches(services, pkt, source_mac, old, new) ==> exists|cookie: SynCookie| #[trigger]
            services.bakes(pkt, cookie) && is_patch(services, pkt, source_mac, cookie, old, new),
{
    if answers_with_mss(services, pkt, source_mac, mss, old, new) {
        let cookie = choose|cookie: SynCookie| #[trigger]
            services.bakes(pkt, cookie) && is_reply(
                services,
                pkt,
                source_mac,
                with_mss(cookie, mss),
                old,
                new,
            );
        assert(with_mss(cookie, mss) == SynCookie {
            sequence: cookie.sequence,
            mss,
            timestamp: cookie.timestamp,
        });
    }
}

/// The bytes of an answer, but for the checksums. It goes back to where the request came from, has
/// SYN and ACK set, and acknowledges the number after the sequence number of the request, where zero
/// follows the last. The fragment offset, the reserved bits, the urgent pointer, the padding and all
/// that follows are left as they were.
pub proof fn law_reply_on_the_wire<
    L: Fn(Ipv4Addr) -> Option<HostConfig>,
    S: Fn(SequenceRequest) -> (u32, u16),
    C: Fn(TimestampRequest) -> u32,
    T: Fn(&[u8], Ipv4Addr, Ipv4Addr) -> u16,
    I: Fn(&[u8]) -> u16,
>(
    services: Services<L, S, C, T, I>,
    pkt: IngressPacket,
    source_mac: MacAddr,
    cookie: SynCookie,
    old: Seq<u8>,
    new: Seq<u8>,
)
    requires
        old.len() >= 78,
        is_reply(services, pkt, source_mac, cookie, old, new),
    ensures
        new.len() == old.len(),
        pkt.ether_source == MacAddr(new[0], new[1], new[2], new[3], new[4], new[5]),
        source_mac == MacAddr(new[6], new[7], new[8], new[9], new[10], new[11]),
        new[12] * 256 + new[13] == 0x0800,
        new[14] == 0x45,
        new[15] == 0,
        new[16] * 256 + new[17] == 64,
        new[18] == 0,
        new[19] == 0,
        new[20] / 32 == 2,
        new[20] % 32 == old[20] % 32,
        new[21] == old[21],
        new[22] == 126,
        new[23] == 6,
        pkt.ipv4_destination == Ipv4Addr(new[26], new[27], new[28], new[29]),
        pkt.ipv4_source == Ipv4Addr(new[30], new[31], new[32], new[33]),
        new[34] * 256 + new[35] == pkt.tcp_destination,
        new[36] * 256 + new[37] == pkt.tcp_source,
        new[38] * 0x100_0000 + new[39] * 0x1_0000 + new[40] * 256 + new[41] == cookie.sequence,
        pkt.tcp_sequence < 0xffff_ffff
            ==> new[42] * 0x100_0000 + new[43] * 0x1_0000 + new[44] * 256 + new[45]
                == pkt.tcp_sequence + 1,
        pkt.tcp_sequence == 0xffff_ffff
            ==> new[42] * 0x100_0000 + new[43] * 0x1_0000 + new[44] * 256 + new[45] == 0,
        new[46] / 16 == 11,
        new[46] % 2 == 0,
        new[46] / 2 % 8 == old[46] / 2 % 8,
        new[47] == 0x12,
        new[48] * 256 + new[49] == 65535,
        new[52] == old[52],
        new[53] == old[53],
        new[54] == 2,
        new[55] == 4,
        new[56] * 256 + new[57] == cookie.mss,
        new[58] == 4,
        new[59] == 2,
        new[60] == 8,
        new[61] == 10,
        new[62] * 0x100_0000 + new[63] * 0x1_0000 + new[64] * 256 + new[65] == cookie.timestamp,
        pkt.tcp_timestamp@ == seq![new[66], new[67], new[68], new[69]],
        new[70] == 3,
        new[71] == 3,
        new[72] == 7,
        forall|i: int| 73 <= i < old.len() ==> #[trigger] new[i] == old[i],
{
    let sums = lemma_reply_sums(services, pkt, source_mac, cookie, old, new);
    lemma_reply_bytes(pkt, source_mac, cookie, old, sums);
}

/// The bytes of the frame `reply_frame`.
#[verifier::rlimit(40)]
proof fn lemma_reply_bytes(
    pkt: IngressPacket,
    source_mac: MacAddr,
    cookie: SynCookie,
    old: Seq<u8>,
    sums: (u16, u16),
)
    requires
        old.len() >= 78,
    ensures
        ({
            let new = reply_frame(pkt, source_mac, cookie, old, sums.0, sums.1);
            &&& new.len() == old.len()
            &&& pkt.ether_source == MacAddr(new[0], new[1], new[2], new[3], new[4], new[5])
            &&& source_mac == MacAddr(new[6], new[7], new[8], new[9], new[10], new[11])
            &&& new[12] * 256 + new[13] == 0x0800
            &&& new[14] == 0x45
            &&& new[15] == 0
            &&& new[16] * 256 + new[17] == 64
            &&& new[18] == 0
            &&& new[19] == 0
            &&& new[20] / 32 == 2
            &&& new[20] % 32 == old[20] % 32
            &&& new[21] == old[21]
            &&& new[22] == 126
            &&& new[23] == 6
            &&& pkt.ipv4_destination == Ipv4Addr(new[26], new[27], new[28], new[29])
            &&& pkt.ipv4_source == Ipv4Addr(new[30], new[31], new[32], new[33])
            &&& new[34] * 256 + new[35] == pkt.tcp_destination
            &&& new[36] * 256 + new[37] == pkt.tcp_source
            &&& new[38] * 0x100_0000 + new[39] * 0x1_0000 + new[40] * 256 + new[41]
                == cookie.sequence
            &&& pkt.tcp_sequence < 0xffff_ffff
                ==> new[42] * 0x100_0000 + new[43] * 0x1_0000 + new[44] * 256 + new[45]
                    == pkt.tcp_sequence + 1
            &&& pkt.tcp_sequence == 0xffff_ffff
                ==> new[42] * 0x100_0000 + new[43] * 0x1_0000 + new[44] * 256 + new[45] == 0
            &&& new[46] / 16 == 11
            &&& new[46] % 2 == 0
            &&& new[46] / 2 % 8 == old[46] / 2 % 8
            &&& new[47] == 0x12
            &&& new[48] * 256 + new[49] == 65535
            &&& new[52] == old[52]
            &&& new[53] == old[53]
            &&& new[54] == 2
            &&& new[55] == 4
            &&& new[56] * 256 + new[57] == cookie.mss
            &&& new[58] == 4
            &&& new[59] == 2
            &&& new[60] == 8
            &&& new[61] == 10
            &&& new[62] * 0x100_0000 + new[63] * 0x1_0000 + new[64] * 256 + new[65]
                == cookie.timestamp
            &&& pkt.tcp_timestamp@ == seq![new[66], new[67], new[68], new[69]]
            &&& new[70] == 3
            &&& new[71] == 3
            &&& new[72] == 7
            &&& forall|i: int| 73 <= i < old.len() ==> #[trigger] new[i] == old[i]
            &&& new[24] * 256 + new[25] == sums.1
            &&& new[50] * 256 + new[51] == sums.0
        }),
{
    lemma_reply_pieces(pkt, source_mac, cookie, old, sums);
    lemma_reply_ipv4_bytes(pkt, old.subrange(14, 34), sums.1);
    lemma_reply_segment_bytes(pkt, cookie, old.subrange(34, 78), sums.0);
}

/// The pieces of the frame `reply_frame`.
proof fn lemma_reply_pieces(
    pkt: IngressPacket,
    source_mac: MacAddr,
    cookie: SynCookie,
    old: Seq<u8>,
    sums: (u16, u16),
)
    requires
        old.len() >= 78,
    ensures
        ({
            let new = reply_frame(pkt, source_mac, cookie, old, sums.0, sums.1);
            let ip = reply_ipv4(pkt, old.subrange(14, 34), sums.1);
            let segment = reply_segment(pkt, cookie, old.subrange(34, 78), sums.0);
            &&& new.len() == old.len()
            &&& pkt.ether_source == MacAddr(new[0], new[1], new[2], new[3], new[4], new[5])
            &&& source_mac == MacAddr(new[6], new[7], new[8], new[9], new[10], new[11])
            &&& new[12] * 256 + new[13] == 0x0800
            &&& forall|i: int| 14 <= i < 34 ==> #[trigger] new[i] == ip[i - 14]
            &&& forall|i: int| 34 <= i < 78 ==> #[trigger] new[i] == segment[i - 34]
            &&& forall|i: int| 78 <= i < old.len() ==> #[trigger] new[i] == old[i]
        }),
{
    let head = ethernet::header(pkt.ether_source, source_mac, ethernet::ETHERTYPE_IPV4);
    let ip = reply_ipv4(pkt, old.subrange(14, 34), sums.1);
    let segment = reply_segment(pkt, cookie, old.subrange(34, 78), sums.0);
    assert(head.len() == 14 && ip.len() == 20 && segment.len() == 44);
}

/// The bytes of the header `reply_ipv4`.
proof fn lemma_reply_ipv4_bytes(pkt: IngressPacket, old: Seq<u8>, checksum: u16)
    requires
        old.len() == 20,
    ensures
        ({
            let ip = reply_ipv4(pkt, old, checksum);
            &&& ip.len() == 20
            &&& ip[0] == 0x45
            &&& ip[1] == 0
            &&& ip[2] * 256 + ip[3] == 64
            &&& ip[4] == 0
            &&& ip[5] == 0
            &&& ip[6] / 32 == 2
            &&& ip[6] % 32 == old[6] % 32
            &&& ip[7] == old[7]
            &&& ip[8] == 126
            &&& ip[9] == 6
            &&& ip[10] * 256 + ip[11] == checksum
            &&& pkt.ipv4_destination == Ipv4Addr(ip[12], ip[13], ip[14], ip[15])
            &&& pkt.ipv4_source == Ipv4Addr(ip[16], ip[17], ip[18], ip[19])
        }),
{
}

/// The bytes of the segment `reply_segment`.
#[verifier::rlimit(40)]
proof fn lemma_reply_segment_bytes(
    pkt: IngressPacket,
    cookie: SynCookie,
    old: Seq<u8>,
    checksum: u16,
)
    requires
        old.len() == 44,
    ensures
        ({
            let b = reply_segment(pkt, cookie, old, checksum);
            &&& b.len() == 44
            &&& b[0] * 256 + b[1] == pkt.tcp_destination
            &&& b[2] * 256 + b[3] == pkt.tcp_source
            &&& b[4] * 0x100_0000 + b[5] * 0x1_0000 + b[6] * 256 + b[7] == cookie.sequence
            &&& pkt.tcp_sequence < 0xffff_ffff ==> b[8] * 0x100_0000 + b[9] * 0x1_0000 + b[10] * 256
                + b[11] == pkt.tcp_sequence + 1
            &&& pkt.tcp_sequence == 0xffff_ffff ==> b[8] * 0x100_0000 + b[9] * 0x1_0000 + b[10]
                * 256 + b[11] == 0
            &&& b[12] / 16 == 11
            &&& b[12] % 2 == 0
            &&& b[12] / 2 % 8 == old[12] / 2 % 8
            &&& b[13] == 0x12
            &&& b[14] * 256 + b[15] == 65535
            &&& b[16] * 256 + b[17] == checksum
            &&& b[18] == old[18]
            &&& b[19] == old[19]
            &&& b[20] == 2
            &&& b[21] == 4
            &&& b[22] * 256 + b[23] == cookie.mss
            &&& b[24] == 4
            &&& b[25] == 2
            &&& b[26] == 8
            &&& b[27] == 10
            &&& b[28] * 0x100_0000 + b[29] * 0x1_0000 + b[30] * 256 + b[31] == cookie.timestamp
            &&& pkt.tcp_timestamp@ == seq![b[32], b[33], b[34], b[35]]
            &&& b[36] == 3
            &&& b[37] == 3
            &&& b[38] == 7
            &&& forall|i: int| 39 <= i < 44 ==> #[trigger] b[i] == old[i]
        }),
{
    let b = reply_segment(pkt, cookie, old, checksum);
    let options = reply_options(pkt, cookie, old.subrange(20, 44));
    lemma_reply_head_bytes(pkt, cookie, old, checksum);
    lemma_reply_option_bytes(pkt, cookie, old.subrange(20, 44));
    assert forall|i: int| 20 <= i < 44 implies #[trigger] b[i] == options[i - 20] by {}
    assert(seq![b[32], b[33], b[34], b[35]] == seq![
        options[12],
        options[13],
        options[14],
        options[15],
    ]);
}

/// The first 20 bytes of the segment `reply_segment`, and where its options are.
#[verifier::spinoff_prover]
proof fn lemma_reply_head_bytes(
    pkt: IngressPacket,
    cookie: SynCookie,
    old: Seq<u8>,
    checksum: u16,
)
    requires
        old.len() == 44,
    ensures
        ({
            let b = reply_segment(pkt, cookie, old, checksum);
            let options = reply_options(pkt, cookie, old.subrange(20, 44));
            &&& b.len() == 44
            &&& b[0] * 256 + b[1] == pkt.tcp_destination
            &&& b[2] * 256 + b[3] == pkt.tcp_source
            &&& b[4] * 0x100_0000 + b[5] * 0x1_0000 + b[6] * 256 + b[7] == cookie.sequence
            &&& pkt.tcp_sequence < 0xffff_ffff ==> b[8] * 0x100_0000 + b[9] * 0x1_0000 + b[10] * 256
                + b[11] == pkt.tcp_sequence + 1
            &&& pkt.tcp_sequence == 0xffff_ffff ==> b[8] * 0x100_0000 + b[9] * 0x1_0000 + b[10]
                * 256 + b[11] == 0
            &&& b[12] / 16 == 11
            &&& b[12] % 2 == 0
            &&& b[12] / 2 % 8 == old[12] / 2 % 8
            &&& b[13] == 0x12
            &&& b[14] * 256 + b[15] == 65535
            &&& b[16] * 256 + b[17] == checksum
            &&& b[18] == old[18]
            &&& b[19] == old[19]
            &&& b.subrange(20, 44) == options
        }),
{
    let b = reply_segment(pkt, cookie, old, checksum);
    lemma_reply_head_pieces(pkt, cookie, old, checksum);
    lemma_numbers_in_place(
        b,
        pkt.tcp_destination,
        pkt.tcp_source,
        cookie.sequence,
        pkt.tcp_sequence,
    );
    lemma_offset_byte(b[12], old[12]);
    lemma_short_in_place(b, 14, 0xffff);
    lemma_short_in_place(b, 16, checksum);
}

/// Two ports and two numbers in a row, the second of them the one after `sequence`, read back.
proof fn lemma_numbers_in_place(b: Seq<u8>, one: u16, two: u16, three: u32, sequence: u32)
    requires
        b.len() >= 12,
        b.subrange(0, 12) == be16(one) + be16(two) + be32(three) + be32(next32(sequence)),
    ensures
        b[0] * 256 + b[1] == one,
        b[2] * 256 + b[3] == two,
        b[4] * 0x100_0000 + b[5] * 0x1_0000 + b[6] * 256 + b[7] == three,
        sequence < 0xffff_ffff ==> b[8] * 0x100_0000 + b[9] * 0x1_0000 + b[10] * 256 + b[11]
            == sequence + 1,
        sequence == 0xffff_ffff ==> b[8] * 0x100_0000 + b[9] * 0x1_0000 + b[10] * 256 + b[11] == 0,
{
    let c = be16(one) + be16(two) + be32(three) + be32(next32(sequence));
    assert forall|i: int| 0 <= i < 12 implies #[trigger] b[i] == c[i] by {
        assert(b.subrange(0, 12)[i] == b[i]);
    }
    law_network_byte_order(one, three, b, 0);
    law_network_byte_order(two, next32(sequence), b, 0);
}

/// A short number in its place reads back.
proof fn lemma_short_in_place(b: Seq<u8>, at: int, short: u16)
    requires
        0 <= at,
        at + 2 <= b.len(),
        b.subrange(at, at + 2) == be16(short),
    ensures
        b[at] * 256 + b[at + 1] == short,
{
    assert(b.subrange(at, at + 2)[0] == b[at]);
    assert(b.subrange(at, at + 2)[1] == b[at + 1]);
    law_network_byte_order(short, 0, b, 0);
}

/// A long number in its place reads back.
proof fn lemma_long_in_place(b: Seq<u8>, at: int, long: u32)
    requires
        0 <= at,
        at + 4 <= b.len(),
        b.subrange(at, at + 4) == be32(long),
    ensures
        b[at] * 0x100_0000 + b[at + 1] * 0x1_0000 + b[at + 2] * 256 + b[at + 3] == long,
{
    assert(b.subrange(at, at + 4)[0] == b[at]);
    assert(b.subrange(at, at + 4)[1] == b[at + 1]);
    assert(b.subrange(at, at + 4)[2] == b[at + 2]);
    assert(b.subrange(at, at + 4)[3] == b[at + 3]);
    law_network_byte_order(0, long, b, 0);
}

/// The pieces of the segment `reply_segment`.
proof fn lemma_reply_head_pieces(
    pkt: IngressPacket,
    cookie: SynCookie,
    old: Seq<u8>,
    checksum: u16,
)
    requires
        old.len() == 44,
    ensures
        ({
            let b = reply_segment(pkt, cookie, old, checksum);
            &&& b.len() == 44
            &&& b.subrange(0, 12) == be16(pkt.tcp_destination) + be16(pkt.tcp_source) + be32(
                cookie.sequence,
            ) + be32(next32(pkt.tcp_sequence))
            &&& b[12] == (11 * 16 + old[12] % 16 / 2 * 2) as u8
            &&& b[13] == 0x12
            &&& b.subrange(14, 16) == be16(0xffff)
            &&& b.subrange(16, 18) == be16(checksum)
            &&& b[18] == old[18]
            &&& b[19] == old[19]
            &&& b.subrange(20, 44) == reply_options(pkt, cookie, old.subrange(20, 44))
        }),
{
}

/// The flags byte with the data offset.
proof fn lemma_offset_byte(offset: u8, old: u8)
    requires
        offset == (11 * 16 + old % 16 / 2 * 2) as u8,
    ensures
        offset / 16 == 11,
        offset % 2 == 0,
        offset / 2 % 8 == old / 2 % 8,
{
}

/// The bytes of the options `reply_options`.
#[verifier::spinoff_prover]
proof fn lemma_reply_option_bytes(pkt: IngressPacket, cookie: SynCookie, old: Seq<u8>)
    requires
        old.len() == 24,
    ensures
        ({
            let b = reply_options(pkt, cookie, old);
            &&& b.len() == 24
            &&& b[0] == 2
            &&& b[1] == 4
            &&& b[2] * 256 + b[3] == cookie.mss
            &&& b[4] == 4
            &&& b[5] == 2
            &&& b[6] == 8
            &&& b[7] == 10
            &&& b[8] * 0x100_0000 + b[9] * 0x1_0000 + b[10] * 256 + b[11] == cookie.timestamp
            &&& pkt.tcp_timestamp@ == seq![b[12], b[13], b[14], b[15]]
            &&& b[16] == 3
            &&& b[17] == 3
            &&& b[18] == 7
            &&& forall|i: int| 19 <= i < 24 ==> #[trigger] b[i] == old[i]
        }),
{
    let b = reply_options(pkt, cookie, old);
    assert(b.subrange(2, 4) == be16(cookie.mss));
    assert(b.subrange(8, 12) == be32(cookie.timestamp));
    lemma_short_in_place(b, 2, cookie.mss);
    lemma_long_in_place(b, 8, cookie.timestamp);
    assert(pkt.tcp_timestamp@ == seq![b[12], b[13], b[14], b[15]]);
}

/// The checksums of an answer are those that the services gave for its own bytes: for the segment
/// with its checksum at zero, from the destination of the request to its source, and for the IPv4
/// packet with its checksum at zero and all that follows it in the buffer.
pub proof fn law_reply_is_summed_up<
    L: Fn(Ipv4Addr) -> Option<HostConfig>,
    S: Fn(SequenceRequest) -> (u32, u16),
    C: Fn(TimestampRequest) -> u32,
    T: Fn(&[u8], Ipv4Addr, Ipv4Addr) -> u16,
    I: Fn(&[u8]) -> u16,
>(
    services: Services<L, S, C, T, I>,
    pkt: IngressPacket,
    source_mac: MacAddr,
    cookie: SynCookie,
    old: Seq<u8>,
    new: Seq<u8>,
)
    requires
        old.len() >= 78,
        is_reply(services, pkt, source_mac, cookie, old, new),
    ensures
        exists|segment: &[u8]|
            segment@ == new.subrange(34, 78).update(16, 0).update(17, 0) && #[trigger] call_ensures(
                services.tcp_checksum,
                (segment, pkt.ipv4_destination, pkt.ipv4_source),
                (new[50] * 256 + new[51]) as u16,
            ),
        exists|ip: &[u8]|
            ip@ == new.skip(14).update(10, 0).update(11, 0) && #[trigger] call_ensures(
                services.ip_checksum,
                (ip,),
                (new[24] * 256 + new[25]) as u16,
            ),
{
    let sums = lemma_reply_sums(services, pkt, source_mac, cookie, old, new);
    lemma_reply_bytes(pkt, source_mac, cookie, old, sums);
    lemma_unsummed_bytes(pkt, source_mac, cookie, old, sums);
    let segment = choose|bytes: &[u8]|
        bytes@ == reply_segment(pkt, cookie, old.subrange(34, 78), 0) && #[trigger] call_ensures(
            services.tcp_checksum,
            (bytes, pkt.ipv4_destination, pkt.ipv4_source),
            sums.0,
        );
    let ip = choose|bytes: &[u8]|
        bytes@ == ethernet::payload(reply_frame(pkt, source_mac, cookie, old, sums.0, 0))
            && #[trigger] call_ensures(services.ip_checksum, (bytes,), sums.1);
    assert(call_ensures(
        services.tcp_checksum,
        (segment, pkt.ipv4_destination, pkt.ipv4_source),
        (new[50] * 256 + new[51]) as u16,
    ));
    assert(call_ensures(services.ip_checksum, (ip,), (new[24] * 256 + new[25]) as u16));
}

/// What is summed up in an answer is the answer with a checksum at zero.
proof fn lemma_unsummed_bytes(
    pkt: IngressPacket,
    source_mac: MacAddr,
    cookie: SynCookie,
    old: Seq<u8>,
    sums: (u16, u16),
)
    requires
        old.len() >= 78,
    ensures
        ({
            let new = reply_frame(pkt, source_mac, cookie, old, sums.0, sums.1);
            &&& reply_segment(pkt, cookie, old.subrange(34, 78), 0) == new.subrange(34, 78).update(
                16,
                0,
            ).update(17, 0)
            &&& ethernet::payload(reply_frame(pkt, source_mac, cookie, old, sums.0, 0)) == new.skip(
                14,
            ).update(10, 0).update(11, 0)
        }),
{
    let new = reply_frame(pkt, source_mac, cookie, old, sums.0, sums.1);
    let inner = old.subrange(34, 78);
    let segment = reply_segment(pkt, cookie, inner, sums.0);
    assert(new.subrange(34, 78) == segment);
    assert(reply_segment(pkt, cookie, inner, 0) == segment.update(16, 0).update(17, 0));
    let head = old.subrange(14, 34);
    assert(new.subrange(14, 34) == reply_ipv4(pkt, head, sums.1));
    assert(reply_ipv4(pkt, head, 0) == reply_ipv4(pkt, head, sums.1).update(10, 0).update(11, 0));
    let unsummed = reply_frame(pkt, source_mac, cookie, old, sums.0, 0);
    assert(unsummed.subrange(14, 34) == reply_ipv4(pkt, head, 0));
    assert(unsummed.len() == new.len());
    assert forall|i: int| 14 <= i < new.len() implies #[trigger] unsummed[i] == new.update(
        24,
        0,
    ).update(25, 0)[i] by {
        if i < 34 {
            assert(unsummed[i] == unsummed.subrange(14, 34)[i - 14]);
            assert(new[i] == new.subrange(14, 34)[i - 14]);
        }
    }
}

/// An answer can be written over the one in a buffer exactly if the buffer holds 44 bytes behind the
/// IPv4 header, whose length byte 14 tells, and a data offset of at least 9 among them. Its length
/// is what the three headers announce.
pub proof fn law_patchable_on_the_wire(b: Seq<u8>)
    ensures
        b.len() < 34 ==> !is_patchable(b),
        b.len() >= 34 ==> {
            let start = 14 + (if b[14] % 16 < 5 { 20 } else { 4 * (b[14] % 16) });
            &&& is_patchable(b) <==> b.len() >= start + 44 && b[start + 12] / 16 >= 9
            &&& b.len() >= start + 44 ==> announced_length(b) == start + 4 * (b[start + 12] / 16)
        },
{
    if b.len() >= 34 {
        let start = 14 + (if b[14] % 16 < 5 { 20 } else { 4 * (b[14] % 16) });
        assert(ethernet::payload(b)[0] == b[14]);
        assert(segment_start(b) == start);
        if b.len() >= start + 44 {
            assert(segment_in(b)[12] == b[start + 12]);
        }
    }
}

/// The bytes of an answer that is written over the one in place, whose segment starts at `start`. It
/// goes back to where the request came from and acknowledges the number after the sequence number of
/// the request, where zero follows the last. All other bytes, but for the checksums, are left as
/// they were.
pub proof fn law_patch_on_the_wire<
    L: Fn(Ipv4Addr) -> Option<HostConfig>,
    S: Fn(SequenceRequest) -> (u32, u16),
    C: Fn(TimestampRequest) -> u32,
    T: Fn(&[u8], Ipv4Addr, Ipv4Addr) -> u16,
    I: Fn(&[u8]) -> u16,
>(
    services: Services<L, S, C, T, I>,
    pkt: IngressPacket,
    source_mac: MacAddr,
    cookie: SynCookie,
    old: Seq<u8>,
    new: Seq<u8>,
    start: int,
)
    requires
        is_patchable(old),
        start == 14 + (if old[14] % 16 < 5 { 20 } else { 4 * (old[14] % 16) }),
        is_patch(services, pkt, source_mac, cookie, old, new),
    ensures
        new.len() == old.len(),
        pkt.ether_source == MacAddr(new[0], new[1], new[2], new[3], new[4], new[5]),
        source_mac == MacAddr(new[6], new[7], new[8], new[9], new[10], new[11]),
        new[16] * 256 + new[17] == start - 14 + 4 * (old[start + 12] / 16),
        pkt.ipv4_destination == Ipv4Addr(new[26], new[27], new[28], new[29]),
        pkt.ipv4_source == Ipv4Addr(new[30], new[31], new[32], new[33]),
        new[start] * 256 + new[start + 1] == pkt.tcp_destination,
        new[start + 2] * 256 + new[start + 3] == pkt.tcp_source,
        new[start + 4] * 0x100_0000 + new[start + 5] * 0x1_0000 + new[start + 6] * 256 + new[start
            + 7] == cookie.sequence,
        pkt.tcp_sequence < 0xffff_ffff
            ==> new[start + 8] * 0x100_0000 + new[start + 9] * 0x1_0000 + new[start + 10] * 256
                + new[start + 11] == pkt.tcp_sequence + 1,
        pkt.tcp_sequence == 0xffff_ffff
            ==> new[start + 8] * 0x100_0000 + new[start + 9] * 0x1_0000 + new[start + 10] * 256
                + new[start + 11] == 0,
        new[start + 26] == 8,
        new[start + 27] == 10,
        new[start + 28] * 0x100_0000 + new[start + 29] * 0x1_0000 + new[start + 30] * 256
            + new[start + 31] == cookie.timestamp,
        pkt.tcp_timestamp@
            == seq![new[start + 32], new[start + 33], new[start + 34], new[start + 35]],
        forall|i: int| (12 <= i < 16 || 18 <= i < 24 || 34 <= i < start
            || start + 12 <= i < start + 16 || start + 18 <= i < start + 26
                || start + 36 <= i < old.len()) ==> #[trigger] new[i] == old[i],
{
    let sums = lemma_patch_sums(services, pkt, source_mac, cookie, old, new);
    lemma_patch_bytes(pkt, source_mac, cookie, old, sums, start);
}

/// The bytes of the frame `patched_frame`.
#[verifier::rlimit(40)]
proof fn lemma_patch_bytes(
    pkt: IngressPacket,
    source_mac: MacAddr,
    cookie: SynCookie,
    old: Seq<u8>,
    sums: (u16, u16),
    start: int,
)
    requires
        is_patchable(old),
        start == 14 + (if old[14] % 16 < 5 { 20 } else { 4 * (old[14] % 16) }),
    ensures
        ({
            let new = patched_frame(pkt, source_mac, cookie, old, sums.0, sums.1);
            &&& new.len() == old.len()
            &&& pkt.ether_source == MacAddr(new[0], new[1], new[2], new[3], new[4], new[5])
            &&& source_mac == MacAddr(new[6], new[7], new[8], new[9], new[10], new[11])
            &&& new[16] * 256 + new[17] == start - 14 + 4 * (old[start + 12] / 16)
            &&& pkt.ipv4_destination == Ipv4Addr(new[26], new[27], new[28], new[29])
            &&& pkt.ipv4_source == Ipv4Addr(new[30], new[31], new[32], new[33])
            &&& new[start] * 256 + new[start + 1] == pkt.tcp_destination
            &&& new[start + 2] * 256 + new[start + 3] == pkt.tcp_source
            &&& new[start + 4] * 0x100_0000 + new[start + 5] * 0x1_0000 + new[start + 6] * 256
                + new[start + 7] == cookie.sequence
            &&& pkt.tcp_sequence < 0xffff_ffff
                ==> new[start + 8] * 0x100_0000 + new[start + 9] * 0x1_0000 + new[start + 10] * 256
                    + new[start + 11] == pkt.tcp_sequence + 1
            &&& pkt.tcp_sequence == 0xffff_ffff
                ==> new[start + 8] * 0x100_0000 + new[start + 9] * 0x1_0000 + new[start + 10] * 256
                    + new[start + 11] == 0
            &&& new[start + 26] == 8
            &&& new[start + 27] == 10
            &&& new[start + 28] * 0x100_0000 + new[start + 29] * 0x1_0000 + new[start + 30] * 256
                + new[start + 31] == cookie.timestamp
            &&& pkt.tcp_timestamp@
                == seq![new[start + 32], new[start + 33], new[start + 34], new[start + 35]]
            &&& forall|i: int| (12 <= i < 16 || 18 <= i < 24 || 34 <= i < start
                || start + 12 <= i < start + 16 || start + 18 <= i < start + 26
                    || start + 36 <= i < old.len()) ==> #[trigger] new[i] == old[i]
            &&& new[24] * 256 + new[25] == sums.1
            &&& new[start + 16] * 256 + new[start + 17] == sums.0
        }),
{
    law_patchable_on_the_wire(old);
    assert(ethernet::payload(old)[0] == old[14]);
    assert(segment_start(old) == start);
    let total = (announced_length(old) - 14) as u16;
    lemma_patch_pieces(pkt, source_mac, cookie, old, sums, start);
    lemma_patched_ipv4_bytes(pkt, old.subrange(14, start), total, sums.1);
    lemma_patched_segment_bytes(pkt, cookie, segment_in(old), sums.0);
}

/// The pieces of the frame `patched_frame`.
proof fn lemma_patch_pieces(
    pkt: IngressPacket,
    source_mac: MacAddr,
    cookie: SynCookie,
    old: Seq<u8>,
    sums: (u16, u16),
    start: int,
)
    requires
        is_patchable(old),
        start == segment_start(old),
    ensures
        ({
            let new = patched_frame(pkt, source_mac, cookie, old, sums.0, sums.1);
            let total = (announced_length(old) - 14) as u16;
            let ip = patched_ipv4(pkt, old.subrange(14, start), total, sums.1);
            let segment = patched_segment(pkt, cookie, segment_in(old), sums.0);
            &&& new.len() == old.len()
            &&& pkt.ether_source == MacAddr(new[0], new[1], new[2], new[3], new[4], new[5])
            &&& source_mac == MacAddr(new[6], new[7], new[8], new[9], new[10], new[11])
            &&& new[12] == old[12]
            &&& new[13] == old[13]
            &&& forall|i: int| 14 <= i < start ==> #[trigger] new[i] == ip[i - 14]
            &&& forall|i: int| start <= i < start + 44 ==> #[trigger] new[i] == segment[i - start]
            &&& forall|i: int| start + 44 <= i < old.len() ==> #[trigger] new[i] == old[i]
        }),
{
    let total = (announced_length(old) - 14) as u16;
    assert(patched_ipv4(pkt, old.subrange(14, start), total, sums.1).len() == start - 14);
    assert(patched_segment(pkt, cookie, segment_in(old), sums.0).len() == 44);
}

/// The bytes of the header `patched_ipv4`.
proof fn lemma_patched_ipv4_bytes(pkt: IngressPacket, old: Seq<u8>, total: u16, checksum: u16)
    requires
        old.len() >= 20,
    ensures
        ({
            let ip = patched_ipv4(pkt, old, total, checksum);
            &&& ip.len() == old.len()
            &&& ip[2] * 256 + ip[3] == total
            &&& ip[10] * 256 + ip[11] == checksum
            &&& pkt.ipv4_destination == Ipv4Addr(ip[12], ip[13], ip[14], ip[15])
            &&& pkt.ipv4_source == Ipv4Addr(ip[16], ip[17], ip[18], ip[19])
            &&& forall|i: int|
                0 <= i < 2 || 4 <= i < 10 || 20 <= i < old.len() ==> #[trigger] ip[i] == old[i]
        }),
{
}

/// The bytes of the segment `patched_segment`.
proof fn lemma_patched_segment_bytes(
    pkt: IngressPacket,
    cookie: SynCookie,
    old: Seq<u8>,
    checksum: u16,
)
    requires
        old.len() == 44,
    ensures
        ({
            let b = patched_segment(pkt, cookie, old, checksum);
            &&& b.len() == 44
            &&& b[0] * 256 + b[1] == pkt.tcp_destination
            &&& b[2] * 256 + b[3] == pkt.tcp_source
            &&& b[4] * 0x100_0000 + b[5] * 0x1_0000 + b[6] * 256 + b[7] == cookie.sequence
            &&& pkt.tcp_sequence < 0xffff_ffff ==> b[8] * 0x100_0000 + b[9] * 0x1_0000 + b[10] * 256
                + b[11] == pkt.tcp_sequence + 1
            &&& pkt.tcp_sequence == 0xffff_ffff ==> b[8] * 0x100_0000 + b[9] * 0x1_0000 + b[10]
                * 256 + b[11] == 0
            &&& b[16] * 256 + b[17] == checksum
            &&& b[26] == 8
            &&& b[27] == 10
            &&& b[28] * 0x100_0000 + b[29] * 0x1_0000 + b[30] * 256 + b[31] == cookie.timestamp
            &&& pkt.tcp_timestamp@ == seq![b[32], b[33], b[34], b[35]]
            &&& forall|i: int|
                12 <= i < 16 || 18 <= i < 26 || 36 <= i < 44 ==> #[trigger] b[i] == old[i]
        }),
{
    let b = patched_segment(pkt, cookie, old, checksum);
    lemma_patched_segment_pieces(pkt, cookie, old, checksum);
    lemma_numbers_in_place(
        b,
        pkt.tcp_destination,
        pkt.tcp_source,
        cookie.sequence,
        pkt.tcp_sequence,
    );
    lemma_short_in_place(b, 16, checksum);
    lemma_long_in_place(b, 28, cookie.timestamp);
}

/// The pieces of the segment `patched_segment`.
proof fn lemma_patched_segment_pieces(
    pkt: IngressPacket,
    cookie: SynCookie,
    old: Seq<u8>,
    checksum: u16,
)
    requires
        old.len() == 44,
    ensures
        ({
            let b = patched_segment(pkt, cookie, old, checksum);
            &&& b.len() == 44
            &&& b.subrange(0, 12) == be16(pkt.tcp_destination) + be16(pkt.tcp_source) + be32(
                cookie.sequence,
            ) + be32(next32(pkt.tcp_sequence))
            &&& b.subrange(16, 18) == be16(checksum)
            &&& b[26] == 8
            &&& b[27] == 10
            &&& b.subrange(28, 32) == be32(cookie.timestamp)
            &&& pkt.tcp_timestamp@ == seq![b[32], b[33], b[34], b[35]]
            &&& forall|i: int|
                12 <= i < 16 || 18 <= i < 26 || 36 <= i < 44 ==> #[trigger] b[i] == old[i]
        }),
{
    let b = patched_segment(pkt, cookie, old, checksum);
    assert(b.subrange(32, 36) == pkt.tcp_timestamp@);
    assert(pkt.tcp_timestamp@ == seq![b[32], b[33], b[34], b[35]]);
}

/// The checksums of an answer that is written over the one in place are those that the services gave
/// for its own bytes: for the 44 bytes of segment with the checksum at zero, from the destination of
/// the request to its source, and for the IPv4 packet with its checksum at zero and all that follows
/// it in the buffer.
pub proof fn law_patch_is_summed_up<
    L: Fn(Ipv4Addr) -> Option<HostConfig>,
    S: Fn(SequenceRequest) -> (u32, u16),
    C: Fn(TimestampRequest) -> u32,
    T: Fn(&[u8], Ipv4Addr, Ipv4Addr) -> u16,
    I: Fn(&[u8]) -> u16,
>(
    services: Services<L, S, C, T, I>,
    pkt: IngressPacket,
    source_mac: MacAddr,
    cookie: SynCookie,
    old: Seq<u8>,
    new: Seq<u8>,
    start: int,
)
    requires
        is_patchable(old),
        start == 14 + (if old[14] % 16 < 5 { 20 } else { 4 * (old[14] % 16) }),
        is_patch(services, pkt, source_mac, cookie, old, new),
    ensures
        exists|segment: &[u8]|
            segment@ == new.subrange(start, start + 44).update(16, 0).update(17, 0)
                && #[trigger] call_ensures(
                services.tcp_checksum,
                (segment, pkt.ipv4_destination, pkt.ipv4_source),
                (new[start + 16] * 256 + new[start + 17]) as u16,
            ),
        exists|ip: &[u8]|
            ip@ == new.skip(14).update(10, 0).update(11, 0) && #[trigger] call_ensures(
                services.ip_checksum,
                (ip,),
                (new[24] * 256 + new[25]) as u16,
            ),
{
    let sums = lemma_patch_sums(services, pkt, source_mac, cookie, old, new);
    lemma_patch_bytes(pkt, source_mac, cookie, old, sums, start);
    lemma_unsummed_patch(pkt, source_mac, cookie, old, sums, start);
    let segment = choose|bytes: &[u8]|
        bytes@ == patched_segment(pkt, cookie, segment_in(old), 0) && #[trigger] call_ensures(
            services.tcp_checksum,
            (bytes, pkt.ipv4_destination, pkt.ipv4_source),
            sums.0,
        );
    let ip = choose|bytes: &[u8]|
        bytes@ == ethernet::payload(patched_frame(pkt, source_mac, cookie, old, sums.0, 0))
            && #[trigger] call_ensures(services.ip_checksum, (bytes,), sums.1);
    assert(call_ensures(
        services.tcp_checksum,
        (segment, pkt.ipv4_destination, pkt.ipv4_source),
        (new[start + 16] * 256 + new[start + 17]) as u16,
    ));
    assert(call_ensures(services.ip_checksum, (ip,), (new[24] * 256 + new[25]) as u16));
}

/// What is summed up in an answer that is written over another is the answer with a checksum at
/// zero.
#[verifier::rlimit(40)]
proof fn lemma_unsummed_patch(
    pkt: IngressPacket,
    source_mac: MacAddr,
    cookie: SynCookie,
    old: Seq<u8>,
    sums: (u16, u16),
    start: int,
)
    requires
        is_patchable(old),
        start == 14 + (if old[14] % 16 < 5 { 20 } else { 4 * (old[14] % 16) }),
    ensures
        ({
            let new = patched_frame(pkt, source_mac, cookie, old, sums.0, sums.1);
            &&& patched_segment(pkt, cookie, segment_in(old), 0) == new.subrange(
                start,
                start + 44,
            ).update(16, 0).update(17, 0)
            &&& ethernet::payload(patched_frame(pkt, source_mac, cookie, old, sums.0, 0))
                == new.skip(14).update(10, 0).update(11, 0)
        }),
{
    assert(ethernet::payload(old)[0] == old[14]);
    assert(segment_start(old) == start);
    let new = patched_frame(pkt, source_mac, cookie, old, sums.0, sums.1);
    let inner = segment_in(old);
    let segment = patched_segment(pkt, cookie, inner, sums.0);
    assert(new.subrange(start, start + 44) == segment);
    assert(patched_segment(pkt, cookie, inner, 0) == segment.update(16, 0).update(17, 0));
    let head = old.subrange(14, start);
    let total = (announced_length(old) - 14) as u16;
    let summed = patched_ipv4(pkt, head, total, sums.1);
    assert(new.subrange(14, start) == summed);
    assert(patched_ipv4(pkt, head, total, 0) == summed.update(10, 0).update(11, 0));
    let unsummed = patched_frame(pkt, source_mac, cookie, old, sums.0, 0);
    assert(unsummed.subrange(14, start) == patched_ipv4(pkt, head, total, 0));
    assert(unsummed.len() == new.len());
    assert forall|i: int| 14 <= i < new.len() implies #[trigger] unsummed[i] == new.update(
        24,
        0,
    ).update(25, 0)[i] by {
        if i < start {
            assert(unsummed[i] == unsummed.subrange(14, start)[i - 14]);
            assert(new[i] == new.subrange(14, start)[i - 14]);
        }
    }
}

/// A template is made for a request from 127.0.0.1 to itself with a segment size of 1460 and zeros
/// everywhere else. A buffer is blank when its first 78 bytes are zero and the rest is as it was. The
/// segment size that an answer offers stands in bytes 56 and 57.
pub proof fn law_template_on_the_wire(b: Seq<u8>)
    requires
        b.len() >= 78,
    ensures
        ({
            let pkt = template_request();
            &&& pkt.ether_source == MacAddr(0, 0, 0, 0, 0, 0)
            &&& pkt.ipv4_source == Ipv4Addr(127, 0, 0, 1)
            &&& pkt.ipv4_destination == Ipv4Addr(127, 0, 0, 1)
            &&& pkt.tcp_source == 0
            &&& pkt.tcp_destination == 0
            &&& pkt.tcp_timestamp@ == seq![0u8, 0, 0, 0]
            &&& pkt.tcp_sequence == 0
            &&& pkt.tcp_mss == 1460
        }),
        blank(b).len() == b.len(),
        forall|i: int| 0 <= i < 78 ==> #[trigger] blank(b)[i] == 0,
        forall|i: int| 78 <= i < b.len() ==> #[trigger] blank(b)[i] == b[i],
        offered_mss(b) == b[56] * 256 + b[57],
{
}

/// An answer that is written by way of a template has the segment size that stands in the template,
/// acknowledges the number after the sequence number of the request, where zero follows the last, has
/// zeros for the fragment offset, the reserved bits, the urgent pointer and the padding, and leaves
/// what follows it as it was.
#[verifier::rlimit(60)]
pub proof fn law_template_answer_on_the_wire<
    L: Fn(Ipv4Addr) -> Option<HostConfig>,
    S: Fn(SequenceRequest) -> (u32, u16),
    C: Fn(TimestampRequest) -> u32,
    T: Fn(&[u8], Ipv4Addr, Ipv4Addr) -> u16,
    I: Fn(&[u8]) -> u16,
>(
    services: Services<L, S, C, T, I>,
    pkt: IngressPacket,
    source_mac: MacAddr,
    template: Seq<u8>,
    old: Seq<u8>,
    new: Seq<u8>,
)
    requires
        template.len() >= 78,
        old.len() >= 78,
        answers_with_mss(services, pkt, source_mac, offered_mss(template), blank(old), new),
    ensures
        new.len() == old.len(),
        new[56] == template[56],
        new[57] == template[57],
        pkt.ether_source == MacAddr(new[0], new[1], new[2], new[3], new[4], new[5]),
        source_mac == MacAddr(new[6], new[7], new[8], new[9], new[10], new[11]),
        pkt.ipv4_destination == Ipv4Addr(new[26], new[27], new[28], new[29]),
        pkt.ipv4_source == Ipv4Addr(new[30], new[31], new[32], new[33]),
        new[34] * 256 + new[35] == pkt.tcp_destination,
        new[36] * 256 + new[37] == pkt.tcp_source,
        pkt.tcp_sequence < 0xffff_ffff
            ==> new[42] * 0x100_0000 + new[43] * 0x1_0000 + new[44] * 256 + new[45]
                == pkt.tcp_sequence + 1,
        pkt.tcp_sequence == 0xffff_ffff
            ==> new[42] * 0x100_0000 + new[43] * 0x1_0000 + new[44] * 256 + new[45] == 0,
        pkt.tcp_timestamp@ == seq![new[66], new[67], new[68], new[69]],
        new[20] == 0x40,
        new[21] == 0,
        new[46] == 0xb0,
        new[47] == 0x12,
        new[52] == 0,
        new[53] == 0,
        forall|i: int| 73 <= i < 78 ==> #[trigger] new[i] == 0,
        forall|i: int| 78 <= i < old.len() ==> #[trigger] new[i] == old[i],
{
    let mss = offered_mss(template);
    law_answers_have_a_cookie(services, pkt, source_mac, mss, blank(old), new);
    let cookie = choose|cookie: SynCookie| #[trigger]
        services.bakes(pkt, cookie) && is_reply(
            services,
            pkt,
            source_mac,
            SynCookie { sequence: cookie.sequence, mss, timestamp: cookie.timestamp },
            blank(old),
            new,
        );
    let sent = SynCookie { sequence: cookie.sequence, mss, timestamp: cookie.timestamp };
    law_template_on_the_wire(old);
    law_template_on_the_wire(template);
    law_reply_on_the_wire(services, pkt, source_mac, sent, blank(old), new);
    lemma_over_blank(new, old, blank(old), template);
}

/// What an answer over a blank buffer has where it leaves the buffer alone.
proof fn lemma_over_blank(new: Seq<u8>, old: Seq<u8>, zeros: Seq<u8>, template: Seq<u8>)
    requires
        old.len() >= 78,
        zeros.len() == old.len(),
        forall|i: int| 0 <= i < 78 ==> #[trigger] zeros[i] == 0,
        forall|i: int| 78 <= i < old.len() ==> #[trigger] zeros[i] == old[i],
        new.len() == old.len(),
        new[20] / 32 == 2,
        new[20] % 32 == zeros[20] % 32,
        new[21] == zeros[21],
        new[46] / 16 == 11,
        new[46] % 2 == 0,
        new[46] / 2 % 8 == zeros[46] / 2 % 8,
        new[52] == zeros[52],
        new[53] == zeros[53],
        new[56] * 256 + new[57] == template[56] * 256 + template[57],
        forall|i: int| 73 <= i < old.len() ==> #[trigger] new[i] == zeros[i],
    ensures
        new[20] == 0x40,
        new[21] == 0,
        new[46] == 0xb0,
        new[52] == 0,
        new[53] == 0,
        new[56] == template[56],
        new[57] == template[57],
        forall|i: int| 73 <= i < 78 ==> #[trigger] new[i] == 0,
        forall|i: int| 78 <= i < old.len() ==> #[trigger] new[i] == old[i],
{
}

/// A frame and its answer, byte against byte, where the segment of the frame starts at `start`: the
/// addresses and ports have changed sides, and the acknowledgement number is one more than the
/// sequence number of the frame, modulo 2^32.
#[verifier::rlimit(60)]
pub proof fn law_frame_and_answer_on_the_wire<
    L: Fn(Ipv4Addr) -> Option<HostConfig>,
    S: Fn(SequenceRequest) -> (u32, u16),
    C: Fn(TimestampRequest) -> u32,
    T: Fn(&[u8], Ipv4Addr, Ipv4Addr) -> u16,
    I: Fn(&[u8]) -> u16,
>(
    services: Services<L, S, C, T, I>,
    frame: Seq<u8>,
    mac: MacAddr,
    host: Option<HostConfig>,
    pkt: IngressPacket,
    cookie: SynCookie,
    old: Seq<u8>,
    new: Seq<u8>,
    start: int,
)
    requires
        frame.len() >= 14,
        start == 14 + (if frame[14] % 16 < 5 { 20 } else { 4 * (frame[14] % 16) }),
        input_action(frame, mac, host) == Action::Reply(pkt),
        old.len() >= 78,
        is_reply(services, pkt, mac, cookie, old, new),
    ensures
        MacAddr(new[0], new[1], new[2], new[3], new[4], new[5]) == MacAddr(
            frame[6],
            frame[7],
            frame[8],
            frame[9],
            frame[10],
            frame[11],
        ),
        MacAddr(new[6], new[7], new[8], new[9], new[10], new[11]) == MacAddr(
            frame[0],
            frame[1],
            frame[2],
            frame[3],
            frame[4],
            frame[5],
        ),
        Ipv4Addr(new[26], new[27], new[28], new[29]) == Ipv4Addr(
            frame[30],
            frame[31],
            frame[32],
            frame[33],
        ),
        Ipv4Addr(new[30], new[31], new[32], new[33]) == Ipv4Addr(
            frame[26],
            frame[27],
            frame[28],
            frame[29],
        ),
        new[34] * 256 + new[35] == frame[start + 2] * 256 + frame[start + 3],
        new[36] * 256 + new[37] == frame[start] * 256 + frame[start + 1],
        (new[42] * 0x100_0000 + new[43] * 0x1_0000 + new[44] * 256 + new[45] - (frame[start
            + 4] * 0x100_0000 + frame[start + 5] * 0x1_0000 + frame[start + 6] * 256 + frame[start
                + 7]) - 1) % 0x1_0000_0000 == 0,
{
    lemma_request_bytes(frame, mac, host, pkt, start);
    law_reply_on_the_wire(services, pkt, mac, cookie, old, new);
    lemma_changed_sides(frame, mac, pkt, new, start);
}

/// What an answered frame holds of its request.
proof fn lemma_request_bytes(
    frame: Seq<u8>,
    mac: MacAddr,
    host: Option<HostConfig>,
    pkt: IngressPacket,
    start: int,
)
    requires
        frame.len() >= 14,
        start == 14 + (if frame[14] % 16 < 5 { 20 } else { 4 * (frame[14] % 16) }),
        input_action(frame, mac, host) == Action::Reply(pkt),
    ensures
        mac == MacAddr(frame[0], frame[1], frame[2], frame[3], frame[4], frame[5]),
        pkt.ether_source == MacAddr(
            frame[6],
            frame[7],
            frame[8],
            frame[9],
            frame[10],
            frame[11],
        ),
        pkt.ipv4_source == Ipv4Addr(frame[26], frame[27], frame[28], frame[29]),
        pkt.ipv4_destination == Ipv4Addr(frame[30], frame[31], frame[32], frame[33]),
        pkt.tcp_source == frame[start] * 256 + frame[start + 1],
        pkt.tcp_destination == frame[start + 2] * 256 + frame[start + 3],
        pkt.tcp_sequence == frame[start + 4] * 0x100_0000 + frame[start + 5] * 0x1_0000
            + frame[start + 6] * 256 + frame[start + 7],
{
    law_input_on_the_wire(frame, mac, host);
}

/// An answer and a frame that fit the same request have changed sides.
proof fn lemma_changed_sides(
    frame: Seq<u8>,
    mac: MacAddr,
    pkt: IngressPacket,
    new: Seq<u8>,
    start: int,
)
    requires
        mac == MacAddr(frame[0], frame[1], frame[2], frame[3], frame[4], frame[5]),
        pkt.ether_source == MacAddr(
            frame[6],
            frame[7],
            frame[8],
            frame[9],
            frame[10],
            frame[11],
        ),
        pkt.ipv4_source == Ipv4Addr(frame[26], frame[27], frame[28], frame[29]),
        pkt.ipv4_destination == Ipv4Addr(frame[30], frame[31], frame[32], frame[33]),
        pkt.tcp_source == frame[start] * 256 + frame[start + 1],
        pkt.tcp_destination == frame[start + 2] * 256 + frame[start + 3],
        pkt.tcp_sequence == frame[start + 4] * 0x100_0000 + frame[start + 5] * 0x1_0000
            + frame[start + 6] * 256 + frame[start + 7],
        pkt.ether_source == MacAddr(new[0], new[1], new[2], new[3], new[4], new[5]),
        mac == MacAddr(new[6], new[7], new[8], new[9], new[10], new[11]),
        pkt.ipv4_destination == Ipv4Addr(new[26], new[27], new[28], new[29]),
        pkt.ipv4_source == Ipv4Addr(new[30], new[31], new[32], new[33]),
        new[34] * 256 + new[35] == pkt.tcp_destination,
        new[36] * 256 + new[37] == pkt.tcp_source,
        pkt.tcp_sequence < 0xffff_ffff ==> new[42] * 0x100_0000 + new[43] * 0x1_0000 + new[44] * 256
            + new[45] == pkt.tcp_sequence + 1,
        pkt.tcp_sequence == 0xffff_ffff ==> new[42] * 0x100_0000 + new[43] * 0x1_0000 + new[44]
            * 256 + new[45] == 0,
    ensures
        MacAddr(new[0], new[1], new[2], new[3], new[4], new[5]) == MacAddr(
            frame[6],
            frame[7],
            frame[8],
            frame[9],
            frame[10],
            frame[11],
        ),
        MacAddr(new[6], new[7], new[8], new[9], new[10], new[11]) == MacAddr(
            frame[0],
            frame[1],
            frame[2],
            frame[3],
            frame[4],
            frame[5],
        ),
        Ipv4Addr(new[26], new[27], new[28], new[29]) == Ipv4Addr(
            frame[30],
            frame[31],
            frame[32],
            frame[33],
        ),
        Ipv4Addr(new[30], new[31], new[32], new[33]) == Ipv4Addr(
            frame[26],
            frame[27],
            frame[28],
            frame[29],
        ),
        new[34] * 256 + new[35] == frame[start + 2] * 256 + frame[start + 3],
        new[36] * 256 + new[37] == frame[start] * 256 + frame[start + 1],
        (new[42] * 0x100_0000 + new[43] * 0x1_0000 + new[44] * 256 + new[45] - (frame[start
            + 4] * 0x100_0000 + frame[start + 5] * 0x1_0000 + frame[start + 6] * 256 + frame[start
                + 7]) - 1) % 0x1_0000_0000 == 0,
{
}

} // verus!
