//! What holds of the library as a whole.

use vstd::prelude::*;

use crate::addr::{Ipv4Addr, MacAddr};
use crate::arp::arp_frame;
use crate::bytes::{be16, be32, u16_at, u32_at};
use crate::ethernet;
use crate::ingress::{
    acceptable, first_timestamps, forward_to, input_action, is_ours, is_request, malformed_layer,
    request_in, Action, IngressPacket,
};
use crate::ipv4;
use crate::patch::{
    announced_length, is_patch, is_patchable, is_patched, lemma_patch_sums,
    lemma_patched_bytes_do_not_show, patched_frame, patched_segment, patches, segment_in,
    segment_start,
};
use crate::reply::{
    answers, is_reply, next32, reply_frame, reply_ipv4, reply_segment, timestamps_option,
};
use crate::services::{
    sequence_request_for, timestamp_request_for, HostConfig, SequenceRequest, Services, SynCookie,
    TimestampRequest,
};
use crate::tcp;
use crate::template::{
    answers_with_mss, blank, is_prepared, is_variable, lemma_patched_reply, offered_mss,
    template_request, with_mss,
};

verus! {

/// Numbers in network byte order read back as they were written.
pub proof fn law_numbers_read_back(short: u16, long: u32)
    ensures
        u16_at(be16(short), 0) == short,
        u32_at(be32(long), 0) == long,
{
}

/// The options of the segment `reply_segment` are the segment size, the permission of selective
/// acknowledgements, the two timestamps and the window scale, in this order and before anything
/// that the padding may hold.
pub proof fn law_reply_options(pkt: IngressPacket, cookie: SynCookie, old: Seq<u8>, checksum: u16)
    requires
        old.len() == 44,
    ensures
        ({
            let list = tcp::options(reply_segment(pkt, cookie, old, checksum));
            &&& list.len() >= 4
            &&& list[0] == (tcp::OPTION_MSS, be16(cookie.mss))
            &&& list[1] == (tcp::OPTION_SACK_PERMITTED, Seq::<u8>::empty())
            &&& list[2] == (tcp::OPTION_TIMESTAMPS, be32(cookie.timestamp) + pkt.tcp_timestamp@)
            &&& list[3] == (tcp::OPTION_WSCALE, seq![7u8])
        }),
{
    let area = tcp::options_area(reply_segment(pkt, cookie, old, checksum));
    assert(area.len() == 24);
    let sack = area.skip(4);
    let stamps = area.skip(6);
    let wscale = area.skip(16);
    assert(sack.skip(2) == stamps);
    assert(stamps.skip(10) == wscale);
    assert(tcp::option_data(area) == be16(cookie.mss));
    assert(tcp::option_data(sack) == Seq::<u8>::empty());
    assert(tcp::option_data(stamps) == be32(cookie.timestamp) + pkt.tcp_timestamp@);
    assert(tcp::option_data(wscale) == seq![7u8]);
    reveal_with_fuel(tcp::options_in, 2);
    assert(tcp::options_in(area)[0] == (area[0], tcp::option_data(area)));
    assert(tcp::options_in(area) == seq![(area[0], tcp::option_data(area))] + tcp::options_in(
        sack,
    ));
    assert(tcp::options_in(sack) == seq![(sack[0], tcp::option_data(sack))] + tcp::options_in(
        stamps,
    ));
    assert(tcp::options_in(stamps) == seq![(stamps[0], tcp::option_data(stamps))]
        + tcp::options_in(wscale));
}

/// The layers of the frame `reply_frame`.
proof fn lemma_frame_layers(
    pkt: IngressPacket,
    source_mac: MacAddr,
    cookie: SynCookie,
    old: Seq<u8>,
    sums: (u16, u16),
)
    requires
        old.len() >= 78,
    ensures
        ({
            let frame = reply_frame(pkt, source_mac, cookie, old, sums.0, sums.1);
            let ip = ethernet::payload(frame);
            &&& frame.len() == old.len()
            &&& frame.skip(78) == old.skip(78)
            &&& ethernet::destination(frame) == pkt.ether_source
            &&& ethernet::source(frame) == source_mac
            &&& ethernet::ethertype(frame) == ethernet::ETHERTYPE_IPV4
            &&& offered_mss(frame) == cookie.mss
            &&& ip.len() >= 64
            &&& ipv4::header_length(ip) == 5
            &&& ipv4::total_length(ip) == 64
            &&& ipv4::protocol(ip) == ipv4::PROTOCOL_TCP
            &&& ipv4::source(ip) == pkt.ipv4_destination
            &&& ipv4::destination(ip) == pkt.ipv4_source
            &&& frame.subrange(34, 78) == reply_segment(pkt, cookie, old.subrange(34, 78), sums.0)
            &&& ipv4::payload(ip) == frame.skip(34)
            &&& ipv4::payload(ip).take(44) == frame.subrange(34, 78)
        }),
{
    let frame = reply_frame(pkt, source_mac, cookie, old, sums.0, sums.1);
    let ip = ethernet::payload(frame);
    let segment = reply_segment(pkt, cookie, old.subrange(34, 78), sums.0);
    assert(segment.len() == 44);
    assert(frame.subrange(34, 78) == segment);
    assert(ipv4::payload_start(ip) == 20);
    assert(ipv4::payload(ip) == frame.skip(34));
    assert(frame.skip(34).take(44) == segment);
}

/// The fixed fields of the segment `reply_segment`.
proof fn lemma_segment_fields(
    pkt: IngressPacket,
    cookie: SynCookie,
    old: Seq<u8>,
    checksum: u16,
)
    requires
        old.len() == 44,
    ensures
        ({
            let segment = reply_segment(pkt, cookie, old, checksum);
            &&& segment.len() == 44
            &&& tcp::source(segment) == pkt.tcp_destination
            &&& tcp::destination(segment) == pkt.tcp_source
            &&& tcp::sequence(segment) == cookie.sequence
            &&& tcp::acknowledgement(segment) == next32(pkt.tcp_sequence)
            &&& tcp::data_offset(segment) == 11
            &&& tcp::flags(segment) == 0x012
            &&& !tcp::opens(segment)
        }),
{
    let segment = reply_segment(pkt, cookie, old, checksum);
    assert(segment.len() == 44);
    assert(segment[12] == (11 * 16 + old[12] % 16 / 2 * 2) as u8);
    assert(segment[13] == 0x12);
    law_numbers_read_back(pkt.tcp_destination, cookie.sequence);
    law_numbers_read_back(pkt.tcp_source, next32(pkt.tcp_sequence));
    assert(segment.subrange(0, 2) == be16(pkt.tcp_destination));
    assert(segment.subrange(2, 4) == be16(pkt.tcp_source));
    assert(segment.subrange(4, 8) == be32(cookie.sequence));
    assert(segment.subrange(8, 12) == be32(next32(pkt.tcp_sequence)));
}

/// The fixed fields and the options of a segment do not depend on what follows the options.
proof fn lemma_front_of_segment(segment: Seq<u8>)
    requires
        segment.len() >= 44,
        tcp::data_offset(segment.take(44)) == 11,
    ensures
        ({
            let front = segment.take(44);
            &&& tcp::source(segment) == tcp::source(front)
            &&& tcp::destination(segment) == tcp::destination(front)
            &&& tcp::sequence(segment) == tcp::sequence(front)
            &&& tcp::acknowledgement(segment) == tcp::acknowledgement(front)
            &&& tcp::data_offset(segment) == tcp::data_offset(front)
            &&& tcp::flags(segment) == tcp::flags(front)
            &&& tcp::options(segment) == tcp::options(front)
        }),
{
    assert(tcp::options_area(segment) == tcp::options_area(segment.take(44)));
}

/// The checksums of an answer.
pub(crate) proof fn lemma_reply_sums<
    L: Fn(Ipv4Addr) -> Option<HostConfig>,
    S: Fn(SequenceRequest) -> (u32, u16),
    C: Fn(TimestampRequest) -> u32,
    T: Fn(&[u8], Ipv4Addr, Ipv4Addr) -> u16,
    I: Fn(&[u8]) -> u16,
>(
    services: Services<L, S, C, T, I>,
    pkt: IngressPacket,
    source_mac: MacAddr,
    cookie: SynCookie,
    old: Seq<u8>,
    new: Seq<u8>,
) -> (sums: (u16, u16))
    requires
        is_reply(services, pkt, source_mac, cookie, old, new),
    ensures
        services.sums_segment(
            reply_segment(pkt, cookie, old.subrange(34, 78), 0),
            pkt.ipv4_destination,
            pkt.ipv4_source,
            sums.0,
        ),
        services.sums_packet(
            ethernet::payload(reply_frame(pkt, source_mac, cookie, old, sums.0, 0)),
            sums.1,
        ),
        new == reply_frame(pkt, source_mac, cookie, old, sums.0, sums.1),
{
    choose|tcp_checksum: u16, ip_checksum: u16|
        {
            &&& #[trigger] services.sums_segment(
                reply_segment(pkt, cookie, old.subrange(34, 78), 0),
                pkt.ipv4_destination,
                pkt.ipv4_source,
                tcp_checksum,
            )
            &&& #[trigger] services.sums_packet(
                ethernet::payload(reply_frame(pkt, source_mac, cookie, old, tcp_checksum, 0)),
                ip_checksum,
            )
            &&& new == reply_frame(pkt, source_mac, cookie, old, tcp_checksum, ip_checksum)
        }
}

/// An answer goes back to where the request came from, from where the request went: the addresses
/// and ports of the request have changed sides. It announces an IPv4 packet of 64 bytes, with a
/// TCP header of 44 after an IPv4 header of 20, has SYN and ACK set, acknowledges the sequence number of the request, and carries the
/// sequence number, the segment size and the timestamp of the cookie and the timestamp of the
/// request. What follows it in the buffer is untouched.
pub proof fn law_reply_goes_back<
    L: Fn(Ipv4Addr) -> Option<HostConfig>,
    S: Fn(SequenceRequest) -> (u32, u16),
    C: Fn(TimestampRequest) -> u32,
    T: Fn(&[u8], Ipv4Addr, Ipv4Addr) -> u16,
    I: Fn(&[u8]) -> u16,
>(
    services: Services<L, S, C, T, I>,
    pkt: IngressPacket,
    source_mac: MacAddr,
    cookie: SynCookie,
    old: Seq<u8>,
    new: Seq<u8>,
)
    requires
        old.len() >= 78,
        is_reply(services, pkt, source_mac, cookie, old, new),
    ensures
        new.len() == old.len(),
        new.skip(78) == old.skip(78),
        ethernet::destination(new) == pkt.ether_source,
        ethernet::source(new) == source_mac,
        ethernet::ethertype(new) == ethernet::ETHERTYPE_IPV4,
        ({
            let ip = ethernet::payload(new);
            let segment = ipv4::payload(ip);
            &&& ipv4::header_length(ip) == 5
            &&& ipv4::total_length(ip) == 64
            &&& ipv4::protocol(ip) == ipv4::PROTOCOL_TCP
            &&& ipv4::source(ip) == pkt.ipv4_destination
            &&& ipv4::destination(ip) == pkt.ipv4_source
            &&& segment == new.skip(34)
            &&& tcp::source(segment) == pkt.tcp_destination
            &&& tcp::destination(segment) == pkt.tcp_source
            &&& tcp::sequence(segment) == cookie.sequence
            &&& tcp::acknowledgement(segment) == next32(pkt.tcp_sequence)
            &&& tcp::data_offset(segment) == 11
            &&& tcp::flags(segment) == 0x012
            &&& tcp::options(segment).len() >= 4
            &&& tcp::options(segment)[0] == (tcp::OPTION_MSS, be16(cookie.mss))
            &&& tcp::options(segment)[1] == (tcp::OPTION_SACK_PERMITTED, Seq::<u8>::empty())
            &&& tcp::options(segment)[2] == (
                tcp::OPTION_TIMESTAMPS,
                be32(cookie.timestamp) + pkt.tcp_timestamp@,
            )
            &&& tcp::options(segment)[3] == (tcp::OPTION_WSCALE, seq![7u8])
        }),
        offered_mss(new) == cookie.mss,
{
    let sums = lemma_reply_sums(services, pkt, source_mac, cookie, old, new);
    lemma_frame_layers(pkt, source_mac, cookie, old, sums);
    lemma_segment_fields(pkt, cookie, old.subrange(34, 78), sums.0);
    law_reply_options(pkt, cookie, old.subrange(34, 78), sums.0);
    lemma_front_of_segment(ipv4::payload(ethernet::payload(new)));
}

/// An answer is itself no request. Whoever receives it can handle it, does not answer it, and the
/// station that it is addressed to forwards it.
pub proof fn law_reply_is_not_answered<
    L: Fn(Ipv4Addr) -> Option<HostConfig>,
    S: Fn(SequenceRequest) -> (u32, u16),
    C: Fn(TimestampRequest) -> u32,
    T: Fn(&[u8], Ipv4Addr, Ipv4Addr) -> u16,
    I: Fn(&[u8]) -> u16,
>(
    services: Services<L, S, C, T, I>,
    pkt: IngressPacket,
    source_mac: MacAddr,
    cookie: SynCookie,
    old: Seq<u8>,
    new: Seq<u8>,
    mac: MacAddr,
    host: Option<HostConfig>,
)
    requires
        old.len() >= 78,
        is_reply(services, pkt, source_mac, cookie, old, new),
    ensures
        acceptable(new, mac),
        !(input_action(new, mac, host) is Reply),
        input_action(new, pkt.ether_source, host) == Action::Forward(forward_to(host)),
{
    law_reply_goes_back(services, pkt, source_mac, cookie, old, new);
    let segment = ipv4::payload(ethernet::payload(new));
    assert(segment[13] == 0x12);
}

/// The timestamp of a request is the first half of its timestamps option.
proof fn lemma_stamp_is_taken(frame: Seq<u8>, mac: MacAddr, host: Option<HostConfig>)
    requires
        acceptable(frame, mac),
        input_action(frame, mac, host) is Reply,
    ensures
        first_timestamps(tcp::options(ipv4::payload(ethernet::payload(frame)))) matches Some(data)
            ==> request_in(frame).tcp_timestamp@ == data.subrange(0, 4),
{
    law_only_requests_are_answered(frame, mac, host);
}

/// A frame that is answered gets its answer back: to the station that sent it from the one that it
/// was addressed to, to its source host and port from its destination host and port, with its
/// sequence number acknowledged. If the frame has a timestamps option, the answer echoes its
/// timestamp.
pub proof fn law_request_gets_its_answer<
    L: Fn(Ipv4Addr) -> Option<HostConfig>,
    S: Fn(SequenceRequest) -> (u32, u16),
    C: Fn(TimestampRequest) -> u32,
    T: Fn(&[u8], Ipv4Addr, Ipv4Addr) -> u16,
    I: Fn(&[u8]) -> u16,
>(
    services: Services<L, S, C, T, I>,
    frame: Seq<u8>,
    mac: MacAddr,
    host: Option<HostConfig>,
    cookie: SynCookie,
    old: Seq<u8>,
    new: Seq<u8>,
)
    requires
        acceptable(frame, mac),
        input_action(frame, mac, host) is Reply,
        old.len() >= 78,
        is_reply(
            services,
            input_action(frame, mac, host)->Reply_0,
            mac,
            cookie,
            old,
            new,
        ),
    ensures
        ethernet::destination(new) == ethernet::source(frame),
        ethernet::source(new) == ethernet::destination(frame),
        ({
            let asked_ip = ethernet::payload(frame);
            let asked = ipv4::payload(asked_ip);
            let answer_ip = ethernet::payload(new);
            let answer = ipv4::payload(answer_ip);
            &&& ipv4::source(answer_ip) == ipv4::destination(asked_ip)
            &&& ipv4::destination(answer_ip) == ipv4::source(asked_ip)
            &&& tcp::source(answer) == tcp::destination(asked)
            &&& tcp::destination(answer) == tcp::source(asked)
            &&& tcp::acknowledgement(answer) == next32(tcp::sequence(asked))
            &&& first_timestamps(tcp::options(asked)) matches Some(data) ==> {
                tcp::options(answer)[2] == (
                    tcp::OPTION_TIMESTAMPS,
                    be32(cookie.timestamp) + data.subrange(0, 4),
                )
            }
        }),
{
    law_only_requests_are_answered(frame, mac, host);
    law_reply_goes_back(services, request_in(frame), mac, cookie, old, new);
    lemma_stamp_is_taken(frame, mac, host);
}

/// A frame is answered exactly if it is addressed to the station, carries IPv4 with a whole header,
/// and carries in that a TCP segment with a whole header that has SYN set and ACK not set. The
/// answer is to the request in the frame.
pub proof fn law_only_requests_are_answered(
    frame: Seq<u8>,
    mac: MacAddr,
    host: Option<HostConfig>,
)
    ensures
        input_action(frame, mac, host) is Reply <==> {
            let ip = ethernet::payload(frame);
            is_ours(frame, mac) && ip.len() >= 20 && is_request(
                ipv4::protocol(ip),
                ipv4::payload(ip),
            )
        },
        input_action(frame, mac, host) matches Action::Reply(pkt) ==> pkt == request_in(frame),
{
}

/// What the routing table holds decides only where a frame is forwarded to: whether it is dropped,
/// forwarded or answered, and with what, does not depend on it.
pub proof fn law_routing_decides_only_the_way(
    frame: Seq<u8>,
    mac: MacAddr,
    one: Option<HostConfig>,
    other: Option<HostConfig>,
)
    ensures
        input_action(frame, mac, one) == match input_action(frame, mac, other) {
            Action::Forward(_) => Action::Forward(forward_to(one)),
            action => action,
        },
{
}

/// Two answers that offer the same segment size, written over the same bytes, differ at most where
/// they depend on the request.
pub proof fn law_replies_share_a_template(
    one: IngressPacket,
    one_mac: MacAddr,
    one_cookie: SynCookie,
    one_sums: (u16, u16),
    other: IngressPacket,
    other_mac: MacAddr,
    other_cookie: SynCookie,
    other_sums: (u16, u16),
    old: Seq<u8>,
    i: int,
)
    requires
        old.len() >= 78,
        one_cookie.mss == other_cookie.mss,
        0 <= i < old.len(),
        !is_variable(i),
    ensures
        reply_frame(one, one_mac, one_cookie, old, one_sums.0, one_sums.1)[i] == reply_frame(
            other,
            other_mac,
            other_cookie,
            old,
            other_sums.0,
            other_sums.1,
        )[i],
{
}

/// Any answer written over zeros is a template: it has everything in place that does not depend on
/// the request.
pub proof fn law_reply_over_zeros_is_prepared<
    L: Fn(Ipv4Addr) -> Option<HostConfig>,
    S: Fn(SequenceRequest) -> (u32, u16),
    C: Fn(TimestampRequest) -> u32,
    T: Fn(&[u8], Ipv4Addr, Ipv4Addr) -> u16,
    I: Fn(&[u8]) -> u16,
>(
    services: Services<L, S, C, T, I>,
    pkt: IngressPacket,
    source_mac: MacAddr,
    cookie: SynCookie,
    old: Seq<u8>,
    new: Seq<u8>,
)
    requires
        old.len() >= 78,
        is_reply(services, pkt, source_mac, cookie, blank(old), new),
    ensures
        is_prepared(new),
        offered_mss(new) == cookie.mss,
{
    let sums = lemma_reply_sums(services, pkt, source_mac, cookie, blank(old), new);
    lemma_frame_layers(pkt, source_mac, cookie, blank(old), sums);
    law_template_covers_the_buffer(new, blank(old));
    assert(blank(blank(old)) == blank(old));
    let bare = SynCookie { sequence: 0, mss: offered_mss(new), timestamp: 0 };
    let nobody = MacAddr(0, 0, 0, 0, 0, 0);
    assert forall|i: int| 0 <= i < 78 && !is_variable(i) implies #[trigger] new[i] == reply_frame(
        IngressPacket::zeroed(),
        nobody,
        bare,
        blank(new),
        0,
        0,
    )[i] by {
        law_replies_share_a_template(
            pkt,
            source_mac,
            cookie,
            sums,
            IngressPacket::zeroed(),
            nobody,
            bare,
            (0, 0),
            blank(new),
            i,
        );
    }
}

/// Over a buffer that holds zeros where the answer goes, and with a cookie that has the segment size
/// of the template, what can be written by way of the template is what can be written in full.
pub proof fn law_template_over_zeros_makes_the_full_reply<
    L: Fn(Ipv4Addr) -> Option<HostConfig>,
    S: Fn(SequenceRequest) -> (u32, u16),
    C: Fn(TimestampRequest) -> u32,
    T: Fn(&[u8], Ipv4Addr, Ipv4Addr) -> u16,
    I: Fn(&[u8]) -> u16,
>(
    services: Services<L, S, C, T, I>,
    pkt: IngressPacket,
    source_mac: MacAddr,
    cookie: SynCookie,
    template: Seq<u8>,
    old: Seq<u8>,
    new: Seq<u8>,
)
    requires
        old.len() >= 78,
        forall|i: int| 0 <= i < 78 ==> #[trigger] old[i] == 0,
        offered_mss(template) == cookie.mss,
    ensures
        is_reply(
            services,
            pkt,
            source_mac,
            with_mss(cookie, offered_mss(template)),
            blank(old),
            new,
        ) == is_reply(services, pkt, source_mac, cookie, old, new),
{
    assert(blank(old) == old);
}

/// What a buffer holds where the answer goes does not show in what can be written by way of a
/// template.
pub proof fn law_template_covers_the_buffer(one: Seq<u8>, other: Seq<u8>)
    requires
        one.len() >= 78,
        one.len() == other.len(),
        one.skip(78) == other.skip(78),
    ensures
        blank(one) == blank(other),
{
    assert forall|i: int| 78 <= i < one.len() implies one[i] == other[i] by {
        assert(one.skip(78)[i - 78] == other.skip(78)[i - 78]);
    }
}

/// Steady services give one SYN cookie for all requests that differ at most in the station that sent
/// them and in their timestamp.
proof fn lemma_one_cookie<
    L: Fn(Ipv4Addr) -> Option<HostConfig>,
    S: Fn(SequenceRequest) -> (u32, u16),
    C: Fn(TimestampRequest) -> u32,
    T: Fn(&[u8], Ipv4Addr, Ipv4Addr) -> u16,
    I: Fn(&[u8]) -> u16,
>(
    services: Services<L, S, C, T, I>,
    one: IngressPacket,
    other: IngressPacket,
    one_cookie: SynCookie,
    other_cookie: SynCookie,
)
    requires
        services.steady(),
        same_connection(one, other),
        services.bakes(one, one_cookie),
        services.bakes(other, other_cookie),
    ensures
        one_cookie == other_cookie,
{
    let (aged, stamped) = choose|aged: Option<HostConfig>, stamped: Option<HostConfig>|
        {
            &&& #[trigger] services.finds(one.ipv4_destination, aged)
            &&& call_ensures(
                services.sequence_cookie,
                (sequence_request_for(one, aged),),
                (one_cookie.sequence, one_cookie.mss),
            )
            &&& #[trigger] services.finds(one.ipv4_destination, stamped)
            &&& call_ensures(
                services.timestamp_cookie,
                (timestamp_request_for(stamped),),
                one_cookie.timestamp,
            )
        };
    let (aged2, stamped2) = choose|aged: Option<HostConfig>, stamped: Option<HostConfig>|
        {
            &&& #[trigger] services.finds(other.ipv4_destination, aged)
            &&& call_ensures(
                services.sequence_cookie,
                (sequence_request_for(other, aged),),
                (other_cookie.sequence, other_cookie.mss),
            )
            &&& #[trigger] services.finds(other.ipv4_destination, stamped)
            &&& call_ensures(
                services.timestamp_cookie,
                (timestamp_request_for(stamped),),
                other_cookie.timestamp,
            )
        };
    assert(aged == aged2 && stamped == stamped2);
    assert(sequence_request_for(one, aged) == sequence_request_for(other, aged2));
    assert((one_cookie.sequence, one_cookie.mss) == (other_cookie.sequence, other_cookie.mss));
    assert(one_cookie.timestamp == other_cookie.timestamp);
}

/// What the IPv4 checksum of an answer sees of the header.
proof fn lemma_summed_header(
    pkt: IngressPacket,
    source_mac: MacAddr,
    cookie: SynCookie,
    old: Seq<u8>,
    tcp_checksum: u16,
)
    requires
        old.len() >= 78,
    ensures
        ({
            let ip = ethernet::payload(
                reply_frame(pkt, source_mac, cookie, old, tcp_checksum, 0),
            );
            &&& ip.len() >= 20
            &&& ipv4::header_length(ip) == 5
            &&& ip.take(20) == reply_ipv4(pkt, old.subrange(14, 34), 0)
        }),
{
    let ip = ethernet::payload(reply_frame(pkt, source_mac, cookie, old, tcp_checksum, 0));
    assert(reply_ipv4(pkt, old.subrange(14, 34), 0).len() == 20);
    assert(ip.take(20) == reply_ipv4(pkt, old.subrange(14, 34), 0));
    assert(ip[0] == ip.take(20)[0]);
}

/// Steady services make the same front of an answer over the same front of a buffer, whatever
/// follows, but for the IPv4 checksum.
proof fn lemma_same_front<
    L: Fn(Ipv4Addr) -> Option<HostConfig>,
    S: Fn(SequenceRequest) -> (u32, u16),
    C: Fn(TimestampRequest) -> u32,
    T: Fn(&[u8], Ipv4Addr, Ipv4Addr) -> u16,
    I: Fn(&[u8]) -> u16,
>(
    services: Services<L, S, C, T, I>,
    pkt: IngressPacket,
    source_mac: MacAddr,
    cookie: SynCookie,
    one_old: Seq<u8>,
    one_new: Seq<u8>,
    other_old: Seq<u8>,
    other_new: Seq<u8>,
)
    requires
        services.steady(),
        one_old.len() >= 78,
        other_old.len() >= 78,
        one_old.take(78) == other_old.take(78),
        is_reply(services, pkt, source_mac, cookie, one_old, one_new),
        is_reply(services, pkt, source_mac, cookie, other_old, other_new),
    ensures
        one_new.len() == one_old.len(),
        other_new.len() == other_old.len(),
        forall|i: int| 0 <= i < 78 && !(24 <= i < 26) ==> #[trigger] one_new[i] == other_new[i],
        one_old == other_old ==> one_new == other_new,
        services.sums_header_only() ==> one_new.take(78) == other_new.take(78),
{
    let one = lemma_reply_sums(services, pkt, source_mac, cookie, one_old, one_new);
    let other = lemma_reply_sums(services, pkt, source_mac, cookie, other_old, other_new);
    assert(one_old.subrange(14, 34) == one_old.take(78).subrange(14, 34));
    assert(other_old.subrange(14, 34) == other_old.take(78).subrange(14, 34));
    assert(one_old.subrange(34, 78) == one_old.take(78).subrange(34, 78));
    assert(other_old.subrange(34, 78) == other_old.take(78).subrange(34, 78));
    assert(one.0 == other.0);
    lemma_front_bytes(pkt, source_mac, cookie, one_old, one, other_old, other);
    if one_old == other_old {
        assert(one.1 == other.1);
    }
    if services.sums_header_only() {
        lemma_summed_header(pkt, source_mac, cookie, one_old, one.0);
        lemma_summed_header(pkt, source_mac, cookie, other_old, other.0);
        assert(one.1 == other.1);
        assert(one_new.take(78) == other_new.take(78)) by {
            assert forall|i: int| 0 <= i < 78 implies one_new[i] == other_new[i] by {}
        }
    }
}

/// The first bytes of two answers to one request.
proof fn lemma_front_bytes(
    pkt: IngressPacket,
    source_mac: MacAddr,
    cookie: SynCookie,
    one_old: Seq<u8>,
    one: (u16, u16),
    other_old: Seq<u8>,
    other: (u16, u16),
)
    requires
        one_old.len() >= 78,
        other_old.len() >= 78,
        one_old.subrange(14, 34) == other_old.subrange(14, 34),
        one_old.subrange(34, 78) == other_old.subrange(34, 78),
        one.0 == other.0,
    ensures
        ({
            let a = reply_frame(pkt, source_mac, cookie, one_old, one.0, one.1);
            let b = reply_frame(pkt, source_mac, cookie, other_old, other.0, other.1);
            &&& a.len() == one_old.len()
            &&& b.len() == other_old.len()
            &&& forall|i: int| 0 <= i < 78 && !(24 <= i < 26) ==> #[trigger] a[i] == b[i]
            &&& one.1 == other.1 ==> a[24] == b[24] && a[25] == b[25]
        }),
{
}

/// Whether two requests differ at most in the station that sent them and in their timestamp.
pub open spec fn same_connection(one: IngressPacket, other: IngressPacket) -> bool {
    other == IngressPacket {
        ether_source: other.ether_source,
        tcp_timestamp: other.tcp_timestamp,
        ..one
    }
}

/// With steady services, the answers to two requests that differ at most in the station that sent
/// them and in their timestamp, written over the same bytes from whatever stations, agree but for
/// the Ethernet addresses, the checksums and the echoed timestamp. If the timestamps are the same,
/// they agree in all but the Ethernet addresses. If the IPv4 checksum sees the header alone, the
/// answers agree in it too.
#[verifier::rlimit(40)]
pub proof fn law_one_connection_one_reply<
    L: Fn(Ipv4Addr) -> Option<HostConfig>,
    S: Fn(SequenceRequest) -> (u32, u16),
    C: Fn(TimestampRequest) -> u32,
    T: Fn(&[u8], Ipv4Addr, Ipv4Addr) -> u16,
    I: Fn(&[u8]) -> u16,
>(
    services: Services<L, S, C, T, I>,
    one: IngressPacket,
    one_mac: MacAddr,
    other: IngressPacket,
    other_mac: MacAddr,
    old: Seq<u8>,
    one_new: Seq<u8>,
    other_new: Seq<u8>,
)
    requires
        services.steady(),
        old.len() >= 78,
        same_connection(one, other),
        answers(services, one, one_mac, old, one_new),
        answers(services, other, other_mac, old, other_new),
    ensures
        one_new.len() == other_new.len(),
        forall|i: int|
            12 <= i < one_new.len() && !(24 <= i < 26) && !(50 <= i < 52) && !(66 <= i < 70)
                ==> #[trigger] one_new[i] == other_new[i],
        services.sums_header_only() ==> one_new[24] == other_new[24] && one_new[25]
            == other_new[25],
        one.tcp_timestamp == other.tcp_timestamp ==> one_new.skip(12) == other_new.skip(12),
{
    let cookie = lemma_answer_cookie(services, one, one_mac, old, one_new);
    let other_cookie = lemma_answer_cookie(services, other, other_mac, old, other_new);
    lemma_one_cookie(services, one, other, cookie, other_cookie);
    let sums = lemma_reply_sums(services, one, one_mac, cookie, old, one_new);
    let other_sums = lemma_reply_sums(services, other, other_mac, cookie, old, other_new);
    lemma_connection_bytes(one, one_mac, other, other_mac, cookie, old, sums, other_sums);
    if services.sums_header_only() {
        lemma_summed_header(one, one_mac, cookie, old, sums.0);
        lemma_summed_header(other, other_mac, cookie, old, other_sums.0);
        assert(sums.1 == other_sums.1);
    }
    if one.tcp_timestamp == other.tcp_timestamp {
        assert(sums.0 == other_sums.0);
        let unsummed = reply_frame(one, one_mac, cookie, old, sums.0, 0);
        let other_unsummed = reply_frame(other, other_mac, cookie, old, sums.0, 0);
        let half = (sums.0, 0u16);
        lemma_connection_bytes(one, one_mac, other, other_mac, cookie, old, half, half);
        assert(ethernet::payload(unsummed) == ethernet::payload(other_unsummed)) by {
            assert forall|i: int| 12 <= i < unsummed.len() implies unsummed[i]
                == other_unsummed[i] by {}
        }
        assert(sums == other_sums);
        assert(one_new.skip(12) == other_new.skip(12)) by {
            assert forall|i: int| 12 <= i < one_new.len() implies one_new[i] == other_new[i] by {}
        }
    }
}

/// The bytes of the answers to two requests that differ at most in the station that sent them and in
/// their timestamp.
proof fn lemma_connection_bytes(
    one: IngressPacket,
    one_mac: MacAddr,
    other: IngressPacket,
    other_mac: MacAddr,
    cookie: SynCookie,
    old: Seq<u8>,
    sums: (u16, u16),
    other_sums: (u16, u16),
)
    requires
        old.len() >= 78,
        same_connection(one, other),
    ensures
        ({
            let a = reply_frame(one, one_mac, cookie, old, sums.0, sums.1);
            let b = reply_frame(other, other_mac, cookie, old, other_sums.0, other_sums.1);
            &&& a.len() == b.len() == old.len()
            &&& forall|i: int|
                12 <= i < a.len() && !(24 <= i < 26) && !(50 <= i < 52) && !(66 <= i < 70)
                    ==> #[trigger] a[i] == b[i]
            &&& sums.1 == other_sums.1 ==> a[24] == b[24] && a[25] == b[25]
            &&& sums.0 == other_sums.0 ==> a[50] == b[50] && a[51] == b[51]
            &&& one.tcp_timestamp == other.tcp_timestamp ==> forall|i: int|
                66 <= i < 70 ==> #[trigger] a[i] == b[i]
        }),
{
}

/// With steady services, nothing that a buffer held before shows in an answer written by way of a
/// template, whatever the lengths of the buffers, but for the IPv4 checksum, which may see what
/// follows the answer. If the same follows, or the checksum sees the header alone, the answers are
/// the same.
pub proof fn law_template_hides_the_buffer<
    L: Fn(Ipv4Addr) -> Option<HostConfig>,
    S: Fn(SequenceRequest) -> (u32, u16),
    C: Fn(TimestampRequest) -> u32,
    T: Fn(&[u8], Ipv4Addr, Ipv4Addr) -> u16,
    I: Fn(&[u8]) -> u16,
>(
    services: Services<L, S, C, T, I>,
    pkt: IngressPacket,
    source_mac: MacAddr,
    mss: u16,
    one_old: Seq<u8>,
    one_new: Seq<u8>,
    other_old: Seq<u8>,
    other_new: Seq<u8>,
)
    requires
        services.steady(),
        one_old.len() >= 78,
        other_old.len() >= 78,
        answers_with_mss(services, pkt, source_mac, mss, blank(one_old), one_new),
        answers_with_mss(services, pkt, source_mac, mss, blank(other_old), other_new),
    ensures
        forall|i: int| 0 <= i < 78 && !(24 <= i < 26) ==> #[trigger] one_new[i] == other_new[i],
        one_old.skip(78) == other_old.skip(78) ==> one_new == other_new,
        services.sums_header_only() ==> one_new.take(78) == other_new.take(78),
{
    let cookie = lemma_sent_cookie(services, pkt, source_mac, mss, blank(one_old), one_new);
    let other = lemma_sent_cookie(services, pkt, source_mac, mss, blank(other_old), other_new);
    lemma_one_cookie(services, pkt, pkt, cookie, other);
    if one_old.skip(78) == other_old.skip(78) {
        assert(one_old.len() == one_old.skip(78).len() + 78);
        assert(other_old.len() == other_old.skip(78).len() + 78);
        law_template_covers_the_buffer(one_old, other_old);
    }
    assert(blank(one_old).take(78) == blank(other_old).take(78));
    lemma_same_front(
        services,
        pkt,
        source_mac,
        with_mss(cookie, mss),
        blank(one_old),
        one_new,
        blank(other_old),
        other_new,
    );
}

/// With steady services, an answer written by way of a template, over any buffer, is the answer
/// written in full over zeros, provided that the SYN cookie of the request has the segment size of
/// the one that the template was made with. The IPv4 checksum is the same if the buffer has the
/// length of the answer, or if the checksum sees the header alone.
pub proof fn law_template_makes_the_full_reply<
    L: Fn(Ipv4Addr) -> Option<HostConfig>,
    S: Fn(SequenceRequest) -> (u32, u16),
    C: Fn(TimestampRequest) -> u32,
    T: Fn(&[u8], Ipv4Addr, Ipv4Addr) -> u16,
    I: Fn(&[u8]) -> u16,
>(
    services: Services<L, S, C, T, I>,
    pkt: IngressPacket,
    source_mac: MacAddr,
    template: Seq<u8>,
    old: Seq<u8>,
    new: Seq<u8>,
    full: Seq<u8>,
)
    requires
        services.steady(),
        old.len() >= 78,
        answers(
            services,
            template_request(),
            MacAddr(0, 0, 0, 0, 0, 0),
            Seq::new(78, |i: int| 0u8),
            template,
        ),
        forall|cookie: SynCookie, first: SynCookie|
            #[trigger] services.bakes(pkt, cookie) && #[trigger] services.bakes(
                template_request(),
                first,
            ) ==> cookie.mss == first.mss,
        answers_with_mss(services, pkt, source_mac, offered_mss(template), blank(old), new),
        answers(services, pkt, source_mac, Seq::new(78, |i: int| 0u8), full),
    ensures
        full.len() == 78,
        forall|i: int| 0 <= i < 78 && !(24 <= i < 26) ==> #[trigger] new[i] == full[i],
        old.len() == 78 ==> new == full,
        services.sums_header_only() ==> new.take(78) == full,
{
    let nobody = MacAddr(0, 0, 0, 0, 0, 0);
    let zeros = Seq::new(78, |i: int| 0u8);
    let mss = offered_mss(template);
    let first = lemma_answer_cookie(services, template_request(), nobody, zeros, template);
    law_reply_goes_back(services, template_request(), nobody, first, zeros, template);
    let cookie = lemma_answer_cookie(services, pkt, source_mac, zeros, full);
    law_reply_goes_back(services, pkt, source_mac, cookie, zeros, full);
    let sent = lemma_sent_cookie(services, pkt, source_mac, mss, blank(old), new);
    lemma_one_cookie(services, pkt, pkt, cookie, sent);
    assert(with_mss(sent, mss) == cookie);
    assert(blank(old).take(78) == zeros.take(78));
    if old.len() == 78 {
        assert(blank(old) == zeros);
    }
    lemma_same_front(services, pkt, source_mac, cookie, blank(old), new, zeros, full);
    assert(full.take(78) == full);
}

/// The SYN cookie of an answer.
proof fn lemma_answer_cookie<
    L: Fn(Ipv4Addr) -> Option<HostConfig>,
    S: Fn(SequenceRequest) -> (u32, u16),
    C: Fn(TimestampRequest) -> u32,
    T: Fn(&[u8], Ipv4Addr, Ipv4Addr) -> u16,
    I: Fn(&[u8]) -> u16,
>(
    services: Services<L, S, C, T, I>,
    pkt: IngressPacket,
    source_mac: MacAddr,
    old: Seq<u8>,
    new: Seq<u8>,
) -> (cookie: SynCookie)
    requires
        answers(services, pkt, source_mac, old, new),
    ensures
        services.bakes(pkt, cookie),
        is_reply(services, pkt, source_mac, cookie, old, new),
{
    choose|cookie: SynCookie| #[trigger]
        services.bakes(pkt, cookie) && is_reply(services, pkt, source_mac, cookie, old, new)
}

/// The SYN cookie of an answer with another segment size.
proof fn lemma_sent_cookie<
    L: Fn(Ipv4Addr) -> Option<HostConfig>,
    S: Fn(SequenceRequest) -> (u32, u16),
    C: Fn(TimestampRequest) -> u32,
    T: Fn(&[u8], Ipv4Addr, Ipv4Addr) -> u16,
    I: Fn(&[u8]) -> u16,
>(
    services: Services<L, S, C, T, I>,
    pkt: IngressPacket,
    source_mac: MacAddr,
    mss: u16,
    old: Seq<u8>,
    new: Seq<u8>,
) -> (cookie: SynCookie)
    requires
        answers_with_mss(services, pkt, source_mac, mss, old, new),
    ensures
        services.bakes(pkt, cookie),
        is_reply(services, pkt, source_mac, with_mss(cookie, mss), old, new),
{
    choose|cookie: SynCookie| #[trigger]
        services.bakes(pkt, cookie) && is_reply(
            services,
            pkt,
            source_mac,
            with_mss(cookie, mss),
            old,
            new,
        )
}

/// The SYN cookie and the checksums of an answer written over another.
proof fn lemma_patch_parts<
    L: Fn(Ipv4Addr) -> Option<HostConfig>,
    S: Fn(SequenceRequest) -> (u32, u16),
    C: Fn(TimestampRequest) -> u32,
    T: Fn(&[u8], Ipv4Addr, Ipv4Addr) -> u16,
    I: Fn(&[u8]) -> u16,
>(
    services: Services<L, S, C, T, I>,
    pkt: IngressPacket,
    source_mac: MacAddr,
    old: Seq<u8>,
    new: Seq<u8>,
) -> (parts: (SynCookie, u16, u16))
    requires
        patches(services, pkt, source_mac, old, new),
    ensures
        services.bakes(pkt, parts.0),
        services.sums_segment(
            patched_segment(pkt, parts.0, segment_in(old), 0),
            pkt.ipv4_destination,
            pkt.ipv4_source,
            parts.1,
        ),
        services.sums_packet(
            ethernet::payload(patched_frame(pkt, source_mac, parts.0, old, parts.1, 0)),
            parts.2,
        ),
        new == patched_frame(pkt, source_mac, parts.0, old, parts.1, parts.2),
{
    let cookie = choose|cookie: SynCookie| #[trigger]
        services.bakes(pkt, cookie) && is_patch(services, pkt, source_mac, cookie, old, new);
    let sums = lemma_patch_sums(services, pkt, source_mac, cookie, old, new);
    (cookie, sums.0, sums.1)
}

/// An answer written over the one in place keeps every byte that does not depend on the request:
/// the ethertype, the other fields of the IPv4 header and its options, the flags, the window and the
/// other options of the segment, and all that follows.
pub proof fn law_patch_keeps_the_rest<
    L: Fn(Ipv4Addr) -> Option<HostConfig>,
    S: Fn(SequenceRequest) -> (u32, u16),
    C: Fn(TimestampRequest) -> u32,
    T: Fn(&[u8], Ipv4Addr, Ipv4Addr) -> u16,
    I: Fn(&[u8]) -> u16,
>(
    services: Services<L, S, C, T, I>,
    pkt: IngressPacket,
    source_mac: MacAddr,
    old: Seq<u8>,
    new: Seq<u8>,
)
    requires
        is_patchable(old),
        patches(services, pkt, source_mac, old, new),
    ensures
        new.len() == old.len(),
        forall|i: int|
            0 <= i < old.len() && !is_patched(segment_start(old), i) ==> #[trigger] new[i]
                == old[i],
        is_patchable(new),
        announced_length(new) == announced_length(old),
{
    let parts = lemma_patch_parts(services, pkt, source_mac, old, new);
    lemma_kept_bytes(pkt, source_mac, parts.0, old, (parts.1, parts.2));
    let start = segment_start(old);
    assert(new[14] == old[14]);
    assert(ethernet::payload(new)[0] == ethernet::payload(old)[0]);
    assert(new[start + 12] == old[start + 12]);
    assert(segment_in(new)[12] == segment_in(old)[12]);
}

/// The bytes that an answer written over another keeps.
proof fn lemma_kept_bytes(
    pkt: IngressPacket,
    source_mac: MacAddr,
    cookie: SynCookie,
    old: Seq<u8>,
    sums: (u16, u16),
)
    requires
        is_patchable(old),
    ensures
        ({
            let new = patched_frame(pkt, source_mac, cookie, old, sums.0, sums.1);
            &&& new.len() == old.len()
            &&& forall|i: int|
                0 <= i < old.len() && !is_patched(segment_start(old), i) ==> #[trigger] new[i]
                    == old[i]
        }),
{
}

/// An answer written over the one in place goes back to where the request came from, from where the
/// request went, acknowledges the sequence number of the request, and carries the sequence number
/// and the timestamp of the cookie and the timestamp of the request. It announces its own length.
pub proof fn law_patch_goes_back<
    L: Fn(Ipv4Addr) -> Option<HostConfig>,
    S: Fn(SequenceRequest) -> (u32, u16),
    C: Fn(TimestampRequest) -> u32,
    T: Fn(&[u8], Ipv4Addr, Ipv4Addr) -> u16,
    I: Fn(&[u8]) -> u16,
>(
    services: Services<L, S, C, T, I>,
    pkt: IngressPacket,
    source_mac: MacAddr,
    cookie: SynCookie,
    old: Seq<u8>,
    new: Seq<u8>,
)
    requires
        is_patchable(old),
        is_patch(services, pkt, source_mac, cookie, old, new),
    ensures
        ethernet::destination(new) == pkt.ether_source,
        ethernet::source(new) == source_mac,
        ({
            let ip = ethernet::payload(new);
            let segment = new.subrange(segment_start(old), segment_start(old) + 44);
            &&& ipv4::source(ip) == pkt.ipv4_destination
            &&& ipv4::destination(ip) == pkt.ipv4_source
            &&& ipv4::total_length(ip) == announced_length(old) - 14
            &&& tcp::source(segment) == pkt.tcp_destination
            &&& tcp::destination(segment) == pkt.tcp_source
            &&& tcp::sequence(segment) == cookie.sequence
            &&& tcp::acknowledgement(segment) == next32(pkt.tcp_sequence)
            &&& segment.subrange(26, 36) == timestamps_option(cookie.timestamp, pkt.tcp_timestamp)
        }),
{
    let sums = lemma_patch_sums(services, pkt, source_mac, cookie, old, new);
    lemma_patch_layers(pkt, source_mac, cookie, old, sums);
    lemma_patched_fields(pkt, cookie, segment_in(old), sums.0);
}

/// The layers of the frame `patched_frame`.
proof fn lemma_patch_layers(
    pkt: IngressPacket,
    source_mac: MacAddr,
    cookie: SynCookie,
    old: Seq<u8>,
    sums: (u16, u16),
)
    requires
        is_patchable(old),
    ensures
        ({
            let frame = patched_frame(pkt, source_mac, cookie, old, sums.0, sums.1);
            let ip = ethernet::payload(frame);
            let start = segment_start(old);
            &&& ethernet::destination(frame) == pkt.ether_source
            &&& ethernet::source(frame) == source_mac
            &&& ipv4::source(ip) == pkt.ipv4_destination
            &&& ipv4::destination(ip) == pkt.ipv4_source
            &&& ipv4::total_length(ip) == announced_length(old) - 14
            &&& frame.subrange(start, start + 44) == patched_segment(
                pkt,
                cookie,
                segment_in(old),
                sums.0,
            )
        }),
{
    law_numbers_read_back((announced_length(old) - 14) as u16, 0);
}

/// The fields of the segment `patched_segment` that depend on the request.
proof fn lemma_patched_fields(
    pkt: IngressPacket,
    cookie: SynCookie,
    old: Seq<u8>,
    checksum: u16,
)
    requires
        old.len() == 44,
    ensures
        ({
            let segment = patched_segment(pkt, cookie, old, checksum);
            &&& tcp::source(segment) == pkt.tcp_destination
            &&& tcp::destination(segment) == pkt.tcp_source
            &&& tcp::sequence(segment) == cookie.sequence
            &&& tcp::acknowledgement(segment) == next32(pkt.tcp_sequence)
            &&& segment.subrange(26, 36) == timestamps_option(cookie.timestamp, pkt.tcp_timestamp)
        }),
{
    let segment = patched_segment(pkt, cookie, old, checksum);
    law_numbers_read_back(pkt.tcp_destination, cookie.sequence);
    law_numbers_read_back(pkt.tcp_source, next32(pkt.tcp_sequence));
    assert(segment.subrange(0, 2) == be16(pkt.tcp_destination));
    assert(segment.subrange(2, 4) == be16(pkt.tcp_source));
    assert(segment.subrange(4, 8) == be32(cookie.sequence));
    assert(segment.subrange(8, 12) == be32(next32(pkt.tcp_sequence)));
    assert(segment.subrange(26, 36) == timestamps_option(cookie.timestamp, pkt.tcp_timestamp));
}

/// What an answer in place holds in the bytes that depend on the request has no influence on the
/// answer that is written over it: over two buffers that agree elsewhere the same answers can be
/// written, and with steady services the same one is.
pub proof fn law_patched_bytes_do_not_show<
    L: Fn(Ipv4Addr) -> Option<HostConfig>,
    S: Fn(SequenceRequest) -> (u32, u16),
    C: Fn(TimestampRequest) -> u32,
    T: Fn(&[u8], Ipv4Addr, Ipv4Addr) -> u16,
    I: Fn(&[u8]) -> u16,
>(
    services: Services<L, S, C, T, I>,
    pkt: IngressPacket,
    source_mac: MacAddr,
    one_old: Seq<u8>,
    one_new: Seq<u8>,
    other_old: Seq<u8>,
    other_new: Seq<u8>,
)
    requires
        is_patchable(one_old),
        one_old.len() == other_old.len(),
        forall|i: int|
            0 <= i < one_old.len() && !is_patched(segment_start(one_old), i) ==> #[trigger]
                one_old[i] == other_old[i],
        patches(services, pkt, source_mac, one_old, one_new),
        patches(services, pkt, source_mac, other_old, other_new),
    ensures
        is_patchable(other_old),
        announced_length(one_old) == announced_length(other_old),
        patches(services, pkt, source_mac, other_old, one_new),
        services.steady() ==> one_new == other_new,
{
    let one = lemma_patch_parts(services, pkt, source_mac, one_old, one_new);
    let other = lemma_patch_parts(services, pkt, source_mac, other_old, other_new);
    lemma_patched_bytes_do_not_show(pkt, source_mac, one.0, one_old, other_old, (0, 0));
    lemma_patched_bytes_do_not_show(pkt, source_mac, one.0, one_old, other_old, (one.1, 0));
    lemma_patched_bytes_do_not_show(pkt, source_mac, one.0, one_old, other_old, (one.1, one.2));
    assert(is_patch(services, pkt, source_mac, one.0, other_old, one_new));
    if services.steady() {
        lemma_one_cookie(services, pkt, pkt, one.0, other.0);
        assert(one.1 == other.1);
        assert(one.2 == other.2);
    }
}

/// An answer written over an earlier one can be written in full over what was there before the
/// earlier one, but that it keeps the segment size of the earlier one. With steady services, and
/// SYN cookies of the same segment size, the two ways give the same answer.
pub proof fn law_patched_reply_is_a_fresh_one<
    L: Fn(Ipv4Addr) -> Option<HostConfig>,
    S: Fn(SequenceRequest) -> (u32, u16),
    C: Fn(TimestampRequest) -> u32,
    T: Fn(&[u8], Ipv4Addr, Ipv4Addr) -> u16,
    I: Fn(&[u8]) -> u16,
>(
    services: Services<L, S, C, T, I>,
    earlier: IngressPacket,
    earlier_mac: MacAddr,
    pkt: IngressPacket,
    source_mac: MacAddr,
    old: Seq<u8>,
    between: Seq<u8>,
    new: Seq<u8>,
    fresh: Seq<u8>,
)
    requires
        old.len() >= 78,
        answers(services, earlier, earlier_mac, old, between),
        patches(services, pkt, source_mac, between, new),
        answers(services, pkt, source_mac, old, fresh),
    ensures
        is_patchable(between),
        announced_length(between) == 78,
        answers_with_mss(services, pkt, source_mac, offered_mss(between), old, new),
        services.steady() && (forall|cookie: SynCookie, first: SynCookie|
            #[trigger] services.bakes(pkt, cookie) && #[trigger] services.bakes(earlier, first)
                ==> cookie.mss == first.mss) ==> new == fresh,
{
    let first = lemma_answer_cookie(services, earlier, earlier_mac, old, between);
    let first_sums = lemma_reply_sums(services, earlier, earlier_mac, first, old, between);
    law_reply_goes_back(services, earlier, earlier_mac, first, old, between);
    let (cookie, tcp_checksum, ip_checksum) = lemma_patch_parts(
        services,
        pkt,
        source_mac,
        between,
        new,
    );
    let sent = with_mss(cookie, first.mss);
    let none = (0u16, 0u16);
    let half = (tcp_checksum, 0u16);
    let whole = (tcp_checksum, ip_checksum);
    lemma_patched_reply(
        earlier,
        earlier_mac,
        first,
        first_sums,
        pkt,
        source_mac,
        cookie,
        none,
        old,
    );
    lemma_patched_reply(
        earlier,
        earlier_mac,
        first,
        first_sums,
        pkt,
        source_mac,
        cookie,
        half,
        old,
    );
    lemma_patched_reply(
        earlier,
        earlier_mac,
        first,
        first_sums,
        pkt,
        source_mac,
        cookie,
        whole,
        old,
    );
    assert(is_reply(services, pkt, source_mac, sent, old, new));
    let fresh_cookie = lemma_answer_cookie(services, pkt, source_mac, old, fresh);
    if services.steady() && (forall|cookie: SynCookie, first: SynCookie|
        #[trigger] services.bakes(pkt, cookie) && #[trigger] services.bakes(earlier, first)
            ==> cookie.mss == first.mss) {
        lemma_one_cookie(services, pkt, pkt, cookie, fresh_cookie);
        assert(sent == fresh_cookie);
        let sums = lemma_reply_sums(services, pkt, source_mac, sent, old, new);
        let fresh_sums = lemma_reply_sums(services, pkt, source_mac, sent, old, fresh);
        assert(sums.0 == fresh_sums.0);
        assert(sums.1 == fresh_sums.1);
    }
}

/// A frame is dropped exactly if it is not for the station, carries no IPv4, or has an IPv4 or TCP
/// header that is cut short.
pub proof fn law_drop_has_a_cause(frame: Seq<u8>, mac: MacAddr, host: Option<HostConfig>)
    ensures
        input_action(frame, mac, host) == Action::Drop <==> (!is_ours(frame, mac)
            || malformed_layer(frame, mac) is Some),
{
}

/// The question for the address of a host is addressed to everyone, and no station answers or
/// forwards it.
pub proof fn law_question_is_dropped(
    source_mac: MacAddr,
    source_ip: Ipv4Addr,
    dest_ip: Ipv4Addr,
    rest: Seq<u8>,
    mac: MacAddr,
    host: Option<HostConfig>,
)
    ensures
        ({
            let frame = arp_frame(source_mac, source_ip, dest_ip) + rest;
            &&& ethernet::destination(frame) == MacAddr(0xff, 0xff, 0xff, 0xff, 0xff, 0xff)
            &&& ethernet::source(frame) == source_mac
            &&& ethernet::ethertype(frame) == ethernet::ETHERTYPE_ARP
            &&& acceptable(frame, mac)
            &&& input_action(frame, mac, host) == Action::Drop
        }),
{
}

} // verus!
