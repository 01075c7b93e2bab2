//! What the library does, told in the bytes on the wire and in plain numbers.
//!
//! Nothing here rests on a name for a part of a frame: a byte is given by its place, a number by
//! the sum of its bytes.

use vstd::prelude::*;

use crate::addr::{Ipv4Addr, MacAddr};
use crate::arp::arp_frame;
use crate::bytes::{be16, be32, u16_at, u32_at};
use crate::dump::{carries_ipv4, carries_tcp, is_whole};
use crate::ethernet;
use crate::ingress::{
    acceptable, after_ipv4, after_transport, first_timestamps, forward_to, has_broken_stamp,
    input_action, input_routed, is_ours, is_request, malformed_layer, routed, stamp_readable,
    transport_action, wanted_host, Action, IngressPacket, Layer,
};
use crate::ipv4;
use crate::services::{sequence_request_for, timestamp_request_for, HostConfig};
use crate::tcp;

verus! {

/// Numbers in network byte order: the bytes of a number, weighed by their place, sum up to it, and
/// the number read from a place is that sum.
pub proof fn law_network_byte_order(short: u16, long: u32, b: Seq<u8>, at: int)
    ensures
        be16(short).len() == 2,
        be16(short)[0] * 256 + be16(short)[1] == short,
        be32(long).len() == 4,
        be32(long)[0] * 0x100_0000 + be32(long)[1] * 0x1_0000 + be32(long)[2] * 256 + be32(long)[3]
            == long,
        u16_at(b, at) == b[at] * 256 + b[at + 1],
        u32_at(b, at) == b[at] * 0x100_0000 + b[at + 1] * 0x1_0000 + b[at + 2] * 256 + b[at + 3],
{
}

/// The SYN and ACK bits of a byte of flags.
proof fn lemma_flag_bits(b: u8)
    ensures
        (b & 0x12 == 0x02) == (b / 2 % 2 == 1 && b / 16 % 2 == 0),
{
    assert((b & 0x12 == 0x02) == (b / 2 % 2 == 1 && b / 16 % 2 == 0)) by (bit_vector);
}

/// The data of the first timestamps option of a list is the data of the option with number 8 that
/// has none before it. There is none exactly if no option has that number.
pub proof fn law_first_timestamps(list: Seq<(u8, Seq<u8>)>)
    ensures
        first_timestamps(list) is None <==> forall|i: int|
            0 <= i < list.len() ==> (#[trigger] list[i]).0 != 8,
        forall|k: int|
            0 <= k < list.len() && (#[trigger] list[k]).0 == 8 && (forall|i: int|
                0 <= i < k ==> (#[trigger] list[i]).0 != 8) ==> first_timestamps(list) == Some(
                list[k].1,
            ),
    decreases list.len(),
{
    if list.len() > 0 {
        let rest = list.skip(1);
        law_first_timestamps(rest);
        assert forall|i: int| 0 <= i < rest.len() implies #[trigger] rest[i] == list[i + 1] by {}
        if list[0].0 != 8 {
            assert(first_timestamps(list) == first_timestamps(rest));
            if first_timestamps(list) is None {
                assert forall|i: int| 0 <= i < list.len() implies (#[trigger] list[i]).0 != 8 by {
                    if i > 0 {
                        assert(rest[i - 1].0 != 8);
                    }
                }
            }
            assert forall|k: int|
                0 <= k < list.len() && (#[trigger] list[k]).0 == 8 && (forall|i: int|
                    0 <= i < k ==> (#[trigger] list[i]).0 != 8) implies first_timestamps(list)
                == Some(list[k].1) by {
                assert(k > 0);
                assert(rest[k - 1] == list[k]);
                assert forall|i: int| 0 <= i < k - 1 implies (#[trigger] rest[i]).0 != 8 by {
                    assert(list[i + 1].0 != 8);
                }
            }
        } else {
            assert(list[0].0 == 8);
        }
    }
}

/// An option with a length byte reads back as it was written, and so does what follows it. An
/// option that the buffer does not hold to its end has as much data as there is. The options
/// numbered 0 and 1 are a single byte.
pub proof fn law_options_read_back(number: u8, data: Seq<u8>, len: u8, rest: Seq<u8>)
    requires
        data.len() <= 253,
    ensures
        tcp::options_in(Seq::empty()) == Seq::<(u8, Seq<u8>)>::empty(),
        number >= 2 ==> tcp::options_in(seq![number, (data.len() + 2) as u8] + data + rest) == seq![
            (number, data),
        ] + tcp::options_in(rest),
        number >= 2 && data.len() + 2 < len ==> tcp::options_in(seq![number, len] + data) == seq![
            (number, data),
        ],
        number >= 2 ==> tcp::options_in(seq![number]) == seq![(number, Seq::<u8>::empty())],
        number < 2 ==> tcp::options_in(seq![number] + rest) == seq![(number, Seq::<u8>::empty())]
            + tcp::options_in(rest),
{
    reveal_with_fuel(tcp::options_in, 2);
    let whole = seq![number, (data.len() + 2) as u8] + data + rest;
    let cut = seq![number, len] + data;
    let plain = seq![number] + rest;
    if number >= 2 {
        assert(tcp::option_data(whole) == data);
        assert(whole.skip(data.len() as int + 2) == rest);
        assert(tcp::option_data(seq![number]) == Seq::<u8>::empty());
        assert(seq![number].skip(1) == Seq::<u8>::empty());
        assert(tcp::options_in(seq![number]) == seq![(number, Seq::<u8>::empty())]
            + tcp::options_in(Seq::empty()));
        if data.len() + 2 < len {
            assert(tcp::option_data(cut) == data);
            assert(cut.skip(cut.len() as int) == Seq::<u8>::empty());
            assert(tcp::options_in(cut) == seq![(number, data)] + tcp::options_in(Seq::empty()));
        }
    } else {
        assert(tcp::option_data(plain) == Seq::<u8>::empty());
        assert(plain.skip(1) == rest);
    }
}

/// The options of a segment stand between byte 20 and the end of the header, which the high four
/// bits of byte 12 tell in words of four bytes, or the end of the segment.
pub proof fn law_options_place(segment: Seq<u8>)
    requires
        segment.len() >= 20,
    ensures
        segment[12] / 16 <= 5 ==> tcp::options(segment) == Seq::<(u8, Seq<u8>)>::empty(),
        segment[12] / 16 > 5 && 4 * (segment[12] / 16) <= segment.len() ==> tcp::options(segment)
            == tcp::options_in(segment.subrange(20, 4 * (segment[12] / 16))),
        segment[12] / 16 > 5 && 4 * (segment[12] / 16) > segment.len() ==> tcp::options(segment)
            == tcp::options_in(segment.skip(20)),
{
    if segment[12] / 16 <= 5 {
        assert(tcp::options_area(segment) == Seq::<u8>::empty());
    } else if 4 * (segment[12] / 16) > segment.len() {
        assert(tcp::options_area(segment) == segment.skip(20));
    }
}

/// A transport layer payload is a request exactly if it is TCP, which is protocol 6, has a whole
/// header, and of the bits 0x02 and 0x10 in byte 13 has the first alone. Anything else is sent on to
/// the given address, but for a TCP header that is cut short. What is noted of a request is what
/// stands in its bytes.
#[verifier::rlimit(40)]
pub proof fn law_transport_on_the_wire(
    pkt: IngressPacket,
    protocol: u8,
    payload: Seq<u8>,
    fwd_mac: MacAddr,
)
    ensures
        is_request(protocol, payload) <==> protocol == 6 && payload.len() >= 20 && payload[13]
            & 0x12 == 0x02,
        transport_action(protocol, payload, fwd_mac) is Reply <==> protocol == 6 && payload.len()
            >= 20 && payload[13] & 0x12 == 0x02,
        transport_action(protocol, payload, fwd_mac) == Action::Drop <==> protocol == 6
            && payload.len() < 20,
        transport_action(protocol, payload, fwd_mac) matches Action::Forward(to) ==> to == fwd_mac,
        ({
            let after = after_transport(pkt, protocol, payload);
            let list = tcp::options(payload);
            if protocol == 6 && payload.len() >= 20 && payload[13] & 0x12 == 0x02 {
                &&& after.ether_source == pkt.ether_source
                &&& after.ipv4_source == pkt.ipv4_source
                &&& after.ipv4_destination == pkt.ipv4_destination
                &&& after.tcp_source == payload[0] * 256 + payload[1]
                &&& after.tcp_destination == payload[2] * 256 + payload[3]
                &&& after.tcp_sequence == payload[4] * 0x100_0000 + payload[5] * 0x1_0000
                    + payload[6] * 256 + payload[7]
                &&& after.tcp_mss == 1460
                &&& (forall|i: int| 0 <= i < list.len() ==> (#[trigger] list[i]).0 != 8)
                    ==> after.tcp_timestamp == pkt.tcp_timestamp
                &&& forall|k: int|
                    0 <= k < list.len() && (#[trigger] list[k]).0 == 8 && list[k].1.len() >= 4 && (
                    forall|i: int| 0 <= i < k ==> (#[trigger] list[i]).0 != 8)
                        ==> after.tcp_timestamp@ == list[k].1.take(4)
            } else {
                after == pkt
            }
        }),
{
    if payload.len() >= 20 {
        lemma_flag_bits(payload[13]);
    }
    law_first_timestamps(tcp::options(payload));
}

/// The timestamp of a segment can be read exactly if its first option with number 8, if it has one,
/// has at least four bytes of data.
pub proof fn law_stamp_readable(segment: Seq<u8>)
    ensures
        ({
            let list = tcp::options(segment);
            stamp_readable(segment) <==> forall|k: int|
                0 <= k < list.len() && (#[trigger] list[k]).0 == 8 && (forall|i: int|
                    0 <= i < k ==> (#[trigger] list[i]).0 != 8) ==> list[k].1.len() >= 4
        }),
{
    let list = tcp::options(segment);
    law_first_timestamps(list);
    if first_timestamps(list) is Some {
        lemma_first_exists(list);
    }
}

/// A list with an option that has number 8 has a first one.
proof fn lemma_first_exists(list: Seq<(u8, Seq<u8>)>) -> (k: int)
    requires
        first_timestamps(list) is Some,
    ensures
        0 <= k < list.len(),
        list[k].0 == 8,
        forall|i: int| 0 <= i < k ==> (#[trigger] list[i]).0 != 8,
        first_timestamps(list) == Some(list[k].1),
    decreases list.len(),
{
    if list[0].0 == 8 {
        0
    } else {
        let rest = list.skip(1);
        let k = lemma_first_exists(rest);
        assert(rest[k] == list[k + 1]);
        assert forall|i: int| 0 <= i < k + 1 implies (#[trigger] list[i]).0 != 8 by {
            if i > 0 {
                assert(rest[i - 1].0 != 8);
            }
        }
        k + 1
    }
}

/// The layers of a frame: what IPv4 carries starts behind its header, which the low four bits of
/// its first byte tell in words of four bytes and which is never shorter than 20 bytes.
pub proof fn law_layers_on_the_wire(frame: Seq<u8>)
    requires
        frame.len() >= 34,
    ensures
        ({
            let start = 14 + (if frame[14] % 16 < 5 { 20 } else { 4 * (frame[14] % 16) });
            let ip = ethernet::payload(frame);
            &&& ip == frame.skip(14)
            &&& ipv4::payload_start(ip) == start - 14
            &&& frame.len() >= start ==> ipv4::payload(ip) == frame.skip(start)
            &&& frame.len() < start ==> ipv4::payload(ip) == Seq::<u8>::empty()
        }),
{
    let ip = ethernet::payload(frame);
    let start = 14 + (if frame[14] % 16 < 5 { 20 } else { 4 * (frame[14] % 16) });
    assert(ip[0] == frame[14]);
    if frame.len() >= start {
        assert(ipv4::payload(ip) == frame.skip(start));
    }
}

/// The routing table is asked on behalf of a frame exactly if the frame starts with the address of
/// the station, has ethertype 0x0800 and holds 20 bytes behind that. It is asked for the address in
/// bytes 30 to 33.
pub proof fn law_wanted_host_on_the_wire(frame: Seq<u8>, mac: MacAddr)
    requires
        frame.len() >= 14,
    ensures
        wanted_host(frame, mac) == if mac == MacAddr(
            frame[0],
            frame[1],
            frame[2],
            frame[3],
            frame[4],
            frame[5],
        ) && frame[12] == 8 && frame[13] == 0 && frame.len() >= 34 {
            Some(Ipv4Addr(frame[30], frame[31], frame[32], frame[33]))
        } else {
            None
        },
        is_ours(frame, mac) <==> mac == MacAddr(
            frame[0],
            frame[1],
            frame[2],
            frame[3],
            frame[4],
            frame[5],
        ) && frame[12] == 8 && frame[13] == 0,
{
    let ip = ethernet::payload(frame);
    if frame.len() >= 34 {
        assert(ip[16] == frame[30] && ip[17] == frame[31] && ip[18] == frame[32] && ip[19]
            == frame[33]);
    }
}

/// What is done with a frame. It is dropped if it does not start with the address of the station, if
/// its ethertype is not 0x0800, and if the header of IPv4, or that of TCP behind it, is cut short. It
/// is answered if it is TCP, which byte 23 tells by a 6, and of the bits 0x02 and 0x10 in byte 13 of
/// the segment has the first alone; every other whole segment, and every other protocol, is
/// forwarded. It is forwarded to the very address that the routing table holds, and to everyone if
/// that holds none. The request that is answered is the one in the bytes of the frame.
pub proof fn law_input_on_the_wire(frame: Seq<u8>, mac: MacAddr, host: Option<HostConfig>)
    requires
        frame.len() >= 14,
    ensures
        ({
            let ours = mac
                == MacAddr(frame[0], frame[1], frame[2], frame[3], frame[4], frame[5]) && frame[12]
                == 8 && frame[13] == 0;
            let start = 14 + (if frame[14] % 16 < 5 { 20 } else { 4 * (frame[14] % 16) });
            let action = input_action(frame, mac, host);
            let to = match host {
                Some(config) => config.mac,
                None => MacAddr(0xff, 0xff, 0xff, 0xff, 0xff, 0xff),
            };
            if !ours || frame.len() < 34 {
                action == Action::Drop
            } else if frame[23] != 6 {
                action == Action::Forward(to)
            } else if frame.len() < start + 20 {
                action == Action::Drop
            } else if frame[start + 13] & 0x12 != 0x02 {
                action == Action::Forward(to)
            } else {
                action is Reply
            }
        }),
        input_action(frame, mac, host) matches Action::Reply(pkt) ==> {
            let start = 14 + (if frame[14] % 16 < 5 { 20 } else { 4 * (frame[14] % 16) });
            &&& pkt.ether_source == MacAddr(
                frame[6],
                frame[7],
                frame[8],
                frame[9],
                frame[10],
                frame[11],
            )
            &&& pkt.ipv4_source == Ipv4Addr(frame[26], frame[27], frame[28], frame[29])
            &&& pkt.ipv4_destination == Ipv4Addr(frame[30], frame[31], frame[32], frame[33])
            &&& pkt.tcp_source == frame[start] * 256 + frame[start + 1]
            &&& pkt.tcp_destination == frame[start + 2] * 256 + frame[start + 3]
            &&& pkt.tcp_sequence == frame[start + 4] * 0x100_0000 + frame[start + 5] * 0x1_0000
                + frame[start + 6] * 256 + frame[start + 7]
            &&& pkt.tcp_mss == 1460
        },
{
    law_wanted_host_on_the_wire(frame, mac);
    if frame.len() >= 34 {
        law_layers_on_the_wire(frame);
        lemma_ipv4_fields(frame);
        let start = 14 + (if frame[14] % 16 < 5 { 20 } else { 4 * (frame[14] % 16) });
        let segment = ipv4::payload(ethernet::payload(frame));
        if frame.len() >= start + 20 {
            assert(segment == frame.skip(start));
            assert forall|i: int| 0 <= i < 20 implies segment[i] == frame[start + i] by {}
            lemma_flag_bits(frame[start + 13]);
        } else {
            assert(segment.len() < 20);
        }
    }
}

/// The timestamp of a request is the first four bytes of data of the first option with number 8 of
/// the segment, which starts at `start`. It is zero if there is none.
#[verifier::rlimit(40)]
pub proof fn law_stamp_on_the_wire(
    frame: Seq<u8>,
    mac: MacAddr,
    host: Option<HostConfig>,
    start: int,
    list: Seq<(u8, Seq<u8>)>,
)
    requires
        frame.len() >= 14,
        start == 14 + (if frame[14] % 16 < 5 { 20 } else { 4 * (frame[14] % 16) }),
        list == tcp::options(frame.skip(start)),
    ensures
        input_action(frame, mac, host) matches Action::Reply(pkt) ==> {
            &&& (forall|i: int| 0 <= i < list.len() ==> (#[trigger] list[i]).0 != 8)
                ==> pkt.tcp_timestamp@ == seq![0u8, 0, 0, 0]
            &&& forall|k: int|
                0 <= k < list.len() && (#[trigger] list[k]).0 == 8 && list[k].1.len() >= 4 && (
                forall|i: int| 0 <= i < k ==> (#[trigger] list[i]).0 != 8) ==> pkt.tcp_timestamp@
                    == list[k].1.take(4)
        },
{
    if frame.len() >= 34 {
        law_layers_on_the_wire(frame);
        law_first_timestamps(list);
    }
}

/// The fields of the IPv4 header in a frame.
proof fn lemma_ipv4_fields(frame: Seq<u8>)
    requires
        frame.len() >= 34,
    ensures
        ({
            let ip = ethernet::payload(frame);
            &&& ip.len() == frame.len() - 14
            &&& ipv4::protocol(ip) == frame[23]
            &&& ipv4::source(ip) == Ipv4Addr(frame[26], frame[27], frame[28], frame[29])
            &&& ipv4::destination(ip) == Ipv4Addr(frame[30], frame[31], frame[32], frame[33])
        }),
{
}

/// Whoever asks the routing table for the address in bytes 30 to 33 of a frame, and does with the
/// frame what is to be done with it, forwards it to the address in the reply or to everyone.
pub proof fn law_routing_on_the_wire<L: Fn(Ipv4Addr) -> Option<HostConfig>>(
    lookup: L,
    frame: Seq<u8>,
    mac: MacAddr,
    action: Action,
)
    requires
        frame.len() >= 14,
        wanted_host(frame, mac) is Some,
        input_routed(lookup, frame, mac, action),
    ensures
        frame.len() >= 34,
        exists|host: Option<HostConfig>|
            {
                &&& #[trigger] call_ensures(
                    lookup,
                    (Ipv4Addr(frame[30], frame[31], frame[32], frame[33]),),
                    host,
                )
                &&& action == input_action(frame, mac, host)
                &&& action matches Action::Forward(to) ==> to == match host {
                    Some(config) => config.mac,
                    None => MacAddr(0xff, 0xff, 0xff, 0xff, 0xff, 0xff),
                }
            },
{
    law_wanted_host_on_the_wire(frame, mac);
    let host = choose|host: Option<HostConfig>| #[trigger]
        call_ensures(lookup, (wanted_host(frame, mac)->Some_0,), host) && action == input_action(
            frame,
            mac,
            host,
        );
    law_input_on_the_wire(frame, mac, host);
    assert(call_ensures(lookup, (Ipv4Addr(frame[30], frame[31], frame[32], frame[33]),), host));
}

/// What is done with an IPv4 packet, and what is noted of it: the routing table is asked for the
/// address in bytes 16 to 19, and the addresses are those in bytes 12 to 19.
pub proof fn law_ipv4_on_the_wire<L: Fn(Ipv4Addr) -> Option<HostConfig>>(
    lookup: L,
    pkt: IngressPacket,
    ip: Seq<u8>,
    action: Action,
)
    ensures
        ip.len() < 20 ==> after_ipv4(pkt, ip) == pkt,
        ip.len() >= 20 ==> {
            let start = if ip[0] % 16 < 5 { 20 } else { 4 * (ip[0] % 16) };
            let payload = if ip.len() < start { Seq::<u8>::empty() } else { ip.skip(start) };
            after_ipv4(pkt, ip) == after_transport(
                IngressPacket {
                    ether_source: pkt.ether_source,
                    ipv4_source: Ipv4Addr(ip[12], ip[13], ip[14], ip[15]),
                    ipv4_destination: Ipv4Addr(ip[16], ip[17], ip[18], ip[19]),
                    tcp_source: pkt.tcp_source,
                    tcp_destination: pkt.tcp_destination,
                    tcp_timestamp: pkt.tcp_timestamp,
                    tcp_sequence: pkt.tcp_sequence,
                    tcp_mss: pkt.tcp_mss,
                },
                ip[9],
                payload,
            )
        },
        ip.len() >= 20 && routed(lookup, ip, action) ==> {
            let start = if ip[0] % 16 < 5 { 20 } else { 4 * (ip[0] % 16) };
            let payload = if ip.len() < start { Seq::<u8>::empty() } else { ip.skip(start) };
            exists|host: Option<HostConfig>| #[trigger]
                call_ensures(lookup, (Ipv4Addr(ip[16], ip[17], ip[18], ip[19]),), host) && action
                    == transport_action(
                    ip[9],
                    payload,
                    match host {
                        Some(config) => config.mac,
                        None => MacAddr(0xff, 0xff, 0xff, 0xff, 0xff, 0xff),
                    },
                )
        },
        ip.len() >= 20 ==> {
            let start = if ip[0] % 16 < 5 { 20 } else { 4 * (ip[0] % 16) };
            has_broken_stamp(ip) <==> ip[9] == 6 && ip.len() >= start + 20 && ip[start + 13] & 0x12
                == 0x02 && !stamp_readable(ip.skip(start))
        },
        ip.len() < 20 ==> !has_broken_stamp(ip),
{
    if ip.len() >= 20 {
        let start = if ip[0] % 16 < 5 { 20 } else { 4 * (ip[0] % 16) };
        let payload = if ip.len() < start { Seq::<u8>::empty() } else { ip.skip(start) };
        assert(ipv4::payload(ip) == payload);
        if ip.len() >= start + 20 {
            assert(payload[13] == ip[start + 13]);
            lemma_flag_bits(payload[13]);
        }
        if routed(lookup, ip, action) {
            let host = choose|host: Option<HostConfig>| #[trigger]
                call_ensures(lookup, (ipv4::destination(ip),), host) && action == transport_action(
                    ipv4::protocol(ip),
                    ipv4::payload(ip),
                    forward_to(host),
                );
            assert(call_ensures(lookup, (Ipv4Addr(ip[16], ip[17], ip[18], ip[19]),), host));
        }
    }
}

/// A frame can be handled exactly if it holds an Ethernet header and is not a request to the station
/// with a timestamp that cannot be read. The layer that is cut short is found by the lengths alone.
pub proof fn law_bad_frames_on_the_wire(frame: Seq<u8>, mac: MacAddr)
    ensures
        frame.len() < 14 ==> !acceptable(frame, mac),
        frame.len() >= 14 ==> {
            let ours = mac
                == MacAddr(frame[0], frame[1], frame[2], frame[3], frame[4], frame[5]) && frame[12]
                == 8 && frame[13] == 0;
            let start = 14 + (if frame[14] % 16 < 5 { 20 } else { 4 * (frame[14] % 16) });
            &&& acceptable(frame, mac) <==> !(ours && frame.len() >= 34 && frame[23] == 6
                && frame.len() >= start + 20 && frame[start + 13] & 0x12 == 0x02 && !stamp_readable(
                frame.skip(start),
            ))
            &&& malformed_layer(frame, mac) == Some(Layer::Ipv4) <==> ours && frame.len() < 34
            &&& malformed_layer(frame, mac) == Some(Layer::Tcp) <==> ours && frame.len() >= 34
                && frame[23] == 6 && frame.len() < start + 20
        },
{
    if frame.len() >= 34 {
        law_layers_on_the_wire(frame);
        lemma_ipv4_fields(frame);
        let start = 14 + (if frame[14] % 16 < 5 { 20 } else { 4 * (frame[14] % 16) });
        let segment = ipv4::payload(ethernet::payload(frame));
        if frame.len() >= start + 20 {
            assert(segment == frame.skip(start));
            assert(segment[13] == frame[start + 13]);
            lemma_flag_bits(segment[13]);
        }
    }
}

/// The layers of which a frame is described are those that bytes 12, 13 and 23 tell, and all of them
/// must be there as far as their headers go.
pub proof fn law_described_layers_on_the_wire(frame: Seq<u8>)
    ensures
        frame.len() < 14 ==> !is_whole(frame),
        frame.len() >= 14 ==> (carries_ipv4(frame) <==> frame[12] == 8 && frame[13] == 0),
        frame.len() >= 34 ==> (carries_tcp(frame) <==> frame[12] == 8 && frame[13] == 0 && frame[23]
            == 6),
        frame.len() >= 14 && !(frame[12] == 8 && frame[13] == 0) ==> is_whole(frame)
            && !carries_tcp(frame),
        frame.len() >= 14 && frame[12] == 8 && frame[13] == 0 ==> {
            let start = 14 + (if frame[14] % 16 < 5 { 20 } else { 4 * (frame[14] % 16) });
            is_whole(frame) <==> frame.len() >= 34 && (frame[23] == 6 ==> frame.len() >= start + 20)
        },
{
    if frame.len() >= 34 {
        law_layers_on_the_wire(frame);
        lemma_ipv4_fields(frame);
    }
}

/// The default request has zeros everywhere.
pub proof fn law_default_is_zero()
    ensures
        ({
            let pkt = IngressPacket::zeroed();
            &&& pkt.ether_source == MacAddr(0, 0, 0, 0, 0, 0)
            &&& pkt.ipv4_source == Ipv4Addr(0, 0, 0, 0)
            &&& pkt.ipv4_destination == Ipv4Addr(0, 0, 0, 0)
            &&& pkt.tcp_source == 0
            &&& pkt.tcp_destination == 0
            &&& pkt.tcp_timestamp@ == seq![0u8, 0, 0, 0]
            &&& pkt.tcp_sequence == 0
            &&& pkt.tcp_mss == 0
        }),
{
}

/// The question for the address of a host, read back byte by byte, is the one that was asked.
pub proof fn law_question_on_the_wire(source_mac: MacAddr, source_ip: Ipv4Addr, dest_ip: Ipv4Addr)
    ensures
        ({
            let b = arp_frame(source_mac, source_ip, dest_ip);
            &&& b.len() == 42
            &&& forall|i: int| 0 <= i < 6 || 32 <= i < 38 ==> #[trigger] b[i] == 0xff
            &&& source_mac == MacAddr(b[6], b[7], b[8], b[9], b[10], b[11])
            &&& b[12] * 256 + b[13] == 0x0806
            &&& b[14] * 256 + b[15] == 1
            &&& b[16] * 256 + b[17] == 0x0800
            &&& b[18] == 6
            &&& b[19] == 4
            &&& b[20] * 256 + b[21] == 1
            &&& source_mac == MacAddr(b[22], b[23], b[24], b[25], b[26], b[27])
            &&& source_ip == Ipv4Addr(b[28], b[29], b[30], b[31])
            &&& dest_ip == Ipv4Addr(b[38], b[39], b[40], b[41])
        }),
{
}

/// The clocks of a host reach the SYN cookie modulo 2^32: a clock below that as it is, and clocks
/// that are 2^32 apart alike. For an unknown host they stand at zero. All else in the two requests
/// is what the request says, and a window scale of 7, selective acknowledgements and no explicit
/// congestion notification.
pub proof fn law_clocks_reach_the_cookie(
    pkt: IngressPacket,
    config: HostConfig,
    later: HostConfig,
    host: Option<HostConfig>,
)
    ensures
        config.tcp_cookie_time < 0x1_0000_0000 ==> sequence_request_for(
            pkt,
            Some(config),
        ).cookie_time == config.tcp_cookie_time,
        config.tcp_timestamp < 0x1_0000_0000 ==> timestamp_request_for(Some(config)).tcp_time
            == config.tcp_timestamp,
        (later.tcp_cookie_time - config.tcp_cookie_time) % 0x1_0000_0000 == 0 <==>
            sequence_request_for(pkt, Some(later)).cookie_time == sequence_request_for(
            pkt,
            Some(config),
        ).cookie_time,
        (later.tcp_timestamp - config.tcp_timestamp) % 0x1_0000_0000 == 0 <==>
            timestamp_request_for(Some(later)).tcp_time == timestamp_request_for(
            Some(config),
        ).tcp_time,
        sequence_request_for(pkt, None).cookie_time == 0,
        timestamp_request_for(None).tcp_time == 0,
        ({
            let request = sequence_request_for(pkt, host);
            &&& request.ipv4_source == pkt.ipv4_source
            &&& request.ipv4_destination == pkt.ipv4_destination
            &&& request.tcp_source == pkt.tcp_source
            &&& request.tcp_destination == pkt.tcp_destination
            &&& request.tcp_sequence == pkt.tcp_sequence
            &&& request.tcp_mss == pkt.tcp_mss
        }),
        timestamp_request_for(host).wscale == 7,
        timestamp_request_for(host).sack_permitted == 1,
        timestamp_request_for(host).ecn == 0,
{
}

} // verus!
