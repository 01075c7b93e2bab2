//! What to do with a frame that came in.

use vstd::prelude::*;

use crate::addr::{Ipv4Addr, MacAddr};
use crate::ethernet;
use crate::ipv4;
use crate::services::HostConfig;
use crate::tcp;

verus! {

/// The maximum segment size that every request is taken to ask for.
pub const ASSUMED_MSS: u16 = 1460;

/// What to do with a frame.
#[derive(Debug, PartialEq, Eq)]
pub enum Action {
    /// Ignore it.
    Drop,
    /// Send it on to this address.
    Forward(MacAddr),
    /// Answer this request in the host's place.
    Reply(IngressPacket),
}

/// A request to open a connection: what of its frame the answer needs.
#[derive(Debug, PartialEq, Eq)]
pub struct IngressPacket {
    pub ether_source: MacAddr,
    pub ipv4_source: Ipv4Addr,
    pub ipv4_destination: Ipv4Addr,
    pub tcp_source: u16,
    pub tcp_destination: u16,
    pub tcp_timestamp: [u8; 4],
    pub tcp_sequence: u32,
    pub tcp_mss: u16,
}

impl IngressPacket {
    /// The packet with nothing but zeros.
    pub open spec fn zeroed() -> IngressPacket {
        IngressPacket {
            ether_source: MacAddr(0, 0, 0, 0, 0, 0),
            ipv4_source: Ipv4Addr(0, 0, 0, 0),
            ipv4_destination: Ipv4Addr(0, 0, 0, 0),
            tcp_source: 0,
            tcp_destination: 0,
            tcp_timestamp: [0, 0, 0, 0],
            tcp_sequence: 0,
            tcp_mss: 0,
        }
    }
}

impl Default for IngressPacket {
    fn default() -> (pkt: Self)
        ensures
            pkt == IngressPacket::zeroed(),
    {
        IngressPacket {
            ether_source: MacAddr(0, 0, 0, 0, 0, 0),
            ipv4_source: Ipv4Addr(0, 0, 0, 0),
            ipv4_destination: Ipv4Addr(0, 0, 0, 0),
            tcp_source: 0,
            tcp_destination: 0,
            tcp_timestamp: [0, 0, 0, 0],
            tcp_sequence: 0,
            tcp_mss: 0,
        }
    }
}

/// The data of the first timestamps option in a list of options.
pub open spec fn first_timestamps(list: Seq<(u8, Seq<u8>)>) -> Option<Seq<u8>>
    decreases list.len(),
{
    if list.len() == 0 {
        None
    } else if list[0].0 == tcp::OPTION_TIMESTAMPS {
        Some(list[0].1)
    } else {
        first_timestamps(list.skip(1))
    }
}

/// Whether the first timestamps option of a segment, if it has one, holds a whole timestamp.
pub open spec fn stamp_readable(segment: Seq<u8>) -> bool {
    first_timestamps(tcp::options(segment)) matches Some(data) ==> data.len() >= 4
}

/// The timestamp that a segment carries, and `none` if it carries no timestamps option.
pub open spec fn stamp_or(segment: Seq<u8>, none: [u8; 4]) -> [u8; 4] {
    match first_timestamps(tcp::options(segment)) {
        Some(data) => [data[0], data[1], data[2], data[3]],
        None => none,
    }
}

/// `pkt` with what the request in `segment` says.
pub open spec fn with_segment(pkt: IngressPacket, segment: Seq<u8>) -> IngressPacket {
    IngressPacket {
        tcp_source: tcp::source(segment),
        tcp_destination: tcp::destination(segment),
        tcp_sequence: tcp::sequence(segment),
        tcp_timestamp: stamp_or(segment, pkt.tcp_timestamp),
        tcp_mss: ASSUMED_MSS,
        ..pkt
    }
}

/// Whether `payload` of the given protocol is a request to open a TCP connection.
pub open spec fn is_request(protocol: u8, payload: Seq<u8>) -> bool {
    protocol == ipv4::PROTOCOL_TCP && payload.len() >= 20 && tcp::opens(payload)
}

/// What to do with `payload` of the given protocol. A request gets a `Reply` that does not hold
/// the request.
pub open spec fn transport_action(protocol: u8, payload: Seq<u8>, fwd_mac: MacAddr) -> Action {
    if is_request(protocol, payload) {
        Action::Reply(IngressPacket::zeroed())
    } else if protocol == ipv4::PROTOCOL_TCP && payload.len() < 20 {
        Action::Drop
    } else {
        Action::Forward(fwd_mac)
    }
}

/// `pkt` after `payload` of the given protocol was looked at.
pub open spec fn after_transport(
    pkt: IngressPacket,
    protocol: u8,
    payload: Seq<u8>,
) -> IngressPacket {
    if is_request(protocol, payload) {
        with_segment(pkt, payload)
    } else {
        pkt
    }
}

/// Finds the first timestamps option.
fn find_timestamps(options: &Vec<tcp::TcpOption>) -> (found: Option<usize>)
    ensures
        first_timestamps(options@.map_values(|o: tcp::TcpOption| o@)) == match found {
            Some(i) => Some(options@[i as int].data@),
            None => None,
        },
        found matches Some(i) ==> i < options@.len(),
{
    let ghost list = options@.map_values(|o: tcp::TcpOption| o@);
    assert(list.skip(0) == list);
    let mut i: usize = 0;
    while i < options.len()
        invariant
            i <= options.len(),
            list == options@.map_values(|o: tcp::TcpOption| o@),
            first_timestamps(list.skip(i as int)) == first_timestamps(list),
        decreases options.len() - i,
    {
        assert(list.skip(i as int).skip(1) == list.skip(i + 1));
        if options[i].number == tcp::OPTION_TIMESTAMPS {
            return Some(i);
        }
        i += 1;
    }
    None
}

/// Tells whether a segment has SYN and not ACK.
fn opens_connection(segment: &[u8]) -> (opens: bool)
    requires
        segment@.len() >= 20,
    ensures
        opens == tcp::opens(segment@),
{
    let ghost high: u8 = segment@[12];
    let ghost low: u8 = segment@[13];
    assert((((high % 2) as u16 * 256 + low as u16) as u16 & (0x002u16 | 0x010u16) == 0x002u16) == (
    low / 2 % 2 == 1 && low / 16 % 2 == 0)) by (bit_vector);
    tcp::get_flags(segment) & (tcp::TCP_SYN | tcp::TCP_ACK) == tcp::TCP_SYN
}

/// Decides what to do with a TCP segment, and notes in `pkt` what a request says.
pub fn handle_tcp_packet(packet: &[u8], fwd_mac: MacAddr, pkt: &mut IngressPacket) -> (action:
    Action)
    requires
        is_request(ipv4::PROTOCOL_TCP, packet@) ==> stamp_readable(packet@),
    ensures
        action == transport_action(ipv4::PROTOCOL_TCP, packet@, fwd_mac),
        *final(pkt) == after_transport(*old(pkt), ipv4::PROTOCOL_TCP, packet@),
{
    if tcp::holds_header(packet) {
        if opens_connection(packet) {
            pkt.tcp_source = tcp::get_source(packet);
            pkt.tcp_destination = tcp::get_destination(packet);
            pkt.tcp_sequence = tcp::get_sequence(packet);
            let options = tcp::get_options(packet);
            if let Some(i) = find_timestamps(&options) {
                let data = &options[i].data;
                assert(tcp::options(packet@)[i as int] == options@[i as int]@);
                pkt.tcp_timestamp = [data[0], data[1], data[2], data[3]];
            }
            pkt.tcp_mss = ASSUMED_MSS;
            return Action::Reply(IngressPacket::default());
        }
        Action::Forward(fwd_mac)
    } else {
        Action::Drop
    }
}

/// Decides what to do with a transport layer payload, and notes in `pkt` what a request says.
pub fn handle_transport_protocol(
    protocol: u8,
    packet: &[u8],
    fwd_mac: MacAddr,
    pkt: &mut IngressPacket,
) -> (action: Action)
    requires
        is_request(protocol, packet@) ==> stamp_readable(packet@),
    ensures
        action == transport_action(protocol, packet@, fwd_mac),
        *final(pkt) == after_transport(*old(pkt), protocol, packet@),
{
    if protocol == ipv4::PROTOCOL_TCP {
        handle_tcp_packet(packet, fwd_mac, pkt)
    } else {
        Action::Forward(fwd_mac)
    }
}

/// Where to forward the traffic of a host: to everyone when nothing is known of it.
pub open spec fn forward_to(host: Option<HostConfig>) -> MacAddr {
    match host {
        Some(config) => config.mac,
        None => MacAddr(0xff, 0xff, 0xff, 0xff, 0xff, 0xff),
    }
}

/// `pkt` after the IPv4 packet `ip` was looked at.
pub open spec fn after_ipv4(pkt: IngressPacket, ip: Seq<u8>) -> IngressPacket {
    if ip.len() < 20 {
        pkt
    } else {
        after_transport(
            IngressPacket {
                ipv4_source: ipv4::source(ip),
                ipv4_destination: ipv4::destination(ip),
                ..pkt
            },
            ipv4::protocol(ip),
            ipv4::payload(ip),
        )
    }
}

/// Whether the IPv4 packet `ip` carries a request whose timestamp cannot be read.
pub open spec fn has_broken_stamp(ip: Seq<u8>) -> bool {
    &&& ip.len() >= 20
    &&& is_request(ipv4::protocol(ip), ipv4::payload(ip))
    &&& !stamp_readable(ipv4::payload(ip))
}

/// Whether `action` is what to do with the IPv4 packet `ip` after `lookup` was asked for its
/// destination.
pub open spec fn routed<L: Fn(Ipv4Addr) -> Option<HostConfig>>(
    lookup: L,
    ip: Seq<u8>,
    action: Action,
) -> bool {
    exists|host: Option<HostConfig>| #[trigger]
        call_ensures(lookup, (ipv4::destination(ip),), host) && action == transport_action(
            ipv4::protocol(ip),
            ipv4::payload(ip),
            forward_to(host),
        )
}

/// Decides what to do with the IPv4 packet in a frame, and notes in `pkt` what a request says.
/// `lookup` tells what the routing table holds for the destination; it is asked for nothing else,
/// and not at all when the header is not whole.
pub fn handle_ipv4_packet<L: Fn(Ipv4Addr) -> Option<HostConfig>>(
    ethernet: &[u8],
    pkt: &mut IngressPacket,
    lookup: L,
) -> (action: Action)
    requires
        ethernet@.len() >= 14,
        !has_broken_stamp(ethernet::payload(ethernet@)),
        ethernet::payload(ethernet@).len() >= 20 ==> call_requires(
            lookup,
            (ipv4::destination(ethernet::payload(ethernet@)),),
        ),
    ensures
        *final(pkt) == after_ipv4(*old(pkt), ethernet::payload(ethernet@)),
        ethernet::payload(ethernet@).len() < 20 ==> action == Action::Drop,
        ethernet::payload(ethernet@).len() >= 20 ==> routed(
            lookup,
            ethernet::payload(ethernet@),
            action,
        ),
{
    let header = ethernet::get_payload(ethernet);
    if ipv4::holds_header(&header) {
        pkt.ipv4_source = ipv4::get_source(&header);
        pkt.ipv4_destination = ipv4::get_destination(&header);
        let mut fwd_mac = MacAddr(0xff, 0xff, 0xff, 0xff, 0xff, 0xff);
        if let Some(config) = lookup(pkt.ipv4_destination) {
            fwd_mac = config.mac;
        }
        handle_transport_protocol(
            ipv4::get_next_level_protocol(&header),
            ipv4::get_payload(&header),
            fwd_mac,
            pkt,
        )
    } else {
        Action::Drop
    }
}

/// Whether a frame is addressed to `mac` and carries IPv4.
pub open spec fn is_ours(frame: Seq<u8>, mac: MacAddr) -> bool {
    ethernet::destination(frame) == mac && ethernet::ethertype(frame) == ethernet::ETHERTYPE_IPV4
}

/// The host that the routing table is asked for on behalf of a frame: the destination of the IPv4
/// packet that a frame for `mac` carries, if its header is whole.
pub open spec fn wanted_host(frame: Seq<u8>, mac: MacAddr) -> Option<Ipv4Addr> {
    let ip = ethernet::payload(frame);
    if is_ours(frame, mac) && ip.len() >= 20 {
        Some(ipv4::destination(ip))
    } else {
        None
    }
}

/// Decides what to do with a frame, and notes in `pkt` what a request says.
pub fn handle_ether_packet<L: Fn(Ipv4Addr) -> Option<HostConfig>>(
    ethernet: &[u8],
    pkt: &mut IngressPacket,
    mac: MacAddr,
    lookup: L,
) -> (action: Action)
    requires
        ethernet@.len() >= 14,
        is_ours(ethernet@, mac) ==> !has_broken_stamp(ethernet::payload(ethernet@)),
        wanted_host(ethernet@, mac) matches Some(ip) ==> call_requires(lookup, (ip,)),
    ensures
        *final(pkt) == if is_ours(ethernet@, mac) {
            after_ipv4(
                IngressPacket { ether_source: ethernet::source(ethernet@), ..*old(pkt) },
                ethernet::payload(ethernet@),
            )
        } else {
            *old(pkt)
        },
        wanted_host(ethernet@, mac) is None ==> action == Action::Drop,
        wanted_host(ethernet@, mac) is Some ==> routed(
            lookup,
            ethernet::payload(ethernet@),
            action,
        ),
{
    let mac_dest = ethernet::get_destination(ethernet);
    if mac_dest != mac {
        return Action::Drop;
    }
    if ethernet::get_ethertype(ethernet) == ethernet::ETHERTYPE_IPV4 {
        pkt.ether_source = ethernet::get_source(ethernet);
        handle_ipv4_packet(ethernet, pkt, lookup)
    } else {
        Action::Drop
    }
}

/// The request that a frame carries.
pub open spec fn request_in(frame: Seq<u8>) -> IngressPacket {
    let ip = ethernet::payload(frame);
    let segment = ipv4::payload(ip);
    IngressPacket {
        ether_source: ethernet::source(frame),
        ipv4_source: ipv4::source(ip),
        ipv4_destination: ipv4::destination(ip),
        tcp_source: tcp::source(segment),
        tcp_destination: tcp::destination(segment),
        tcp_timestamp: stamp_or(segment, [0, 0, 0, 0]),
        tcp_sequence: tcp::sequence(segment),
        tcp_mss: ASSUMED_MSS,
    }
}

/// What to do with a frame that reached the station `mac`, where `host` is what the routing table
/// holds for the destination.
pub open spec fn input_action(frame: Seq<u8>, mac: MacAddr, host: Option<HostConfig>) -> Action {
    let ip = ethernet::payload(frame);
    let segment = ipv4::payload(ip);
    if wanted_host(frame, mac) is None {
        Action::Drop
    } else if ipv4::protocol(ip) != ipv4::PROTOCOL_TCP {
        Action::Forward(forward_to(host))
    } else if segment.len() < 20 {
        Action::Drop
    } else if tcp::opens(segment) {
        Action::Reply(request_in(frame))
    } else {
        Action::Forward(forward_to(host))
    }
}

/// Whether a frame can be handled: it holds an Ethernet header, and if it is a request for `mac`
/// its timestamp can be read.
pub open spec fn acceptable(frame: Seq<u8>, mac: MacAddr) -> bool {
    frame.len() >= 14 && (is_ours(frame, mac) ==> !has_broken_stamp(ethernet::payload(frame)))
}

/// Whether `action` is what to do with a frame that reached the station `mac` after `lookup` was
/// asked for the host that the frame is meant for.
pub open spec fn input_routed<L: Fn(Ipv4Addr) -> Option<HostConfig>>(
    lookup: L,
    frame: Seq<u8>,
    mac: MacAddr,
    action: Action,
) -> bool {
    exists|host: Option<HostConfig>| #[trigger]
        call_ensures(lookup, (wanted_host(frame, mac)->Some_0,), host) && action == input_action(
            frame,
            mac,
            host,
        )
}

/// Decides what to do with a frame that reached the station `mac`. `lookup` tells what the routing
/// table holds for a host; it is asked for the wanted host and nothing else.
pub fn handle_input<L: Fn(Ipv4Addr) -> Option<HostConfig>>(
    packet_data: &[u8],
    mac: MacAddr,
    lookup: L,
) -> (action: Action)
    requires
        acceptable(packet_data@, mac),
        wanted_host(packet_data@, mac) matches Some(ip) ==> call_requires(lookup, (ip,)),
    ensures
        wanted_host(packet_data@, mac) is None ==> action == Action::Drop,
        wanted_host(packet_data@, mac) is Some ==> input_routed(
            lookup,
            packet_data@,
            mac,
            action,
        ),
{
    let mut pkt = IngressPacket::default();
    let verdict = handle_ether_packet(packet_data, &mut pkt, mac, lookup);
    proof {
        if wanted_host(packet_data@, mac) is Some {
            let ip = ethernet::payload(packet_data@);
            let host = choose|host: Option<HostConfig>| #[trigger]
                call_ensures(lookup, (ipv4::destination(ip),), host) && verdict
                    == transport_action(ipv4::protocol(ip), ipv4::payload(ip), forward_to(host));
            let action = input_action(packet_data@, mac, host);
            assert(action is Reply ==> pkt == action->Reply_0);
            assert(input_routed(lookup, packet_data@, mac, action)) by {
                assert(call_ensures(
                    lookup,
                    (wanted_host(packet_data@, mac)->Some_0,),
                    host,
                ));
            }
        }
    }
    match verdict {
        Action::Reply(_) => Action::Reply(pkt),
        other => other,
    }
}

/// A layer of a frame.
#[derive(Clone, Copy, Debug, PartialEq, Eq, Structural)]
pub enum Layer {
    Ipv4,
    Tcp,
}

/// The layer of a frame for `mac` whose header is cut short, if there is one.
pub open spec fn malformed_layer(frame: Seq<u8>, mac: MacAddr) -> Option<Layer> {
    let ip = ethernet::payload(frame);
    if !is_ours(frame, mac) {
        None
    } else if ip.len() < 20 {
        Some(Layer::Ipv4)
    } else if ipv4::protocol(ip) == ipv4::PROTOCOL_TCP && ipv4::payload(ip).len() < 20 {
        Some(Layer::Tcp)
    } else {
        None
    }
}

/// Finds the layer of a frame that reached the station `mac` whose header is cut short. Such a frame
/// is dropped.
pub fn find_malformed(packet_data: &[u8], mac: MacAddr) -> (layer: Option<Layer>)
    requires
        packet_data@.len() >= 14,
    ensures
        layer == malformed_layer(packet_data@, mac),
{
    if ethernet::get_destination(packet_data) != mac || ethernet::get_ethertype(packet_data)
        != ethernet::ETHERTYPE_IPV4 {
        return None;
    }
    let ip = ethernet::get_payload(packet_data);
    if !ipv4::holds_header(&ip) {
        return Some(Layer::Ipv4);
    }
    if ipv4::get_next_level_protocol(&ip) == ipv4::PROTOCOL_TCP && !tcp::holds_header(
        ipv4::get_payload(&ip),
    ) {
        return Some(Layer::Tcp);
    }
    None
}

/// Tells whether [`handle_input`] can handle a frame.
pub fn can_handle(packet_data: &[u8], mac: MacAddr) -> (can: bool)
    ensures
        can == acceptable(packet_data@, mac),
{
    if packet_data.len() < 14 {
        return false;
    }
    if ethernet::get_destination(packet_data) != mac || ethernet::get_ethertype(packet_data)
        != ethernet::ETHERTYPE_IPV4 {
        return true;
    }
    let ip = ethernet::get_payload(packet_data);
    if !ipv4::holds_header(&ip) || ipv4::get_next_level_protocol(&ip) != ipv4::PROTOCOL_TCP {
        return true;
    }
    let segment = ipv4::get_payload(&ip);
    if !tcp::holds_header(segment) || !opens_connection(segment) {
        return true;
    }
    let options = tcp::get_options(segment);
    match find_timestamps(&options) {
        Some(i) => options[i].data.len() >= 4,
        None => true,
    }
}

} // verus!
