use synproxy::ingress::{handle_tcp_packet, handle_transport_protocol};
use synproxy::{
    can_handle, find_malformed, handle_input, Action, HostConfig, IngressPacket, Ipv4Addr, Layer,
    MacAddr,
};

const STATION: MacAddr = MacAddr(0x02, 0, 0, 0, 0, 0x01);
const CLIENT: MacAddr = MacAddr(0x02, 0, 0, 0, 0, 0x99);
const BACKEND: MacAddr = MacAddr(0x02, 0, 0, 0, 0, 0x42);
const EVERYONE: MacAddr = MacAddr(0xff, 0xff, 0xff, 0xff, 0xff, 0xff);

const NOP_NOP_TIMESTAMPS: [u8; 12] = [1, 1, 8, 10, 0xde, 0xad, 0xbe, 0xef, 0, 0, 0, 0];

fn segment(flags: [u8; 2], options: &[u8]) -> Vec<u8> {
    let offset = ((20 + options.len()) / 4 * 16) as u8;
    let mut bytes = vec![
        0x9c, 0x40, 0x00, 0x50, 0x12, 0x34, 0x56, 0x78, 0, 0, 0, 0, offset | flags[0], flags[1],
        0xff, 0xff, 0, 0, 0, 0,
    ];
    bytes.extend_from_slice(options);
    bytes
}

fn ip_packet(protocol: u8, payload: &[u8]) -> Vec<u8> {
    let len = (20 + payload.len()) as u16;
    let mut bytes = vec![
        0x45, 0, (len >> 8) as u8, len as u8, 0, 0, 0x40, 0, 64, protocol, 0, 0, 10, 0, 0, 7, 192,
        168, 1, 2,
    ];
    bytes.extend_from_slice(payload);
    bytes
}

fn frame(ethertype: u16, payload: &[u8]) -> Vec<u8> {
    let mut bytes = vec![
        0x02, 0, 0, 0, 0, 0x01, 0x02, 0, 0, 0, 0, 0x99, (ethertype >> 8) as u8, ethertype as u8,
    ];
    bytes.extend_from_slice(payload);
    bytes
}

fn syn_frame(options: &[u8]) -> Vec<u8> {
    frame(0x0800, &ip_packet(6, &segment([0, 0x02], options)))
}

fn known(ip: Ipv4Addr) -> Option<HostConfig> {
    assert_eq!(ip, Ipv4Addr(192, 168, 1, 2));
    Some(HostConfig { mac: BACKEND, tcp_timestamp: 1, tcp_cookie_time: 2 })
}

fn unknown(_: Ipv4Addr) -> Option<HostConfig> {
    None
}

fn request(tcp_timestamp: [u8; 4]) -> IngressPacket {
    IngressPacket {
        ether_source: CLIENT,
        ipv4_source: Ipv4Addr(10, 0, 0, 7),
        ipv4_destination: Ipv4Addr(192, 168, 1, 2),
        tcp_source: 40000,
        tcp_destination: 80,
        tcp_timestamp,
        tcp_sequence: 0x12345678,
        tcp_mss: 1460,
    }
}

#[test]
fn default_packet_is_all_zeros() {
    assert_eq!(
        IngressPacket::default(),
        IngressPacket {
            ether_source: MacAddr(0, 0, 0, 0, 0, 0),
            ipv4_source: Ipv4Addr(0, 0, 0, 0),
            ipv4_destination: Ipv4Addr(0, 0, 0, 0),
            tcp_source: 0,
            tcp_destination: 0,
            tcp_timestamp: [0, 0, 0, 0],
            tcp_sequence: 0,
            tcp_mss: 0,
        }
    );
}

#[test]
fn syn_is_answered() {
    let data = syn_frame(&NOP_NOP_TIMESTAMPS);
    assert!(can_handle(&data, STATION));
    let expected = Action::Reply(request([0xde, 0xad, 0xbe, 0xef]));
    assert_eq!(handle_input(&data, STATION, known), expected);
    assert_eq!(handle_input(&data, STATION, unknown), expected);
}

#[test]
fn syn_without_timestamps_has_a_zero_stamp() {
    let data = syn_frame(&[]);
    assert_eq!(handle_input(&data, STATION, known), Action::Reply(request([0, 0, 0, 0])));
}

#[test]
fn asked_segment_size_is_not_looked_at() {
    let data = syn_frame(&[2, 4, 0x02, 0x18]);
    assert_eq!(handle_input(&data, STATION, known), Action::Reply(request([0, 0, 0, 0])));
}

#[test]
fn other_flags_do_not_matter_to_a_syn() {
    for flags in [[0x01, 0x02], [0x0e, 0x02], [0, 0xc2], [0, 0x03], [0, 0xee]] {
        let data = frame(0x0800, &ip_packet(6, &segment(flags, &[])));
        assert_eq!(handle_input(&data, STATION, known), Action::Reply(request([0, 0, 0, 0])));
    }
}

#[test]
fn other_segments_are_forwarded() {
    for flags in [[0, 0x12], [0, 0x10], [0, 0x00], [0, 0x04], [0, 0x18], [0x01, 0x11]] {
        let data = frame(0x0800, &ip_packet(6, &segment(flags, &[])));
        assert_eq!(handle_input(&data, STATION, known), Action::Forward(BACKEND));
        assert_eq!(handle_input(&data, STATION, unknown), Action::Forward(EVERYONE));
    }
}

#[test]
fn other_protocols_are_forwarded() {
    let data = frame(0x0800, &ip_packet(17, &[1, 2, 3]));
    assert!(can_handle(&data, STATION));
    assert_eq!(handle_input(&data, STATION, known), Action::Forward(BACKEND));
    assert_eq!(handle_input(&data, STATION, unknown), Action::Forward(EVERYONE));
}

#[test]
fn frames_for_others_are_dropped() {
    let data = syn_frame(&NOP_NOP_TIMESTAMPS);
    assert!(can_handle(&data, BACKEND));
    assert_eq!(handle_input(&data, BACKEND, known), Action::Drop);
    let mut data = data;
    data[5] = 0x03;
    assert_eq!(handle_input(&data, STATION, known), Action::Drop);
}

#[test]
fn frames_without_ipv4_are_dropped() {
    for ethertype in [0x0806, 0x86dd, 0x0008, 0x0801] {
        let data = frame(ethertype, &ip_packet(6, &segment([0, 0x02], &[])));
        assert!(can_handle(&data, STATION));
        assert_eq!(handle_input(&data, STATION, known), Action::Drop);
    }
}

#[test]
fn short_ipv4_packets_are_dropped() {
    let whole = ip_packet(6, &segment([0, 0x02], &[]));
    for len in [0, 1, 19] {
        let data = frame(0x0800, &whole[..len]);
        assert!(can_handle(&data, STATION));
        assert_eq!(handle_input(&data, STATION, known), Action::Drop);
    }
}

#[test]
fn short_segments_are_dropped() {
    let whole = segment([0, 0x02], &[]);
    for len in [0, 1, 19] {
        let data = frame(0x0800, &ip_packet(6, &whole[..len]));
        assert!(can_handle(&data, STATION));
        assert_eq!(handle_input(&data, STATION, known), Action::Drop);
    }
}

#[test]
fn announced_length_does_not_cut_the_segment() {
    let mut ip = ip_packet(6, &segment([0, 0x02], &NOP_NOP_TIMESTAMPS));
    for announced in [[0, 0], [0, 20], [0, 39], [0, 52], [0xff, 0xff]] {
        ip[2..4].copy_from_slice(&announced);
        assert_eq!(
            handle_input(&frame(0x0800, &ip), STATION, known),
            Action::Reply(request([0xde, 0xad, 0xbe, 0xef]))
        );
    }
}

#[test]
fn segment_reaches_to_the_end_of_the_frame() {
    let mut ip = ip_packet(6, &[]);
    ip.extend_from_slice(&segment([0, 0x10], &[]));
    assert_eq!(find_malformed(&frame(0x0800, &ip), STATION), None);
    assert_eq!(handle_input(&frame(0x0800, &ip), STATION, known), Action::Forward(BACKEND));
    ip.pop();
    assert_eq!(find_malformed(&frame(0x0800, &ip), STATION), Some(Layer::Tcp));
    assert_eq!(handle_input(&frame(0x0800, &ip), STATION, known), Action::Drop);
}

#[test]
fn segment_starts_after_ipv4_options() {
    let mut ip = ip_packet(6, &[]);
    ip.extend_from_slice(&[1, 1, 1, 0]);
    ip.extend_from_slice(&segment([0, 0x02], &NOP_NOP_TIMESTAMPS));
    ip[0] = 0x46;
    ip[3] = 56;
    assert_eq!(
        handle_input(&frame(0x0800, &ip), STATION, known),
        Action::Reply(request([0xde, 0xad, 0xbe, 0xef]))
    );
}

#[test]
fn ipv4_header_is_never_shorter_than_its_fixed_part() {
    let mut ip = ip_packet(6, &segment([0, 0x02], &[]));
    ip[0] = 0x40;
    assert_eq!(
        handle_input(&frame(0x0800, &ip), STATION, known),
        Action::Reply(request([0, 0, 0, 0]))
    );
}

#[test]
fn ipv4_header_may_reach_past_the_frame() {
    let mut ip = ip_packet(6, &segment([0, 0x02], &[]));
    ip[0] = 0x4f;
    assert_eq!(handle_input(&frame(0x0800, &ip), STATION, known), Action::Drop);
}

#[test]
fn first_timestamps_option_counts() {
    let options = [
        8, 10, 1, 2, 3, 4, 5, 6, 7, 8, 8, 10, 11, 12, 13, 14, 15, 16, 17, 18, 1, 1, 1, 1,
    ];
    assert_eq!(
        handle_input(&syn_frame(&options), STATION, known),
        Action::Reply(request([1, 2, 3, 4]))
    );
}

#[test]
fn options_are_walked_one_by_one() {
    // Segment size, whose data looks like a timestamps option, then an end mark that does not end
    // the walk, an option of an impossible length, and the timestamps.
    let options = [2, 4, 8, 10, 0, 77, 0, 77, 1, 3, 3, 7, 8, 10, 9, 8, 7, 6, 0, 0, 0, 0, 0, 0];
    assert_eq!(
        handle_input(&syn_frame(&options), STATION, known),
        Action::Reply(request([9, 8, 7, 6]))
    );
}

#[test]
fn long_option_swallows_the_rest() {
    let options = [5, 200, 8, 10, 1, 2, 3, 4, 5, 6, 7, 8];
    assert_eq!(
        handle_input(&syn_frame(&options), STATION, known),
        Action::Reply(request([0, 0, 0, 0]))
    );
}

#[test]
fn options_end_with_the_data_offset() {
    let mut bytes = segment([0, 0x02], &NOP_NOP_TIMESTAMPS);
    bytes[12] = 0x50;
    let data = frame(0x0800, &ip_packet(6, &bytes));
    assert_eq!(handle_input(&data, STATION, known), Action::Reply(request([0, 0, 0, 0])));
    bytes[12] = 0x00;
    let data = frame(0x0800, &ip_packet(6, &bytes));
    assert_eq!(handle_input(&data, STATION, known), Action::Reply(request([0, 0, 0, 0])));
}

#[test]
fn options_end_with_the_segment() {
    let mut bytes = segment([0, 0x02], &NOP_NOP_TIMESTAMPS);
    bytes[12] = 0xf0;
    let data = frame(0x0800, &ip_packet(6, &bytes));
    assert_eq!(
        handle_input(&data, STATION, known),
        Action::Reply(request([0xde, 0xad, 0xbe, 0xef]))
    );
}

#[test]
fn broken_timestamps_cannot_be_handled() {
    for options in [
        [8, 5, 1, 2, 3, 1, 1, 1],
        [8, 2, 1, 1, 1, 1, 1, 1],
        [8, 0, 1, 1, 1, 1, 1, 1],
        [1, 1, 1, 8, 10, 1, 2, 3],
        [1, 1, 1, 1, 1, 1, 1, 8],
    ] {
        assert!(!can_handle(&syn_frame(&options), STATION));
        assert!(can_handle(&syn_frame(&options), BACKEND));
        let data = frame(0x0800, &ip_packet(6, &segment([0, 0x12], &options)));
        assert!(can_handle(&data, STATION));
        assert_eq!(handle_input(&data, STATION, known), Action::Forward(BACKEND));
    }
}

#[test]
fn shortest_whole_timestamp_can_be_handled() {
    let data = syn_frame(&[1, 1, 8, 6, 1, 2, 3, 4]);
    assert!(can_handle(&data, STATION));
    assert_eq!(handle_input(&data, STATION, known), Action::Reply(request([1, 2, 3, 4])));
}

#[test]
fn frames_without_a_header_cannot_be_handled() {
    let data = syn_frame(&[]);
    assert!(!can_handle(&data[..0], STATION));
    assert!(!can_handle(&data[..13], STATION));
    assert!(can_handle(&data[..14], STATION));
    assert_eq!(handle_input(&data[..14], STATION, known), Action::Drop);
}

#[test]
fn segment_without_timestamps_leaves_the_stamp() {
    let mut pkt = IngressPacket { tcp_timestamp: [5, 6, 7, 8], ..IngressPacket::default() };
    let action = handle_tcp_packet(&segment([0, 0x02], &[]), BACKEND, &mut pkt);
    assert_eq!(action, Action::Reply(IngressPacket::default()));
    assert_eq!(
        pkt,
        IngressPacket {
            tcp_source: 40000,
            tcp_destination: 80,
            tcp_timestamp: [5, 6, 7, 8],
            tcp_sequence: 0x12345678,
            tcp_mss: 1460,
            ..IngressPacket::default()
        }
    );
}

#[test]
fn forwarded_segment_leaves_the_packet() {
    let mut pkt = IngressPacket::default();
    let action = handle_tcp_packet(&segment([0, 0x10], &[]), BACKEND, &mut pkt);
    assert_eq!(action, Action::Forward(BACKEND));
    assert_eq!(pkt, IngressPacket::default());
}

#[test]
fn transport_protocol_decides() {
    let mut pkt = IngressPacket::default();
    let syn = segment([0, 0x02], &[]);
    assert_eq!(
        handle_transport_protocol(17, &syn, BACKEND, &mut pkt),
        Action::Forward(BACKEND)
    );
    assert_eq!(pkt, IngressPacket::default());
    assert_eq!(
        handle_transport_protocol(6, &syn, BACKEND, &mut pkt),
        Action::Reply(IngressPacket::default())
    );
    assert_eq!(pkt.tcp_source, 40000);
}

fn unasked(_: Ipv4Addr) -> Option<HostConfig> {
    panic!("the routing table was asked")
}

#[test]
fn routing_table_is_asked_for_whole_headers_only() {
    let whole = syn_frame(&[]);
    assert_eq!(handle_input(&whole[..33], STATION, unasked), Action::Drop);
    assert_eq!(handle_input(&whole[..14], STATION, unasked), Action::Drop);
    assert_eq!(handle_input(&whole, CLIENT, unasked), Action::Drop);
    assert_eq!(handle_input(&frame(0x86dd, &[0; 40]), STATION, unasked), Action::Drop);
}

#[test]
fn malformed_layers_are_found() {
    let whole = syn_frame(&[]);
    assert_eq!(find_malformed(&whole, STATION), None);
    assert_eq!(find_malformed(&whole[..53], STATION), Some(Layer::Tcp));
    assert_eq!(find_malformed(&whole[..34], STATION), Some(Layer::Tcp));
    assert_eq!(find_malformed(&whole[..33], STATION), Some(Layer::Ipv4));
    assert_eq!(find_malformed(&whole[..14], STATION), Some(Layer::Ipv4));
    assert_eq!(find_malformed(&whole[..33], CLIENT), None);
    assert_eq!(find_malformed(&frame(0x86dd, &[]), STATION), None);
    assert_eq!(find_malformed(&frame(0x0800, &ip_packet(17, &[])), STATION), None);
}
