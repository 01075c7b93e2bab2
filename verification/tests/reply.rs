use std::cell::RefCell;

use pnet::packet::ipv4::{checksum, Ipv4Packet};
use pnet::packet::tcp::{ipv4_checksum, TcpPacket};
use synproxy::services::{sequence_request, timestamp_request};
use synproxy::template::build_reply_with_template;
use synproxy::{
    build_reply, build_reply_fast, can_handle, handle_input, handle_reply, Action, HostConfig,
    IngressPacket, Ipv4Addr, MacAddr, ReplyTemplate, SequenceRequest, Services, TimestampRequest,
    MIN_REPLY_BUF_LEN,
};

const STATION: MacAddr = MacAddr(0x02, 0, 0, 0, 0, 0x01);
const HOST: HostConfig = HostConfig {
    mac: MacAddr(0x02, 0, 0, 0, 0, 0x42),
    tcp_timestamp: 0x5_0000_0007,
    tcp_cookie_time: 0x9_0000_0003,
};

fn request() -> IngressPacket {
    IngressPacket {
        ether_source: MacAddr(0x02, 0, 0, 0, 0, 0x99),
        ipv4_source: Ipv4Addr(10, 0, 0, 7),
        ipv4_destination: Ipv4Addr(192, 168, 1, 2),
        tcp_source: 40000,
        tcp_destination: 80,
        tcp_timestamp: [0xde, 0xad, 0xbe, 0xef],
        tcp_sequence: 0x12345678,
        tcp_mss: 1460,
    }
}

fn lookup(_: Ipv4Addr) -> Option<HostConfig> {
    Some(HOST)
}

fn sequence_cookie(_: SequenceRequest) -> (u32, u16) {
    (0xa1b2c3d4, 0x0218)
}

fn timestamp_cookie(_: TimestampRequest) -> u32 {
    0x01020304
}

fn tcp_checksum(_: &[u8], _: Ipv4Addr, _: Ipv4Addr) -> u16 {
    0xcafe
}

fn ip_checksum(_: &[u8]) -> u16 {
    0xbabe
}

const ANSWER: [u8; 78] = [
    0x02, 0, 0, 0, 0, 0x99, 0x02, 0, 0, 0, 0, 0x01, 0x08, 0x00,
    0x45, 0, 0, 64, 0, 0, 0x40, 0, 126, 6, 0xba, 0xbe, 192, 168, 1, 2, 10, 0, 0, 7,
    0x00, 0x50, 0x9c, 0x40, 0xa1, 0xb2, 0xc3, 0xd4, 0x12, 0x34, 0x56, 0x79, 0xb0, 0x12, 0xff, 0xff,
    0xca, 0xfe, 0, 0,
    2, 4, 0x02, 0x18, 4, 2, 8, 10, 1, 2, 3, 4, 0xde, 0xad, 0xbe, 0xef, 3, 3, 7, 0, 0, 0, 0, 0,
];

#[test]
fn answer_over_zeros() {
    let services =
        Services { lookup, sequence_cookie, timestamp_cookie, tcp_checksum, ip_checksum };
    let mut buf = vec![0; 78];
    assert_eq!(build_reply(&request(), STATION, &services, &mut buf), 78);
    assert_eq!(buf, ANSWER);
}

#[test]
fn answer_leaves_what_it_does_not_cover() {
    let services =
        Services { lookup, sequence_cookie, timestamp_cookie, tcp_checksum, ip_checksum };
    let mut buf = vec![0xff; 100];
    assert_eq!(build_reply(&request(), STATION, &services, &mut buf), 78);
    let mut expected = ANSWER.to_vec();
    expected[20] = 0x5f;
    expected[21] = 0xff;
    expected[46] = 0xbe;
    expected[52] = 0xff;
    expected[53] = 0xff;
    for byte in &mut expected[73..78] {
        *byte = 0xff;
    }
    expected.extend_from_slice(&[0xff; 22]);
    assert_eq!(buf, expected);
}

#[test]
fn acknowledgement_wraps_around() {
    let services =
        Services { lookup, sequence_cookie, timestamp_cookie, tcp_checksum, ip_checksum };
    let pkt = IngressPacket { tcp_sequence: 0xffff_ffff, ..request() };
    let mut buf = vec![0; 78];
    build_reply(&pkt, STATION, &services, &mut buf);
    assert_eq!(buf[42..46], [0, 0, 0, 0]);
}

#[test]
fn services_are_asked_in_turn() {
    let asked = RefCell::new(Vec::new());
    let summed = RefCell::new(Vec::new());
    let services = Services {
        lookup: |ip: Ipv4Addr| {
            asked.borrow_mut().push(format!("lookup {:?}", ip));
            Some(HOST)
        },
        sequence_cookie: |request: SequenceRequest| {
            asked.borrow_mut().push(format!("{:?}", request));
            (0xa1b2c3d4, 0x0218)
        },
        timestamp_cookie: |request: TimestampRequest| {
            asked.borrow_mut().push(format!("{:?}", request));
            0x01020304
        },
        tcp_checksum: |segment: &[u8], source: Ipv4Addr, destination: Ipv4Addr| {
            assert_eq!(source, Ipv4Addr(192, 168, 1, 2));
            assert_eq!(destination, Ipv4Addr(10, 0, 0, 7));
            summed.borrow_mut().push(segment.to_vec());
            0xcafe
        },
        ip_checksum: |ip: &[u8]| {
            summed.borrow_mut().push(ip.to_vec());
            0xbabe
        },
    };
    let mut buf = vec![0; 80];
    build_reply(&request(), STATION, &services, &mut buf);
    assert_eq!(buf[..78], ANSWER);
    assert_eq!(
        asked.into_inner(),
        [
            format!("lookup {:?}", Ipv4Addr(192, 168, 1, 2)),
            format!(
                "{:?}",
                SequenceRequest {
                    ipv4_source: Ipv4Addr(10, 0, 0, 7),
                    ipv4_destination: Ipv4Addr(192, 168, 1, 2),
                    tcp_source: 40000,
                    tcp_destination: 80,
                    tcp_sequence: 0x12345678,
                    tcp_mss: 1460,
                    cookie_time: 3,
                }
            ),
            format!("lookup {:?}", Ipv4Addr(192, 168, 1, 2)),
            format!(
                "{:?}",
                TimestampRequest { wscale: 7, sack_permitted: 1, ecn: 0, tcp_time: 7 }
            ),
        ]
    );
    let mut segment = ANSWER[34..].to_vec();
    segment[16] = 0;
    segment[17] = 0;
    let mut ip = ANSWER[14..].to_vec();
    ip[10] = 0;
    ip[11] = 0;
    ip.extend_from_slice(&[0, 0]);
    assert_eq!(summed.into_inner(), [segment, ip]);
}

#[test]
fn clocks_of_unknown_hosts_stand_at_zero() {
    assert_eq!(sequence_request(&request(), None).cookie_time, 0);
    assert_eq!(timestamp_request(None).tcp_time, 0);
    assert_eq!(sequence_request(&request(), Some(HOST)).cookie_time, 3);
    assert_eq!(timestamp_request(Some(HOST)).tcp_time, 7);
}

#[test]
fn real_checksums_hold() {
    let services = Services {
        lookup,
        sequence_cookie,
        timestamp_cookie,
        tcp_checksum: real_tcp_checksum,
        ip_checksum: real_ip_checksum,
    };
    let mut buf = vec![0; 78];
    build_reply(&request(), STATION, &services, &mut buf);
    let mut header = 0u32;
    for pair in buf[14..34].chunks(2) {
        header += u32::from(pair[0]) * 256 + u32::from(pair[1]);
    }
    assert_eq!(header % 0xffff, 0);
    let mut segment = 6 + 44;
    for pair in buf[26..78].chunks(2) {
        segment += u32::from(pair[0]) * 256 + u32::from(pair[1]);
    }
    assert_eq!(segment % 0xffff, 0);
}

#[test]
fn short_buffer_gets_no_answer() {
    let services =
        Services { lookup, sequence_cookie, timestamp_cookie, tcp_checksum, ip_checksum };
    let template = ReplyTemplate::new(&services);
    assert_eq!(MIN_REPLY_BUF_LEN, 78);
    for len in [0, 1, 77] {
        let mut buf = vec![0xee; len];
        assert_eq!(handle_reply(request(), STATION, &services, &template, &mut buf), None);
        assert_eq!(buf, vec![0xee; len]);
    }
}

#[test]
fn template_makes_the_full_answer() {
    let services =
        Services { lookup, sequence_cookie, timestamp_cookie, tcp_checksum, ip_checksum };
    let template = ReplyTemplate::new(&services);
    let mut buf = vec![0xee; 90];
    assert_eq!(handle_reply(request(), STATION, &services, &template, &mut buf), Some(78));
    assert_eq!(buf[..78], ANSWER);
    assert_eq!(buf[78..], [0xee; 12]);
    let mut again = vec![0x11; 78];
    let len = build_reply_with_template(&request(), STATION, &services, &template, &mut again);
    assert_eq!(len, 78);
    assert_eq!(again, ANSWER);
}

#[test]
fn answer_in_place_is_written_over() {
    let services =
        Services { lookup, sequence_cookie, timestamp_cookie, tcp_checksum, ip_checksum };
    let mut buf = vec![0; 78];
    build_reply(&IngressPacket::default(), MacAddr(9, 9, 9, 9, 9, 9), &services, &mut buf);
    assert_ne!(buf, ANSWER);
    assert_eq!(build_reply_fast(&request(), STATION, &services, &mut buf), 78);
    assert_eq!(buf, ANSWER);
}

#[test]
fn template_keeps_its_segment_size() {
    let services = Services {
        lookup,
        sequence_cookie: |request: SequenceRequest| {
            if request.ipv4_destination == Ipv4Addr(127, 0, 0, 1) {
                assert_eq!(request.tcp_mss, 1460);
                (1, 0x05b4)
            } else {
                (0xa1b2c3d4, 0x0218)
            }
        },
        timestamp_cookie,
        tcp_checksum,
        ip_checksum,
    };
    let template = ReplyTemplate::new(&services);
    let mut buf = vec![0; 78];
    handle_reply(request(), STATION, &services, &template, &mut buf);
    let mut expected = ANSWER;
    expected[56] = 0x05;
    expected[57] = 0xb4;
    assert_eq!(buf, expected);
}

#[test]
fn answer_is_not_answered() {
    let backend = MacAddr(0x02, 0, 0, 0, 0, 0x42);
    assert!(can_handle(&ANSWER, request().ether_source));
    assert_eq!(
        handle_input(&ANSWER, request().ether_source, lookup),
        Action::Forward(backend)
    );
    assert_eq!(handle_input(&ANSWER, STATION, lookup), Action::Drop);
}

#[test]
fn frame_gets_its_answer() {
    let mut frame = ANSWER.to_vec();
    frame[47] = 0x02;
    let services =
        Services { lookup, sequence_cookie, timestamp_cookie, tcp_checksum, ip_checksum };
    let me = request().ether_source;
    match handle_input(&frame, me, lookup) {
        Action::Reply(pkt) => {
            assert_eq!(pkt.tcp_timestamp, [1, 2, 3, 4]);
            let mut buf = vec![0; 78];
            build_reply(&pkt, me, &services, &mut buf);
            assert_eq!(buf[..12], [2, 0, 0, 0, 0, 0x01, 2, 0, 0, 0, 0, 0x99]);
            assert_eq!(buf[26..34], [10, 0, 0, 7, 192, 168, 1, 2]);
            assert_eq!(buf[34..38], [0x9c, 0x40, 0x00, 0x50]);
            assert_eq!(buf[42..46], [0xa1, 0xb2, 0xc3, 0xd5]);
            assert_eq!(buf[66..70], [1, 2, 3, 4]);
        }
        other => panic!("{:?}", other),
    }
}

fn real_tcp_checksum(segment: &[u8], source: Ipv4Addr, destination: Ipv4Addr) -> u16 {
    ipv4_checksum(
        &TcpPacket::new(segment).unwrap(),
        &[source.0, source.1, source.2, source.3].into(),
        &[destination.0, destination.1, destination.2, destination.3].into(),
    )
}

fn real_ip_checksum(ip: &[u8]) -> u16 {
    checksum(&Ipv4Packet::new(ip).unwrap())
}

#[test]
fn barely_prepared_buffer_is_patched() {
    let services =
        Services { lookup, sequence_cookie, timestamp_cookie, tcp_checksum, ip_checksum };
    let pkt = IngressPacket {
        tcp_source: 1234,
        tcp_destination: 80,
        tcp_timestamp: [1, 2, 3, 4],
        tcp_sequence: 255,
        ..IngressPacket::default()
    };
    let mut buf = [0; 78];
    buf[14] = 0x45;
    buf[17] = 64;
    buf[46] = 0xb0;
    assert_eq!(build_reply_fast(&pkt, STATION, &services, &mut buf), 78);
    assert_eq!(
        buf[0..24],
        [0, 0, 0, 0, 0, 0, 2, 0, 0, 0, 0, 1, 0, 0, 0x45, 0, 0, 64, 0, 0, 0, 0, 0, 0]
    );
    assert_eq!(buf[24..34], [0xba, 0xbe, 0, 0, 0, 0, 0, 0, 0, 0]);
    assert_eq!(buf[34..42], [0, 80, 4, 210, 0xa1, 0xb2, 0xc3, 0xd4]);
    assert_eq!(buf[42..52], [0, 0, 1, 0, 0xb0, 0, 0, 0, 0xca, 0xfe]);
    assert_eq!(buf[52..62], [0, 0, 0, 0, 0, 0, 0, 0, 8, 10]);
    assert_eq!(buf[62..78], [1, 2, 3, 4, 1, 2, 3, 4, 0, 0, 0, 0, 0, 0, 0, 0]);
}

#[test]
fn patch_keeps_what_it_finds() {
    let services =
        Services { lookup, sequence_cookie, timestamp_cookie, tcp_checksum, ip_checksum };
    let mut buf = vec![0x77; 90];
    buf[14] = 0x95;
    buf[46] = 0xb7;
    let before = buf.clone();
    assert_eq!(build_reply_fast(&request(), STATION, &services, &mut buf), 78);
    for i in 0..90 {
        let patched =
            matches!(i, 0..=11 | 16..=17 | 24..=45 | 50..=51 | 60..=69);
        assert_eq!(buf[i], if patched { ANSWER[i] } else { before[i] }, "byte {}", i);
    }
}

#[test]
fn patch_follows_the_announced_headers() {
    let services =
        Services { lookup, sequence_cookie, timestamp_cookie, tcp_checksum, ip_checksum };
    let mut buf = vec![0x77; 82];
    buf[14] = 0x46;
    buf[50] = 0x90;
    assert_eq!(build_reply_fast(&request(), STATION, &services, &mut buf), 14 + 24 + 36);
    assert_eq!(buf[16..18], [0, 60]);
    assert_eq!(buf[24..34], ANSWER[24..34]);
    assert_eq!(buf[34..38], [0x77; 4]);
    assert_eq!(buf[38..50], ANSWER[34..46]);
    assert_eq!(buf[50..54], [0x90, 0x77, 0x77, 0x77]);
    assert_eq!(buf[54..56], ANSWER[50..52]);
    assert_eq!(buf[56..64], [0x77; 8]);
    assert_eq!(buf[64..74], ANSWER[60..70]);
    assert_eq!(buf[74..82], [0x77; 8]);
}

#[test]
fn patched_reply_is_a_fresh_one() {
    let services = Services {
        lookup,
        sequence_cookie,
        timestamp_cookie,
        tcp_checksum: real_tcp_checksum,
        ip_checksum: real_ip_checksum,
    };
    let mut patched = vec![0xff; 90];
    build_reply(&IngressPacket::default(), MacAddr(9, 9, 9, 9, 9, 9), &services, &mut patched);
    assert_eq!(build_reply_fast(&request(), STATION, &services, &mut patched), 78);
    let mut fresh = vec![0xff; 90];
    assert_eq!(build_reply(&request(), STATION, &services, &mut fresh), 78);
    assert_eq!(patched, fresh);
}

#[test]
fn patched_bytes_do_not_show() {
    let services = Services {
        lookup,
        sequence_cookie,
        timestamp_cookie,
        tcp_checksum: real_tcp_checksum,
        ip_checksum: real_ip_checksum,
    };
    let mut one = vec![0; 78];
    one[14] = 0x45;
    one[46] = 0xb0;
    let mut other = one.clone();
    for i in (0..12).chain(16..18).chain(24..46).chain(50..52).chain(60..70) {
        other[i] = 0xff;
    }
    build_reply_fast(&request(), STATION, &services, &mut one);
    build_reply_fast(&request(), STATION, &services, &mut other);
    assert_eq!(one, other);
}

#[test]
fn one_connection_has_one_reply() {
    let services = Services {
        lookup,
        sequence_cookie,
        timestamp_cookie,
        tcp_checksum: real_tcp_checksum,
        ip_checksum: real_ip_checksum,
    };
    let mut one = vec![0x11; 80];
    build_reply(&request(), STATION, &services, &mut one);
    let resent = IngressPacket {
        ether_source: MacAddr(7, 7, 7, 7, 7, 7),
        tcp_timestamp: [9, 8, 7, 6],
        ..request()
    };
    let mut other = vec![0x11; 80];
    build_reply(&resent, MacAddr(8, 8, 8, 8, 8, 8), &services, &mut other);
    assert_eq!(one[12..50], other[12..50]);
    assert_eq!(one[52..66], other[52..66]);
    assert_eq!(one[70..], other[70..]);
    assert_ne!(one[50..52], other[50..52]);
    assert_eq!(other[66..70], [9, 8, 7, 6]);
    let moved = IngressPacket { ether_source: MacAddr(7, 7, 7, 7, 7, 7), ..request() };
    let mut other = vec![0x11; 80];
    build_reply(&moved, MacAddr(8, 8, 8, 8, 8, 8), &services, &mut other);
    assert_eq!(one[12..], other[12..]);
}

#[test]
fn template_hides_any_buffer() {
    let services = Services {
        lookup,
        sequence_cookie,
        timestamp_cookie,
        tcp_checksum: real_tcp_checksum,
        ip_checksum: real_ip_checksum,
    };
    let template = ReplyTemplate::new(&services);
    let mut full = vec![0; 78];
    build_reply(&request(), STATION, &services, &mut full);
    for (byte, len) in [(0x00, 78), (0xff, 78), (0x5a, 100)] {
        let mut buf = vec![byte; len];
        let written =
            build_reply_with_template(&request(), STATION, &services, &template, &mut buf);
        assert_eq!(written, 78);
        assert_eq!(buf[..78], full);
        assert_eq!(buf[78..], vec![byte; len - 78]);
    }
}
