use synproxy::{can_dump, dump_input};

fn frame(ethertype: [u8; 2], protocol: u8) -> Vec<u8> {
    let mut bytes = vec![0x02, 0, 0, 0, 0, 0x01, 0x02, 0, 0, 0, 0, 0x99];
    bytes.extend_from_slice(&ethertype);
    bytes.extend_from_slice(&[0x45, 0, 0, 40, 0, 0, 0x40, 0, 64, protocol, 0, 0]);
    bytes.extend_from_slice(&[10, 0, 0, 7, 192, 168, 1, 2]);
    bytes.extend_from_slice(&[0x9c, 0x40, 0, 80, 0x12, 0x34, 0x56, 0x78, 0, 0, 0, 0, 0x50, 2]);
    bytes.extend_from_slice(&[0xff, 0xff, 0, 0, 0, 0]);
    bytes
}

#[test]
fn every_layer_gets_a_line() {
    let lines = dump_input(&frame([0x08, 0x00], 6));
    assert_eq!(lines.len(), 3);
    assert_eq!(
        lines[0],
        "EthernetPacket { destination : 02:00:00:00:00:01, source : 02:00:00:00:00:99, \
         ethertype : EtherType(2048),  }"
    );
    assert!(lines[1].starts_with("Ipv4Packet { version : 4, header_length : 5, "));
    assert!(lines[1].contains("source : 10.0.0.7, destination : 192.168.1.2, "));
    assert!(lines[2].starts_with("TcpPacket { source : 40000, destination : 80, "));
    assert!(lines[2].contains("sequence : 305419896, "));
}

#[test]
fn other_protocols_have_two_lines() {
    let lines = dump_input(&frame([0x08, 0x00], 17));
    assert_eq!(lines.len(), 2);
    assert!(lines[1].starts_with("Ipv4Packet { "));
}

#[test]
fn other_frames_have_one_line() {
    assert_eq!(dump_input(&frame([0x86, 0xdd], 6)).len(), 1);
    assert_eq!(dump_input(&frame([0x86, 0xdd], 6)[..14]).len(), 1);
}

#[test]
fn only_whole_layers_can_be_described() {
    let tcp = frame([0x08, 0x00], 6);
    assert!(can_dump(&tcp));
    assert!(!can_dump(&tcp[..53]));
    assert!(!can_dump(&tcp[..33]));
    assert!(!can_dump(&tcp[..14]));
    assert!(!can_dump(&tcp[..13]));
    assert!(can_dump(&frame([0x08, 0x00], 17)[..34]));
    assert!(!can_dump(&frame([0x08, 0x00], 17)[..33]));
    assert!(can_dump(&frame([0x86, 0xdd], 6)[..14]));
}

#[test]
fn announced_length_does_not_cut_the_layers() {
    let mut bytes = frame([0x08, 0x00], 6);
    bytes[17] = 0;
    assert!(can_dump(&bytes));
    let lines = dump_input(&bytes);
    assert_eq!(lines.len(), 3);
    assert!(lines[2].starts_with("TcpPacket { source : 40000, destination : 80, "));
}
