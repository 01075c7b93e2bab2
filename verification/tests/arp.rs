use synproxy::{can_handle, handle_arp, handle_input, Action, Ipv4Addr, MacAddr};

const SOURCE: MacAddr = MacAddr(0x02, 0x11, 0x22, 0x33, 0x44, 0x55);

#[test]
fn question_is_asked_of_everyone() {
    let mut buf = vec![0xee; 50];
    let len = handle_arp(SOURCE, Ipv4Addr(10, 0, 0, 1), Ipv4Addr(192, 168, 7, 9), &mut buf);
    assert_eq!(len, Some(42));
    assert_eq!(
        buf,
        [
            0xff, 0xff, 0xff, 0xff, 0xff, 0xff, 0x02, 0x11, 0x22, 0x33, 0x44, 0x55, 0x08, 0x06, 0,
            1, 0x08, 0x00, 6, 4, 0, 1, 0x02, 0x11, 0x22, 0x33, 0x44, 0x55, 10, 0, 0, 1, 0xff, 0xff,
            0xff, 0xff, 0xff, 0xff, 192, 168, 7, 9, 0xee, 0xee, 0xee, 0xee, 0xee, 0xee, 0xee, 0xee,
        ]
    );
}

#[test]
fn question_fits_exactly() {
    let mut buf = vec![0; 42];
    let len = handle_arp(SOURCE, Ipv4Addr(1, 2, 3, 4), Ipv4Addr(5, 6, 7, 8), &mut buf);
    assert_eq!(len, Some(42));
    assert_eq!(buf[38..], [5, 6, 7, 8]);
}

#[test]
fn question_is_dropped() {
    let mut buf = vec![0; 60];
    handle_arp(SOURCE, Ipv4Addr(1, 2, 3, 4), Ipv4Addr(5, 6, 7, 8), &mut buf);
    for mac in [MacAddr(0xff, 0xff, 0xff, 0xff, 0xff, 0xff), SOURCE] {
        assert!(can_handle(&buf, mac));
        assert_eq!(handle_input(&buf, mac, |_| None), Action::Drop);
    }
}
