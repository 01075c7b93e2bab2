use synproxy::u32_to_oct;

#[test]
fn octets_come_most_significant_first() {
    assert_eq!(u32_to_oct(0x12345678), [0x12, 0x34, 0x56, 0x78]);
    assert_eq!(u32_to_oct(0), [0, 0, 0, 0]);
    assert_eq!(u32_to_oct(1), [0, 0, 0, 1]);
    assert_eq!(u32_to_oct(u32::MAX), [255, 255, 255, 255]);
}

#[test]
fn octets_read_back() {
    for bits in [0, 1, 255, 256, 65535, 65536, 0x00ff_00ff, 0xdead_beef, u32::MAX] {
        assert_eq!(u32::from_be_bytes(u32_to_oct(bits)), bits);
    }
}
