//! The TCP header and its options, read and written through `pnet::packet::tcp`.
//!
//! | bytes  | field                                          |
//! |--------|------------------------------------------------|
//! | 0..2   | source port                                    |
//! | 2..4   | destination port                               |
//! | 4..8   | sequence number                                |
//! | 8..12  | acknowledgement number                         |
//! | 12..14 | data offset (4 bits), reserved (3), flags (9)  |
//! | 14..16 | window                                         |
//! | 16..18 | checksum                                       |
//! | 18..20 | urgent pointer                                 |
//! | 20..   | options, up to the data offset                 |

use pnet::packet::tcp::{MutableTcpOptionPacket, MutableTcpPacket, TcpOptionNumber, TcpPacket};
use pnet::packet::{Packet, PacketSize};
use vstd::prelude::*;

use crate::bytes::{be16, be32, least, put, u16_at, u32_at};

verus! {

/// The SYN flag.
pub const TCP_SYN: u16 = 0x002;

/// The ACK flag.
pub const TCP_ACK: u16 = 0x010;

/// The number of the maximum segment size option.
pub const OPTION_MSS: u8 = 2;

/// The number of the window scale option.
pub const OPTION_WSCALE: u8 = 3;

/// The number of the option that permits selective acknowledgements.
pub const OPTION_SACK_PERMITTED: u8 = 4;

/// The number of the timestamps option.
pub const OPTION_TIMESTAMPS: u8 = 8;

/// The port that sent the segment.
pub open spec fn source(tcp: Seq<u8>) -> u16 {
    u16_at(tcp, 0)
}

/// The port that the segment is addressed to.
pub open spec fn destination(tcp: Seq<u8>) -> u16 {
    u16_at(tcp, 2)
}

/// The sequence number.
pub open spec fn sequence(tcp: Seq<u8>) -> u32 {
    u32_at(tcp, 4)
}

/// The acknowledgement number.
pub open spec fn acknowledgement(tcp: Seq<u8>) -> u32 {
    u32_at(tcp, 8)
}

/// The length of the header in 32-bit words, as the header announces it.
pub open spec fn data_offset(tcp: Seq<u8>) -> u8 {
    tcp[12] / 16
}

/// The nine flag bits.
pub open spec fn flags(tcp: Seq<u8>) -> u16 {
    (tcp[12] % 2 * 256 + tcp[13]) as u16
}

/// Whether the segment opens a connection: SYN is set and ACK is not.
pub open spec fn opens(tcp: Seq<u8>) -> bool {
    tcp[13] / 2 % 2 == 1 && tcp[13] / 16 % 2 == 0
}

/// How many bytes of options the header announces.
pub open spec fn options_length(tcp: Seq<u8>) -> int {
    if data_offset(tcp) > 5 { 4 * data_offset(tcp) - 20 } else { 0 }
}

/// The announced options, as far as the buffer holds them.
pub open spec fn options_area(tcp: Seq<u8>) -> Seq<u8> {
    tcp.subrange(20, least(20 + options_length(tcp), tcp.len() as int))
}

/// How many bytes the number and the length of the option at the front of `b` take. The two
/// options numbered 0 and 1 have no length byte.
pub open spec fn option_head(b: Seq<u8>) -> int {
    if b[0] == 0 || b[0] == 1 { 1 } else { 2 }
}

/// How many bytes the option at the front of `b` takes after its number and length, as its length
/// byte announces it. A missing length byte, and one below 2, announces none.
pub open spec fn option_data_length(b: Seq<u8>) -> int {
    if option_head(b) == 2 && b.len() >= 2 && b[1] >= 2 { b[1] - 2 } else { 0 }
}

/// The data of the option at the front of `b`, as far as `b` holds it.
pub open spec fn option_data(b: Seq<u8>) -> Seq<u8> {
    if b.len() <= option_head(b) {
        Seq::empty()
    } else {
        b.subrange(option_head(b), least(option_head(b) + option_data_length(b), b.len() as int))
    }
}

/// The options in `b` from the front to the end, each with its number and its data.
pub open spec fn options_in(b: Seq<u8>) -> Seq<(u8, Seq<u8>)>
    decreases b.len(),
{
    if b.len() == 0 {
        Seq::empty()
    } else {
        seq![(b[0], option_data(b))] + options_in(
            b.skip(least(option_head(b) + option_data_length(b), b.len() as int)),
        )
    }
}

/// The options of a segment.
pub open spec fn options(tcp: Seq<u8>) -> Seq<(u8, Seq<u8>)> {
    options_in(options_area(tcp))
}

/// One option of a segment.
pub struct TcpOption {
    pub number: u8,
    pub data: Vec<u8>,
}

impl View for TcpOption {
    type V = (u8, Seq<u8>);

    open spec fn view(&self) -> (u8, Seq<u8>) {
        (self.number, self.data@)
    }
}

/// `TcpPacket::new`: a buffer is taken as a segment when it has room for the fixed 20 bytes.
#[verifier::external_body]
pub(crate) fn holds_header(tcp: &[u8]) -> (holds: bool)
    ensures
        holds == (tcp@.len() >= 20),
{
    TcpPacket::new(tcp).is_some()
}

/// `TcpPacket::get_source`: the big-endian number in bytes 0 and 1.
#[verifier::external_body]
pub(crate) fn get_source(tcp: &[u8]) -> (port: u16)
    requires
        tcp@.len() >= 20,
    ensures
        port == source(tcp@),
{
    TcpPacket::new(tcp).unwrap().get_source()
}

/// `TcpPacket::get_destination`: the big-endian number in bytes 2 and 3.
#[verifier::external_body]
pub(crate) fn get_destination(tcp: &[u8]) -> (port: u16)
    requires
        tcp@.len() >= 20,
    ensures
        port == destination(tcp@),
{
    TcpPacket::new(tcp).unwrap().get_destination()
}

/// `TcpPacket::get_sequence`: the big-endian number in bytes 4 to 7.
#[verifier::external_body]
pub(crate) fn get_sequence(tcp: &[u8]) -> (number: u32)
    requires
        tcp@.len() >= 20,
    ensures
        number == sequence(tcp@),
{
    TcpPacket::new(tcp).unwrap().get_sequence()
}

/// `TcpPacket::get_flags`: the low bit of byte 12 and all of byte 13.
#[verifier::external_body]
pub(crate) fn get_flags(tcp: &[u8]) -> (bits: u16)
    requires
        tcp@.len() >= 20,
    ensures
        bits == flags(tcp@),
{
    TcpPacket::new(tcp).unwrap().get_flags()
}

/// `TcpPacket::get_options_iter`: every option of the segment in turn, with what
/// `TcpOptionPacket::get_number` and `TcpOptionPacket::payload` give for it.
#[verifier::external_body]
pub(crate) fn get_options(tcp: &[u8]) -> (list: Vec<TcpOption>)
    requires
        tcp@.len() >= 20,
    ensures
        list@.map_values(|o: TcpOption| o@) == options(tcp@),
{
    TcpPacket::new(tcp)
        .unwrap()
        .get_options_iter()
        .map(|o| TcpOption { number: o.get_number().0, data: o.payload().to_vec() })
        .collect()
}

/// `TcpPacket::packet_size`: the fixed 20 bytes and the announced options.
#[verifier::external_body]
pub(crate) fn packet_size(tcp: &[u8]) -> (size: usize)
    requires
        tcp@.len() >= 20,
    ensures
        size == 20 + options_length(tcp@),
{
    TcpPacket::new(tcp).unwrap().packet_size()
}

/// `MutableTcpPacket::set_source`: stores the number big-endian in bytes 0 and 1 and nothing else.
#[verifier::external_body]
pub(crate) fn set_source(tcp: &mut [u8], port: u16)
    requires
        old(tcp)@.len() >= 20,
    ensures
        final(tcp)@ == put(old(tcp)@, 0, be16(port)),
{
    MutableTcpPacket::new(tcp).unwrap().set_source(port);
}

/// `MutableTcpPacket::set_destination`: stores the number big-endian in bytes 2 and 3 and nothing
/// else.
#[verifier::external_body]
pub(crate) fn set_destination(tcp: &mut [u8], port: u16)
    requires
        old(tcp)@.len() >= 20,
    ensures
        final(tcp)@ == put(old(tcp)@, 2, be16(port)),
{
    MutableTcpPacket::new(tcp).unwrap().set_destination(port);
}

/// `MutableTcpPacket::set_sequence`: stores the number big-endian in bytes 4 to 7 and nothing
/// else.
#[verifier::external_body]
pub(crate) fn set_sequence(tcp: &mut [u8], number: u32)
    requires
        old(tcp)@.len() >= 20,
    ensures
        final(tcp)@ == put(old(tcp)@, 4, be32(number)),
{
    MutableTcpPacket::new(tcp).unwrap().set_sequence(number);
}

/// `MutableTcpPacket::set_acknowledgement`: stores the number big-endian in bytes 8 to 11 and
/// nothing else.
#[verifier::external_body]
pub(crate) fn set_acknowledgement(tcp: &mut [u8], number: u32)
    requires
        old(tcp)@.len() >= 20,
    ensures
        final(tcp)@ == put(old(tcp)@, 8, be32(number)),
{
    MutableTcpPacket::new(tcp).unwrap().set_acknowledgement(number);
}

/// `MutableTcpPacket::set_data_offset`: stores the number in the high four bits of byte 12 and
/// nothing else.
#[verifier::external_body]
pub(crate) fn set_data_offset(tcp: &mut [u8], words: u8)
    requires
        old(tcp)@.len() >= 20,
        words < 16,
    ensures
        final(tcp)@ == put(old(tcp)@, 12, seq![(16 * words + old(tcp)@[12] % 16) as u8]),
{
    MutableTcpPacket::new(tcp).unwrap().set_data_offset(words);
}

/// `MutableTcpPacket::set_flags`: stores the nine bits in the low bit of byte 12 and in byte 13
/// and nothing else.
#[verifier::external_body]
pub(crate) fn set_flags(tcp: &mut [u8], bits: u16)
    requires
        old(tcp)@.len() >= 20,
        bits < 512,
    ensures
        final(tcp)@ == put(
            old(tcp)@,
            12,
            seq![(old(tcp)@[12] / 2 * 2 + bits / 256) as u8, (bits % 256) as u8],
        ),
{
    MutableTcpPacket::new(tcp).unwrap().set_flags(bits);
}

/// `MutableTcpPacket::set_window`: stores the number big-endian in bytes 14 and 15 and nothing
/// else.
#[verifier::external_body]
pub(crate) fn set_window(tcp: &mut [u8], window: u16)
    requires
        old(tcp)@.len() >= 20,
    ensures
        final(tcp)@ == put(old(tcp)@, 14, be16(window)),
{
    MutableTcpPacket::new(tcp).unwrap().set_window(window);
}

/// `MutableTcpPacket::set_checksum`: stores the number big-endian in bytes 16 and 17 and nothing
/// else.
#[verifier::external_body]
pub(crate) fn set_checksum(tcp: &mut [u8], checksum: u16)
    requires
        old(tcp)@.len() >= 20,
    ensures
        final(tcp)@ == put(old(tcp)@, 16, be16(checksum)),
{
    MutableTcpPacket::new(tcp).unwrap().set_checksum(checksum);
}

/// `MutableTcpOptionPacket::set_number`: stores the number in byte 0 of the option and nothing
/// else.
#[verifier::external_body]
pub(crate) fn set_option_number(option: &mut [u8], number: u8)
    requires
        old(option)@.len() >= 1,
    ensures
        final(option)@ == put(old(option)@, 0, seq![number]),
{
    MutableTcpOptionPacket::new(option).unwrap().set_number(TcpOptionNumber::new(number));
}

/// `MutableTcpOptionPacket::get_length_raw_mut`: byte 1 of an option that has a length byte. The
/// number is stored there and nothing else changes.
#[verifier::external_body]
pub(crate) fn set_option_length(option: &mut [u8], len: u8)
    requires
        old(option)@.len() >= 2,
        option_head(old(option)@) == 2,
    ensures
        final(option)@ == put(old(option)@, 1, seq![len]),
{
    MutableTcpOptionPacket::new(option).unwrap().get_length_raw_mut()[0] = len;
}

/// `MutableTcpOptionPacket::set_data`: copies `data` over the data of an option that has a length
/// byte, from byte 2 on, and nothing else changes.
#[verifier::external_body]
pub(crate) fn set_option_data(option: &mut [u8], data: &[u8])
    requires
        old(option)@.len() >= 2,
        option_head(old(option)@) == 2,
        data@.len() <= option_data(old(option)@).len(),
    ensures
        final(option)@ == put(old(option)@, 2, data@),
{
    MutableTcpOptionPacket::new(option).unwrap().set_data(data);
}

} // verus!
