//! What the proxy asks of its surroundings: the routing table, the SYN cookies and the checksums.

use vstd::prelude::*;

use crate::addr::{Ipv4Addr, MacAddr};
use crate::ingress::IngressPacket;
use crate::ipv4;

verus! {

/// What the routing table holds for a host.
#[derive(Clone, Copy, Debug, PartialEq, Eq)]
pub struct HostConfig {
    /// Where to forward the traffic of the host.
    pub mac: MacAddr,
    /// The clock of the host that stamps TCP segments.
    pub tcp_timestamp: u64,
    /// The clock of the host that ages SYN cookies.
    pub tcp_cookie_time: u64,
}

/// What the initial sequence number of an answer, and the segment size it encodes, are made from.
#[derive(Clone, Copy, Debug, PartialEq, Eq)]
pub struct SequenceRequest {
    pub ipv4_source: Ipv4Addr,
    pub ipv4_destination: Ipv4Addr,
    pub tcp_source: u16,
    pub tcp_destination: u16,
    pub tcp_sequence: u32,
    pub tcp_mss: u16,
    pub cookie_time: u32,
}

/// What the timestamp of an answer is made from.
#[derive(Clone, Copy, Debug, PartialEq, Eq)]
pub struct TimestampRequest {
    pub wscale: u8,
    pub sack_permitted: u8,
    pub ecn: u8,
    pub tcp_time: u32,
}

/// The SYN cookie of an answer.
#[derive(Clone, Copy, Debug, PartialEq, Eq)]
pub struct SynCookie {
    /// The initial sequence number.
    pub sequence: u32,
    /// The maximum segment size that the sequence number encodes.
    pub mss: u16,
    /// The timestamp, which encodes the other options.
    pub timestamp: u32,
}

/// The low 32 bits of a clock.
pub open spec fn low32(clock: u64) -> u32 {
    (clock % 0x1_0000_0000) as u32
}

/// What to make the sequence number of the answer to `pkt` from, where `host` is what the routing
/// table holds for the destination. The clock stands at zero for an unknown host.
pub open spec fn sequence_request_for(pkt: IngressPacket, host: Option<HostConfig>) ->
    SequenceRequest {
    SequenceRequest {
        ipv4_source: pkt.ipv4_source,
        ipv4_destination: pkt.ipv4_destination,
        tcp_source: pkt.tcp_source,
        tcp_destination: pkt.tcp_destination,
        tcp_sequence: pkt.tcp_sequence,
        tcp_mss: pkt.tcp_mss,
        cookie_time: match host {
            Some(config) => low32(config.tcp_cookie_time),
            None => 0,
        },
    }
}

/// What to make the timestamp of an answer from, where `host` is what the routing table holds for
/// the destination: a window scale of 7, selective acknowledgements, no explicit congestion
/// notification, and the clock of the host. The clock stands at zero for an unknown host.
pub open spec fn timestamp_request_for(host: Option<HostConfig>) -> TimestampRequest {
    TimestampRequest {
        wscale: 7,
        sack_permitted: 1,
        ecn: 0,
        tcp_time: match host {
            Some(config) => low32(config.tcp_timestamp),
            None => 0,
        },
    }
}

/// Cuts a clock down to its low 32 bits.
fn truncate(clock: u64) -> (low: u32)
    ensures
        low == low32(clock),
{
    assert(clock as u32 == (clock % 0x1_0000_0000) as u32) by (bit_vector);
    clock as u32
}

/// What to make the sequence number of the answer to `pkt` from.
pub fn sequence_request(pkt: &IngressPacket, host: Option<HostConfig>) -> (request:
    SequenceRequest)
    ensures
        request == sequence_request_for(*pkt, host),
{
    let mut cookie_time: u64 = 0;
    if let Some(config) = host {
        cookie_time = config.tcp_cookie_time;
    }
    SequenceRequest {
        ipv4_source: pkt.ipv4_source,
        ipv4_destination: pkt.ipv4_destination,
        tcp_source: pkt.tcp_source,
        tcp_destination: pkt.tcp_destination,
        tcp_sequence: pkt.tcp_sequence,
        tcp_mss: pkt.tcp_mss,
        cookie_time: truncate(cookie_time),
    }
}

/// What to make the timestamp of an answer from.
pub fn timestamp_request(host: Option<HostConfig>) -> (request: TimestampRequest)
    ensures
        request == timestamp_request_for(host),
{
    let mut tcp_time: u32 = 0;
    if let Some(config) = host {
        tcp_time = truncate(config.tcp_timestamp);
    }
    TimestampRequest { wscale: 7, sack_permitted: 1, ecn: 0, tcp_time }
}

/// What the proxy calls upon to answer a request. Nothing is assumed of the replies: the same
/// question may be answered differently the next time.
pub struct Services<L, S, C, T, I> {
    /// What the routing table holds for a host.
    pub lookup: L,
    /// The initial sequence number of an answer and the segment size that it encodes.
    pub sequence_cookie: S,
    /// The timestamp of an answer.
    pub timestamp_cookie: C,
    /// The checksum of a TCP segment from the first host to the second, as the number that the
    /// checksum field is to hold.
    pub tcp_checksum: T,
    /// The checksum of the header of an IPv4 packet, as the number that the checksum field is to
    /// hold.
    pub ip_checksum: I,
}

impl<
    L: Fn(Ipv4Addr) -> Option<HostConfig>,
    S: Fn(SequenceRequest) -> (u32, u16),
    C: Fn(TimestampRequest) -> u32,
    T: Fn(&[u8], Ipv4Addr, Ipv4Addr) -> u16,
    I: Fn(&[u8]) -> u16,
> Services<L, S, C, T, I> {
    /// Whether every service takes every question that makes sense: the checksums are only asked
    /// for what holds a whole header.
    pub open spec fn ready(self) -> bool {
        &&& forall|ip: Ipv4Addr| call_requires(self.lookup, (ip,))
        &&& forall|request: SequenceRequest| call_requires(self.sequence_cookie, (request,))
        &&& forall|request: TimestampRequest| call_requires(self.timestamp_cookie, (request,))
        &&& forall|segment: &[u8], source: Ipv4Addr, destination: Ipv4Addr|
            segment@.len() >= 20 ==> #[trigger] call_requires(
                self.tcp_checksum,
                (segment, source, destination),
            )
        &&& forall|ip: &[u8]| ip@.len() >= 20 ==> #[trigger] call_requires(self.ip_checksum, (ip,))
    }

    /// Whether `host` can be what the routing table held for `ip`.
    pub open spec fn finds(self, ip: Ipv4Addr, host: Option<HostConfig>) -> bool {
        call_ensures(self.lookup, (ip,), host)
    }

    /// Whether `cookie` can be the SYN cookie for the answer to `pkt`: its sequence number and
    /// segment size made from the request and the host's clock, its timestamp from another look at
    /// the host.
    pub open spec fn bakes(self, pkt: IngressPacket, cookie: SynCookie) -> bool {
        exists|aged: Option<HostConfig>, stamped: Option<HostConfig>|
            {
                &&& #[trigger] self.finds(pkt.ipv4_destination, aged)
                &&& call_ensures(
                    self.sequence_cookie,
                    (sequence_request_for(pkt, aged),),
                    (cookie.sequence, cookie.mss),
                )
                &&& #[trigger] self.finds(pkt.ipv4_destination, stamped)
                &&& call_ensures(
                    self.timestamp_cookie,
                    (timestamp_request_for(stamped),),
                    cookie.timestamp,
                )
            }
    }

    /// Whether `checksum` can be what the TCP segment `segment` from `source` to `destination`
    /// sums up to.
    pub open spec fn sums_segment(
        self,
        segment: Seq<u8>,
        source: Ipv4Addr,
        destination: Ipv4Addr,
        checksum: u16,
    ) -> bool {
        exists|bytes: &[u8]|
            bytes@ == segment && #[trigger] call_ensures(
                self.tcp_checksum,
                (bytes, source, destination),
                checksum,
            )
    }

    /// Whether `checksum` can be what the IPv4 packet `ip` sums up to.
    pub open spec fn sums_packet(self, ip: Seq<u8>, checksum: u16) -> bool {
        exists|bytes: &[u8]|
            bytes@ == ip && #[trigger] call_ensures(self.ip_checksum, (bytes,), checksum)
    }

    /// Whether every service answers the same question the same way every time.
    pub open spec fn steady(self) -> bool {
        &&& forall|ip: Ipv4Addr, one: Option<HostConfig>, other: Option<HostConfig>|
            #[trigger] self.finds(ip, one) && #[trigger] self.finds(ip, other) ==> one == other
        &&& forall|request: SequenceRequest, one: (u32, u16), other: (u32, u16)|
            #[trigger] call_ensures(self.sequence_cookie, (request,), one)
                && #[trigger] call_ensures(self.sequence_cookie, (request,), other) ==> one == other
        &&& forall|request: TimestampRequest, one: u32, other: u32|
            #[trigger] call_ensures(self.timestamp_cookie, (request,), one)
                && #[trigger] call_ensures(self.timestamp_cookie, (request,), other) ==> one
                == other
        &&& forall|segment: Seq<u8>, source: Ipv4Addr, destination: Ipv4Addr, one: u16, other: u16|
            #[trigger] self.sums_segment(segment, source, destination, one)
                && #[trigger] self.sums_segment(segment, source, destination, other) ==> one
                == other
        &&& forall|ip: Seq<u8>, one: u16, other: u16|
            #[trigger] self.sums_packet(ip, one) && #[trigger] self.sums_packet(ip, other) ==> one
                == other
    }

    /// Whether the checksum of an IPv4 packet whose header has no options depends on the header
    /// alone.
    pub open spec fn sums_header_only(self) -> bool {
        forall|one: Seq<u8>, other: Seq<u8>, one_sum: u16, other_sum: u16|
            {
                &&& one.len() >= 20
                &&& other.len() >= 20
                &&& ipv4::header_length(one) == 5
                &&& one.take(20) == other.take(20)
                &&& #[trigger] self.sums_packet(one, one_sum)
                &&& #[trigger] self.sums_packet(other, other_sum)
            } ==> one_sum == other_sum
    }

    /// Makes the SYN cookie for the answer to `pkt`.
    pub fn bake(&self, pkt: &IngressPacket) -> (cookie: SynCookie)
        requires
            self.ready(),
        ensures
            self.bakes(*pkt, cookie),
    {
        let aged = (self.lookup)(pkt.ipv4_destination);
        assert(self.finds(pkt.ipv4_destination, aged));
        let (sequence, mss) = (self.sequence_cookie)(sequence_request(pkt, aged));
        let stamped = (self.lookup)(pkt.ipv4_destination);
        assert(self.finds(pkt.ipv4_destination, stamped));
        let timestamp: u32 = (self.timestamp_cookie)(timestamp_request(stamped));
        SynCookie { sequence, mss, timestamp }
    }

    /// Sums up a TCP segment.
    pub(crate) fn sum_segment(
        &self,
        segment: &[u8],
        source: Ipv4Addr,
        destination: Ipv4Addr,
    ) -> (checksum: u16)
        requires
            self.ready(),
            segment@.len() >= 20,
        ensures
            self.sums_segment(segment@, source, destination, checksum),
    {
        (self.tcp_checksum)(segment, source, destination)
    }

    /// Sums up an IPv4 packet.
    pub(crate) fn sum_packet(&self, ip: &[u8]) -> (checksum: u16)
        requires
            self.ready(),
            ip@.len() >= 20,
        ensures
            self.sums_packet(ip@, checksum),
    {
        (self.ip_checksum)(ip)
    }
}

} // verus!
