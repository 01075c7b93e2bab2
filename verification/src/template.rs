//! Answers written by way of a template.
//!
//! Most bytes of an answer are the same for every request. A template holds them; only the rest is
//! patched for each request.

use vstd::prelude::*;

use crate::addr::{Ipv4Addr, MacAddr};
use crate::bytes::{put, u16_at};
use crate::ethernet;
use crate::ingress::IngressPacket;
use crate::patch::{
    announced_length, build_reply_fast, is_patch, is_patchable, is_patched, lemma_patch_sums,
    lemma_patched_bytes_do_not_show, patched_frame, patched_ipv4, patched_segment, patches,
    segment_in, segment_start,
};
use crate::reply::{
    answers, build_reply, is_reply, reply_frame, reply_ipv4, reply_segment, MIN_REPLY_BUF_LEN,
};
use crate::services::{HostConfig, SequenceRequest, Services, SynCookie, TimestampRequest};

verus! {

/// `b` with zeros where an answer goes.
pub open spec fn blank(b: Seq<u8>) -> Seq<u8> {
    put(b, 0, Seq::new(78, |i: int| 0u8))
}

/// Whether byte `i` of an answer depends on the request.
pub open spec fn is_variable(i: int) -> bool {
    is_patched(34, i)
}

/// The segment size that the answer in `b` offers.
pub open spec fn offered_mss(b: Seq<u8>) -> u16 {
    u16_at(b, 56)
}

/// The cookie `cookie` with another segment size.
pub open spec fn with_mss(cookie: SynCookie, mss: u16) -> SynCookie {
    SynCookie { mss, ..cookie }
}

/// Whether `b` starts like an answer written over zeros, but for what depends on the request.
pub open spec fn is_prepared(b: Seq<u8>) -> bool {
    &&& b.len() >= 78
    &&& forall|i: int|
        0 <= i < 78 && !is_variable(i) ==> #[trigger] b[i] == reply_frame(
            IngressPacket::zeroed(),
            MacAddr(0, 0, 0, 0, 0, 0),
            SynCookie { sequence: 0, mss: offered_mss(b), timestamp: 0 },
            blank(b),
            0,
            0,
        )[i]
}

/// Whether `new` is an answer to `pkt`, written over `old`, with the SYN cookie and the checksums
/// that `services` gave, but that it offers the segment size `mss`.
pub open spec fn answers_with_mss<
    L: Fn(Ipv4Addr) -> Option<HostConfig>,
    S: Fn(SequenceRequest) -> (u32, u16),
    C: Fn(TimestampRequest) -> u32,
    T: Fn(&[u8], Ipv4Addr, Ipv4Addr) -> u16,
    I: Fn(&[u8]) -> u16,
>(
    services: Services<L, S, C, T, I>,
    pkt: IngressPacket,
    source_mac: MacAddr,
    mss: u16,
    old: Seq<u8>,
    new: Seq<u8>,
) -> bool {
    exists|cookie: SynCookie| #[trigger]
        services.bakes(pkt, cookie) && is_reply(
            services,
            pkt,
            source_mac,
            with_mss(cookie, mss),
            old,
            new,
        )
}

/// An answer written over an earlier one is the answer written over what was there before that, but
/// that it keeps the segment size of the earlier one.
pub(crate) proof fn lemma_patched_reply(
    earlier: IngressPacket,
    earlier_mac: MacAddr,
    earlier_cookie: SynCookie,
    earlier_sums: (u16, u16),
    pkt: IngressPacket,
    source_mac: MacAddr,
    cookie: SynCookie,
    sums: (u16, u16),
    old: Seq<u8>,
)
    requires
        old.len() >= 78,
    ensures
        ({
            let b = reply_frame(
                earlier,
                earlier_mac,
                earlier_cookie,
                old,
                earlier_sums.0,
                earlier_sums.1,
            );
            let sent = with_mss(cookie, earlier_cookie.mss);
            &&& is_patchable(b)
            &&& segment_start(b) == 34
            &&& announced_length(b) == 78
            &&& patched_segment(pkt, cookie, segment_in(b), sums.0) == reply_segment(
                pkt,
                sent,
                old.subrange(34, 78),
                sums.0,
            )
            &&& patched_frame(pkt, source_mac, cookie, b, sums.0, sums.1) == reply_frame(
                pkt,
                source_mac,
                sent,
                old,
                sums.0,
                sums.1,
            )
        }),
{
    let b = reply_frame(
        earlier,
        earlier_mac,
        earlier_cookie,
        old,
        earlier_sums.0,
        earlier_sums.1,
    );
    let sent = with_mss(cookie, earlier_cookie.mss);
    assert(b[14] == 0x45);
    assert(ethernet::payload(b)[0] == 0x45);
    assert(b[46] / 16 == 11);
    assert(segment_in(b) == b.subrange(34, 78));
    assert(segment_in(b)[12] == b[46]);
    assert(segment_in(b) == reply_segment(
        earlier,
        earlier_cookie,
        old.subrange(34, 78),
        earlier_sums.0,
    ));
    assert(patched_segment(pkt, cookie, segment_in(b), sums.0) == reply_segment(
        pkt,
        sent,
        old.subrange(34, 78),
        sums.0,
    ));
    assert(b.subrange(14, 34) == reply_ipv4(earlier, old.subrange(14, 34), earlier_sums.1));
    assert(patched_ipv4(pkt, b.subrange(14, 34), 64, sums.1) == reply_ipv4(
        pkt,
        old.subrange(14, 34),
        sums.1,
    ));
    assert(b.skip(78) == old.skip(78));
    assert(patched_frame(pkt, source_mac, cookie, b, sums.0, sums.1) == reply_frame(
        pkt,
        source_mac,
        sent,
        old,
        sums.0,
        sums.1,
    ));
}

/// An answer written over a prepared one is the answer written over zeros, but that it keeps the
/// segment size that is in place.
proof fn lemma_patched_template(
    pkt: IngressPacket,
    source_mac: MacAddr,
    cookie: SynCookie,
    b: Seq<u8>,
    sums: (u16, u16),
)
    requires
        is_prepared(b),
    ensures
        ({
            let sent = with_mss(cookie, offered_mss(b));
            &&& is_patchable(b)
            &&& announced_length(b) == 78
            &&& patched_segment(pkt, cookie, segment_in(b), sums.0) == reply_segment(
                pkt,
                sent,
                blank(b).subrange(34, 78),
                sums.0,
            )
            &&& patched_frame(pkt, source_mac, cookie, b, sums.0, sums.1) == reply_frame(
                pkt,
                source_mac,
                sent,
                blank(b),
                sums.0,
                sums.1,
            )
        }),
{
    let nobody = MacAddr(0, 0, 0, 0, 0, 0);
    let bare = SynCookie { sequence: 0, mss: offered_mss(b), timestamp: 0 };
    let full = reply_frame(IngressPacket::zeroed(), nobody, bare, blank(b), 0, 0);
    lemma_patched_reply(
        IngressPacket::zeroed(),
        nobody,
        bare,
        (0, 0),
        pkt,
        source_mac,
        cookie,
        sums,
        blank(b),
    );
    assert forall|i: int| 0 <= i < full.len() && !is_patched(34, i) implies #[trigger] full[i]
        == b[i] by {
        assert(is_variable(i) == is_patched(34, i));
    }
    lemma_patched_bytes_do_not_show(pkt, source_mac, cookie, full, b, sums);
}

/// An answer that is written over a prepared one is an answer written over zeros, but that it keeps
/// the segment size that is in place.
proof fn lemma_patching_a_template<
    L: Fn(Ipv4Addr) -> Option<HostConfig>,
    S: Fn(SequenceRequest) -> (u32, u16),
    C: Fn(TimestampRequest) -> u32,
    T: Fn(&[u8], Ipv4Addr, Ipv4Addr) -> u16,
    I: Fn(&[u8]) -> u16,
>(
    services: Services<L, S, C, T, I>,
    pkt: IngressPacket,
    source_mac: MacAddr,
    b: Seq<u8>,
    new: Seq<u8>,
)
    requires
        is_prepared(b),
        patches(services, pkt, source_mac, b, new),
    ensures
        answers_with_mss(services, pkt, source_mac, offered_mss(b), blank(b), new),
{
    let cookie = choose|cookie: SynCookie| #[trigger]
        services.bakes(pkt, cookie) && is_patch(services, pkt, source_mac, cookie, b, new);
    let sums = lemma_patch_sums(services, pkt, source_mac, cookie, b, new);
    lemma_patched_template(pkt, source_mac, cookie, b, (0, 0));
    lemma_patched_template(pkt, source_mac, cookie, b, (sums.0, 0));
    lemma_patched_template(pkt, source_mac, cookie, b, sums);
    let sent = with_mss(cookie, offered_mss(b));
    assert(is_reply(services, pkt, source_mac, sent, blank(b), new));
}

/// The request that a template answers: one from the local host to itself.
pub open spec fn template_request() -> IngressPacket {
    IngressPacket {
        ipv4_source: Ipv4Addr(127, 0, 0, 1),
        ipv4_destination: Ipv4Addr(127, 0, 0, 1),
        tcp_mss: 1460,
        ..IngressPacket::zeroed()
    }
}

/// An answer with everything in place that does not depend on the request.
pub struct ReplyTemplate {
    bytes: Vec<u8>,
}

impl View for ReplyTemplate {
    type V = Seq<u8>;

    closed spec fn view(&self) -> Seq<u8> {
        self.bytes@
    }
}

impl ReplyTemplate {
    #[verifier::type_invariant]
    spec fn wf(self) -> bool {
        self.bytes@.len() == 78 && is_prepared(self.bytes@)
    }

    /// Builds a template: the answer to a request from the local host to itself, written over
    /// zeros.
    pub fn new<
        L: Fn(Ipv4Addr) -> Option<HostConfig>,
        S: Fn(SequenceRequest) -> (u32, u16),
        C: Fn(TimestampRequest) -> u32,
        T: Fn(&[u8], Ipv4Addr, Ipv4Addr) -> u16,
        I: Fn(&[u8]) -> u16,
    >(services: &Services<L, S, C, T, I>) -> (template: ReplyTemplate)
        requires
            services.ready(),
        ensures
            template@.len() == MIN_REPLY_BUF_LEN,
            is_prepared(template@),
            answers(
                *services,
                template_request(),
                MacAddr(0, 0, 0, 0, 0, 0),
                Seq::new(78, |i: int| 0u8),
                template@,
            ),
    {
        let mut bytes: Vec<u8> = vec![0; 78];
        assert(bytes@ == Seq::new(78, |i: int| 0u8));
        let pkt = IngressPacket {
            ether_source: MacAddr(0, 0, 0, 0, 0, 0),
            ipv4_source: Ipv4Addr(127, 0, 0, 1),
            ipv4_destination: Ipv4Addr(127, 0, 0, 1),
            tcp_source: 0,
            tcp_destination: 0,
            tcp_timestamp: [0, 0, 0, 0],
            tcp_sequence: 0,
            tcp_mss: 1460,
        };
        build_reply(&pkt, MacAddr(0, 0, 0, 0, 0, 0), services, &mut bytes);
        ReplyTemplate { bytes }
    }
}

/// Writes the answer to `pkt` to the front of `reply` by way of the template, and returns its
/// length. The answer offers the segment size of the template.
pub fn build_reply_with_template<
    L: Fn(Ipv4Addr) -> Option<HostConfig>,
    S: Fn(SequenceRequest) -> (u32, u16),
    C: Fn(TimestampRequest) -> u32,
    T: Fn(&[u8], Ipv4Addr, Ipv4Addr) -> u16,
    I: Fn(&[u8]) -> u16,
>(
    pkt: &IngressPacket,
    source_mac: MacAddr,
    services: &Services<L, S, C, T, I>,
    template: &ReplyTemplate,
    reply: &mut [u8],
) -> (len: usize)
    requires
        old(reply)@.len() >= MIN_REPLY_BUF_LEN,
        services.ready(),
    ensures
        len == MIN_REPLY_BUF_LEN,
        answers_with_mss(
            *services,
            *pkt,
            source_mac,
            offered_mss(template@),
            blank(old(reply)@),
            final(reply)@,
        ),
{
    proof {
        use_type_invariant(template);
    }
    let mut i: usize = 12;
    while i < MIN_REPLY_BUF_LEN
        invariant
            12 <= i <= MIN_REPLY_BUF_LEN,
            template.bytes@.len() == 78,
            reply@.len() == old(reply)@.len() >= 78,
            reply@ == put(old(reply)@, 12, template.bytes@.subrange(12, i as int)),
        decreases MIN_REPLY_BUF_LEN - i,
    {
        reply[i] = template.bytes[i];
        i += 1;
    }
    assert(blank(reply@) == blank(old(reply)@));
    assert(offered_mss(reply@) == offered_mss(template@));
    let ghost prepared = reply@;
    assert(is_prepared(prepared));
    proof {
        lemma_patched_template(
            *pkt,
            source_mac,
            SynCookie { sequence: 0, mss: 0, timestamp: 0 },
            prepared,
            (0, 0),
        );
    }
    let len: usize = build_reply_fast(pkt, source_mac, services, reply);
    proof {
        lemma_patching_a_template(*services, *pkt, source_mac, prepared, reply@);
    }
    len
}

/// Writes the answer to `pkt` from the station `source_mac` to the front of `tx_slice` by way of
/// the template, and returns its length. Leaves `tx_slice` alone if the answer does not fit. The
/// answer offers the segment size of the template.
pub fn handle_reply<
    L: Fn(Ipv4Addr) -> Option<HostConfig>,
    S: Fn(SequenceRequest) -> (u32, u16),
    C: Fn(TimestampRequest) -> u32,
    T: Fn(&[u8], Ipv4Addr, Ipv4Addr) -> u16,
    I: Fn(&[u8]) -> u16,
>(
    pkt: IngressPacket,
    source_mac: MacAddr,
    services: &Services<L, S, C, T, I>,
    template: &ReplyTemplate,
    tx_slice: &mut [u8],
) -> (len: Option<usize>)
    requires
        services.ready(),
    ensures
        old(tx_slice)@.len() < MIN_REPLY_BUF_LEN ==> len is None && final(tx_slice)@ == old(
            tx_slice,
        )@,
        old(tx_slice)@.len() >= MIN_REPLY_BUF_LEN ==> len == Some(MIN_REPLY_BUF_LEN)
            && answers_with_mss(
            *services,
            pkt,
            source_mac,
            offered_mss(template@),
            blank(old(tx_slice)@),
            final(tx_slice)@,
        ),
{
    let len: usize = tx_slice.len();
    if len < MIN_REPLY_BUF_LEN {
        None
    } else {
        Some(build_reply_with_template(&pkt, source_mac, services, template, tx_slice))
    }
}

} // verus!
