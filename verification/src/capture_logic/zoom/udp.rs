//! Real-time Zoom UDP classification: the detection path.
//!
//! Deliberately decoupled from the capture framework's frame types: this
//! module takes a plain `PacketMeta` and the UDP payload bytes, so the
//! header logic can be exercised without a live capture runtime. The
//! capture callback pulls those plain values out of each frame, turns the
//! endpoint texts into addresses, writes the record this module returns,
//! and bumps the counters with `count_outcome`.
//!
//! **IP-gated.** A packet is dropped outright, before its payload is even
//! parsed, unless its source or its destination is on the published Zoom
//! server list. A genuinely-Zoom packet from an address missing from that
//! list is therefore not recorded: an accepted tradeoff, in exchange for
//! never recording traffic from an endpoint that isn't a confirmed Zoom
//! server.
use crate::common::headers::{
    media_header_of, parse_zoom_headers, zoom_headers_of, MediaHeader, SfuHeader,
};
use crate::common::ip_ranges::{is_known_zoom_server_ip, is_zoom_ip, IpAddress};
use crate::common::stats::Stats;
use crate::common::writer::{is_record_of, PacketRecord};
use core::time::Duration;
use vstd::prelude::*;

verus! {

/// Per-packet metadata the capture callback supplies.
#[derive(Debug)]
pub struct PacketMeta {
    pub time_offset: Duration,
    pub frame_len: usize,
    pub src_ip: String,
    pub dst_ip: String,
    pub src_port: u16,
    pub dst_port: u16,
}

/// What became of one UDP packet.
#[derive(Debug)]
pub enum PacketOutcome {
    /// Neither endpoint is a published Zoom server; the payload was not
    /// looked at.
    IpFiltered,
    /// An endpoint is a Zoom server, but the payload is not shaped like
    /// Zoom's headers.
    Unmatched,
    /// Classified; this record is to be written.
    Matched(PacketRecord),
}

/// The source or the destination is a published Zoom server.
pub open spec fn passes_ip_filter(src: Option<IpAddress>, dst: Option<IpAddress>) -> bool {
    is_zoom_ip(src) || is_zoom_ip(dst)
}

/// Classify one UDP packet. `src_addr` and `dst_addr` are `meta.src_ip` and
/// `meta.dst_ip` read as addresses (`None` where the text is not one).
///
/// The endpoint check comes first and is cheap: a packet from an unrelated
/// endpoint never reaches header parsing. Only a packet that passes it and
/// whose payload parses as Zoom's headers yields a record.
pub fn classify_packet(
    meta: PacketMeta,
    src_addr: Option<IpAddress>,
    dst_addr: Option<IpAddress>,
    udp_payload: &[u8],
) -> (r: PacketOutcome)
    ensures
        r is IpFiltered <==> !passes_ip_filter(src_addr, dst_addr),
        r is Unmatched <==> passes_ip_filter(src_addr, dst_addr) && zoom_headers_of(udp_payload@) is None,
        r matches PacketOutcome::Matched(rec) ==> {
            &&& passes_ip_filter(src_addr, dst_addr)
            &&& zoom_headers_of(udp_payload@) matches Some((media, sfu, _))
            &&& is_record_of(
                rec,
                meta.time_offset,
                meta.frame_len,
                meta.src_ip,
                meta.dst_ip,
                meta.src_port,
                meta.dst_port,
                sfu,
                media,
            )
        },
{
    if !is_known_zoom_server_ip(src_addr) && !is_known_zoom_server_ip(dst_addr) {
        return PacketOutcome::IpFiltered;
    }
    let parsed = parse_zoom_headers(udp_payload);
    match parsed {
        None => PacketOutcome::Unmatched,
        Some((media, sfu, _rest)) => {
            let record = PacketRecord::from_headers(
                meta.time_offset,
                meta.frame_len,
                meta.src_ip,
                meta.dst_ip,
                meta.src_port,
                meta.dst_port,
                sfu,
                media,
            );
            PacketOutcome::Matched(record)
        },
    }
}

/// Which counters one packet bumps.
#[derive(Debug, Clone, Copy, PartialEq, Eq, Structural)]
pub struct CounterBumps {
    pub seen: bool,
    pub ip_filtered: bool,
    pub unmatched: bool,
    pub matched: bool,
    pub active_media: bool,
}

/// A packet is always seen; it is then IP-filtered, unmatched, or matched,
/// as its outcome says; it is active media when it is matched and its type
/// is an active-media signal.
pub open spec fn counter_bumps_of(outcome: PacketOutcome) -> CounterBumps {
    CounterBumps {
        seen: true,
        ip_filtered: outcome is IpFiltered,
        unmatched: outcome is Unmatched,
        matched: outcome is Matched,
        active_media: outcome matches PacketOutcome::Matched(r) && r.is_active_media_signal,
    }
}

/// The counters that one classified packet bumps.
pub fn counters_for(outcome: &PacketOutcome) -> (r: CounterBumps)
    ensures
        r == counter_bumps_of(*outcome),
{
    match outcome {
        PacketOutcome::IpFiltered => CounterBumps {
            seen: true,
            ip_filtered: true,
            unmatched: false,
            matched: false,
            active_media: false,
        },
        PacketOutcome::Unmatched => CounterBumps {
            seen: true,
            ip_filtered: false,
            unmatched: true,
            matched: false,
            active_media: false,
        },
        PacketOutcome::Matched(record) => CounterBumps {
            seen: true,
            ip_filtered: false,
            unmatched: false,
            matched: true,
            active_media: record.is_active_media_signal,
        },
    }
}

/// Every packet is seen once and counted in exactly one of IP-filtered,
/// unmatched and matched; a packet counted as active media is also counted
/// as matched.
pub proof fn lemma_each_packet_counted_once(outcome: PacketOutcome)
    ensures
        counter_bumps_of(outcome).seen,
        (if counter_bumps_of(outcome).ip_filtered {
            1int
        } else {
            0
        }) + (if counter_bumps_of(outcome).unmatched {
            1int
        } else {
            0
        }) + (if counter_bumps_of(outcome).matched {
            1int
        } else {
            0
        }) == 1,
        counter_bumps_of(outcome).active_media ==> counter_bumps_of(outcome).matched,
{
}

/// Count one classified packet in `stats`, bumping exactly the counters
/// that `counters_for` names.
pub fn count_outcome(stats: &Stats, outcome: &PacketOutcome) {
    let bumps = counters_for(outcome);
    if bumps.seen {
        stats.packets_seen.inc();
    }
    if bumps.ip_filtered {
        stats.packets_ip_filtered.inc();
    }
    if bumps.unmatched {
        stats.packets_unmatched.inc();
    }
    if bumps.matched {
        stats.packets_matched.inc();
    }
    if bumps.active_media {
        stats.packets_active_media.inc();
    }
}

/// A packet whose Media Encapsulation header was read from `b` and recorded
/// is counted as matched, never as IP-filtered or unmatched, and as active
/// media exactly when its type byte is 16, 15, 13 or 30 (video, audio, or
/// either screen share), whatever its length or frame fields.
pub proof fn lemma_matched_packet_counters(
    b: Seq<u8>,
    rec: PacketRecord,
    meta: PacketMeta,
    sfu: Option<SfuHeader>,
    media: MediaHeader,
)
    requires
        media_header_of(b) == Some(media),
        is_record_of(
            rec,
            meta.time_offset,
            meta.frame_len,
            meta.src_ip,
            meta.dst_ip,
            meta.src_port,
            meta.dst_port,
            sfu,
            media,
        ),
    ensures
        counter_bumps_of(PacketOutcome::Matched(rec)).seen,
        counter_bumps_of(PacketOutcome::Matched(rec)).matched,
        !counter_bumps_of(PacketOutcome::Matched(rec)).ip_filtered,
        !counter_bumps_of(PacketOutcome::Matched(rec)).unmatched,
        counter_bumps_of(PacketOutcome::Matched(rec)).active_media <==> (b[0] == 16 || b[0] == 15
            || b[0] == 13 || b[0] == 30),
{
}

} // verus!
