//! Output: one CSV row per classified Zoom packet.
//!
//! The columns are shaped for timing analysis: one row per packet with at
//! least `(time, media_type)`, which is what classifying each packet by type
//! and inferring media start/stop from presence over time needs.
//!
//! This module builds the record and renders every column but the first:
//! the time offset is rendered as fractional seconds by the code that owns
//! the output file.
use crate::common::headers::{MediaHeader, MediaType, SfuHeader};
use core::time::Duration;
use vstd::prelude::*;

verus! {

/// The CSV header line, without its line break.
pub const CSV_HEADER: &'static str = "time_offset_s,frame_len,src_ip,dst_ip,src_port,dst_port,\
sfu_direction_from_sfu,media_type_byte,media_type_label,media_sequence,media_timestamp,\
frame_seq,frame_pkt_count,is_active_media_signal";

/// The character of the decimal digit `d` (0-9).
pub open spec fn digit_char(d: nat) -> char {
    (48 + d) as char
}

/// The decimal rendering of `n`: most significant digit first, no sign, no
/// leading zeros (`0` is rendered as `0`).
pub open spec fn decimal(n: nat) -> Seq<char>
    decreases n,
{
    if n < 10 {
        seq![digit_char(n)]
    } else {
        decimal(n / 10).push(digit_char(n % 10))
    }
}

/// `true` or `false`, as Rust renders a `bool`.
pub open spec fn bool_text(b: bool) -> Seq<char> {
    if b {
        "true"@
    } else {
        "false"@
    }
}

/// A one-character string holding the decimal digit `d`.
fn digit_str(d: u64) -> (r: &'static str)
    requires
        d < 10,
    ensures
        r@ == seq![digit_char(d as nat)],
{
    if d == 0 {
        proof {
            reveal_strlit("0");
        }
        "0"
    } else if d == 1 {
        proof {
            reveal_strlit("1");
        }
        "1"
    } else if d == 2 {
        proof {
            reveal_strlit("2");
        }
        "2"
    } else if d == 3 {
        proof {
            reveal_strlit("3");
        }
        "3"
    } else if d == 4 {
        proof {
            reveal_strlit("4");
        }
        "4"
    } else if d == 5 {
        proof {
            reveal_strlit("5");
        }
        "5"
    } else if d == 6 {
        proof {
            reveal_strlit("6");
        }
        "6"
    } else if d == 7 {
        proof {
            reveal_strlit("7");
        }
        "7"
    } else if d == 8 {
        proof {
            reveal_strlit("8");
        }
        "8"
    } else {
        proof {
            reveal_strlit("9");
        }
        "9"
    }
}

/// Append the decimal rendering of `n` to `out`.
pub fn push_decimal(out: &mut String, n: u64)
    ensures
        final(out)@ == old(out)@ + decimal(n as nat),
    decreases n,
{
    if n >= 10 {
        push_decimal(out, n / 10);
    }
    out.append(digit_str(n % 10));
    proof {
        if n >= 10 {
            assert(old(out)@ + decimal(n as nat) =~= old(out)@ + decimal((n / 10) as nat) + seq![
                digit_char((n % 10) as nat),
            ]);
        } else {
            assert(decimal(n as nat) == seq![digit_char(n as nat)]);
        }
    }
}

/// Append `true` or `false` to `out`.
fn push_bool(out: &mut String, b: bool)
    ensures
        final(out)@ == old(out)@ + bool_text(b),
{
    if b {
        out.append("true");
    } else {
        out.append("false");
    }
}

/// What an optional value renders as: the value's text, or nothing.
pub open spec fn opt_text(v: Option<Seq<char>>) -> Seq<char> {
    match v {
        Some(t) => t,
        None => Seq::empty(),
    }
}

/// `true`/`false`, or the empty string for `None`.
pub fn opt_bool(v: Option<bool>) -> (r: String)
    ensures
        r@ == opt_text(
            match v {
                Some(b) => Some(bool_text(b)),
                None => None,
            },
        ),
{
    let mut s = String::new();
    if let Some(b) = v {
        push_bool(&mut s, b);
    }
    s
}

/// The decimal value, or the empty string for `None`.
pub fn opt_u16(v: Option<u16>) -> (r: String)
    ensures
        r@ == opt_text(
            match v {
                Some(n) => Some(decimal(n as nat)),
                None => None,
            },
        ),
{
    let mut s = String::new();
    if let Some(n) = v {
        push_decimal(&mut s, n as u64);
    }
    s
}

/// The decimal value, or the empty string for `None`.
pub fn opt_u8(v: Option<u8>) -> (r: String)
    ensures
        r@ == opt_text(
            match v {
                Some(n) => Some(decimal(n as nat)),
                None => None,
            },
        ),
{
    let mut s = String::new();
    if let Some(n) = v {
        push_decimal(&mut s, n as u64);
    }
    s
}

/// The label written for each media type.
pub open spec fn label_of(m: MediaType) -> Seq<char> {
    match m {
        MediaType::Video => "video"@,
        MediaType::Audio => "audio"@,
        MediaType::ScreenShareServer => "screen_share_server"@,
        MediaType::ScreenShareOptimized => "screen_share_optimized"@,
        MediaType::RtcpSenderReport => "rtcp_sr"@,
        MediaType::Unknown21 => "unknown_21"@,
        MediaType::Keepalive10 => "keepalive_10"@,
        MediaType::Other(_) => "other"@,
    }
}

/// One row of the packet-level CSV.
#[derive(Debug)]
pub struct PacketRecord {
    /// Time since capture start.
    pub time_offset: Duration,
    pub frame_len: usize,
    pub src_ip: String,
    pub dst_ip: String,
    pub src_port: u16,
    pub dst_port: u16,
    /// `None` for P2P-layout packets (no SFU header).
    pub sfu_direction_from_sfu: Option<bool>,
    pub media_type_byte: u8,
    pub media_type_label: &'static str,
    pub media_sequence: u16,
    pub media_timestamp: u32,
    pub frame_seq: Option<u16>,
    pub frame_pkt_count: Option<u8>,
    /// True only for the media types that count as "audio/video/
    /// screenshare is active": NOT Type 21, NOT RTCP, NOT unknown.
    pub is_active_media_signal: bool,
}

/// `r` is the record of a packet with the given capture data and headers.
pub open spec fn is_record_of(
    r: PacketRecord,
    time_offset: Duration,
    frame_len: usize,
    src_ip: String,
    dst_ip: String,
    src_port: u16,
    dst_port: u16,
    sfu: Option<SfuHeader>,
    media: MediaHeader,
) -> bool {
    &&& r.time_offset == time_offset
    &&& r.frame_len == frame_len
    &&& r.src_ip == src_ip
    &&& r.dst_ip == dst_ip
    &&& r.src_port == src_port
    &&& r.dst_port == dst_port
    &&& r.sfu_direction_from_sfu == match sfu {
        Some(s) => Some(s.is_from_sfu()),
        None => None,
    }
    &&& r.media_type_byte == media.raw_type
    &&& r.media_type_label@ == label_of(media.media_type)
    &&& r.media_sequence == media.sequence
    &&& r.media_timestamp == media.timestamp
    &&& r.frame_seq == media.frame_seq
    &&& r.frame_pkt_count == media.frame_pkt_count
    &&& r.is_active_media_signal == media.media_type.is_active()
}

/// Every CSV column of `r` after the time offset, comma-separated.
pub open spec fn csv_columns_of(r: PacketRecord) -> Seq<char> {
    decimal(r.frame_len as nat) + ","@ + r.src_ip@ + ","@ + r.dst_ip@ + ","@ + decimal(
        r.src_port as nat,
    ) + ","@ + decimal(r.dst_port as nat) + ","@ + opt_text(
        match r.sfu_direction_from_sfu {
            Some(b) => Some(bool_text(b)),
            None => None,
        },
    ) + ","@ + decimal(r.media_type_byte as nat) + ","@ + r.media_type_label@ + ","@ + decimal(
        r.media_sequence as nat,
    ) + ","@ + decimal(r.media_timestamp as nat) + ","@ + opt_text(
        match r.frame_seq {
            Some(n) => Some(decimal(n as nat)),
            None => None,
        },
    ) + ","@ + opt_text(
        match r.frame_pkt_count {
            Some(n) => Some(decimal(n as nat)),
            None => None,
        },
    ) + ","@ + bool_text(r.is_active_media_signal)
}

impl PacketRecord {
    /// The label written for a media type.
    pub fn label_for(media_type: &MediaType) -> (r: &'static str)
        ensures
            r@ == label_of(*media_type),
    {
        match media_type {
            MediaType::Video => "video",
            MediaType::Audio => "audio",
            MediaType::ScreenShareServer => "screen_share_server",
            MediaType::ScreenShareOptimized => "screen_share_optimized",
            MediaType::RtcpSenderReport => "rtcp_sr",
            MediaType::Unknown21 => "unknown_21",
            MediaType::Keepalive10 => "keepalive_10",
            MediaType::Other(_) => "other",
        }
    }

    /// The record of one classified packet.
    pub fn from_headers(
        time_offset: Duration,
        frame_len: usize,
        src_ip: String,
        dst_ip: String,
        src_port: u16,
        dst_port: u16,
        sfu: Option<SfuHeader>,
        media: MediaHeader,
    ) -> (r: Self)
        ensures
            is_record_of(r, time_offset, frame_len, src_ip, dst_ip, src_port, dst_port, sfu, media),
    {
        let sfu_direction_from_sfu = match sfu {
            Some(s) => Some(s.from_sfu()),
            None => None,
        };
        PacketRecord {
            time_offset,
            frame_len,
            src_ip,
            dst_ip,
            src_port,
            dst_port,
            sfu_direction_from_sfu,
            media_type_byte: media.raw_type,
            media_type_label: Self::label_for(&media.media_type),
            media_sequence: media.sequence,
            media_timestamp: media.timestamp,
            frame_seq: media.frame_seq,
            frame_pkt_count: media.frame_pkt_count,
            is_active_media_signal: media.media_type.is_active_media_signal(),
        }
    }

    /// Every CSV column of this record after the time offset, separated by
    /// commas, in the order of `CSV_HEADER`; `None` values render empty.
    pub fn csv_columns(&self) -> (r: String)
        ensures
            r@ == csv_columns_of(*self),
    {
        let mut s = String::new();
        push_decimal(&mut s, self.frame_len as u64);
        s.append(",");
        s.append(self.src_ip.as_str());
        s.append(",");
        s.append(self.dst_ip.as_str());
        s.append(",");
        push_decimal(&mut s, self.src_port as u64);
        s.append(",");
        push_decimal(&mut s, self.dst_port as u64);
        s.append(",");
        let dir = opt_bool(self.sfu_direction_from_sfu);
        s.append(dir.as_str());
        s.append(",");
        push_decimal(&mut s, self.media_type_byte as u64);
        s.append(",");
        s.append(self.media_type_label);
        s.append(",");
        push_decimal(&mut s, self.media_sequence as u64);
        s.append(",");
        push_decimal(&mut s, self.media_timestamp as u64);
        s.append(",");
        let fs = opt_u16(self.frame_seq);
        s.append(fs.as_str());
        s.append(",");
        let fc = opt_u8(self.frame_pkt_count);
        s.append(fc.as_str());
        s.append(",");
        push_bool(&mut s, self.is_active_media_signal);
        s
    }
}

/// The record's direction flag is bit 0x04 of the SFU direction byte and
/// nothing else (direction 1 is not from the SFU, 4 and 5 are), and is
/// absent exactly when the packet had no SFU header. The record keeps the
/// raw type byte, and marks active media exactly for type bytes 16, 15, 13
/// and 30 (video, audio and both screen shares).
pub proof fn lemma_record_direction_and_activity(
    r: PacketRecord,
    time_offset: Duration,
    frame_len: usize,
    src_ip: String,
    dst_ip: String,
    src_port: u16,
    dst_port: u16,
    sfu: Option<SfuHeader>,
    media: MediaHeader,
)
    requires
        is_record_of(r, time_offset, frame_len, src_ip, dst_ip, src_port, dst_port, sfu, media),
        media.media_type == crate::common::headers::media_type_of(media.raw_type),
    ensures
        sfu is None <==> r.sfu_direction_from_sfu is None,
        sfu matches Some(h) ==> r.sfu_direction_from_sfu == Some(h.direction_raw & 4u8 != 0u8),
        r.media_type_byte == media.raw_type,
        r.is_active_media_signal <==> (media.raw_type == 16 || media.raw_type == 15
            || media.raw_type == 13 || media.raw_type == 30),
{
    if let Some(h) = sfu {
        let d = h.direction_raw;
        assert((d & 4u8 != 0u8) == ((d / 4) % 2 == 1)) by (bit_vector);
    }
}

/// The direction column of a CSV row: a record whose direction is
/// `Some(true)` renders 4 characters (`true`) more than the same record with
/// no direction, and one with `Some(false)` renders 5 more (`false`), so
/// the three cases never render alike.
pub proof fn lemma_csv_direction_column(r1: PacketRecord, r2: PacketRecord)
    requires
        r2.sfu_direction_from_sfu is None,
        r1.frame_len == r2.frame_len,
        r1.src_ip == r2.src_ip,
        r1.dst_ip == r2.dst_ip,
        r1.src_port == r2.src_port,
        r1.dst_port == r2.dst_port,
        r1.media_type_byte == r2.media_type_byte,
        r1.media_type_label == r2.media_type_label,
        r1.media_sequence == r2.media_sequence,
        r1.media_timestamp == r2.media_timestamp,
        r1.frame_seq == r2.frame_seq,
        r1.frame_pkt_count == r2.frame_pkt_count,
        r1.is_active_media_signal == r2.is_active_media_signal,
    ensures
        r1.sfu_direction_from_sfu == Some(true) ==> csv_columns_of(r1).len() == csv_columns_of(
            r2,
        ).len() + 4,
        r1.sfu_direction_from_sfu == Some(false) ==> csv_columns_of(r1).len() == csv_columns_of(
            r2,
        ).len() + 5,
{
    reveal_strlit("true");
    reveal_strlit("false");
}

} // verus!
