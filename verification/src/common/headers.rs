//! Zoom's proprietary UDP header: parsing and classification.
//!
//! Two headers stack before the real RTP/RTCP packet on every Zoom UDP
//! payload:
//!
//! ```text
//! [ SFU Encapsulation (8B, server-relayed only) ] [ Media Encapsulation (variable) ] [ RTP / RTCP ]
//! ```
//!
//! - Server-relayed traffic: SFU Encapsulation, then Media Encapsulation.
//! - P2P traffic: Media Encapsulation directly (no SFU header). This
//!   layout has not been observed in recent captures; it is kept as the
//!   fallback rather than removed.
//!
//! Both headers open with a 1-byte Type; the inner one also fixes where
//! the real RTP/RTCP header begins, via a type-dependent byte offset.
//! Multi-byte fields are big-endian.
use vstd::prelude::*;

verus! {

/// SFU Encapsulation is a fixed 8 bytes.
pub const SFU_HEADER_LEN: usize = 8;

/// SFU byte 0 == this value means "Media Encapsulation follows".
pub const SFU_TYPE_MEDIA_FOLLOWS: u8 = 0x05;

/// SFU byte 7 ("Direction") bit meaning "packet is FROM the SFU"
/// (downlink). Byte 7 is a small bitmask (values 0, 1, 4 and 5 occur in
/// real traffic), so this bit is tested with `&`, never with `==`.
pub const SFU_DIR_FROM_SFU_BIT: u8 = 0x04;

/// Minimum length to read the Media Encapsulation fields this crate uses
/// (through byte 14, the timestamp). The video-only fields at bytes 21-23
/// are read when the buffer reaches them and left `None` otherwise.
pub const MEDIA_HEADER_MIN_LEN: usize = 15;

/// The 16-bit value of two bytes, most significant first.
pub open spec fn be_u16(hi: u8, lo: u8) -> u16 {
    (hi * 0x100 + lo) as u16
}

/// The 32-bit value of four bytes, most significant first.
pub open spec fn be_u32(b0: u8, b1: u8, b2: u8, b3: u8) -> u32 {
    (b0 * 0x100_0000 + b1 * 0x1_0000 + b2 * 0x100 + b3) as u32
}

/// Parsed SFU Encapsulation header (outer, server-relayed only).
#[derive(Debug, Clone, Copy)]
pub struct SfuHeader {
    pub raw_type: u8,
    /// Outer packet sequence number (bytes 1-2, big-endian).
    pub sequence: u16,
    /// Byte 7, unmodified: use `from_sfu()` rather than comparing this
    /// directly, since it is a bitmask (see `SFU_DIR_FROM_SFU_BIT`).
    pub direction_raw: u8,
}

impl SfuHeader {
    /// Bit 2 (value 0x04) of the direction byte is set.
    pub open spec fn is_from_sfu(self) -> bool {
        (self.direction_raw / 4) % 2 == 1
    }

    /// `true` if this packet is server -> client (downlink): the 0x04 bit
    /// of the direction byte is set, whatever the other bits hold.
    pub fn from_sfu(&self) -> (r: bool)
        ensures
            r == self.is_from_sfu(),
    {
        let d = self.direction_raw;
        assert((d & 4u8 != 0u8) == ((d / 4) % 2 == 1)) by (bit_vector);
        d & SFU_DIR_FROM_SFU_BIT != 0
    }
}

/// What `parse_sfu_header` makes of `b`: a header when `b` holds at least
/// 8 bytes and its first byte is the "Media Encapsulation follows" type.
pub open spec fn sfu_header_of(b: Seq<u8>) -> Option<SfuHeader> {
    if b.len() < SFU_HEADER_LEN || b[0] != SFU_TYPE_MEDIA_FOLLOWS {
        None
    } else {
        Some(SfuHeader { raw_type: b[0], sequence: be_u16(b[1], b[2]), direction_raw: b[7] })
    }
}

/// Parse an 8-byte SFU Encapsulation header. Returns `None` if `buf` is
/// too short or byte 0 isn't the "Media Encapsulation follows" type;
/// callers then treat `buf` as starting directly with a Media
/// Encapsulation header (the P2P layout).
pub fn parse_sfu_header(buf: &[u8]) -> (r: Option<SfuHeader>)
    ensures
        r == sfu_header_of(buf@),
{
    if buf.len() < SFU_HEADER_LEN {
        return None;
    }
    let raw_type = buf[0];
    if raw_type != SFU_TYPE_MEDIA_FOLLOWS {
        return None;
    }
    Some(SfuHeader { raw_type, sequence: u16_from_be(buf[1], buf[2]), direction_raw: buf[7] })
}

/// Big-endian combination of two bytes.
fn u16_from_be(hi: u8, lo: u8) -> (r: u16)
    ensures
        r == be_u16(hi, lo),
{
    (hi as u16) * 0x100 + (lo as u16)
}

/// Big-endian combination of four bytes.
pub(crate) fn u32_from_be(b0: u8, b1: u8, b2: u8, b3: u8) -> (r: u32)
    ensures
        r == be_u32(b0, b1, b2, b3),
{
    (b0 as u32) * 0x100_0000 + (b1 as u32) * 0x1_0000 + (b2 as u32) * 0x100 + (b3 as u32)
}

/// Media Encapsulation Type byte (byte 0) values, grouped by what they
/// carry. Only the outer Type byte is used for classification: RTP
/// payload-type numbers have drifted between client versions, the Type
/// byte has not.
///
/// | Type | Meaning |
/// |------|---------|
/// | 16 | Video |
/// | 15 | Audio |
/// | 13 | Screen share (server path) |
/// | 30 | Screen share, "optimize for video clip" |
/// | 34 / 33 | RTCP sender report |
/// | 21 | Unknown, always present while a meeting is open |
/// | 10 | Small fixed-size packets, plausibly a keepalive |
/// | anything else | Unexplained |
#[derive(Debug, Clone, Copy, PartialEq, Eq, Structural)]
pub enum MediaType {
    /// Type 16: RTP video.
    Video,
    /// Type 15: RTP audio.
    Audio,
    /// Type 13: RTP screen share, server path.
    ScreenShareServer,
    /// Type 30 (0x1e): screen share with "optimize for video clip"; it
    /// goes to published Zoom server addresses, not to a peer.
    ScreenShareOptimized,
    /// Types 34 (SR+SDES) and 33 (SR): RTCP sender reports.
    RtcpSenderReport,
    /// Type 21: unexplained and present for as long as the meeting is
    /// open, media or not, so never a "media is active" signal.
    Unknown21,
    /// Type 10: small, fixed-size, plausibly a keepalive.
    Keepalive10,
    /// Every other type byte; carries the raw byte.
    Other(u8),
}

/// The class of a Media Encapsulation Type byte.
pub open spec fn media_type_of(b: u8) -> MediaType {
    if b == 16 {
        MediaType::Video
    } else if b == 15 {
        MediaType::Audio
    } else if b == 13 {
        MediaType::ScreenShareServer
    } else if b == 30 {
        MediaType::ScreenShareOptimized
    } else if b == 34 || b == 33 {
        MediaType::RtcpSenderReport
    } else if b == 21 {
        MediaType::Unknown21
    } else if b == 10 {
        MediaType::Keepalive10
    } else {
        MediaType::Other(b)
    }
}

/// How much to trust a `MediaType::rtp_offset()` value.
#[derive(Debug, Clone, Copy, PartialEq, Eq, Structural)]
pub enum RtpOffset {
    /// Directly re-validated against captured traffic.
    Confirmed(usize),
    /// Best-effort, not independently confirmed. Fine to try, but don't
    /// assert on the result.
    Unconfirmed(usize),
    /// This type isn't RTP/RTCP; there's nothing to offset into.
    NoOffset,
}

impl MediaType {
    /// Video, audio and both kinds of screen share.
    pub open spec fn is_active(self) -> bool {
        ||| self is Video
        ||| self is Audio
        ||| self is ScreenShareServer
        ||| self is ScreenShareOptimized
    }

    /// Where RTP/RTCP starts, counted from the Media Encapsulation Type byte.
    pub open spec fn rtp_offset_of(self) -> RtpOffset {
        match self {
            MediaType::Video => RtpOffset::Confirmed(24),
            MediaType::Audio => RtpOffset::Confirmed(19),
            MediaType::ScreenShareServer => RtpOffset::Confirmed(27),
            MediaType::ScreenShareOptimized => RtpOffset::Unconfirmed(27),
            MediaType::RtcpSenderReport => RtpOffset::Confirmed(16),
            _ => RtpOffset::NoOffset,
        }
    }

    /// Classify a Media Encapsulation Type byte.
    pub fn from_type_byte(b: u8) -> (r: Self)
        ensures
            r == media_type_of(b),
    {
        match b {
            16 => MediaType::Video,
            15 => MediaType::Audio,
            13 => MediaType::ScreenShareServer,
            30 => MediaType::ScreenShareOptimized,
            34 | 33 => MediaType::RtcpSenderReport,
            21 => MediaType::Unknown21,
            10 => MediaType::Keepalive10,
            other => MediaType::Other(other),
        }
    }

    /// `true` for the media types that count toward "is this meeting doing
    /// audio/video/screenshare right now". Type 21, keepalives, RTCP and
    /// unexplained types are excluded: Type 21 in particular is present
    /// for the whole meeting and would make every meeting look active.
    pub fn is_active_media_signal(&self) -> (r: bool)
        ensures
            r == self.is_active(),
    {
        matches!(
            self,
            MediaType::Video
                | MediaType::Audio
                | MediaType::ScreenShareServer
                | MediaType::ScreenShareOptimized
        )
    }

    /// Offset, in bytes from the start of the Media Encapsulation header,
    /// where the real RTP/RTCP header begins. Types 13 and 30 share their
    /// RTP payload-type distribution, so Type 30 reuses Type 13's offset,
    /// marked `Unconfirmed`. Types that aren't RTP/RTCP (21, 10 and the
    /// unexplained ones) get `RtpOffset::NoOffset`, so callers don't parse RTP
    /// out of an opaque channel.
    pub fn rtp_offset(&self) -> (r: RtpOffset)
        ensures
            r == self.rtp_offset_of(),
    {
        match self {
            MediaType::Video => RtpOffset::Confirmed(24),
            MediaType::Audio => RtpOffset::Confirmed(19),
            MediaType::ScreenShareServer => RtpOffset::Confirmed(27),
            MediaType::ScreenShareOptimized => RtpOffset::Unconfirmed(27),
            MediaType::RtcpSenderReport => RtpOffset::Confirmed(16),
            MediaType::Unknown21 | MediaType::Keepalive10 | MediaType::Other(_) => RtpOffset::NoOffset,
        }
    }
}

impl RtpOffset {
    /// The offset, confirmed or not; nothing for a non-RTP type.
    pub open spec fn value_of(self) -> Option<usize> {
        match self {
            RtpOffset::Confirmed(n) => Some(n),
            RtpOffset::Unconfirmed(n) => Some(n),
            RtpOffset::NoOffset => None,
        }
    }

    pub fn value(&self) -> (r: Option<usize>)
        ensures
            r == self.value_of(),
    {
        match self {
            RtpOffset::Confirmed(n) | RtpOffset::Unconfirmed(n) => Some(*n),
            RtpOffset::NoOffset => None,
        }
    }
}

/// Media Encapsulation header (inner; present on both P2P and
/// server-relayed traffic). Only the fields this crate uses are pulled out.
#[derive(Debug, Clone, Copy)]
pub struct MediaHeader {
    /// Byte 0, unparsed, kept beside `media_type` so that the raw value of
    /// an `Other` type can still be logged.
    pub raw_type: u8,
    pub media_type: MediaType,
    /// Inner sequence number, bytes 9-10.
    pub sequence: u16,
    /// Media sampling timestamp, bytes 11-14.
    pub timestamp: u32,
    /// Frame sequence number, bytes 21-22: video only (`None` for every
    /// other type, and also `None` if the buffer is too short to contain it).
    pub frame_seq: Option<u16>,
    /// Packets in this frame, byte 23: video only, same caveats.
    pub frame_pkt_count: Option<u8>,
}

/// What `parse_media_header` makes of `b`: a header when `b` holds at
/// least `MEDIA_HEADER_MIN_LEN` bytes, with the frame fields present
/// exactly when the type is video and `b` reaches them.
pub open spec fn media_header_of(b: Seq<u8>) -> Option<MediaHeader> {
    if b.len() < MEDIA_HEADER_MIN_LEN {
        None
    } else {
        Some(
            MediaHeader {
                raw_type: b[0],
                media_type: media_type_of(b[0]),
                sequence: be_u16(b[9], b[10]),
                timestamp: be_u32(b[11], b[12], b[13], b[14]),
                frame_seq: if media_type_of(b[0]) is Video && b.len() >= 23 {
                    Some(be_u16(b[21], b[22]))
                } else {
                    None
                },
                frame_pkt_count: if media_type_of(b[0]) is Video && b.len() >= 24 {
                    Some(b[23])
                } else {
                    None
                },
            },
        )
    }
}

/// Parse a Media Encapsulation header from `buf`, which must start at the
/// Media Encapsulation Type byte (i.e., already past the SFU header if one
/// was present).
pub fn parse_media_header(buf: &[u8]) -> (r: Option<MediaHeader>)
    ensures
        r == media_header_of(buf@),
{
    if buf.len() < MEDIA_HEADER_MIN_LEN {
        return None;
    }
    let raw_type = buf[0];
    let media_type = MediaType::from_type_byte(raw_type);
    let sequence = u16_from_be(buf[9], buf[10]);
    let timestamp = u32_from_be(buf[11], buf[12], buf[13], buf[14]);

    // The frame fields exist in video headers only.
    let is_video = matches!(media_type, MediaType::Video);
    let frame_seq = if is_video && buf.len() >= 23 {
        Some(u16_from_be(buf[21], buf[22]))
    } else {
        None
    };
    let frame_pkt_count = if is_video && buf.len() >= 24 {
        Some(buf[23])
    } else {
        None
    };

    Some(MediaHeader { raw_type, media_type, sequence, timestamp, frame_seq, frame_pkt_count })
}

/// What `parse_zoom_headers` makes of a UDP payload `b`: when `b` opens
/// with an SFU header, the Media Encapsulation header right after it (and
/// nothing if that one does not parse); otherwise `b` read as a Media
/// Encapsulation header on its own. The third component is the part of
/// `b` that starts at the Media Encapsulation Type byte.
pub open spec fn zoom_headers_of(b: Seq<u8>) -> Option<(MediaHeader, Option<SfuHeader>, Seq<u8>)> {
    match sfu_header_of(b) {
        Some(sfu) => {
            let rest = b.skip(SFU_HEADER_LEN as int);
            match media_header_of(rest) {
                Some(media) => Some((media, Some(sfu), rest)),
                None => None,
            }
        },
        None => match media_header_of(b) {
            Some(media) => Some((media, None, b)),
            None => None,
        },
    }
}

/// Given `buf` = the full UDP payload, unwrap the SFU header (if present)
/// and locate the Media Encapsulation header. Returns
/// `(media_header, sfu_header, remaining_after_media_header)` where the
/// last component starts at the Media Encapsulation Type byte; callers use
/// `media_header.media_type.rtp_offset()` from there to find RTP/RTCP.
pub fn parse_zoom_headers(buf: &[u8]) -> (r: Option<(MediaHeader, Option<SfuHeader>, &[u8])>)
    ensures
        r is Some <==> zoom_headers_of(buf@) is Some,
        r matches Some((m, s, rest)) ==> zoom_headers_of(buf@) == Some((m, s, rest@)),
{
    if let Some(sfu) = parse_sfu_header(buf) {
        let (_, rest) = buf.split_at(SFU_HEADER_LEN);
        assert(rest@ == buf@.skip(SFU_HEADER_LEN as int));
        let media = parse_media_header(rest)?;
        Some((media, Some(sfu), rest))
    } else {
        // No SFU header recognized: either P2P traffic or not Zoom at all.
        let media = parse_media_header(buf)?;
        Some((media, None, buf))
    }
}

/// The first byte's top two bits are `10`, i.e. RTP version 2.
pub open spec fn rtp_version_2_of(b: Seq<u8>) -> bool {
    b.len() > 0 && b[0] / 64 == 2
}

/// Loose sanity check that `bytes`, read as an RTP header, has version 2
/// (the constant part of RFC 3550's first byte: top two bits == `10`).
/// A `false` here means "this offset was probably wrong", not "drop the
/// packet".
pub fn looks_like_rtp_version_2(bytes: &[u8]) -> (r: bool)
    ensures
        r == rtp_version_2_of(bytes@),
{
    if bytes.len() == 0 {
        return false;
    }
    let b = bytes[0];
    assert((((b >> 6u8) & 3u8) == 2u8) == (b / 64 == 2)) by (bit_vector);
    (b >> 6) & 0b11 == 2
}

/// Every type that counts as active media (video, audio, either kind of
/// screen share) is RTP and has an RTP offset to parse from.
pub proof fn lemma_active_media_has_rtp_offset(m: MediaType)
    ensures
        m.is_active() ==> m.rtp_offset_of().value_of() is Some,
{
}

/// Type 21, present for as long as a meeting is open, is neither an
/// active-media signal nor RTP.
pub proof fn lemma_type_21_is_inert()
    ensures
        !media_type_of(21).is_active(),
        media_type_of(21).rtp_offset_of() == RtpOffset::NoOffset,
{
}

/// Classification keys on the Type byte alone, and an unexplained type
/// keeps its raw byte.
pub proof fn lemma_other_keeps_raw_byte(b: u8)
    ensures
        media_type_of(b) matches MediaType::Other(x) ==> x == b,
        media_type_of(b) is Other <==> !(b == 16 || b == 15 || b == 13 || b == 30 || b == 34
            || b == 33 || b == 21 || b == 10),
{
}

/// The direction flag is one bit of byte 7: setting or clearing the other
/// bits (such as the unexplained 0x01 bit) never changes it.
pub proof fn lemma_direction_is_a_bitmask(h: SfuHeader, other_bits: u8)
    requires
        other_bits & 4u8 == 0u8,
    ensures
        (SfuHeader { direction_raw: h.direction_raw | other_bits, ..h }).is_from_sfu()
            == h.is_from_sfu(),
        (SfuHeader { direction_raw: h.direction_raw & !other_bits, ..h }).is_from_sfu()
            == h.is_from_sfu(),
{
    let d = h.direction_raw;
    assert(((d | other_bits) / 4) % 2 == (d / 4) % 2) by (bit_vector)
        requires
            other_bits & 4u8 == 0u8,
    ;
    assert(((d & !other_bits) / 4) % 2 == (d / 4) % 2) by (bit_vector)
        requires
            other_bits & 4u8 == 0u8,
    ;
}

/// How a UDP payload is read. An SFU-framed payload (at least 8 bytes,
/// first byte 0x05) carries its Media Encapsulation header right after the
/// 8 SFU bytes, and is never re-read as P2P when that inner header is too
/// short; any other payload is read as a bare Media Encapsulation header.
/// Whatever is found, the located part is a suffix of the payload, at least
/// 15 bytes long, and the media header is the one read from it.
pub proof fn lemma_zoom_headers_layout(b: Seq<u8>)
    ensures
        sfu_header_of(b) is Some ==> (zoom_headers_of(b) is Some <==> b.len()
            >= SFU_HEADER_LEN + MEDIA_HEADER_MIN_LEN),
        sfu_header_of(b) is None ==> (zoom_headers_of(b) is Some <==> b.len()
            >= MEDIA_HEADER_MIN_LEN),
        zoom_headers_of(b) matches Some((m, s, rest)) ==> {
            &&& s == sfu_header_of(b)
            &&& rest.len() >= MEDIA_HEADER_MIN_LEN
            &&& rest == b.skip(b.len() - rest.len())
            &&& media_header_of(rest) == Some(m)
            &&& m.media_type == media_type_of(m.raw_type)
        },
{
    if sfu_header_of(b) is Some {
        assert(b.skip(SFU_HEADER_LEN as int) == b.skip(b.len() - (b.len() - 8)));
    } else {
        assert(b.skip(0) == b);
    }
}

/// What a Media Encapsulation header holds, byte by byte: it exists exactly
/// when the buffer has 15 bytes; the sequence number is bytes 9-10 and the
/// timestamp bytes 11-14, most significant first; the frame sequence number
/// (bytes 21-22) and the frame's packet count (byte 23) are present exactly
/// for a video header (type byte 16) whose buffer reaches them.
pub proof fn lemma_media_header_bytes(b: Seq<u8>)
    ensures
        media_header_of(b) is Some <==> b.len() >= 15,
        media_header_of(b) matches Some(m) ==> {
            &&& m.raw_type == b[0]
            &&& m.sequence as int == b[9] * 256 + b[10]
            &&& m.timestamp as int == b[11] * 16777216 + b[12] * 65536 + b[13] * 256 + b[14]
            &&& (m.media_type is Video <==> b[0] == 16)
            &&& (m.media_type is Audio <==> b[0] == 15)
            &&& (m.frame_seq is Some <==> (b[0] == 16 && b.len() >= 23))
            &&& (m.frame_seq matches Some(f) ==> f as int == b[21] * 256 + b[22])
            &&& (m.frame_pkt_count is Some <==> (b[0] == 16 && b.len() >= 24))
            &&& (m.frame_pkt_count matches Some(c) ==> c == b[23])
        },
{
}

/// Bytes after the header never change it: reading a longer buffer gives
/// the same type, sequence number and timestamp, and keeps every frame field
/// that the shorter buffer already had.
pub proof fn lemma_media_header_extends(b: Seq<u8>, more: Seq<u8>)
    ensures
        media_header_of(b) matches Some(m) ==> media_header_of(b + more) matches Some(m2) && {
            &&& m2.raw_type == m.raw_type
            &&& m2.media_type == m.media_type
            &&& m2.sequence == m.sequence
            &&& m2.timestamp == m.timestamp
            &&& (m.frame_seq is Some ==> m2.frame_seq == m.frame_seq)
            &&& (m.frame_pkt_count is Some ==> m2.frame_pkt_count == m.frame_pkt_count)
        },
{
    let c = b + more;
    assert forall|i: int| 0 <= i < b.len() implies c[i] == b[i] by {}
}

/// Where the Media Encapsulation header is found. A payload that opens with
/// an SFU header (8 bytes or more, first byte 0x05) has it at byte 8, and
/// the SFU header's direction byte is byte 7. Any other payload is read from
/// byte 0, whole, with no SFU header.
pub proof fn lemma_zoom_headers_locate(b: Seq<u8>)
    ensures
        (b.len() >= 8 && b[0] == 5) ==> {
            &&& (zoom_headers_of(b) is Some <==> b.len() >= 23)
            &&& zoom_headers_of(b) matches Some((m, s, rest)) ==> {
                &&& s matches Some(h) && h.direction_raw == b[7] && h.raw_type == 5
                    && h.sequence as int == b[1] * 256 + b[2]
                &&& rest =~= b.subrange(8, b.len() as int)
                &&& m.raw_type == b[8]
            }
        },
        !(b.len() >= 8 && b[0] == 5) ==> {
            &&& (zoom_headers_of(b) is Some <==> b.len() >= 15)
            &&& zoom_headers_of(b) matches Some((m, s, rest)) ==> {
                &&& s is None
                &&& rest == b
                &&& m.raw_type == b[0]
            }
        },
{
    lemma_media_header_bytes(b);
    lemma_media_header_bytes(b.skip(8));
}

} // verus!
