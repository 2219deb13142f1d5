use zoom_capture::common::headers::{
    looks_like_rtp_version_2, parse_media_header, parse_sfu_header, parse_zoom_headers, MediaType,
    RtpOffset, SfuHeader, MEDIA_HEADER_MIN_LEN, SFU_HEADER_LEN, SFU_TYPE_MEDIA_FOLLOWS,
};

fn make_sfu_and_media(media_type: u8, dir: u8) -> Vec<u8> {
    let mut buf = vec![0u8; SFU_HEADER_LEN + MEDIA_HEADER_MIN_LEN + 16];
    buf[0] = SFU_TYPE_MEDIA_FOLLOWS;
    buf[1] = 0x00;
    buf[2] = 0x2a; // outer seq = 42
    buf[7] = dir;
    buf[SFU_HEADER_LEN] = media_type; // media type byte
    buf
}

#[test]
fn parses_sfu_then_media_video() {
    let buf = make_sfu_and_media(16, 0x05); // dir = from_sfu | unknown bit
    let (media, sfu, _rest) = parse_zoom_headers(&buf).expect("should parse");
    let sfu = sfu.expect("SFU header should be present");
    assert_eq!(sfu.sequence, 0x2a);
    assert!(sfu.from_sfu(), "0x05 has the 0x04 bit set");
    assert_eq!(media.media_type, MediaType::Video);
    assert_eq!(media.media_type.rtp_offset(), RtpOffset::Confirmed(24));
}

#[test]
fn direction_is_a_bitmask_not_an_equality() {
    // dir == 1 alone (no 0x04 bit) must NOT read as "from SFU".
    let buf = make_sfu_and_media(15, 0x01);
    let (_media, sfu, _rest) = parse_zoom_headers(&buf).expect("should parse");
    assert!(!sfu.unwrap().from_sfu());
}

#[test]
fn unknown21_has_no_rtp_offset_and_is_not_an_active_signal() {
    let mt = MediaType::from_type_byte(21);
    assert_eq!(mt.rtp_offset(), RtpOffset::NoOffset);
    assert!(!mt.is_active_media_signal());
}

#[test]
fn too_short_buffer_does_not_panic() {
    assert!(parse_zoom_headers(&[0x05, 0x00]).is_none());
}

#[test]
fn every_type_byte_classifies_as_documented() {
    assert_eq!(MediaType::from_type_byte(16), MediaType::Video);
    assert_eq!(MediaType::from_type_byte(15), MediaType::Audio);
    assert_eq!(MediaType::from_type_byte(13), MediaType::ScreenShareServer);
    assert_eq!(MediaType::from_type_byte(30), MediaType::ScreenShareOptimized);
    assert_eq!(MediaType::from_type_byte(33), MediaType::RtcpSenderReport);
    assert_eq!(MediaType::from_type_byte(34), MediaType::RtcpSenderReport);
    assert_eq!(MediaType::from_type_byte(21), MediaType::Unknown21);
    assert_eq!(MediaType::from_type_byte(10), MediaType::Keepalive10);
    assert_eq!(MediaType::from_type_byte(7), MediaType::Other(7));
    assert_eq!(MediaType::from_type_byte(0), MediaType::Other(0));
    assert_eq!(MediaType::from_type_byte(255), MediaType::Other(255));
}

#[test]
fn active_media_signal_is_video_audio_and_screen_share_only() {
    for b in 0..=255u8 {
        let mt = MediaType::from_type_byte(b);
        let expected = b == 16 || b == 15 || b == 13 || b == 30;
        assert_eq!(mt.is_active_media_signal(), expected, "type byte {b}");
        if expected {
            assert!(mt.rtp_offset().value().is_some(), "type byte {b}");
        }
    }
}

#[test]
fn rtp_offsets_per_type() {
    assert_eq!(MediaType::Video.rtp_offset(), RtpOffset::Confirmed(24));
    assert_eq!(MediaType::Audio.rtp_offset(), RtpOffset::Confirmed(19));
    assert_eq!(MediaType::ScreenShareServer.rtp_offset(), RtpOffset::Confirmed(27));
    assert_eq!(MediaType::ScreenShareOptimized.rtp_offset(), RtpOffset::Unconfirmed(27));
    assert_eq!(MediaType::RtcpSenderReport.rtp_offset(), RtpOffset::Confirmed(16));
    assert_eq!(MediaType::Keepalive10.rtp_offset(), RtpOffset::NoOffset);
    assert_eq!(MediaType::Other(7).rtp_offset(), RtpOffset::NoOffset);
    assert_eq!(RtpOffset::Confirmed(24).value(), Some(24));
    assert_eq!(RtpOffset::Unconfirmed(27).value(), Some(27));
    assert_eq!(RtpOffset::NoOffset.value(), None);
}

#[test]
fn sfu_header_fields_and_rejections() {
    let buf = [0x05u8, 0x12, 0x34, 0xaa, 0xbb, 0xcc, 0xdd, 0x04];
    let h = parse_sfu_header(&buf).expect("8 bytes starting with 0x05");
    assert_eq!(h.raw_type, 0x05);
    assert_eq!(h.sequence, 0x1234);
    assert_eq!(h.direction_raw, 0x04);
    assert!(h.from_sfu());
    // one byte short
    assert!(parse_sfu_header(&buf[..7]).is_none());
    // wrong type byte
    let mut other = buf;
    other[0] = 0x06;
    assert!(parse_sfu_header(&other).is_none());
}

#[test]
fn direction_values_seen_in_traffic() {
    for (dir, from) in [(0u8, false), (1, false), (4, true), (5, true)] {
        let h = SfuHeader { raw_type: 5, sequence: 0, direction_raw: dir };
        assert_eq!(h.from_sfu(), from, "direction byte {dir}");
    }
}

#[test]
fn media_header_fields_are_big_endian() {
    let mut buf = vec![0u8; 24];
    buf[0] = 16;
    buf[9] = 0x01;
    buf[10] = 0x02;
    buf[11] = 0xde;
    buf[12] = 0xad;
    buf[13] = 0xbe;
    buf[14] = 0xef;
    buf[21] = 0x03;
    buf[22] = 0x04;
    buf[23] = 7;
    let m = parse_media_header(&buf).expect("24 bytes");
    assert_eq!(m.raw_type, 16);
    assert_eq!(m.media_type, MediaType::Video);
    assert_eq!(m.sequence, 0x0102);
    assert_eq!(m.timestamp, 0xdead_beef);
    assert_eq!(m.frame_seq, Some(0x0304));
    assert_eq!(m.frame_pkt_count, Some(7));
}

#[test]
fn media_header_frame_fields_depend_on_length() {
    let mut buf = vec![15u8; 24];
    buf[0] = 16; // video
    assert!(parse_media_header(&buf[..14]).is_none());
    let m15 = parse_media_header(&buf[..15]).unwrap();
    assert_eq!(m15.frame_seq, None);
    assert_eq!(m15.frame_pkt_count, None);
    let m23 = parse_media_header(&buf[..23]).unwrap();
    assert_eq!(m23.frame_seq, Some(0x0f0f));
    assert_eq!(m23.frame_pkt_count, None);
    let m24 = parse_media_header(&buf[..24]).unwrap();
    assert_eq!(m24.frame_pkt_count, Some(15));
}

#[test]
fn frame_fields_are_video_only() {
    for t in [15u8, 13, 30, 33, 34, 21, 10, 7] {
        let mut buf = vec![9u8; 1024];
        buf[0] = t;
        let m = parse_media_header(&buf).unwrap();
        assert_eq!(m.frame_seq, None, "type {t}");
        assert_eq!(m.frame_pkt_count, None, "type {t}");
    }
}

#[test]
fn p2p_layout_reads_media_header_directly() {
    let mut buf = vec![0u8; 15];
    buf[0] = 16;
    let (media, sfu, rest) = parse_zoom_headers(&buf).expect("15 bytes, no SFU type");
    assert!(sfu.is_none());
    assert_eq!(media.media_type, MediaType::Video);
    assert_eq!(rest.len(), 15);
}

#[test]
fn sfu_framed_payload_with_short_media_header_is_not_reread_as_p2p() {
    // 8 SFU bytes + 14 media bytes: one byte short of a media header.
    let mut buf = vec![0u8; 22];
    buf[0] = SFU_TYPE_MEDIA_FOLLOWS;
    buf[8] = 16;
    assert!(parse_zoom_headers(&buf).is_none());
    // one more byte and it parses, with the media header right after the SFU bytes
    buf.push(0);
    let (media, sfu, rest) = parse_zoom_headers(&buf).unwrap();
    assert!(sfu.is_some());
    assert_eq!(media.raw_type, 16);
    assert_eq!(rest.len(), 15);
    assert_eq!(rest[0], 16);
}

#[test]
fn rtp_version_check() {
    assert!(looks_like_rtp_version_2(&[0x80, 0x60]));
    assert!(looks_like_rtp_version_2(&[0xbf]));
    assert!(!looks_like_rtp_version_2(&[0x40]));
    assert!(!looks_like_rtp_version_2(&[0xc0]));
    assert!(!looks_like_rtp_version_2(&[]));
}
