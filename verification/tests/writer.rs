use std::time::Duration;
use zoom_capture::common::headers::{parse_media_header, parse_sfu_header, MediaType};
use zoom_capture::common::stats::summary_line;
use zoom_capture::common::writer::{opt_bool, opt_u16, opt_u8, PacketRecord, CSV_HEADER};

#[test]
fn labels_per_media_type() {
    assert_eq!(PacketRecord::label_for(&MediaType::Video), "video");
    assert_eq!(PacketRecord::label_for(&MediaType::Audio), "audio");
    assert_eq!(PacketRecord::label_for(&MediaType::ScreenShareServer), "screen_share_server");
    assert_eq!(PacketRecord::label_for(&MediaType::ScreenShareOptimized), "screen_share_optimized");
    assert_eq!(PacketRecord::label_for(&MediaType::RtcpSenderReport), "rtcp_sr");
    assert_eq!(PacketRecord::label_for(&MediaType::Unknown21), "unknown_21");
    assert_eq!(PacketRecord::label_for(&MediaType::Keepalive10), "keepalive_10");
    assert_eq!(PacketRecord::label_for(&MediaType::Other(7)), "other");
}

#[test]
fn optional_columns_render_empty_or_as_rust_displays_them() {
    assert_eq!(opt_bool(None), "");
    assert_eq!(opt_bool(Some(true)), "true");
    assert_eq!(opt_bool(Some(false)), "false");
    assert_eq!(opt_u16(None), "");
    assert_eq!(opt_u16(Some(0)), "0");
    assert_eq!(opt_u16(Some(65535)), "65535");
    assert_eq!(opt_u16(Some(1000)), "1000");
    assert_eq!(opt_u8(None), "");
    assert_eq!(opt_u8(Some(9)), "9");
    assert_eq!(opt_u8(Some(10)), "10");
    assert_eq!(opt_u8(Some(255)), "255");
}

fn sample_record() -> PacketRecord {
    let sfu_bytes = [0x05u8, 0x00, 0x2a, 0, 0, 0, 0, 0x05];
    let mut media_bytes = vec![0u8; 24];
    media_bytes[0] = 16;
    media_bytes[10] = 42;
    media_bytes[11] = 0x01;
    media_bytes[22] = 3;
    media_bytes[23] = 4;
    PacketRecord::from_headers(
        Duration::from_millis(1500),
        200,
        "10.184.0.181".to_string(),
        "144.195.28.40".to_string(),
        50000,
        8801,
        parse_sfu_header(&sfu_bytes),
        parse_media_header(&media_bytes).unwrap(),
    )
}

#[test]
fn from_headers_copies_every_field() {
    let r = sample_record();
    assert_eq!(r.time_offset, Duration::from_millis(1500));
    assert_eq!(r.sfu_direction_from_sfu, Some(true));
    assert_eq!(r.media_type_byte, 16);
    assert_eq!(r.media_type_label, "video");
    assert_eq!(r.media_sequence, 42);
    assert_eq!(r.media_timestamp, 0x0100_0000);
    assert_eq!(r.frame_seq, Some(3));
    assert_eq!(r.frame_pkt_count, Some(4));
    assert!(r.is_active_media_signal);
}

#[test]
fn csv_columns_follow_the_header() {
    let r = sample_record();
    assert_eq!(
        r.csv_columns(),
        "200,10.184.0.181,144.195.28.40,50000,8801,true,16,video,42,16777216,3,4,true"
    );
    let header_columns = CSV_HEADER.split(',').count();
    let row_columns = 1 + r.csv_columns().split(',').count();
    assert_eq!(header_columns, row_columns);
    assert!(CSV_HEADER.starts_with("time_offset_s,frame_len,"));
}

#[test]
fn csv_columns_of_a_p2p_audio_packet_leave_missing_fields_empty() {
    let mut media_bytes = vec![0u8; 15];
    media_bytes[0] = 15;
    let r = PacketRecord::from_headers(
        Duration::from_secs(0),
        60,
        "a".to_string(),
        "b".to_string(),
        1,
        2,
        None,
        parse_media_header(&media_bytes).unwrap(),
    );
    assert_eq!(r.csv_columns(), "60,a,b,1,2,,15,audio,0,0,,,true");
}

#[test]
fn summary_line_format() {
    assert_eq!(
        summary_line(10, 2, 7, 1, 5),
        "zoom_capture stats: seen=10 ip_filtered=2 matched=7 unmatched=1 active_media=5"
    );
    assert_eq!(
        summary_line(0, 0, 0, 0, u64::MAX),
        "zoom_capture stats: seen=0 ip_filtered=0 matched=0 unmatched=0 active_media=18446744073709551615"
    );
}
