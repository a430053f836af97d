use media_vault_core::names::encode_name;
use media_vault_core::probe::{
    is_video_name, parse_duration_ms, parse_probe_report, simplify_framerate,
    video_info_from_fields,
};

#[test]
fn test_is_video_name_plain() {
    assert!(is_video_name("movie.mp4"));
    assert!(is_video_name("MOVIE.MKV"));
    assert!(!is_video_name("notes.txt"));
    assert!(!is_video_name("archive"));
}

#[test]
fn test_is_video_name_encoded() {
    // The decoded display name decides for an encoded file.
    assert!(is_video_name(&encode_name("clip.webm")));
    assert!(!is_video_name(&encode_name("clip.pdf")));
}

#[test]
fn test_is_video_name_marker_without_payload() {
    // A marker-carrying name whose payload does not decode is no video,
    // whatever extension the raw name shows.
    assert!(!is_video_name(".dat_x.mp4"));
}

#[test]
fn test_simplify_framerate_ntsc() {
    assert_eq!(simplify_framerate("30000/1001"), "29.97");
}

#[test]
fn test_simplify_framerate_integer() {
    assert_eq!(simplify_framerate("25/1"), "25.00");
}

#[test]
fn test_simplify_framerate_half() {
    assert_eq!(simplify_framerate("48/2"), "24.00");
    assert_eq!(simplify_framerate("50/3"), "16.67");
}

#[test]
fn test_simplify_framerate_passthrough() {
    assert_eq!(simplify_framerate("24"), "24");
    assert_eq!(simplify_framerate("0/0"), "0/0");
    assert_eq!(simplify_framerate("abc"), "abc");
    assert_eq!(simplify_framerate("12/x"), "12/x");
}

#[test]
fn test_parse_duration_ms_values() {
    assert_eq!(parse_duration_ms("600"), Some(600_000));
    assert_eq!(parse_duration_ms("12.5"), Some(12_500));
    assert_eq!(parse_duration_ms("123.456"), Some(123_456));
    assert_eq!(parse_duration_ms("1.9999"), Some(1_999));
    assert_eq!(parse_duration_ms(".5"), Some(500));
    assert_eq!(parse_duration_ms("7."), Some(7_000));
}

#[test]
fn test_parse_duration_ms_rejects() {
    assert_eq!(parse_duration_ms(""), None);
    assert_eq!(parse_duration_ms("."), None);
    assert_eq!(parse_duration_ms("1e3"), None);
    assert_eq!(parse_duration_ms("12.3.4"), None);
    assert_eq!(parse_duration_ms("-5"), None);
}

#[test]
fn test_video_info_aspect_ratio_filter() {
    let info = video_info_from_fields(
        10,
        None,
        None,
        None,
        None,
        Some("0:1".to_string()),
        None,
        None,
    );
    assert_eq!(info.display_aspect_ratio, None);
    let info = video_info_from_fields(
        10,
        None,
        None,
        None,
        None,
        Some("16:9".to_string()),
        None,
        None,
    );
    assert_eq!(info.display_aspect_ratio, Some("16:9".to_string()));
}

#[test]
fn test_video_info_duration_default() {
    // A missing or malformed duration becomes 0, never an error.
    let info = video_info_from_fields(10, None, None, None, None, None, None, None);
    assert_eq!(info.duration_ms, 0);
    let info = video_info_from_fields(
        10,
        Some("N/A".to_string()),
        None,
        None,
        None,
        None,
        None,
        None,
    );
    assert_eq!(info.duration_ms, 0);
}

#[test]
fn test_parse_probe_report_full() {
    let report = br#"{
        "format": {"duration": "600.5", "bit_rate": "128000"},
        "streams": [{
            "width": 1920,
            "height": 1080,
            "display_aspect_ratio": "16:9",
            "codec_name": "h264",
            "r_frame_rate": "30000/1001"
        }]
    }"#;
    let info = parse_probe_report(report, 4_096).unwrap();
    assert_eq!(info.file_size_bytes, 4_096);
    assert_eq!(info.duration_ms, 600_500);
    assert_eq!(info.bitrate, Some(128_000));
    assert_eq!(info.width, Some(1920));
    assert_eq!(info.height, Some(1080));
    assert_eq!(info.display_aspect_ratio, Some("16:9".to_string()));
    assert_eq!(info.codec, Some("h264".to_string()));
    assert_eq!(info.framerate, Some("29.97".to_string()));
}

#[test]
fn test_parse_probe_report_degenerate_aspect() {
    let report = br#"{
        "format": {"duration": "1.0"},
        "streams": [{"display_aspect_ratio": "0:1"}]
    }"#;
    let info = parse_probe_report(report, 1).unwrap();
    assert_eq!(info.display_aspect_ratio, None);
    assert_eq!(info.duration_ms, 1_000);
    assert_eq!(info.bitrate, None);
}

#[test]
fn test_parse_probe_report_malformed() {
    assert!(parse_probe_report(b"not json at all", 1).is_none());
}
