use convertify::probe::{
    parse_duration_ms, parse_probe_output, parse_u64_text, version_line, ProbeError, StreamType,
};

fn sample_json() -> String {
    r#"{
        "format": {
            "filename": "movie.mkv",
            "format_name": "matroska,webm",
            "format_long_name": "Matroska / WebM",
            "duration": "5312.480000",
            "size": "123456789",
            "bit_rate": "185000"
        },
        "streams": [
            {"index": 0, "codec_type": "video", "codec_name": "h264",
             "width": 1920, "height": 1080, "r_frame_rate": "24/1", "pix_fmt": "yuv420p"},
            {"index": 1, "codec_type": "audio", "codec_name": "aac",
             "sample_rate": "48000", "channels": 2, "channel_layout": "stereo"},
            {"index": 2, "codec_type": "subtitle",
             "tags": {"language": "eng", "title": "English"}}
        ]
    }"#
    .to_string()
}

#[test]
fn probe_output_full_record() {
    let info = parse_probe_output("media/movie.mkv", &sample_json()).unwrap();
    assert_eq!(info.path, "media/movie.mkv");
    assert_eq!(info.filename, "movie.mkv");
    assert_eq!(info.format.format_name, "matroska,webm");
    assert_eq!(info.format.format_long_name, "Matroska / WebM");
    assert_eq!(info.format.duration_ms, Some(5_312_480));
    assert_eq!(info.format.size, Some(123_456_789));
    assert_eq!(info.format.bit_rate, Some(185_000));
    assert_eq!(info.streams.len(), 3);
    assert!(info.has_video && info.has_audio && info.has_subtitles);

    let v = &info.streams[0];
    assert_eq!(v.index, 0);
    assert!(matches!(v.stream_type, StreamType::Video));
    assert_eq!(v.codec_name.as_deref(), Some("h264"));
    assert_eq!(v.width, Some(1920));
    assert_eq!(v.height, Some(1080));
    assert_eq!(v.frame_rate.as_deref(), Some("24/1"));
    assert_eq!(v.pix_fmt.as_deref(), Some("yuv420p"));

    let a = &info.streams[1];
    assert!(matches!(a.stream_type, StreamType::Audio));
    assert_eq!(a.sample_rate.as_deref(), Some("48000"));
    assert_eq!(a.channels, Some(2));
    assert_eq!(a.channel_layout.as_deref(), Some("stereo"));

    let s = &info.streams[2];
    assert!(matches!(s.stream_type, StreamType::Subtitle));
    assert_eq!(s.language.as_deref(), Some("eng"));
    assert_eq!(s.title.as_deref(), Some("English"));
}

#[test]
fn probe_output_lenient_numbers() {
    let json = "{\"format\": {\"format_name\": \"mp4\", \"duration\": \"N/A\", \"size\": \"12x\"}}";
    let info = parse_probe_output("a.mp4", json).unwrap();
    assert_eq!(info.format.duration_ms, None);
    assert_eq!(info.format.size, None);
    assert_eq!(info.streams.len(), 0);
    assert!(!info.has_video && !info.has_audio && !info.has_subtitles);
}

#[test]
fn probe_output_missing_format_section() {
    let e = parse_probe_output("a.mp4", "{\"streams\": []}").unwrap_err();
    assert!(matches!(&e, ProbeError::ParseFailed(m) if m == "Missing format info"));
    assert_eq!(
        e.message(),
        "Failed to parse ffprobe output: Missing format info"
    );
}

#[test]
fn probe_output_invalid_json() {
    let e = parse_probe_output("a.mp4", "this is not json").unwrap_err();
    assert!(matches!(e, ProbeError::ParseFailed(_)));
}

#[test]
fn probe_filename_fallback() {
    let info = parse_probe_output("trailing/", "{\"format\": {}}").unwrap();
    assert_eq!(info.filename, "trailing/");
}

#[test]
fn duration_parsing() {
    assert_eq!(parse_duration_ms("3.5"), Some(3_500));
    assert_eq!(parse_duration_ms("10"), Some(10_000));
    assert_eq!(parse_duration_ms("0.001"), Some(1));
    assert_eq!(parse_duration_ms("5312.480000"), Some(5_312_480));
    assert_eq!(parse_duration_ms("abc"), None);
    assert_eq!(parse_duration_ms(""), None);
    assert_eq!(parse_duration_ms("1.2.3"), None);
    assert_eq!(parse_duration_ms("."), None);
}

#[test]
fn u64_text_parsing() {
    assert_eq!(parse_u64_text("123"), Some(123));
    assert_eq!(parse_u64_text("0"), Some(0));
    assert_eq!(parse_u64_text("12a"), None);
    assert_eq!(parse_u64_text(""), None);
    assert_eq!(parse_u64_text("18446744073709551615"), Some(u64::MAX));
    assert_eq!(parse_u64_text("18446744073709551616"), None);
}

#[test]
fn stream_type_names() {
    assert!(matches!(StreamType::from("video"), StreamType::Video));
    assert!(matches!(StreamType::from("audio"), StreamType::Audio));
    assert!(matches!(StreamType::from("subtitle"), StreamType::Subtitle));
    assert!(matches!(StreamType::from("data"), StreamType::Data));
    assert!(matches!(StreamType::from("attachment"), StreamType::Attachment));
    assert!(matches!(StreamType::from("anything"), StreamType::Unknown));
}

#[test]
fn version_line_extraction() {
    assert_eq!(
        version_line("ffmpeg version 6.0\nbuilt with gcc\n", "ffmpeg version unknown"),
        "ffmpeg version 6.0"
    );
    assert_eq!(
        version_line("ffprobe version 6.0\r\nmore", "x"),
        "ffprobe version 6.0"
    );
    assert_eq!(version_line("", "ffprobe version unknown"), "ffprobe version unknown");
    assert_eq!(version_line("oneline", "x"), "oneline");
}

#[test]
fn probe_error_messages() {
    assert_eq!(
        ProbeError::FfprobeNotFound.message(),
        "FFprobe not found. Please install FFmpeg."
    );
    assert_eq!(
        ProbeError::FileNotFound("a.mp4".to_string()).message(),
        "File not found: a.mp4"
    );
    assert_eq!(
        ProbeError::ExecutionFailed("boom".to_string()).message(),
        "Failed to execute ffprobe: boom"
    );
}
