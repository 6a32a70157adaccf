use convertify::convert::{
    build_ffmpeg_args, parse_extra_args, AdvancedOptions, ConvertError, ConvertOptions,
    StreamSelection,
};

fn plain_options(input: &str, output: &str) -> ConvertOptions {
    ConvertOptions {
        input_path: input.to_string(),
        output_path: output.to_string(),
        preset_id: None,
        advanced: None,
        stream_selection: None,
    }
}

#[test]
fn tokenize_quoted_span() {
    let tokens = parse_extra_args("-vf \"scale=640:-1\" -an");
    assert_eq!(tokens, vec!["-vf", "scale=640:-1", "-an"]);
}

#[test]
fn tokenize_single_quotes_and_runs_of_spaces() {
    assert_eq!(parse_extra_args("'a b'  c"), vec!["a b", "c"]);
    assert_eq!(parse_extra_args("   "), Vec::<String>::new());
}

#[test]
fn tokenize_unterminated_quote_consumes_rest() {
    assert_eq!(parse_extra_args("\"a b c"), vec!["a b c"]);
}

#[test]
fn tokenize_mixed_quotes() {
    assert_eq!(parse_extra_args("\"it's\" fine"), vec!["it's", "fine"]);
}

#[test]
fn build_args_defaults() {
    let args = build_ffmpeg_args(&plain_options("in.mp4", "out.mp4")).unwrap();
    assert_eq!(args, vec!["-i", "in.mp4", "-y", "out.mp4"]);
}

#[test]
fn build_args_exclusion_flags() {
    let mut o = plain_options("in.mp4", "out.mp4");
    o.stream_selection = Some(StreamSelection {
        include_video: false,
        include_audio: true,
        include_subtitles: false,
    });
    let args = build_ffmpeg_args(&o).unwrap();
    assert_eq!(args, vec!["-i", "in.mp4", "-vn", "-sn", "-y", "out.mp4"]);
    assert_eq!(args.iter().filter(|a| *a == "-vn").count(), 1);
    assert_eq!(args.iter().filter(|a| *a == "-sn").count(), 1);
    assert!(!args.contains(&"-an".to_string()));
}

#[test]
fn build_args_all_streams_included() {
    let mut o = plain_options("in.mp4", "out.mp4");
    o.stream_selection = Some(StreamSelection {
        include_video: true,
        include_audio: true,
        include_subtitles: true,
    });
    let args = build_ffmpeg_args(&o).unwrap();
    assert!(!args.contains(&"-vn".to_string()));
    assert!(!args.contains(&"-an".to_string()));
    assert!(!args.contains(&"-sn".to_string()));
}

#[test]
fn build_args_with_preset() {
    let mut o = plain_options("in.mov", "out.mp4");
    o.preset_id = Some("mp4_h264".to_string());
    let args = build_ffmpeg_args(&o).unwrap();
    assert_eq!(
        args,
        vec![
            "-i", "in.mov", "-f", "mp4", "-c:v", "libx264", "-c:a", "aac", "-preset", "medium",
            "-crf", "23", "-y", "out.mp4"
        ]
    );
}

#[test]
fn build_args_preset_not_found() {
    let mut o = plain_options("in.mp4", "out.mp4");
    o.preset_id = Some("zzz".to_string());
    let e = build_ffmpeg_args(&o).unwrap_err();
    assert!(matches!(&e, ConvertError::PresetNotFound(id) if id == "zzz"));
    assert_eq!(e.message(), "Preset not found: zzz");
}

#[test]
fn build_args_video_codec_override() {
    let mut o = plain_options("in.mov", "out.mp4");
    o.preset_id = Some("mp4_h264".to_string());
    o.advanced = Some(AdvancedOptions {
        format: None,
        video_codec: Some("libx265".to_string()),
        audio_codec: None,
        extra_args: None,
    });
    let args = build_ffmpeg_args(&o).unwrap();
    let positions: Vec<usize> = args
        .iter()
        .enumerate()
        .filter(|(_, a)| *a == "-c:v")
        .map(|(i, _)| i)
        .collect();
    assert_eq!(positions.len(), 1);
    assert_eq!(args[positions[0] + 1], "libx265");
    assert!(!args.contains(&"libx264".to_string()));
}

#[test]
fn build_args_audio_codec_override() {
    let mut o = plain_options("in.mov", "out.m4a");
    o.preset_id = Some("aac".to_string());
    o.advanced = Some(AdvancedOptions {
        format: None,
        video_codec: None,
        audio_codec: Some("libopus".to_string()),
        extra_args: None,
    });
    let args = build_ffmpeg_args(&o).unwrap();
    let positions: Vec<usize> = args
        .iter()
        .enumerate()
        .filter(|(_, a)| *a == "-c:a")
        .map(|(i, _)| i)
        .collect();
    assert_eq!(positions.len(), 1);
    assert_eq!(args[positions[0] + 1], "libopus");
}

#[test]
fn build_args_format_appended_not_replaced() {
    let mut o = plain_options("in.mov", "out.webm");
    o.preset_id = Some("mp4_h264".to_string());
    o.advanced = Some(AdvancedOptions {
        format: Some("webm".to_string()),
        video_codec: None,
        audio_codec: None,
        extra_args: None,
    });
    let args = build_ffmpeg_args(&o).unwrap();
    assert_eq!(args.iter().filter(|a| *a == "-f").count(), 2);
}

#[test]
fn build_args_extra_args_tokenized_last() {
    let mut o = plain_options("in.mp4", "out.mp4");
    o.advanced = Some(AdvancedOptions {
        format: None,
        video_codec: None,
        audio_codec: None,
        extra_args: Some("-vf \"scale=640:-1\" -an".to_string()),
    });
    let args = build_ffmpeg_args(&o).unwrap();
    assert_eq!(
        args,
        vec!["-i", "in.mp4", "-vf", "scale=640:-1", "-an", "-y", "out.mp4"]
    );
}

#[test]
fn error_messages_render() {
    assert_eq!(
        ConvertError::FfmpegNotFound.message(),
        "FFmpeg not found. Please install FFmpeg."
    );
    assert_eq!(
        ConvertError::InputNotFound("a.mp4".to_string()).message(),
        "Input file not found: a.mp4"
    );
    assert_eq!(ConvertError::Cancelled.message(), "Conversion cancelled");
    assert_eq!(
        ConvertError::InvalidOutputPath("bad".to_string()).message(),
        "Invalid output path: bad"
    );
}
