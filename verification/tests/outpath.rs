use convertify::outpath::{format_to_extension, generate_output_path, output_candidate};

#[test]
fn output_path_basic() {
    // no such file exists where the tests run, so the first candidate wins
    assert_eq!(
        generate_output_path("clip.mov", Some("mp4_h264"), None),
        "clip_Convertified.mp4"
    );
}

#[test]
fn output_candidate_numbering() {
    assert_eq!(
        output_candidate("clip.mov", Some("mp4_h264"), None, 1),
        "clip_Convertified.mp4"
    );
    assert_eq!(
        output_candidate("clip.mov", Some("mp4_h264"), None, 2),
        "clip_Convertified_2.mp4"
    );
    assert_eq!(
        output_candidate("clip.mov", Some("mp4_h264"), None, 9999),
        "clip_Convertified_9999.mp4"
    );
}

#[test]
fn output_path_keeps_directory() {
    assert_eq!(
        generate_output_path("/no_dir_here/clip.mov", None, Some("matroska")),
        "/no_dir_here/clip_Convertified.mkv"
    );
}

#[test]
fn output_path_unknown_preset_defaults() {
    assert_eq!(
        generate_output_path("clip.avi", Some("missing_preset"), None),
        "clip_Convertified.mp4"
    );
}

#[test]
fn output_path_no_choice_defaults() {
    assert_eq!(generate_output_path("clip.avi", None, None), "clip_Convertified.mp4");
}

#[test]
fn output_path_dotted_stem() {
    assert_eq!(
        generate_output_path("a.b.mov", None, Some("webm")),
        "a.b_Convertified.webm"
    );
}

#[test]
fn format_extension_table() {
    assert_eq!(format_to_extension("matroska"), "mkv");
    assert_eq!(format_to_extension("mkv"), "mkv");
    assert_eq!(format_to_extension("mpegts"), "ts");
    assert_eq!(format_to_extension("ipod"), "m4a");
    assert_eq!(format_to_extension("image2"), "png");
    assert_eq!(format_to_extension("mjpeg"), "jpg");
    assert_eq!(format_to_extension("rawvideo"), "raw");
    assert_eq!(format_to_extension("webm"), "webm");
    // unknown names pass through unchanged
    assert_eq!(format_to_extension("somethingelse"), "somethingelse");
}
