use convertify::presets::{find_preset, get_all_presets, Preset, PresetCategory};

#[test]
fn catalog_has_fifteen_presets() {
    let ps = get_all_presets();
    assert_eq!(ps.len(), 15);
    assert_eq!(ps[0].id, "mp4_h264");
    assert_eq!(ps[14].id, "webp");
}

#[test]
fn find_preset_known() {
    let p: Preset = find_preset("mp4_h264").unwrap();
    assert_eq!(p.name, "MP4 (H.264)");
    assert!(matches!(p.category, PresetCategory::Video));
    assert_eq!(p.extension, "mp4");
    assert_eq!(p.format.as_deref(), Some("mp4"));
    assert_eq!(p.video_codec.as_deref(), Some("libx264"));
    assert_eq!(p.audio_codec.as_deref(), Some("aac"));
}

#[test]
fn find_preset_unknown_absent() {
    assert!(find_preset("no_such_preset").is_none());
}

#[test]
fn preset_build_args_full() {
    let p = find_preset("mp4_h264").unwrap();
    let args = p.build_args();
    assert_eq!(
        args,
        vec!["-f", "mp4", "-c:v", "libx264", "-c:a", "aac", "-preset", "medium", "-crf", "23"]
    );
}

#[test]
fn preset_build_args_audio_only() {
    let p = find_preset("mp3").unwrap();
    let args = p.build_args();
    assert_eq!(args, vec!["-f", "mp3", "-c:a", "libmp3lame", "-q:a", "2", "-vn"]);
}

#[test]
fn preset_categories() {
    let ps = get_all_presets();
    let audio = ps
        .iter()
        .filter(|p| matches!(p.category, PresetCategory::Audio))
        .count();
    let image = ps
        .iter()
        .filter(|p| matches!(p.category, PresetCategory::Image))
        .count();
    assert_eq!(audio, 5);
    assert_eq!(image, 3);
}
