use convertify::logger::{format_log_for_file, ConversionLog, LogLevel, LogStore};

fn sample_log(input: &str) -> ConversionLog {
    ConversionLog::new(
        input,
        "out.mp4",
        Some("mp4_h264"),
        None,
        "ffmpeg -i in.mp4 -y out.mp4",
    )
}

#[test]
fn log_lifecycle_open_then_sealed() {
    let mut log = sample_log("in.mp4");
    assert!(log.ended_at.is_none());
    assert!(!log.success);
    assert_eq!(log.entries.len(), 0);

    log.add_entry(LogLevel::Info, "starting", None);
    log.add_entry(LogLevel::Warning, "odd frame", Some("FFmpeg"));
    assert_eq!(log.entries.len(), 2);
    assert_eq!(log.entries[1].message, "odd frame");
    assert_eq!(log.entries[1].context.as_deref(), Some("FFmpeg"));

    log.finish(true, None);
    assert!(log.ended_at.is_some());
    assert!(log.success);
    assert!(log.error_message.is_none());

    // appends after sealing are ignored
    log.add_entry(LogLevel::Error, "too late", None);
    assert_eq!(log.entries.len(), 2);
}

#[test]
fn render_block_shape() {
    let mut log = sample_log("in.mp4");
    log.add_entry(LogLevel::Error, "boom", Some("FFmpeg"));
    log.finish(false, Some("boom".to_string()));
    let text = format_log_for_file(&log);
    assert!(text.starts_with("=== Conversion "));
    assert!(text.contains("Input: in.mp4\n"));
    assert!(text.contains("Output: out.mp4\n"));
    assert!(text.contains("Preset: mp4_h264\n"));
    assert!(text.contains("Command: ffmpeg -i in.mp4 -y out.mp4\n"));
    assert!(text.contains("Success: false\n"));
    assert!(text.contains("Error: boom\n"));
    assert!(text.contains("--- Log Entries ---\n"));
    assert!(text.contains("] [ERROR] boom (FFmpeg)\n"));
    assert!(text.ends_with("\n\n"));
}

#[test]
fn store_capacity_evicts_oldest_but_durable_text_keeps_it() {
    let mut store = LogStore::new(2, Some("logs".to_string()));
    let mut durable = String::new();

    for name in ["first.mp4", "second.mp4", "third.mp4"] {
        let mut log = sample_log(name);
        log.finish(true, None);
        let block = store.add_log(log).expect("a durable block when a directory is set");
        durable.push_str(&block);
    }

    let kept = store.get_logs();
    assert_eq!(kept.len(), 2);
    assert!(kept.iter().all(|l| l.input_path != "first.mp4"));
    assert_eq!(kept[0].input_path, "second.mp4");
    assert_eq!(kept[1].input_path, "third.mp4");

    // the evicted run is still in the durable rendering
    assert!(durable.contains("Input: first.mp4\n"));
}

#[test]
fn store_without_directory_returns_no_block() {
    let mut store = LogStore::new(5, None);
    assert!(store.add_log(sample_log("a.mp4")).is_none());
    assert!(store.get_log_file_path().is_none());
}

#[test]
fn store_file_path_under_directory() {
    let store = LogStore::new(5, Some("logs".to_string()));
    assert_eq!(
        store.get_log_file_path().as_deref(),
        Some("logs/conversion_log.txt")
    );
}

#[test]
fn store_last_and_clear() {
    let mut store = LogStore::new(5, None);
    assert!(store.get_last_log().is_none());
    store.add_log(sample_log("a.mp4"));
    store.add_log(sample_log("b.mp4"));
    assert_eq!(store.get_last_log().unwrap().input_path, "b.mp4");
    store.clear_logs();
    assert_eq!(store.get_logs().len(), 0);
    assert!(store.get_last_log().is_none());
}

#[test]
fn export_concatenates_blocks() {
    let mut store = LogStore::new(5, None);
    let mut a = sample_log("a.mp4");
    a.finish(true, None);
    let block_a = format_log_for_file(&a);
    let mut b = sample_log("b.mp4");
    b.finish(false, Some("bad".to_string()));
    let block_b = format_log_for_file(&b);
    store.add_log(a);
    store.add_log(b);
    assert_eq!(store.export_logs(), format!("{}{}", block_a, block_b));
}

#[test]
fn store_zero_capacity_keeps_nothing() {
    let mut store = LogStore::new(0, None);
    store.add_log(sample_log("a.mp4"));
    assert_eq!(store.get_logs().len(), 0);
}

#[test]
fn default_store_keeps_fifty_without_file() {
    let store = LogStore::default();
    assert_eq!(store.max_logs, 50);
    assert!(store.log_dir.is_none());
    assert_eq!(store.get_logs().len(), 0);
}
