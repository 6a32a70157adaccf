use convertify::convert::{AdvancedOptions, ConvertError, ConvertOptions, StreamSelection};
use convertify::orchestrate::{begin_run, guard_start, FfEvent, FfLogLevel};

// `/tmp` exists wherever the tests run, so it serves as an input path that
// is present; the output's parent directory `.` exists too.
fn valid_options() -> ConvertOptions {
    ConvertOptions {
        input_path: "/tmp".to_string(),
        output_path: "./converted_output.mp4".to_string(),
        preset_id: None,
        advanced: None,
        stream_selection: None,
    }
}

#[test]
fn begin_run_builds_command_line() {
    let (state, args) = begin_run(&valid_options(), None).unwrap();
    assert_eq!(args, vec!["-i", "/tmp", "-y", "./converted_output.mp4"]);
    assert_eq!(
        state.log.ffmpeg_command,
        "ffmpeg -i /tmp -y ./converted_output.mp4"
    );
    assert!(state.log.ended_at.is_none());
    assert_eq!(state.log.entries.len(), 2); // start + binary choice
    assert_eq!(state.log.entries[0].message, "Starting conversion");
}

#[test]
fn begin_run_missing_input() {
    let mut o = valid_options();
    o.input_path = "no_such_input_file.zzz".to_string();
    let (log, err) = match begin_run(&o, None) {
        Err(pair) => pair,
        Ok(_) => panic!("a missing input must fail"),
    };
    let log = log.expect("validation failures carry a sealed log");
    assert!(log.ended_at.is_some());
    assert!(!log.success);
    assert_eq!(log.error_message.as_deref(), Some("Input file not found"));
    assert!(matches!(err, ConvertError::InputNotFound(p) if p == "no_such_input_file.zzz"));
}

#[test]
fn begin_run_missing_output_directory() {
    let mut o = valid_options();
    o.output_path = "/no_such_dir_zzz/out.mp4".to_string();
    let (log, err) = match begin_run(&o, None) {
        Err(pair) => pair,
        Ok(_) => panic!("a missing output directory must fail"),
    };
    assert!(log.is_some());
    assert!(matches!(
        err,
        ConvertError::InvalidOutputPath(m) if m == "Output directory does not exist: /no_such_dir_zzz"
    ));
}

#[test]
fn begin_run_unknown_preset_has_no_log() {
    let mut o = valid_options();
    o.preset_id = Some("zzz".to_string());
    let (log, err) = match begin_run(&o, None) {
        Err(pair) => pair,
        Ok(_) => panic!("an unknown preset must fail"),
    };
    assert!(log.is_none());
    assert!(matches!(err, ConvertError::PresetNotFound(_)));
}

#[test]
fn begin_run_records_advanced_summary() {
    let mut o = valid_options();
    o.advanced = Some(AdvancedOptions {
        format: Some("webm".to_string()),
        video_codec: None,
        audio_codec: None,
        extra_args: None,
    });
    let (state, _) = begin_run(&o, None).unwrap();
    assert_eq!(
        state.log.advanced_options.as_deref(),
        Some("format=webm, video_codec=none, audio_codec=none, extra_args=none")
    );
}

#[test]
fn cancel_before_any_event_seals_log_as_cancelled() {
    let (state, _args) = begin_run(&valid_options(), None).unwrap();
    // no events were consumed; the caller kills the process and calls this
    let (log, err) = state.on_cancel();
    assert!(log.ended_at.is_some());
    assert!(!log.success);
    assert_eq!(log.error_message.as_deref(), Some("Cancelled"));
    assert!(matches!(err, ConvertError::Cancelled));
}

#[test]
fn progress_event_yields_clamped_percent() {
    let (mut state, _) = begin_run(&valid_options(), None).unwrap();
    state.set_duration(Some(100_000));
    let p = state
        .handle_event(FfEvent::Progress {
            time: "00:00:50.00".to_string(),
            speed: Some("1.00x".to_string()),
            bitrate: None,
            size_kb: Some(42),
        })
        .unwrap();
    assert_eq!(p.time_ms, 50_000);
    assert_eq!(p.percent, 50);
    assert_eq!(p.speed.as_deref(), Some("1.00x"));
    assert_eq!(p.size_kb, Some(42));

    // elapsed time past the duration still clamps to 100
    let p2 = state
        .handle_event(FfEvent::Progress {
            time: "01:00:00.00".to_string(),
            speed: None,
            bitrate: None,
            size_kb: None,
        })
        .unwrap();
    assert_eq!(p2.percent, 100);
}

#[test]
fn progress_without_duration_stays_at_zero() {
    let (mut state, _) = begin_run(&valid_options(), None).unwrap();
    let p = state
        .handle_event(FfEvent::Progress {
            time: "00:10:00.00".to_string(),
            speed: None,
            bitrate: None,
            size_kb: None,
        })
        .unwrap();
    assert_eq!(p.percent, 0);
    assert_eq!(p.time_ms, 600_000);
}

#[test]
fn error_log_event_becomes_final_message() {
    let (mut state, _) = begin_run(&valid_options(), None).unwrap();
    let r = state.handle_event(FfEvent::Log {
        level: FfLogLevel::Error,
        message: "codec failure".to_string(),
    });
    assert!(r.is_none());
    assert_eq!(state.error_count, 1);
    let (log, outcome) = state.finish_run(false, 1_234);
    assert!(log.ended_at.is_some());
    assert!(!log.success);
    assert_eq!(log.error_message.as_deref(), Some("codec failure"));
    assert!(matches!(outcome, Err(ConvertError::ConversionFailed(m)) if m == "codec failure"));
}

#[test]
fn failure_without_captured_error_is_unknown() {
    let (state, _) = begin_run(&valid_options(), None).unwrap();
    let (log, outcome) = state.finish_run(false, 10);
    assert_eq!(log.error_message.as_deref(), Some("Unknown error"));
    assert!(matches!(outcome, Err(ConvertError::ConversionFailed(m)) if m == "Unknown error"));
}

#[test]
fn successful_exit_yields_result() {
    let (mut state, _) = begin_run(&valid_options(), None).unwrap();
    state.handle_event(FfEvent::Log {
        level: FfLogLevel::Warning,
        message: "deprecated flag".to_string(),
    });
    assert_eq!(state.warning_count, 1);
    state.handle_event(FfEvent::Done);
    assert!(state.finished);
    let (log, outcome) = state.finish_run(true, 2_500);
    assert!(log.success);
    assert!(log.error_message.is_none());
    let result = outcome.unwrap();
    assert!(result.success);
    assert_eq!(result.output_path, "./converted_output.mp4");
    assert_eq!(result.duration_ms, 2_500);
    assert!(result.message.is_none());
}

#[test]
fn metadata_events_are_logged_without_changing_flow() {
    let (mut state, _) = begin_run(&valid_options(), None).unwrap();
    let before = state.log.entries.len();
    assert!(state
        .handle_event(FfEvent::ParsedVersion { version: "6.0".to_string() })
        .is_none());
    assert!(state
        .handle_event(FfEvent::ParsedInput {
            index: 0,
            duration_text: "12.5".to_string(),
        })
        .is_none());
    assert!(state
        .handle_event(FfEvent::ParsedOutput {
            index: 0,
            to: "out.mp4".to_string(),
        })
        .is_none());
    assert!(state
        .handle_event(FfEvent::ParsedStreamMapping { mapping: "0:0 -> 0:0".to_string() })
        .is_none());
    assert!(state.handle_event(FfEvent::Other).is_none());
    assert_eq!(state.log.entries.len(), before + 4);
    assert_eq!(state.log.entries[before].message, "FFmpeg version: 6.0");
    assert_eq!(
        state.log.entries[before + 1].message,
        "Input #0: duration=12.5s"
    );
    assert!(!state.finished);
}

#[test]
fn fail_run_carries_message() {
    let (state, _) = begin_run(&valid_options(), None).unwrap();
    let (log, err) = state.fail_run("Failed to spawn ffmpeg: boom".to_string());
    assert!(!log.success);
    assert_eq!(
        log.error_message.as_deref(),
        Some("Failed to spawn ffmpeg: boom")
    );
    assert!(matches!(err, ConvertError::ConversionFailed(_)));
}

#[test]
fn single_run_guard_rejects_second_start() {
    let mut converting = false;
    assert!(guard_start(&mut converting));
    assert!(converting);
    // a second request while a run is active is rejected
    assert!(!guard_start(&mut converting));
    assert!(converting);
    // after the run clears the flag, a new start is accepted
    converting = false;
    assert!(guard_start(&mut converting));
}
