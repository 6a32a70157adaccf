//! The conversion run as a state machine: the caller spawns the external
//! transcoder and feeds every event and the cancellation signal through these
//! functions, which validate the request, classify and log events, compute
//! progress, and seal the run log with its terminal outcome.
use vstd::prelude::*;
use vstd::string::*;

use crate::convert::{
    build_ffmpeg_args, spec_build_args, ConvertError, ConvertErrorV, ConvertOptions,
    ConvertProgress, ConvertResult, parse_time_str, spec_time_ms,
};
use crate::logger::{appended_entry, ConversionLog, ConversionLogV, LogLevel};
use crate::outpath::{last_index_of, path_exists};
use crate::presets::{catalog_find, opt_view};
use crate::strutil::{spec_u64_string, strs_view, u64_to_string};
use crate::{percent_of, spec_percent};

verus! {

/// Severity as the external transcoder reports it.
#[derive(Clone, Copy, Debug, PartialEq, Eq, Structural)]
pub enum FfLogLevel {
    Info,
    Warning,
    Error,
    Fatal,
    Unknown,
}

/// One event of the external transcoder's stream, as plain values.
#[derive(Clone, Debug)]
pub enum FfEvent {
    Progress { time: String, speed: Option<String>, bitrate: Option<String>, size_kb: Option<u64> },
    Log { level: FfLogLevel, message: String },
    ParsedVersion { version: String },
    ParsedConfiguration { config: String },
    ParsedInput { index: u64, duration_text: String },
    ParsedOutput { index: u64, to: String },
    ParsedStreamMapping { mapping: String },
    Done,
    Other,
}

/// The mathematical value of an `FfEvent`.
pub enum FfEventV {
    Progress {
        time: Seq<char>,
        speed: Option<Seq<char>>,
        bitrate: Option<Seq<char>>,
        size_kb: Option<u64>,
    },
    Log { level: FfLogLevel, message: Seq<char> },
    ParsedVersion { version: Seq<char> },
    ParsedConfiguration { config: Seq<char> },
    ParsedInput { index: u64, duration_text: Seq<char> },
    ParsedOutput { index: u64, to: Seq<char> },
    ParsedStreamMapping { mapping: Seq<char> },
    Done,
    Other,
}

impl View for FfEvent {
    type V = FfEventV;

    open spec fn view(&self) -> FfEventV {
        match self {
            FfEvent::Progress { time, speed, bitrate, size_kb } => FfEventV::Progress {
                time: time@,
                speed: opt_view(*speed),
                bitrate: opt_view(*bitrate),
                size_kb: *size_kb,
            },
            FfEvent::Log { level, message } => FfEventV::Log { level: *level, message: message@ },
            FfEvent::ParsedVersion { version } => FfEventV::ParsedVersion { version: version@ },
            FfEvent::ParsedConfiguration { config } => FfEventV::ParsedConfiguration {
                config: config@,
            },
            FfEvent::ParsedInput { index, duration_text } => FfEventV::ParsedInput {
                index: *index,
                duration_text: duration_text@,
            },
            FfEvent::ParsedOutput { index, to } => FfEventV::ParsedOutput {
                index: *index,
                to: to@,
            },
            FfEvent::ParsedStreamMapping { mapping } => FfEventV::ParsedStreamMapping {
                mapping: mapping@,
            },
            FfEvent::Done => FfEventV::Done,
            FfEvent::Other => FfEventV::Other,
        }
    }
}

/// The run-log severity a transcoder severity maps to.
pub open spec fn spec_classify(l: FfLogLevel) -> LogLevel {
    match l {
        FfLogLevel::Error | FfLogLevel::Fatal => LogLevel::Error,
        FfLogLevel::Warning => LogLevel::Warning,
        FfLogLevel::Info => LogLevel::Info,
        FfLogLevel::Unknown => LogLevel::Debug,
    }
}

/// The log entry one event contributes: its severity, message, and context
/// tag; `None` for events that are not logged.
pub open spec fn spec_event_entry(e: FfEventV) -> Option<(LogLevel, Seq<char>, Option<Seq<char>>)> {
    match e {
        FfEventV::Progress { .. } => None,
        FfEventV::Log { level, message } => Some(
            (spec_classify(level), message, Some("FFmpeg"@)),
        ),
        FfEventV::ParsedVersion { version } => Some(
            (LogLevel::Info, "FFmpeg version: "@ + version, None),
        ),
        FfEventV::ParsedConfiguration { config } => Some(
            (LogLevel::Debug, "FFmpeg config: "@ + config, None),
        ),
        FfEventV::ParsedInput { index, duration_text } => Some(
            (
                LogLevel::Info,
                "Input #"@ + spec_u64_string(index as nat) + ": duration="@ + duration_text + "s"@,
                None,
            ),
        ),
        FfEventV::ParsedOutput { index, to } => Some(
            (LogLevel::Info, "Output #"@ + spec_u64_string(index as nat) + ": "@ + to, None),
        ),
        FfEventV::ParsedStreamMapping { mapping } => Some(
            (LogLevel::Debug, "Stream mapping: "@ + mapping, None),
        ),
        FfEventV::Done => Some((LogLevel::Info, "FFmpeg process completed"@, None)),
        FfEventV::Other => None,
    }
}

/// Whether an event counts toward the error tally and final error message.
pub open spec fn is_error_event(e: FfEventV) -> bool {
    e matches FfEventV::Log { level, .. } && (level == FfLogLevel::Error || level
        == FfLogLevel::Fatal)
}

/// Whether an event counts toward the warning tally.
pub open spec fn is_warning_event(e: FfEventV) -> bool {
    e matches FfEventV::Log { level, .. } && level == FfLogLevel::Warning
}

/// The live state of one run, between its validated start and its terminal
/// outcome. The log stays open until a terminal function seals it.
pub struct RunState {
    pub log: ConversionLog,
    pub output_path: String,
    pub duration_ms: Option<u64>,
    pub last_error: Option<String>,
    pub warning_count: u64,
    pub error_count: u64,
    pub finished: bool,
}

/// Seconds with two decimals, from milliseconds (truncated).
pub open spec fn spec_secs_2dp(ms: nat) -> Seq<char> {
    spec_u64_string(ms / 1000) + "."@ + (if (ms % 1000) / 10 < 10 {
        "0"@ + spec_u64_string((ms % 1000) / 10)
    } else {
        spec_u64_string((ms % 1000) / 10)
    })
}

fn secs_2dp(ms: u64) -> (r: String)
    ensures
        r@ == spec_secs_2dp(ms as nat),
{
    let mut out = u64_to_string(ms / 1000);
    out.append(".");
    let centi = (ms % 1000) / 10;
    if centi < 10 {
        out.append("0");
    }
    let c = u64_to_string(centi);
    out.append(c.as_str());
    proof {
        assert(out@ =~= spec_secs_2dp(ms as nat));
    }
    out
}

/// The space-joined rendering of an argument list.
pub open spec fn spec_join(s: Seq<Seq<char>>) -> Seq<char>
    decreases s.len(),
{
    if s.len() == 0 {
        Seq::empty()
    } else if s.len() == 1 {
        s[0]
    } else {
        spec_join(s.drop_last()) + " "@ + s.last()
    }
}

fn join_args(args: &Vec<String>) -> (r: String)
    ensures
        r@ == spec_join(strs_view(args@)),
{
    let mut out = String::new();
    let mut i: usize = 0;
    let n = args.len();
    proof {
        assert(out@ =~= spec_join(strs_view(args@).take(0)));
    }
    while i < n
        invariant
            n == args@.len(),
            i <= n,
            out@ == spec_join(strs_view(args@).take(i as int)),
        decreases n - i,
    {
        if i > 0 {
            out.append(" ");
        }
        out.append(args[i].as_str());
        proof {
            let vs = strs_view(args@);
            assert(vs.take(i + 1).drop_last() =~= vs.take(i as int));
            assert(vs.take(i + 1).last() == vs[i as int]);
            if i == 0 {
                assert(out@ =~= spec_join(vs.take(1)));
            } else {
                assert(out@ =~= spec_join(vs.take(i + 1)));
            }
        }
        i = i + 1;
    }
    proof {
        assert(strs_view(args@).take(n as int) =~= strs_view(args@));
    }
    out
}

/// The one-line summary of advanced options kept in the run log's header.
pub open spec fn spec_adv_summary(a: crate::convert::AdvancedOptionsV) -> Seq<char> {
    "format="@ + spec_opt_or_none(a.format) + ", video_codec="@ + spec_opt_or_none(a.video_codec)
        + ", audio_codec="@ + spec_opt_or_none(a.audio_codec) + ", extra_args="@ + spec_opt_or_none(
        a.extra_args,
    )
}

/// An optional value, or the word `none`.
pub open spec fn spec_opt_or_none(v: Option<Seq<char>>) -> Seq<char> {
    match v {
        Some(x) => x,
        None => "none"@,
    }
}

fn append_opt_or_none(out: &mut String, v: &Option<String>)
    ensures
        final(out)@ == old(out)@ + spec_opt_or_none(opt_view(*v)),
{
    match v {
        Some(x) => out.append(x.as_str()),
        None => out.append("none"),
    }
}

fn adv_summary(a: &crate::convert::AdvancedOptions) -> (r: String)
    ensures
        r@ == spec_adv_summary(a@),
{
    let mut out = String::from_str("format=");
    append_opt_or_none(&mut out, &a.format);
    out.append(", video_codec=");
    append_opt_or_none(&mut out, &a.video_codec);
    out.append(", audio_codec=");
    append_opt_or_none(&mut out, &a.audio_codec);
    out.append(", extra_args=");
    append_opt_or_none(&mut out, &a.extra_args);
    proof {
        assert(out@ =~= spec_adv_summary(a@));
    }
    out
}

/// The directory part of a path as its own path: no trailing slash, the
/// root for top-level entries, empty for a bare name.
pub open spec fn spec_parent(p: Seq<char>) -> Seq<char> {
    let k = last_index_of(p, '/');
    if k < 0 {
        Seq::empty()
    } else if k == 0 {
        "/"@
    } else {
        p.take(k)
    }
}

fn parent_of(p: &str) -> (r: String)
    ensures
        r@ == spec_parent(p@),
{
    let v = crate::strutil::str_to_chars(p);
    let mut k: Option<usize> = None;
    let mut i: usize = 0;
    while i < v.len()
        invariant
            i <= v@.len(),
            v@ == p@,
            match k {
                Some(x) => x < i && v@[x as int] == '/' && (forall|j: int|
                    x < j < i ==> v@[j] != '/'),
                None => forall|j: int| 0 <= j < i ==> v@[j] != '/',
            },
        decreases v@.len() - i,
    {
        if v[i] == '/' {
            k = Some(i);
        }
        i = i + 1;
    }
    proof {
        match k {
            Some(x) => crate::outpath::lemma_last_index_of_is(v@, '/', x as int),
            None => crate::outpath::lemma_last_index_of_is(v@, '/', -1),
        }
    }
    match k {
        None => String::new(),
        Some(0) => "/".to_owned(),
        Some(x) => {
            let mut out: Vec<char> = Vec::new();
            let mut j: usize = 0;
            while j < x
                invariant
                    j <= x < v@.len(),
                    v@ == p@,
                    out@ == p@.take(j as int),
                decreases x - j,
            {
                out.push(v[j]);
                assert(out@ =~= p@.take(j + 1));
                j = j + 1;
            }
            crate::strutil::string_from_chars(&out)
        },
    }
}

/// The single-run guard's decision: one conversion runs at a time, so a
/// start request is accepted only while no run is active, and an accepted
/// request marks a run active. The caller keeps the flag under its lock and
/// clears it when the run ends.
pub fn guard_start(converting: &mut bool) -> (accepted: bool)
    ensures
        accepted == !*old(converting),
        *final(converting),
{
    let was = *converting;
    *converting = true;
    !was
}

/// Validates a request and opens its run: builds the argument list, creates
/// the run log with the rendered command line, verifies that the input file
/// and the output path's parent directory exist, and notes which transcoder
/// binary is used. On failure the log, already sealed, is returned with the
/// error; a failed argument build has no log yet.
pub fn begin_run(options: &ConvertOptions, bundled_ffmpeg: Option<&str>) -> (r: Result<
    (RunState, Vec<String>),
    (Option<ConversionLog>, ConvertError),
>)
    ensures
        options@.preset_id matches Some(id) ==> (catalog_find(id) is None ==> (r matches Err(pair)
            && pair.0 is None && pair.1@ == ConvertErrorV::PresetNotFound(id))),
        match r {
            Ok((state, args)) => {
                &&& strs_view(args@) == spec_build_args(options@)
                &&& match options@.preset_id {
                    Some(id) => catalog_find(id) is Some,
                    None => true,
                }
                &&& !state.log.sealed()
                &&& state.log@.input_path == options@.input_path
                &&& state.log@.output_path == options@.output_path
                &&& state.log@.preset_id == options@.preset_id
                &&& state.log@.ffmpeg_command == "ffmpeg "@ + spec_join(spec_build_args(options@))
                &&& state.log@.advanced_options == match options@.advanced {
                    Some(a) => Some(spec_adv_summary(a)),
                    None => None,
                }
                &&& !state.log@.success
                &&& state.log@.entries.len() == 2
                &&& state.log@.entries[0].level == LogLevel::Info
                &&& state.log@.entries[0].message == "Starting conversion"@
                &&& state.log@.entries[0].context is None
                &&& state.log@.entries[1].level == LogLevel::Debug
                &&& match bundled_ffmpeg {
                    Some(path) => state.log@.entries[1].message == "Using bundled FFmpeg"@
                        && state.log@.entries[1].context == Some(path@),
                    None => state.log@.entries[1].message == "Using system FFmpeg"@
                        && state.log@.entries[1].context is None,
                }
                &&& state.output_path@ == options@.output_path
                &&& state.duration_ms is None
                &&& state.last_error is None
                &&& state.warning_count == 0
                &&& state.error_count == 0
                &&& !state.finished
            },
            Err((maybe_log, e)) => match e@ {
                ConvertErrorV::PresetNotFound(id) => {
                    &&& maybe_log is None
                    &&& options@.preset_id == Some(id)
                    &&& catalog_find(id) is None
                },
                ConvertErrorV::InputNotFound(p) => {
                    &&& p == options@.input_path
                    &&& maybe_log matches Some(log) && log.sealed() && !log@.success
                        && log@.error_message == Some("Input file not found"@)
                },
                ConvertErrorV::InvalidOutputPath(m) => {
                    &&& m == "Output directory does not exist: "@ + spec_parent(
                        options@.output_path,
                    )
                    &&& maybe_log matches Some(log) && log.sealed() && !log@.success
                        && log@.error_message == Some(m)
                },
                _ => false,
            },
        },
{
    let args = match build_ffmpeg_args(options) {
        Ok(a) => a,
        Err(e) => {
            return Err((None, e));
        },
    };
    let joined = join_args(&args);
    let mut command = String::from_str("ffmpeg ");
    command.append(joined.as_str());

    let advanced_str: Option<String> = match &options.advanced {
        Some(a) => Some(adv_summary(a)),
        None => None,
    };
    let preset_ref: Option<&str> = match &options.preset_id {
        Some(p) => Some(p.as_str()),
        None => None,
    };
    let mut log = ConversionLog::new(
        options.input_path.as_str(),
        options.output_path.as_str(),
        preset_ref,
        advanced_str,
        command.as_str(),
    );
    log.add_entry(LogLevel::Info, "Starting conversion", None);

    if !path_exists(options.input_path.as_str()) {
        log.add_entry(LogLevel::Error, "Input file not found", Some(options.input_path.as_str()));
        log.finish(false, Some("Input file not found".to_owned()));
        return Err((Some(log), ConvertError::InputNotFound(options.input_path.clone())));
    }

    // a path with no parent (empty, or the root itself) skips the check;
    // for a bare file name the parent is the empty path, which never exists
    let has_parent = options.output_path.as_str().unicode_len() > 0 && !crate::strutil::str_eq(
        options.output_path.as_str(),
        "/",
    );
    let parent = parent_of(options.output_path.as_str());
    if has_parent && !path_exists(parent.as_str()) {
        let mut err_msg = String::from_str("Output directory does not exist: ");
        err_msg.append(parent.as_str());
        log.add_entry(LogLevel::Error, err_msg.as_str(), None);
        log.finish(false, Some(err_msg.clone()));
        return Err((Some(log), ConvertError::InvalidOutputPath(err_msg)));
    }

    match bundled_ffmpeg {
        Some(path) => log.add_entry(LogLevel::Debug, "Using bundled FFmpeg", Some(path)),
        None => log.add_entry(LogLevel::Debug, "Using system FFmpeg", None),
    }

    Ok(
        (
            RunState {
                log,
                output_path: options.output_path.clone(),
                duration_ms: None,
                last_error: None,
                warning_count: 0,
                error_count: 0,
                finished: false,
            },
            args,
        ),
    )
}

impl RunState {
    /// Records the probed input duration, which enables percent computation;
    /// an unknown duration leaves percent at zero for the whole run.
    pub fn set_duration(&mut self, duration_ms: Option<u64>)
        requires
            !old(self).log.sealed(),
        ensures
            final(self).duration_ms == duration_ms,
            !final(self).log.sealed(),
            match duration_ms {
                Some(d) => appended_entry(
                    old(self).log@,
                    final(self).log@,
                    LogLevel::Info,
                    "Input duration: "@ + spec_secs_2dp(d as nat) + "s"@,
                    None,
                ),
                None => final(self).log@ == old(self).log@,
            },
            final(self).output_path == old(self).output_path,
            final(self).last_error == old(self).last_error,
            final(self).warning_count == old(self).warning_count,
            final(self).error_count == old(self).error_count,
            final(self).finished == old(self).finished,
    {
        self.duration_ms = duration_ms;
        if let Some(d) = duration_ms {
            let mut msg = String::from_str("Input duration: ");
            let secs = secs_2dp(d);
            msg.append(secs.as_str());
            msg.append("s");
            self.log.add_entry(LogLevel::Info, msg.as_str(), None);
        }
    }

    /// Consumes one event of the transcoder's stream: classifies and logs
    /// it, updates the tallies and the candidate error message, notes the
    /// terminal signal, and computes the progress report to send for a
    /// progress event.
    pub fn handle_event(&mut self, event: FfEvent) -> (r: Option<ConvertProgress>)
        requires
            !old(self).log.sealed(),
        ensures
            !final(self).log.sealed(),
            match spec_event_entry(event@) {
                None => final(self).log@ == old(self).log@,
                Some((lv, msg, ctx)) => appended_entry(old(self).log@, final(self).log@, lv, msg, ctx),
            },
            final(self).error_count as int == if is_error_event(event@) && old(self).error_count
                < u64::MAX {
                old(self).error_count + 1
            } else {
                old(self).error_count as int
            },
            final(self).warning_count as int == if is_warning_event(event@) && old(
                self,
            ).warning_count < u64::MAX {
                old(self).warning_count + 1
            } else {
                old(self).warning_count as int
            },
            opt_view(final(self).last_error) == if is_error_event(event@) {
                match event@ {
                    FfEventV::Log { message, .. } => Some(message),
                    _ => opt_view(old(self).last_error),
                }
            } else {
                opt_view(old(self).last_error)
            },
            final(self).finished == (old(self).finished || event@ is Done),
            final(self).duration_ms == old(self).duration_ms,
            final(self).output_path == old(self).output_path,
            match event@ {
                FfEventV::Progress { time, speed, bitrate, size_kb } => {
                    &&& r matches Some(p)
                    &&& p.time_ms as nat == crate::convert::sat_u64(spec_time_ms(time))
                    &&& p.percent as int == spec_percent(p.time_ms, old(self).duration_ms)
                    &&& p.percent <= 100
                    &&& opt_view(p.speed) == speed
                    &&& opt_view(p.bitrate) == bitrate
                    &&& p.size_kb == size_kb
                },
                _ => r is None,
            },
    {
        match event {
            FfEvent::Progress { time, speed, bitrate, size_kb } => {
                let time_ms = parse_time_str(time.as_str());
                let percent = percent_of(time_ms, self.duration_ms);
                Some(ConvertProgress { percent, time_ms, speed, bitrate, size_kb })
            },
            FfEvent::Log { level, message } => {
                match level {
                    FfLogLevel::Error | FfLogLevel::Fatal => {
                        if self.error_count < u64::MAX {
                            self.error_count = self.error_count + 1;
                        }
                        self.log.add_entry(LogLevel::Error, message.as_str(), Some("FFmpeg"));
                        self.last_error = Some(message);
                    },
                    FfLogLevel::Warning => {
                        if self.warning_count < u64::MAX {
                            self.warning_count = self.warning_count + 1;
                        }
                        self.log.add_entry(LogLevel::Warning, message.as_str(), Some("FFmpeg"));
                    },
                    FfLogLevel::Info => {
                        self.log.add_entry(LogLevel::Info, message.as_str(), Some("FFmpeg"));
                    },
                    FfLogLevel::Unknown => {
                        self.log.add_entry(LogLevel::Debug, message.as_str(), Some("FFmpeg"));
                    },
                }
                None
            },
            FfEvent::ParsedVersion { version } => {
                let mut msg = String::from_str("FFmpeg version: ");
                msg.append(version.as_str());
                self.log.add_entry(LogLevel::Info, msg.as_str(), None);
                None
            },
            FfEvent::ParsedConfiguration { config } => {
                let mut msg = String::from_str("FFmpeg config: ");
                msg.append(config.as_str());
                self.log.add_entry(LogLevel::Debug, msg.as_str(), None);
                None
            },
            FfEvent::ParsedInput { index, duration_text } => {
                let mut msg = String::from_str("Input #");
                let num = u64_to_string(index);
                msg.append(num.as_str());
                msg.append(": duration=");
                msg.append(duration_text.as_str());
                msg.append("s");
                self.log.add_entry(LogLevel::Info, msg.as_str(), None);
                None
            },
            FfEvent::ParsedOutput { index, to } => {
                let mut msg = String::from_str("Output #");
                let num = u64_to_string(index);
                msg.append(num.as_str());
                msg.append(": ");
                msg.append(to.as_str());
                self.log.add_entry(LogLevel::Info, msg.as_str(), None);
                None
            },
            FfEvent::ParsedStreamMapping { mapping } => {
                let mut msg = String::from_str("Stream mapping: ");
                msg.append(mapping.as_str());
                self.log.add_entry(LogLevel::Debug, msg.as_str(), None);
                None
            },
            FfEvent::Done => {
                self.log.add_entry(LogLevel::Info, "FFmpeg process completed", None);
                self.finished = true;
                None
            },
            FfEvent::Other => None,
        }
    }

    /// Ends the run on a cancellation request: logs it, seals the log as
    /// failed with the fixed cancellation message, and yields the error the
    /// caller returns. Holds for every state, however many events came
    /// before; the caller also terminates the external process.
    pub fn on_cancel(self) -> (r: (ConversionLog, ConvertError))
        requires
            !self.log.sealed(),
        ensures
            r.0.sealed(),
            !r.0@.success,
            r.0@.error_message == Some("Cancelled"@),
            r.1@ == ConvertErrorV::Cancelled,
    {
        let mut log = self.log;
        log.add_entry(LogLevel::Warning, "Conversion cancelled by user", None);
        log.finish(false, Some("Cancelled".to_owned()));
        (log, ConvertError::Cancelled)
    }

    /// Ends the run on a process-level failure (spawn, stream, or wait):
    /// logs the cause, seals the log as failed with it, and yields the
    /// conversion error carrying the same text.
    pub fn fail_run(self, message: String) -> (r: (ConversionLog, ConvertError))
        requires
            !self.log.sealed(),
        ensures
            r.0.sealed(),
            !r.0@.success,
            r.0@.error_message == Some(message@),
            r.1@ == ConvertErrorV::ConversionFailed(message@),
    {
        let mut log = self.log;
        log.add_entry(LogLevel::Error, message.as_str(), None);
        log.finish(false, Some(message.clone()));
        (log, ConvertError::ConversionFailed(message))
    }

    /// Ends the run on process exit: logs the summary tallies, seals the log
    /// with the outcome, and yields the result — success with the resolved
    /// output path and elapsed wall-clock time, or failure carrying the last
    /// captured error-level message (a fixed text when none was captured).
    pub fn finish_run(self, exit_success: bool, elapsed_ms: u64) -> (r: (
        ConversionLog,
        Result<ConvertResult, ConvertError>,
    ))
        requires
            !self.log.sealed(),
        ensures
            r.0.sealed(),
            r.0@.success == exit_success,
            exit_success ==> ({
                &&& r.0@.error_message is None
                &&& r.1 matches Ok(res)
                &&& r.1->Ok_0.success
                &&& r.1->Ok_0.output_path@ == self.output_path@
                &&& r.1->Ok_0.duration_ms == elapsed_ms
                &&& r.1->Ok_0.message is None
            }),
            !exit_success ==> ({
                let msg = spec_opt_or_none_error(opt_view(self.last_error));
                &&& r.0@.error_message == Some(msg)
                &&& r.1 matches Err(e) && e@ == ConvertErrorV::ConversionFailed(msg)
            }),
    {
        let mut log = self.log;
        let mut took = String::from_str("Conversion took ");
        let secs = secs_2dp(elapsed_ms);
        took.append(secs.as_str());
        took.append("s");
        log.add_entry(LogLevel::Info, took.as_str(), None);
        if self.warning_count > 0 {
            let mut msg = String::from_str("Total warnings: ");
            let num = u64_to_string(self.warning_count);
            msg.append(num.as_str());
            log.add_entry(LogLevel::Info, msg.as_str(), None);
        }
        if self.error_count > 0 {
            let mut msg = String::from_str("Total errors: ");
            let num = u64_to_string(self.error_count);
            msg.append(num.as_str());
            log.add_entry(LogLevel::Info, msg.as_str(), None);
        }
        if exit_success {
            log.add_entry(LogLevel::Info, "Conversion successful", None);
            log.finish(true, None);
            let result = ConvertResult {
                success: true,
                output_path: self.output_path,
                duration_ms: elapsed_ms,
                message: None,
            };
            (log, Ok(result))
        } else {
            let error_msg = match self.last_error {
                Some(m) => m,
                None => "Unknown error".to_owned(),
            };
            let mut line = String::from_str("Conversion failed: ");
            line.append(error_msg.as_str());
            log.add_entry(LogLevel::Error, line.as_str(), None);
            log.finish(false, Some(error_msg.clone()));
            (log, Err(ConvertError::ConversionFailed(error_msg)))
        }
    }
}

/// The failure message of a run: the last captured error text, or a fixed
/// fallback when the transcoder reported none.
pub open spec fn spec_opt_or_none_error(v: Option<Seq<char>>) -> Seq<char> {
    match v {
        Some(x) => x,
        None => "Unknown error"@,
    }
}

} // verus!
