//! Structured run logging: one append-only, seal-once log per conversion
//! attempt, a fixed human-readable rendering, and a bounded in-memory store
//! of recent runs whose durable mirror the caller appends to a flat file.
use vstd::prelude::*;
use vstd::string::*;

use crate::presets::opt_view;
use crate::strutil::opt_str_view;

verus! {

/// Severity of one log entry.
#[derive(Clone, Copy, Debug, PartialEq, Eq, Structural)]
pub enum LogLevel {
    Info,
    Warning,
    Error,
    Debug,
}

/// One timestamped line of a conversion log.
#[derive(Clone, Debug)]
pub struct LogEntry {
    pub timestamp: String,
    pub level: LogLevel,
    pub message: String,
    pub context: Option<String>,
}

/// The mathematical value of a `LogEntry`.
#[verifier::ext_equal]
pub struct LogEntryV {
    pub timestamp: Seq<char>,
    pub level: LogLevel,
    pub message: Seq<char>,
    pub context: Option<Seq<char>>,
}

impl View for LogEntry {
    type V = LogEntryV;

    open spec fn view(&self) -> LogEntryV {
        LogEntryV {
            timestamp: self.timestamp@,
            level: self.level,
            message: self.message@,
            context: opt_view(self.context),
        }
    }
}

/// The record of one conversion attempt. It is created open, entries are
/// appended while it is open, and `finish` seals it exactly once; a sealed
/// log never changes again.
#[derive(Clone, Debug)]
pub struct ConversionLog {
    pub id: String,
    pub started_at: String,
    pub ended_at: Option<String>,
    pub input_path: String,
    pub output_path: String,
    pub preset_id: Option<String>,
    pub advanced_options: Option<String>,
    pub ffmpeg_command: String,
    pub success: bool,
    pub error_message: Option<String>,
    pub entries: Vec<LogEntry>,
}

/// The mathematical value of a `ConversionLog`.
#[verifier::ext_equal]
pub struct ConversionLogV {
    pub id: Seq<char>,
    pub started_at: Seq<char>,
    pub ended_at: Option<Seq<char>>,
    pub input_path: Seq<char>,
    pub output_path: Seq<char>,
    pub preset_id: Option<Seq<char>>,
    pub advanced_options: Option<Seq<char>>,
    pub ffmpeg_command: Seq<char>,
    pub success: bool,
    pub error_message: Option<Seq<char>>,
    pub entries: Seq<LogEntryV>,
}

/// The views of a sequence of log entries.
pub open spec fn entries_view(s: Seq<LogEntry>) -> Seq<LogEntryV> {
    s.map_values(|e: LogEntry| e@)
}

/// Pushing an entry corresponds to pushing its view.
pub proof fn lemma_entries_view_push(s: Seq<LogEntry>, x: LogEntry)
    ensures
        entries_view(s.push(x)) == entries_view(s).push(x@),
{
    assert(entries_view(s.push(x)) =~~= entries_view(s).push(x@));
}

impl View for ConversionLog {
    type V = ConversionLogV;

    open spec fn view(&self) -> ConversionLogV {
        ConversionLogV {
            id: self.id@,
            started_at: self.started_at@,
            ended_at: opt_view(self.ended_at),
            input_path: self.input_path@,
            output_path: self.output_path@,
            preset_id: opt_view(self.preset_id),
            advanced_options: opt_view(self.advanced_options),
            ffmpeg_command: self.ffmpeg_command@,
            success: self.success,
            error_message: opt_view(self.error_message),
            entries: entries_view(self.entries@),
        }
    }
}

/// Relies on `chrono::Local::now` and chrono's formatters: the current local
/// instant as a millisecond-timestamp string, a `%Y-%m-%d %H:%M:%S` date-time
/// string, and a `%H:%M:%S%.3f` time-of-day string.
#[verifier::external_body]
fn now_stamps() -> (r: (String, String, String)) {
    let now = chrono::Local::now();
    (
        format!("{}", now.timestamp_millis()),
        now.format("%Y-%m-%d %H:%M:%S").to_string(),
        now.format("%H:%M:%S%.3f").to_string(),
    )
}

/// `newl` is `oldl` with exactly one entry of the given level, message and
/// context appended; nothing else differs.
pub open spec fn appended_entry(
    oldl: ConversionLogV,
    newl: ConversionLogV,
    lv: LogLevel,
    msg: Seq<char>,
    ctx: Option<Seq<char>>,
) -> bool {
    &&& newl.entries.len() == oldl.entries.len() + 1
    &&& newl.entries.drop_last() == oldl.entries
    &&& newl.entries.last().level == lv
    &&& newl.entries.last().message == msg
    &&& newl.entries.last().context == ctx
    &&& newl == ConversionLogV { entries: newl.entries, ..oldl }
}

impl ConversionLog {
    /// Whether the log has been sealed.
    pub open spec fn sealed(&self) -> bool {
        self@.ended_at is Some
    }

    /// A fresh, open log for one run. Its identifier and start time come
    /// from the clock; everything else is as given.
    pub fn new(
        input_path: &str,
        output_path: &str,
        preset_id: Option<&str>,
        advanced_options: Option<String>,
        ffmpeg_command: &str,
    ) -> (r: Self)
        ensures
            !r.sealed(),
            r@.ended_at is None,
            r@.input_path == input_path@,
            r@.output_path == output_path@,
            r@.preset_id == opt_str_view(preset_id),
            r@.advanced_options == opt_view(advanced_options),
            r@.ffmpeg_command == ffmpeg_command@,
            !r@.success,
            r@.error_message is None,
            r@.entries == Seq::<LogEntryV>::empty(),
    {
        let (id, started_at, _) = now_stamps();
        let r = ConversionLog {
            id,
            started_at,
            ended_at: None,
            input_path: input_path.to_owned(),
            output_path: output_path.to_owned(),
            preset_id: match preset_id {
                Some(p) => Some(p.to_owned()),
                None => None,
            },
            advanced_options,
            ffmpeg_command: ffmpeg_command.to_owned(),
            success: false,
            error_message: None,
            entries: Vec::new(),
        };
        proof {
            assert(entries_view(r.entries@) =~= Seq::<LogEntryV>::empty());
        }
        r
    }

    /// Appends one entry while the log is open; on a sealed log this is a
    /// no-op. The entry's timestamp comes from the clock.
    pub fn add_entry(&mut self, level: LogLevel, message: &str, context: Option<&str>)
        ensures
            old(self).sealed() ==> final(self)@ == old(self)@,
            !old(self).sealed() ==> appended_entry(
                old(self)@,
                final(self)@,
                level,
                message@,
                opt_str_view(context),
            ) && !final(self).sealed(),
    {
        if self.ended_at.is_some() {
            return;
        }
        let (_, _, timestamp) = now_stamps();
        let ghost prev = self.entries@;
        self.entries.push(
            LogEntry {
                timestamp,
                level,
                message: message.to_owned(),
                context: match context {
                    Some(c) => Some(c.to_owned()),
                    None => None,
                },
            },
        );
        proof {
            assert(entries_view(self.entries@).drop_last() =~= entries_view(prev));
        }
    }

    /// Seals the log: fixes the end time, outcome, and error message.
    /// Called exactly once per run, at its end.
    pub fn finish(&mut self, success: bool, error_message: Option<String>)
        requires
            !old(self).sealed(),
        ensures
            final(self).sealed(),
            final(self)@.ended_at is Some,
            final(self)@.success == success,
            final(self)@.error_message == opt_view(error_message),
            final(self)@.entries == old(self)@.entries,
            final(self)@.id == old(self)@.id,
            final(self)@.started_at == old(self)@.started_at,
            final(self)@.input_path == old(self)@.input_path,
            final(self)@.output_path == old(self)@.output_path,
            final(self)@.preset_id == old(self)@.preset_id,
            final(self)@.advanced_options == old(self)@.advanced_options,
            final(self)@.ffmpeg_command == old(self)@.ffmpeg_command,
    {
        let (_, ended_at, _) = now_stamps();
        self.ended_at = Some(ended_at);
        self.success = success;
        self.error_message = error_message;
    }

    /// A deep copy whose value equals this log's.
    pub fn duplicate(&self) -> (r: Self)
        ensures
            r@ == self@,
    {
        let mut entries: Vec<LogEntry> = Vec::new();
        let mut i: usize = 0;
        let n = self.entries.len();
        while i < n
            invariant
                n == self.entries@.len(),
                i <= n,
                entries_view(entries@) == entries_view(self.entries@.take(i as int)),
            decreases n - i,
        {
            let e = &self.entries[i];
            let ghost prev = entries@;
            entries.push(
                LogEntry {
                    timestamp: e.timestamp.clone(),
                    level: e.level,
                    message: e.message.clone(),
                    context: match &e.context {
                        Some(c) => Some(c.clone()),
                        None => None,
                    },
                },
            );
            proof {
                lemma_entries_view_push(prev, entries@.last());
                assert(self.entries@.take(i + 1) =~= self.entries@.take(i as int).push(
                    self.entries@[i as int],
                ));
                lemma_entries_view_push(self.entries@.take(i as int), self.entries@[i as int]);
            }
            i = i + 1;
        }
        let r = ConversionLog {
            id: self.id.clone(),
            started_at: self.started_at.clone(),
            ended_at: match &self.ended_at {
                Some(e) => Some(e.clone()),
                None => None,
            },
            input_path: self.input_path.clone(),
            output_path: self.output_path.clone(),
            preset_id: match &self.preset_id {
                Some(p) => Some(p.clone()),
                None => None,
            },
            advanced_options: match &self.advanced_options {
                Some(a) => Some(a.clone()),
                None => None,
            },
            ffmpeg_command: self.ffmpeg_command.clone(),
            success: self.success,
            error_message: match &self.error_message {
                Some(m) => Some(m.clone()),
                None => None,
            },
            entries,
        };
        proof {
            assert(self.entries@.take(n as int) =~= self.entries@);
            assert(r@ =~~= self@);
        }
        r
    }
}

/// The rendering of a severity in the flat-file format.
pub open spec fn spec_level_str(l: LogLevel) -> Seq<char> {
    match l {
        LogLevel::Info => "INFO"@,
        LogLevel::Warning => "WARN"@,
        LogLevel::Error => "ERROR"@,
        LogLevel::Debug => "DEBUG"@,
    }
}

/// An optional header line: `label` and the value, or nothing.
pub open spec fn spec_opt_line(label: Seq<char>, v: Option<Seq<char>>) -> Seq<char> {
    match v {
        Some(x) => label + x + "\n"@,
        None => Seq::empty(),
    }
}

/// The rendering of one entry: `[timestamp] [SEVERITY] message (context)`.
pub open spec fn spec_render_entry(e: LogEntryV) -> Seq<char> {
    "["@ + e.timestamp + "] ["@ + spec_level_str(e.level) + "] "@ + e.message + (match e.context {
        Some(c) => " ("@ + c + ")"@,
        None => Seq::empty(),
    }) + "\n"@
}

/// The renderings of all entries, in order.
pub open spec fn spec_render_entries(es: Seq<LogEntryV>) -> Seq<char>
    decreases es.len(),
{
    if es.len() == 0 {
        Seq::empty()
    } else {
        spec_render_entries(es.drop_last()) + spec_render_entry(es.last())
    }
}

/// The header block of one run's rendering.
pub open spec fn spec_render_header(l: ConversionLogV) -> Seq<char> {
    "=== Conversion "@ + l.id + " ===\n"@ + "Started: "@ + l.started_at + "\n"@ + spec_opt_line(
        "Ended: "@,
        l.ended_at,
    ) + "Input: "@ + l.input_path + "\n"@ + "Output: "@ + l.output_path + "\n"@ + spec_opt_line(
        "Preset: "@,
        l.preset_id,
    ) + spec_opt_line("Advanced: "@, l.advanced_options) + "Command: "@ + l.ffmpeg_command + "\n"@
        + "Success: "@ + (if l.success {
        "true"@
    } else {
        "false"@
    }) + "\n"@ + spec_opt_line("Error: "@, l.error_message) + "\n--- Log Entries ---\n"@
}

/// The fixed human-readable block for one run: a header followed by one
/// line per entry.
pub open spec fn spec_render_log(l: ConversionLogV) -> Seq<char> {
    spec_render_header(l) + spec_render_entries(l.entries) + "\n\n"@
}

fn level_str(l: LogLevel) -> (r: &'static str)
    ensures
        r@ == spec_level_str(l),
{
    match l {
        LogLevel::Info => "INFO",
        LogLevel::Warning => "WARN",
        LogLevel::Error => "ERROR",
        LogLevel::Debug => "DEBUG",
    }
}

#[verifier::rlimit(50)]
fn render_header(log: &ConversionLog) -> (r: String)
    ensures
        r@ == spec_render_header(log@),
{
    let mut out = String::from_str("=== Conversion ");
    out.append(log.id.as_str());
    out.append(" ===\n");
    out.append("Started: ");
    out.append(log.started_at.as_str());
    out.append("\n");
    if let Some(ended) = &log.ended_at {
        out.append("Ended: ");
        out.append(ended.as_str());
        out.append("\n");
    }
    out.append("Input: ");
    out.append(log.input_path.as_str());
    out.append("\n");
    out.append("Output: ");
    out.append(log.output_path.as_str());
    out.append("\n");
    if let Some(preset) = &log.preset_id {
        out.append("Preset: ");
        out.append(preset.as_str());
        out.append("\n");
    }
    if let Some(advanced) = &log.advanced_options {
        out.append("Advanced: ");
        out.append(advanced.as_str());
        out.append("\n");
    }
    out.append("Command: ");
    out.append(log.ffmpeg_command.as_str());
    out.append("\n");
    out.append("Success: ");
    if log.success {
        out.append("true");
    } else {
        out.append("false");
    }
    out.append("\n");
    if let Some(error) = &log.error_message {
        out.append("Error: ");
        out.append(error.as_str());
        out.append("\n");
    }
    out.append("\n--- Log Entries ---\n");
    proof {
        assert(out@ =~= spec_render_header(log@));
    }
    out
}

fn render_entry(e: &LogEntry, out: &mut String)
    ensures
        final(out)@ == old(out)@ + spec_render_entry(e@),
{
    out.append("[");
    out.append(e.timestamp.as_str());
    out.append("] [");
    out.append(level_str(e.level));
    out.append("] ");
    out.append(e.message.as_str());
    if let Some(ctx) = &e.context {
        out.append(" (");
        out.append(ctx.as_str());
        out.append(")");
    }
    out.append("\n");
    proof {
        assert(out@ =~= old(out)@ + spec_render_entry(e@));
    }
}

/// Renders one conversion log as its flat-file text block.
pub fn format_log_for_file(log: &ConversionLog) -> (r: String)
    ensures
        r@ == spec_render_log(log@),
{
    let mut out = render_header(log);
    let ghost header = out@;
    let mut i: usize = 0;
    let n = log.entries.len();
    proof {
        assert(header + spec_render_entries(entries_view(log.entries@).take(0)) =~= header);
    }
    while i < n
        invariant
            n == log.entries@.len(),
            i <= n,
            out@ == header + spec_render_entries(entries_view(log.entries@).take(i as int)),
        decreases n - i,
    {
        render_entry(&log.entries[i], &mut out);
        proof {
            let evs = entries_view(log.entries@);
            assert(evs.take(i + 1).drop_last() =~= evs.take(i as int));
            assert(evs.take(i + 1).last() == evs[i as int]);
            assert(out@ =~= header + spec_render_entries(evs.take(i + 1)));
        }
        i = i + 1;
    }
    out.append("\n\n");
    proof {
        assert(entries_view(log.entries@).take(n as int) =~= entries_view(log.entries@));
        assert(out@ =~= spec_render_log(log@));
    }
    out
}

/// The renderings of a sequence of runs, oldest first.
pub open spec fn spec_render_all(logs: Seq<ConversionLogV>) -> Seq<char>
    decreases logs.len(),
{
    if logs.len() == 0 {
        Seq::empty()
    } else {
        spec_render_all(logs.drop_last()) + spec_render_log(logs.last())
    }
}

/// The views of a sequence of conversion logs.
pub open spec fn logs_view(s: Seq<ConversionLog>) -> Seq<ConversionLogV> {
    s.map_values(|l: ConversionLog| l@)
}

/// Pushing a log corresponds to pushing its view.
pub proof fn lemma_logs_view_push(s: Seq<ConversionLog>, x: ConversionLog)
    ensures
        logs_view(s.push(x)) == logs_view(s).push(x@),
{
    assert(logs_view(s.push(x)) =~~= logs_view(s).push(x@));
}

/// The retained suffix after bounding a log sequence to `max` entries:
/// the newest `max` of them, all of them when they fit.
pub open spec fn spec_evict(logs: Seq<ConversionLogV>, max: nat) -> Seq<ConversionLogV> {
    if logs.len() <= max {
        logs
    } else {
        logs.skip(logs.len() - max)
    }
}

/// A bounded, ordered store of recent conversion logs, oldest evicted first,
/// with an optional durable-append directory.
pub struct LogStore {
    pub logs: Vec<ConversionLog>,
    pub max_logs: usize,
    pub log_dir: Option<String>,
}

/// The mathematical value of a `LogStore`.
#[verifier::ext_equal]
pub struct LogStoreV {
    pub logs: Seq<ConversionLogV>,
    pub max_logs: nat,
    pub log_dir: Option<Seq<char>>,
}

impl View for LogStore {
    type V = LogStoreV;

    open spec fn view(&self) -> LogStoreV {
        LogStoreV {
            logs: logs_view(self.logs@),
            max_logs: self.max_logs as nat,
            log_dir: opt_view(self.log_dir),
        }
    }
}

impl LogStore {
    /// An empty store with the given capacity and optional durable directory.
    pub fn new(max_logs: usize, log_dir: Option<String>) -> (r: Self)
        ensures
            r@.logs == Seq::<ConversionLogV>::empty(),
            r@.max_logs == max_logs as nat,
            r@.log_dir == opt_view(log_dir),
    {
        let r = LogStore { logs: Vec::new(), max_logs, log_dir };
        proof {
            assert(logs_view(r.logs@) =~= Seq::<ConversionLogV>::empty());
        }
        r
    }

    /// Records one run: appends it to the in-memory sequence, evicting the
    /// oldest entries past the capacity, and returns the run's rendered text
    /// block when a durable directory is configured, for the caller to
    /// append to the flat log file.
    pub fn add_log(&mut self, log: ConversionLog) -> (r: Option<String>)
        ensures
            final(self)@.logs == spec_evict(old(self)@.logs.push(log@), old(self)@.max_logs),
            final(self)@.max_logs == old(self)@.max_logs,
            final(self)@.log_dir == old(self)@.log_dir,
            r is Some <==> old(self)@.log_dir is Some,
            r is Some ==> r->0@ == spec_render_log(log@),
    {
        let rendered: Option<String> = match &self.log_dir {
            Some(_) => Some(format_log_for_file(&log)),
            None => None,
        };
        let ghost logv = log@;
        let ghost prev = logs_view(self.logs@);
        let ghost prev_logs = self.logs@;
        self.logs.push(log);
        proof {
            lemma_logs_view_push(prev_logs, self.logs@.last());
            assert(logs_view(self.logs@) == prev.push(logv));
        }
        let ghost all = logs_view(self.logs@);
        while self.logs.len() > self.max_logs
            invariant
                logs_view(self.logs@) == all.skip(all.len() - self.logs@.len()),
                self.logs@.len() <= all.len(),
                all.len() > self.max_logs ==> self.logs@.len() >= self.max_logs,
                all.len() <= self.max_logs ==> self.logs@.len() == all.len(),
                self.max_logs == old(self).max_logs,
                self.log_dir == old(self).log_dir,
            decreases self.logs@.len(),
        {
            let ghost cur = logs_view(self.logs@);
            self.logs.remove(0);
            proof {
                assert(logs_view(self.logs@) =~~= cur.skip(1));
                assert(cur.skip(1) =~= all.skip(all.len() - cur.len() + 1));
            }
        }
        proof {
            if all.len() <= self.max_logs {
                assert(all.skip(0) =~= all);
                assert(logs_view(self.logs@) == all);
            } else {
                assert(self.logs@.len() == self.max_logs);
            }
            assert(logs_view(self.logs@) == spec_evict(all, old(self)@.max_logs));
        }
        rendered
    }

    /// All retained logs, oldest first.
    pub fn get_logs(&self) -> (r: Vec<ConversionLog>)
        ensures
            logs_view(r@) == self@.logs,
    {
        let mut r: Vec<ConversionLog> = Vec::new();
        let mut i: usize = 0;
        let n = self.logs.len();
        proof {
            assert(logs_view(r@) =~= logs_view(self.logs@).take(0));
        }
        while i < n
            invariant
                n == self.logs@.len(),
                i <= n,
                logs_view(r@) == logs_view(self.logs@).take(i as int),
            decreases n - i,
        {
            let ghost prev = r@;
            r.push(self.logs[i].duplicate());
            proof {
                lemma_logs_view_push(prev, r@.last());
                assert(self.logs@.take(i + 1) =~= self.logs@.take(i as int).push(
                    self.logs@[i as int],
                ));
                lemma_logs_view_push(self.logs@.take(i as int), self.logs@[i as int]);
                assert(logs_view(r@) =~~= logs_view(self.logs@).take(i + 1));
            }
            i = i + 1;
        }
        proof {
            assert(logs_view(self.logs@).take(n as int) =~= logs_view(self.logs@));
        }
        r
    }

    /// The most recent retained log, or nothing.
    pub fn get_last_log(&self) -> (r: Option<ConversionLog>)
        ensures
            self@.logs.len() == 0 ==> r is None,
            self@.logs.len() > 0 ==> r is Some && r->0@ == self@.logs.last(),
    {
        if self.logs.len() == 0 {
            None
        } else {
            Some(self.logs[self.logs.len() - 1].duplicate())
        }
    }

    /// Discards every retained log.
    pub fn clear_logs(&mut self)
        ensures
            final(self)@.logs == Seq::<ConversionLogV>::empty(),
            final(self)@.max_logs == old(self)@.max_logs,
            final(self)@.log_dir == old(self)@.log_dir,
    {
        self.logs = Vec::new();
        proof {
            assert(logs_view(self.logs@) =~= Seq::<ConversionLogV>::empty());
        }
    }

    /// The full text rendering of every retained log, oldest first.
    pub fn export_logs(&self) -> (r: String)
        ensures
            r@ == spec_render_all(self@.logs),
    {
        let mut out = String::new();
        let mut i: usize = 0;
        let n = self.logs.len();
        while i < n
            invariant
                n == self.logs@.len(),
                i <= n,
                out@ == spec_render_all(logs_view(self.logs@).take(i as int)),
            decreases n - i,
        {
            let block = format_log_for_file(&self.logs[i]);
            out.append(block.as_str());
            proof {
                let lvs = logs_view(self.logs@);
                assert(lvs.take(i + 1).drop_last() =~= lvs.take(i as int));
                assert(lvs.take(i + 1).last() == lvs[i as int]);
            }
            i = i + 1;
        }
        proof {
            assert(logs_view(self.logs@).take(n as int) =~= logs_view(self.logs@));
        }
        out
    }

    /// The durable log-file path, when file logging is configured.
    pub fn get_log_file_path(&self) -> (r: Option<String>)
        ensures
            match self@.log_dir {
                Some(d) => r is Some && r->0@ == d + "/conversion_log.txt"@,
                None => r is None,
            },
    {
        match &self.log_dir {
            Some(d) => Some(d.clone().concat("/conversion_log.txt")),
            None => None,
        }
    }
}

impl Default for LogStore {
    /// Keeps the last 50 runs, with no durable file.
    fn default() -> (r: Self)
        ensures
            r@.logs == Seq::<ConversionLogV>::empty(),
            r@.max_logs == 50,
            r@.log_dir is None,
    {
        LogStore::new(50, None)
    }
}

/// Recording one more run into a full store drops exactly the oldest run:
/// the retained sequence is the previous runs shifted down by one with the
/// new run last, and — when every retained run has a distinct identifier and
/// the new run's differs too — no retained run carries the evicted run's
/// identifier any more. Its rendered block was already handed out for the
/// durable file when it was recorded.
pub proof fn lemma_capacity_eviction(logs: Seq<ConversionLogV>, max: nat, l: ConversionLogV)
    requires
        logs.len() == max,
        max >= 1,
        forall|i: int, j: int| 0 <= i < j < logs.len() ==> logs[i].id != logs[j].id,
        forall|i: int| 0 <= i < logs.len() ==> (#[trigger] logs[i]).id != l.id,
    ensures
        spec_evict(logs.push(l), max).len() == max,
        spec_evict(logs.push(l), max) == logs.push(l).skip(1),
        forall|i: int|
            0 <= i < max ==> #[trigger] spec_evict(logs.push(l), max)[i] == if i < max - 1 {
                logs[i + 1]
            } else {
                l
            },
        forall|i: int|
            0 <= i < max ==> (#[trigger] spec_evict(logs.push(l), max)[i]).id != logs[0].id,
{
    let all = logs.push(l);
    assert(all.len() == max + 1);
    assert(spec_evict(all, max) == all.skip(1));
    assert forall|i: int| 0 <= i < max implies #[trigger] spec_evict(all, max)[i] == if i < max
        - 1 {
        logs[i + 1]
    } else {
        l
    } by {
        assert(all.skip(1)[i] == all[i + 1]);
    }
    assert forall|i: int| 0 <= i < max implies (#[trigger] spec_evict(all, max)[i]).id
        != logs[0].id by {
        if i < max - 1 {
            assert(spec_evict(all, max)[i] == logs[i + 1]);
            assert(logs[0].id != logs[i + 1].id);
        } else {
            assert(spec_evict(all, max)[i] == l);
            assert(logs[0].id != l.id);
        }
    }
}

} // verus!
