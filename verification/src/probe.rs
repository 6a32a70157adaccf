//! Media introspection: turns the probing tool's machine-readable JSON
//! output into a typed media-info record. Numeric fields arrive as text and
//! are parsed leniently — an unreadable number resolves to absent rather
//! than failing the probe.
use vstd::prelude::*;
use vstd::string::*;

use crate::convert::parse_frac_ms;
use crate::outpath::{file_name_of, skip_chars};
use crate::strutil::{
    digits_val, find_char, first_index, parse_u64 as parse_u64_range, seq_all_digits, str_eq,
    str_to_chars, string_from_chars,
};

verus! {

/// Why a probe could not be carried out.
#[derive(Clone, Debug)]
pub enum ProbeError {
    FfprobeNotFound,
    ExecutionFailed(String),
    ParseFailed(String),
    FileNotFound(String),
}

/// The mathematical value of a `ProbeError`.
pub enum ProbeErrorV {
    FfprobeNotFound,
    ExecutionFailed(Seq<char>),
    ParseFailed(Seq<char>),
    FileNotFound(Seq<char>),
}

impl View for ProbeError {
    type V = ProbeErrorV;

    open spec fn view(&self) -> ProbeErrorV {
        match self {
            ProbeError::FfprobeNotFound => ProbeErrorV::FfprobeNotFound,
            ProbeError::ExecutionFailed(s) => ProbeErrorV::ExecutionFailed(s@),
            ProbeError::ParseFailed(s) => ProbeErrorV::ParseFailed(s@),
            ProbeError::FileNotFound(s) => ProbeErrorV::FileNotFound(s@),
        }
    }
}

/// The user-facing text of a probe error.
pub open spec fn spec_probe_error_message(e: ProbeErrorV) -> Seq<char> {
    match e {
        ProbeErrorV::FfprobeNotFound => "FFprobe not found. Please install FFmpeg."@,
        ProbeErrorV::ExecutionFailed(s) => "Failed to execute ffprobe: "@ + s,
        ProbeErrorV::ParseFailed(s) => "Failed to parse ffprobe output: "@ + s,
        ProbeErrorV::FileNotFound(s) => "File not found: "@ + s,
    }
}

impl ProbeError {
    /// Renders the error for display.
    pub fn message(&self) -> (r: String)
        ensures
            r@ == spec_probe_error_message(self@),
    {
        match self {
            ProbeError::FfprobeNotFound => "FFprobe not found. Please install FFmpeg.".to_owned(),
            ProbeError::ExecutionFailed(s) => String::from_str("Failed to execute ffprobe: ")
                .concat(s.as_str()),
            ProbeError::ParseFailed(s) => String::from_str("Failed to parse ffprobe output: ")
                .concat(s.as_str()),
            ProbeError::FileNotFound(s) => String::from_str("File not found: ").concat(s.as_str()),
        }
    }
}

/// The kind of one stream of a media file.
#[derive(Clone, Copy, Debug, PartialEq, Eq, Structural)]
pub enum StreamType {
    Video,
    Audio,
    Subtitle,
    Data,
    Attachment,
    Unknown,
}

/// The stream kind a probe `codec_type` string denotes.
pub open spec fn spec_stream_type(s: Seq<char>) -> StreamType {
    if s == "video"@ {
        StreamType::Video
    } else if s == "audio"@ {
        StreamType::Audio
    } else if s == "subtitle"@ {
        StreamType::Subtitle
    } else if s == "data"@ {
        StreamType::Data
    } else if s == "attachment"@ {
        StreamType::Attachment
    } else {
        StreamType::Unknown
    }
}

impl StreamType {
    /// The stream kind named by a probe `codec_type` string.
    pub fn from(s: &str) -> (r: Self)
        ensures
            r == spec_stream_type(s@),
    {
        if str_eq(s, "video") {
            StreamType::Video
        } else if str_eq(s, "audio") {
            StreamType::Audio
        } else if str_eq(s, "subtitle") {
            StreamType::Subtitle
        } else if str_eq(s, "data") {
            StreamType::Data
        } else if str_eq(s, "attachment") {
            StreamType::Attachment
        } else {
            StreamType::Unknown
        }
    }
}

/// Per-stream attributes as the probe reports them; fields the probe did
/// not give, or gave unreadably, are absent.
#[derive(Clone, Debug)]
pub struct StreamInfo {
    pub index: u32,
    pub stream_type: StreamType,
    pub codec_name: Option<String>,
    pub codec_long_name: Option<String>,
    pub width: Option<u32>,
    pub height: Option<u32>,
    pub frame_rate: Option<String>,
    pub pix_fmt: Option<String>,
    pub sample_rate: Option<String>,
    pub channels: Option<u32>,
    pub channel_layout: Option<String>,
    pub language: Option<String>,
    pub title: Option<String>,
}

/// Container-level attributes; the duration is kept in milliseconds.
#[derive(Clone, Debug)]
pub struct FormatInfo {
    pub format_name: String,
    pub format_long_name: String,
    pub duration_ms: Option<u64>,
    pub size: Option<u64>,
    pub bit_rate: Option<u64>,
}

/// Everything one probe reports about a media file.
#[derive(Clone, Debug)]
pub struct MediaInfo {
    pub path: String,
    pub filename: String,
    pub format: FormatInfo,
    pub streams: Vec<StreamInfo>,
    pub has_video: bool,
    pub has_audio: bool,
    pub has_subtitles: bool,
}

#[verifier::external_type_specification]
#[verifier::external_body]
pub struct ExJsonValue(serde_json::Value);

#[verifier::external_type_specification]
#[verifier::external_body]
pub struct ExJsonError(serde_json::Error);

/// Whether `serde_json::from_str::<Value>` decodes the text: a function of
/// the text alone.
pub uninterp spec fn json_ok(s: Seq<char>) -> bool;

/// Whether the JSON text decodes to a value whose root has a `format`
/// member: a function of the text alone, false for text that is not JSON.
pub uninterp spec fn json_has_format(s: Seq<char>) -> bool;

/// Relies on `serde_json::from_str::<Value>`: decodes text as a generic
/// JSON value, or reports why it cannot be decoded. Whether it succeeds
/// depends on the text alone; that condition is named `json_ok`.
#[verifier::external_body]
fn parse_json(s: &str) -> (r: Result<serde_json::Value, serde_json::Error>)
    ensures
        r is Ok <==> json_ok(s@),
{
    serde_json::from_str(s)
}

/// Relies on `serde_json::from_str::<Value>` and `serde_json::Value::get`:
/// the `format` member of the value the text decodes to. Whether the member
/// is present depends on the text alone; that condition is named
/// `json_has_format`.
#[verifier::external_body]
fn json_format_member(s: &str) -> (r: Option<serde_json::Value>)
    ensures
        r is Some <==> json_has_format(s@),
{
    serde_json::from_str::<serde_json::Value>(s).ok().and_then(|v| v.get("format").cloned())
}

/// Relies on `serde_json::Error`'s `Display` impl: the diagnostic text.
#[verifier::external_body]
fn json_error_text(e: &serde_json::Error) -> (r: String) {
    format!("{}", e)
}

/// Relies on `serde_json::Value::get`: member lookup on a JSON object,
/// absent for other value kinds or missing keys.
#[verifier::external_body]
fn json_get<'a>(v: &'a serde_json::Value, key: &str) -> (r: Option<&'a serde_json::Value>) {
    v.get(key)
}

/// Relies on `serde_json::Value::as_str`: the text of a JSON string value.
#[verifier::external_body]
fn json_as_str<'a>(v: &'a serde_json::Value) -> (r: Option<&'a str>) {
    v.as_str()
}

/// Relies on `serde_json::Value::as_u64`: the value of a JSON number that
/// is representable as a `u64`.
#[verifier::external_body]
fn json_as_u64(v: &serde_json::Value) -> (r: Option<u64>) {
    v.as_u64()
}

/// Relies on `serde_json::Value::as_array`: the elements of a JSON array.
#[verifier::external_body]
fn json_as_array<'a>(v: &'a serde_json::Value) -> (r: Option<&'a Vec<serde_json::Value>>) {
    v.as_array()
}

fn json_str_field(v: &serde_json::Value, key: &str) -> Option<String> {
    match json_get(v, key) {
        Some(f) => match json_as_str(f) {
            Some(s) => Some(s.to_owned()),
            None => None,
        },
        None => None,
    }
}

fn json_u32_field(v: &serde_json::Value, key: &str) -> Option<u32> {
    match json_get(v, key) {
        Some(f) => match json_as_u64(f) {
            Some(n) => {
                if n <= u32::MAX as u64 {
                    Some(n as u32)
                } else {
                    Some(0)
                }
            },
            None => None,
        },
        None => None,
    }
}

/// Milliseconds denoted by a decimal-seconds duration text; absent when the
/// text is not a plain decimal or the value does not fit.
pub open spec fn spec_duration_ms(s: Seq<char>) -> Option<nat> {
    let d = first_index(s, '.');
    let raw = if d == s.len() {
        if s.len() > 0 && seq_all_digits(s) && digits_val(s) <= u64::MAX {
            Some((digits_val(s) * 1000) as nat)
        } else {
            None
        }
    } else {
        let ip = s.take(d);
        let fp = s.skip(d + 1);
        if first_index(fp, '.') != fp.len() {
            None
        } else if !seq_all_digits(ip) || !seq_all_digits(fp) {
            None
        } else if ip.len() == 0 && fp.len() == 0 {
            None
        } else if digits_val(ip) > u64::MAX {
            None
        } else {
            Some((digits_val(ip) * 1000 + crate::convert::spec_frac_ms(fp)) as nat)
        }
    };
    match raw {
        Some(n) => if n > u64::MAX {
            None
        } else {
            Some(n)
        },
        None => None,
    }
}

/// Parses a decimal-seconds duration text into milliseconds.
pub fn parse_duration_ms(s: &str) -> (r: Option<u64>)
    ensures
        match spec_duration_ms(s@) {
            Some(n) => r is Some && r->0 as nat == n,
            None => r is None,
        },
{
    let v = str_to_chars(s);
    let n = v.len();
    proof {
        assert(v@.skip(0) =~= s@);
    }
    let d = find_char(&v, 0, '.');
    if d == n {
        proof {
            assert(v@.subrange(0, n as int) =~= s@);
        }
        let base = match parse_u64_range(&v, 0, n) {
            Some(x) => x,
            None => {
                return None;
            },
        };
        let wide: u128 = (base as u128) * 1000;
        if wide > u64::MAX as u128 {
            None
        } else {
            Some(wide as u64)
        }
    } else {
        let ghost ip = s@.take(d as int);
        let ghost fp = s@.skip(d + 1);
        proof {
            assert(v@.subrange(0, d as int) =~= ip);
            assert(fp =~= v@.skip(d + 1));
        }
        let e = find_char(&v, d + 1, '.');
        if e != n {
            return None;
        }
        let frac = match parse_frac_ms(&v, d + 1, n) {
            Some(x) => x,
            None => {
                return None;
            },
        };
        proof {
            assert(v@.subrange(d + 1, n as int) =~= fp);
        }
        let ipv: u64 = if d == 0 {
            proof {
                assert(ip.len() == 0);
            }
            0
        } else {
            match parse_u64_range(&v, 0, d) {
                Some(x) => x,
                None => {
                    return None;
                },
            }
        };
        if d == 0 && d + 1 == n {
            return None;
        }
        assert(frac < 1000) by {
            assert(crate::convert::spec_frac_ms(fp) < 1000);
        }
        let wide: u128 = (ipv as u128) * 1000 + (frac as u128);
        if wide > u64::MAX as u128 {
            None
        } else {
            Some(wide as u64)
        }
    }
}

/// Parses an unsigned decimal text, absent when it is not one or does not
/// fit.
pub fn parse_u64_text(s: &str) -> (r: Option<u64>)
    ensures
        r is Some <==> (s@.len() > 0 && seq_all_digits(s@) && digits_val(s@) <= u64::MAX),
        r is Some ==> r->0 as nat == digits_val(s@),
{
    let v = str_to_chars(s);
    let n = v.len();
    proof {
        assert(v@.subrange(0, n as int) =~= s@);
    }
    parse_u64_range(&v, 0, n)
}

/// The file-name part a probe records for a path: everything after the last
/// slash, or the whole path when that is empty.
pub open spec fn spec_probe_filename(p: Seq<char>) -> Seq<char> {
    if file_name_of(p).len() == 0 {
        p
    } else {
        file_name_of(p)
    }
}

fn filename_for(path: &str) -> (r: String)
    ensures
        r@ == spec_probe_filename(path@),
{
    let v = str_to_chars(path);
    let n = v.len();
    let mut last: Option<usize> = None;
    let mut i: usize = 0;
    while i < n
        invariant
            n == v@.len(),
            v@ == path@,
            i <= n,
            match last {
                Some(x) => x < i && v@[x as int] == '/' && (forall|j: int|
                    x < j < i ==> v@[j] != '/'),
                None => forall|j: int| 0 <= j < i ==> v@[j] != '/',
            },
        decreases n - i,
    {
        if v[i] == '/' {
            last = Some(i);
        }
        i = i + 1;
    }
    proof {
        match last {
            Some(x) => crate::outpath::lemma_last_index_of_is(v@, '/', x as int),
            None => crate::outpath::lemma_last_index_of_is(v@, '/', -1),
        }
    }
    let start: usize = match last {
        Some(x) => {
            assert(x < n);
            x + 1
        },
        None => 0,
    };
    let name = skip_chars(&v, start);
    if name.len() == 0 {
        path.to_owned()
    } else {
        string_from_chars(&name)
    }
}

fn parse_stream(sv: &serde_json::Value) -> StreamInfo {
    let index: u32 = match json_u32_field(sv, "index") {
        Some(n) => n,
        None => 0,
    };
    let stream_type = match json_str_field(sv, "codec_type") {
        Some(t) => StreamType::from(t.as_str()),
        None => StreamType::Unknown,
    };
    let (language, title) = match json_get(sv, "tags") {
        Some(tags) => (json_str_field(tags, "language"), json_str_field(tags, "title")),
        None => (None, None),
    };
    StreamInfo {
        index,
        stream_type,
        codec_name: json_str_field(sv, "codec_name"),
        codec_long_name: json_str_field(sv, "codec_long_name"),
        width: json_u32_field(sv, "width"),
        height: json_u32_field(sv, "height"),
        frame_rate: json_str_field(sv, "r_frame_rate"),
        pix_fmt: json_str_field(sv, "pix_fmt"),
        sample_rate: json_str_field(sv, "sample_rate"),
        channels: json_u32_field(sv, "channels"),
        channel_layout: json_str_field(sv, "channel_layout"),
        language,
        title,
    }
}

/// Whether some stream of the sequence has the given kind.
pub open spec fn has_stream_of(streams: Seq<StreamInfo>, t: StreamType) -> bool {
    exists|i: int| 0 <= i < streams.len() && (#[trigger] streams[i]).stream_type == t
}

/// Builds the typed media-info record from the probing tool's JSON text.
/// It succeeds exactly when the text is JSON with the mandatory format
/// section, and every failure is a parse failure: unreadable text, or — for
/// readable text — the fixed missing-format message. Unreadable numeric
/// fields resolve to absent instead of failing. The derived flags say
/// exactly whether some stream of each kind is present.
pub fn parse_probe_output(path: &str, json_text: &str) -> (r: Result<MediaInfo, ProbeError>)
    ensures
        r is Ok <==> json_ok(json_text@) && json_has_format(json_text@),
        r matches Err(e) ==> e@ matches ProbeErrorV::ParseFailed(_),
        json_ok(json_text@) && !json_has_format(json_text@) ==> (r matches Err(e) && e@
            == ProbeErrorV::ParseFailed("Missing format info"@)),
        r matches Ok(info) ==> ({
            &&& info.path@ == path@
            &&& info.filename@ == spec_probe_filename(path@)
            &&& info.has_video == has_stream_of(info.streams@, StreamType::Video)
            &&& info.has_audio == has_stream_of(info.streams@, StreamType::Audio)
            &&& info.has_subtitles == has_stream_of(info.streams@, StreamType::Subtitle)
        }),
{
    let value = match parse_json(json_text) {
        Ok(v) => v,
        Err(e) => {
            return Err(ProbeError::ParseFailed(json_error_text(&e)));
        },
    };
    let format_owned = match json_format_member(json_text) {
        Some(f) => f,
        None => {
            return Err(ProbeError::ParseFailed("Missing format info".to_owned()));
        },
    };
    let format_val = &format_owned;
    let format = FormatInfo {
        format_name: match json_str_field(format_val, "format_name") {
            Some(s) => s,
            None => String::new(),
        },
        format_long_name: match json_str_field(format_val, "format_long_name") {
            Some(s) => s,
            None => String::new(),
        },
        duration_ms: match json_str_field(format_val, "duration") {
            Some(d) => parse_duration_ms(d.as_str()),
            None => None,
        },
        size: match json_str_field(format_val, "size") {
            Some(s) => parse_u64_text(s.as_str()),
            None => None,
        },
        bit_rate: match json_str_field(format_val, "bit_rate") {
            Some(b) => parse_u64_text(b.as_str()),
            None => None,
        },
    };

    let mut streams: Vec<StreamInfo> = Vec::new();
    let mut has_video = false;
    let mut has_audio = false;
    let mut has_subtitles = false;
    if let Some(streams_val) = json_get(&value, "streams") {
        if let Some(arr) = json_as_array(streams_val) {
            let mut i: usize = 0;
            let n = arr.len();
            while i < n
                invariant
                    n == arr@.len(),
                    i <= n,
                    has_video == has_stream_of(streams@, StreamType::Video),
                    has_audio == has_stream_of(streams@, StreamType::Audio),
                    has_subtitles == has_stream_of(streams@, StreamType::Subtitle),
                decreases n - i,
            {
                let info = parse_stream(&arr[i]);
                let ghost prev = streams@;
                let t = info.stream_type;
                streams.push(info);
                proof {
                    assert(streams@.last().stream_type == t);
                    assert(forall|j: int| 0 <= j < prev.len() ==> streams@[j] == prev[j]);
                }
                match t {
                    StreamType::Video => {
                        has_video = true;
                    },
                    StreamType::Audio => {
                        has_audio = true;
                    },
                    StreamType::Subtitle => {
                        has_subtitles = true;
                    },
                    _ => {},
                }
                proof {
                    assert(has_video == has_stream_of(streams@, StreamType::Video));
                    assert(has_audio == has_stream_of(streams@, StreamType::Audio));
                    assert(has_subtitles == has_stream_of(streams@, StreamType::Subtitle));
                }
                i = i + 1;
            }
        }
    }

    let filename = filename_for(path);
    Ok(
        MediaInfo {
            path: path.to_owned(),
            filename,
            format,
            streams,
            has_video,
            has_audio,
            has_subtitles,
        },
    )
}

/// The first line of a tool's version output, or the fallback text when the
/// output is empty: everything up to the first line break, without a
/// trailing carriage return.
pub open spec fn spec_version_line(output: Seq<char>, fallback: Seq<char>) -> Seq<char> {
    if output.len() == 0 {
        fallback
    } else {
        let line = output.take(first_index(output, '\n'));
        if line.len() > 0 && line.last() == '\r' {
            line.drop_last()
        } else {
            line
        }
    }
}

/// Extracts the version line a tool printed, for environment preflight.
pub fn version_line(output: &str, fallback: &str) -> (r: String)
    ensures
        r@ == spec_version_line(output@, fallback@),
{
    let v = str_to_chars(output);
    let n = v.len();
    if n == 0 {
        return fallback.to_owned();
    }
    proof {
        assert(v@.skip(0) =~= output@);
    }
    let e = find_char(&v, 0, '\n');
    let mut line = crate::outpath::take_chars(&v, e);
    if line.len() > 0 {
        let lastc = line[line.len() - 1];
        if lastc == '\r' {
            let ghost before = line@;
            line.pop();
            proof {
                assert(line@ =~= before.drop_last());
            }
        }
    }
    string_from_chars(&line)
}

} // verus!
