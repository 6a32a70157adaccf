//! Conversion requests and the argument builder: stream selection, advanced
//! overrides, quote-aware tokenization of extra arguments, elapsed-time
//! parsing, and the complete transcoder argument list.
use vstd::prelude::*;
use vstd::string::*;

use crate::presets::{catalog_find, opt_view, spec_opt_flag, spec_preset_args, find_preset};
use crate::strutil::{
    digit_val, digits_val, exec_digit_val, exec_is_digit, find_char, first_index, is_digit,
    lemma_strs_view_push, parse_u64, seq_all_digits, str_to_chars, string_from_chars, strs_view,
};

verus! {

/// Why a conversion could not be carried out.
#[derive(Clone, Debug)]
pub enum ConvertError {
    FfmpegNotFound,
    InputNotFound(String),
    PresetNotFound(String),
    ConversionFailed(String),
    Cancelled,
    InvalidOutputPath(String),
}

/// The mathematical value of a `ConvertError`.
pub enum ConvertErrorV {
    FfmpegNotFound,
    InputNotFound(Seq<char>),
    PresetNotFound(Seq<char>),
    ConversionFailed(Seq<char>),
    Cancelled,
    InvalidOutputPath(Seq<char>),
}

impl View for ConvertError {
    type V = ConvertErrorV;

    open spec fn view(&self) -> ConvertErrorV {
        match self {
            ConvertError::FfmpegNotFound => ConvertErrorV::FfmpegNotFound,
            ConvertError::InputNotFound(s) => ConvertErrorV::InputNotFound(s@),
            ConvertError::PresetNotFound(s) => ConvertErrorV::PresetNotFound(s@),
            ConvertError::ConversionFailed(s) => ConvertErrorV::ConversionFailed(s@),
            ConvertError::Cancelled => ConvertErrorV::Cancelled,
            ConvertError::InvalidOutputPath(s) => ConvertErrorV::InvalidOutputPath(s@),
        }
    }
}

/// The user-facing text of an error.
pub open spec fn spec_error_message(e: ConvertErrorV) -> Seq<char> {
    match e {
        ConvertErrorV::FfmpegNotFound => "FFmpeg not found. Please install FFmpeg."@,
        ConvertErrorV::InputNotFound(s) => "Input file not found: "@ + s,
        ConvertErrorV::PresetNotFound(s) => "Preset not found: "@ + s,
        ConvertErrorV::ConversionFailed(s) => "Conversion failed: "@ + s,
        ConvertErrorV::Cancelled => "Conversion cancelled"@,
        ConvertErrorV::InvalidOutputPath(s) => "Invalid output path: "@ + s,
    }
}

impl ConvertError {
    /// Renders the error for display.
    pub fn message(&self) -> (r: String)
        ensures
            r@ == spec_error_message(self@),
    {
        match self {
            ConvertError::FfmpegNotFound => "FFmpeg not found. Please install FFmpeg.".to_owned(),
            ConvertError::InputNotFound(s) => String::from_str("Input file not found: ").concat(
                s.as_str(),
            ),
            ConvertError::PresetNotFound(s) => String::from_str("Preset not found: ").concat(
                s.as_str(),
            ),
            ConvertError::ConversionFailed(s) => String::from_str("Conversion failed: ").concat(
                s.as_str(),
            ),
            ConvertError::Cancelled => "Conversion cancelled".to_owned(),
            ConvertError::InvalidOutputPath(s) => String::from_str("Invalid output path: ").concat(
                s.as_str(),
            ),
        }
    }
}

/// Which streams of the input to keep; all kept by default.
#[derive(Clone, Copy, Debug, PartialEq, Eq, Structural)]
pub struct StreamSelection {
    pub include_video: bool,
    pub include_audio: bool,
    pub include_subtitles: bool,
}

impl Default for StreamSelection {
    /// All streams included.
    fn default() -> (r: Self)
        ensures
            r.include_video && r.include_audio && r.include_subtitles,
    {
        StreamSelection { include_video: true, include_audio: true, include_subtitles: true }
    }
}

/// User overrides layered over (or used instead of) a preset.
#[derive(Clone, Debug)]
pub struct AdvancedOptions {
    pub format: Option<String>,
    pub video_codec: Option<String>,
    pub audio_codec: Option<String>,
    pub extra_args: Option<String>,
}

/// The mathematical value of `AdvancedOptions`.
pub struct AdvancedOptionsV {
    pub format: Option<Seq<char>>,
    pub video_codec: Option<Seq<char>>,
    pub audio_codec: Option<Seq<char>>,
    pub extra_args: Option<Seq<char>>,
}

impl View for AdvancedOptions {
    type V = AdvancedOptionsV;

    open spec fn view(&self) -> AdvancedOptionsV {
        AdvancedOptionsV {
            format: opt_view(self.format),
            video_codec: opt_view(self.video_codec),
            audio_codec: opt_view(self.audio_codec),
            extra_args: opt_view(self.extra_args),
        }
    }
}

/// One conversion request.
#[derive(Clone, Debug)]
pub struct ConvertOptions {
    pub input_path: String,
    pub output_path: String,
    pub preset_id: Option<String>,
    pub advanced: Option<AdvancedOptions>,
    pub stream_selection: Option<StreamSelection>,
}

/// The mathematical value of a `ConvertOptions`.
pub struct ConvertOptionsV {
    pub input_path: Seq<char>,
    pub output_path: Seq<char>,
    pub preset_id: Option<Seq<char>>,
    pub advanced: Option<AdvancedOptionsV>,
    pub stream_selection: Option<StreamSelection>,
}

impl View for ConvertOptions {
    type V = ConvertOptionsV;

    open spec fn view(&self) -> ConvertOptionsV {
        ConvertOptionsV {
            input_path: self.input_path@,
            output_path: self.output_path@,
            preset_id: opt_view(self.preset_id),
            advanced: match self.advanced {
                Some(a) => Some(a@),
                None => None,
            },
            stream_selection: self.stream_selection,
        }
    }
}

/// A progress report for one transcoder progress event.
#[derive(Clone, Debug)]
pub struct ConvertProgress {
    /// Percent complete, always in [0, 100].
    pub percent: u32,
    /// Elapsed media time, in milliseconds.
    pub time_ms: u64,
    pub speed: Option<String>,
    pub bitrate: Option<String>,
    pub size_kb: Option<u64>,
}

/// The terminal outcome of one successful run.
#[derive(Clone, Debug)]
pub struct ConvertResult {
    pub success: bool,
    pub output_path: String,
    /// Wall-clock time the run took, in milliseconds.
    pub duration_ms: u64,
    pub message: Option<String>,
}

/// One automaton step over the extra-argument text: `cur` is the token being
/// accumulated, `q` the open quote character, `acc` the finished tokens.
/// A quoted span is one token even if it holds whitespace; an unterminated
/// quote consumes to the end of the string.
pub open spec fn spec_tokenize_rec(
    s: Seq<char>,
    cur: Seq<char>,
    q: Option<char>,
    acc: Seq<Seq<char>>,
) -> Seq<Seq<char>>
    decreases s.len(),
{
    if s.len() == 0 {
        if cur.len() == 0 {
            acc
        } else {
            acc.push(cur)
        }
    } else {
        let c = s[0];
        let rest = s.drop_first();
        if q is None && (c == '"' || c == '\'') {
            spec_tokenize_rec(rest, cur, Some(c), acc)
        } else if q is Some && c == q->0 {
            spec_tokenize_rec(rest, cur, None, acc)
        } else if q is None && c == ' ' {
            if cur.len() == 0 {
                spec_tokenize_rec(rest, cur, q, acc)
            } else {
                spec_tokenize_rec(rest, Seq::empty(), q, acc.push(cur))
            }
        } else {
            spec_tokenize_rec(rest, cur.push(c), q, acc)
        }
    }
}

/// The tokens of an extra-argument string: split on spaces, with single- or
/// double-quoted spans kept whole.
pub open spec fn spec_tokenize(s: Seq<char>) -> Seq<Seq<char>> {
    spec_tokenize_rec(s, Seq::empty(), None, Seq::empty())
}

/// Splits an extra-argument string into tokens, quote-aware.
pub fn parse_extra_args(extra: &str) -> (r: Vec<String>)
    ensures
        strs_view(r@) == spec_tokenize(extra@),
{
    let cs = str_to_chars(extra);
    let n = cs.len();
    let mut out: Vec<String> = Vec::new();
    let mut cur: Vec<char> = Vec::new();
    let mut quote: Option<char> = None;
    let mut i: usize = 0;
    proof {
        assert(cs@.skip(0) =~= extra@);
        assert(strs_view(out@) =~= Seq::<Seq<char>>::empty());
    }
    while i < n
        invariant
            n == cs@.len(),
            cs@ == extra@,
            i <= n,
            spec_tokenize(extra@) == spec_tokenize_rec(cs@.skip(i as int), cur@, quote, strs_view(out@)),
        decreases n - i,
    {
        let ghost pre = cs@.skip(i as int);
        proof {
            assert(pre[0] == cs@[i as int]);
            assert(pre.drop_first() =~= cs@.skip(i + 1));
        }
        let c = cs[i];
        let open_quote = match quote {
            Some(qc) => {
                if c == qc {
                    1u8
                } else {
                    2u8
                }
            },
            None => 0u8,
        };
        if open_quote == 0 && (c == '"' || c == '\'') {
            quote = Some(c);
        } else if open_quote == 1 {
            quote = None;
        } else if open_quote == 0 && c == ' ' {
            if cur.len() > 0 {
                let tok = string_from_chars(&cur);
                let ghost oldout = out@;
                out.push(tok);
                proof {
                    lemma_strs_view_push(oldout, out@.last());
                }
                cur = Vec::new();
            }
        } else {
            cur.push(c);
        }
        i = i + 1;
    }
    proof {
        assert(cs@.skip(n as int) =~= Seq::<char>::empty());
    }
    if cur.len() > 0 {
        let tok = string_from_chars(&cur);
        let ghost oldout = out@;
        out.push(tok);
        proof {
            lemma_strs_view_push(oldout, out@.last());
        }
    }
    out
}

/// Clamps a mathematical value into `u64` range.
pub open spec fn sat_u64(n: nat) -> nat {
    if n > u64::MAX {
        u64::MAX as nat
    } else {
        n
    }
}

/// The value of one colon-separated time component: its digits, or zero when
/// it is empty, is not all digits, or does not fit.
pub open spec fn comp_val(s: Seq<char>) -> nat {
    if s.len() > 0 && seq_all_digits(s) && digits_val(s) <= u64::MAX {
        digits_val(s)
    } else {
        0
    }
}

/// Milliseconds contributed by a fractional-second digit string: the first
/// three digits, scaled to thousandths.
pub open spec fn spec_frac_ms(f: Seq<char>) -> nat {
    if f.len() == 0 {
        0
    } else if f.len() == 1 {
        digit_val(f[0]) * 100
    } else if f.len() == 2 {
        digit_val(f[0]) * 100 + digit_val(f[1]) * 10
    } else {
        digit_val(f[0]) * 100 + digit_val(f[1]) * 10 + digit_val(f[2])
    }
}

/// Milliseconds denoted by a seconds component `SS` or `SS.fraction`;
/// zero when the component cannot be read as such a decimal.
pub open spec fn spec_seconds_ms(s: Seq<char>) -> nat {
    let d = first_index(s, '.');
    if d == s.len() {
        comp_val(s) * 1000
    } else {
        let ip = s.take(d);
        let fp = s.skip(d + 1);
        if first_index(fp, '.') != fp.len() {
            0
        } else if !seq_all_digits(ip) || !seq_all_digits(fp) {
            0
        } else if ip.len() == 0 && fp.len() == 0 {
            0
        } else if digits_val(ip) > u64::MAX {
            0
        } else {
            digits_val(ip) * 1000 + spec_frac_ms(fp)
        }
    }
}

/// Milliseconds denoted by elapsed-time text `HH:MM:SS.fraction`.
/// Text without exactly three colon-separated parts counts as zero, as does
/// any component that cannot be read; the total saturates at `u64::MAX`.
pub open spec fn spec_time_ms(t: Seq<char>) -> nat {
    let p1 = first_index(t, ':');
    if p1 == t.len() {
        0
    } else {
        let rest1 = t.skip(p1 + 1);
        let q = first_index(rest1, ':');
        if q == rest1.len() {
            0
        } else {
            let rest2 = rest1.skip(q + 1);
            if first_index(rest2, ':') != rest2.len() {
                0
            } else {
                sat_u64(
                    comp_val(t.take(p1)) * 3600000 + comp_val(rest1.take(q)) * 60000
                        + spec_seconds_ms(rest2),
                )
            }
        }
    }
}

fn parse_component(v: &Vec<char>, from: usize, to: usize) -> (r: u64)
    requires
        from <= to <= v@.len(),
    ensures
        r as nat == comp_val(v@.subrange(from as int, to as int)),
{
    match parse_u64(v, from, to) {
        Some(x) => x,
        None => 0,
    }
}

pub(crate) fn parse_frac_ms(v: &Vec<char>, from: usize, to: usize) -> (r: Option<u64>)
    requires
        from <= to <= v@.len(),
    ensures
        ({
            let fp = v@.subrange(from as int, to as int);
            &&& r is Some <==> seq_all_digits(fp)
            &&& r is Some ==> r->0 as nat == spec_frac_ms(fp)
        }),
{
    let ghost fp = v@.subrange(from as int, to as int);
    let mut i: usize = from;
    while i < to
        invariant
            from <= i <= to <= v@.len(),
            fp == v@.subrange(from as int, to as int),
            seq_all_digits(fp.take(i - from)),
        decreases to - i,
    {
        let c = v[i];
        assert(c == fp[i - from]);
        if !exec_is_digit(c) {
            assert(!is_digit(fp[i - from]));
            return None;
        }
        proof {
            assert(is_digit(c));
            assert forall|j: int| 0 <= j < i - from + 1 implies is_digit(
                #[trigger] fp.take(i - from + 1)[j],
            ) by {
                if j < i - from {
                    assert(fp.take(i - from + 1)[j] == fp.take(i - from)[j]);
                } else {
                    assert(fp.take(i - from + 1)[j] == c);
                }
            }
        }
        i = i + 1;
    }
    proof {
        assert(fp.take(to - from) =~= fp);
    }
    let len = to - from;
    let d0: u64 = if len >= 1 {
        assert(fp[0] == v@[from as int]);
        exec_digit_val(v[from])
    } else {
        0
    };
    let d1: u64 = if len >= 2 {
        assert(fp[1] == v@[from + 1]);
        exec_digit_val(v[from + 1])
    } else {
        0
    };
    let d2: u64 = if len >= 3 {
        assert(fp[2] == v@[from + 2]);
        exec_digit_val(v[from + 2])
    } else {
        0
    };
    if len == 0 {
        Some(0)
    } else if len == 1 {
        Some(d0 * 100)
    } else if len == 2 {
        Some(d0 * 100 + d1 * 10)
    } else {
        Some(d0 * 100 + d1 * 10 + d2)
    }
}

fn parse_seconds_ms(v: &Vec<char>, from: usize) -> (r: u64)
    requires
        from <= v@.len(),
    ensures
        r as nat == sat_u64(spec_seconds_ms(v@.skip(from as int))),
        spec_seconds_ms(v@.skip(from as int)) <= u64::MAX ==> r as nat == spec_seconds_ms(
            v@.skip(from as int),
        ),
{
    let ghost s = v@.skip(from as int);
    let n = v.len();
    let d = find_char(v, from, '.');
    if d == n {
        proof {
            assert(v@.subrange(from as int, n as int) =~= s);
        }
        let base = parse_component(v, from, n);
        let wide: u128 = (base as u128) * 1000;
        if wide > u64::MAX as u128 {
            u64::MAX
        } else {
            wide as u64
        }
    } else {
        let ghost ip = s.take(d - from);
        let ghost fp = s.skip(d - from + 1);
        proof {
            assert(v@.subrange(from as int, d as int) =~= ip);
            assert(v@.subrange(d + 1, n as int) =~= fp);
        }
        // a second dot makes the component unreadable
        proof {
            assert(fp =~= v@.skip(d + 1));
        }
        let e = find_char(v, d + 1, '.');
        if e != n {
            return 0;
        }
        let frac = match parse_frac_ms(v, d + 1, n) {
            Some(x) => x,
            None => {
                return 0;
            },
        };
        let ipv: u64 = if from == d {
            assert(ip.len() == 0);
            assert(digits_val(ip) == 0 && seq_all_digits(ip));
            0
        } else {
            match parse_u64(v, from, d) {
                Some(x) => x,
                None => {
                    return 0;
                },
            }
        };
        if from == d && d + 1 == n {
            return 0;
        }
        let wide: u128 = (ipv as u128) * 1000 + (frac as u128);
        assert(frac < 1000) by {
            assert(spec_frac_ms(fp) < 1000);
        }
        if wide > u64::MAX as u128 {
            u64::MAX
        } else {
            wide as u64
        }
    }
}

/// Milliseconds denoted by elapsed-time text in the transcoder's
/// `HH:MM:SS.fraction` progress format; see `spec_time_ms`.
#[verifier::rlimit(50)]
pub fn parse_time_str(time: &str) -> (r: u64)
    ensures
        r as nat == spec_time_ms(time@),
{
    let v = str_to_chars(time);
    let n = v.len();
    proof {
        assert(v@.skip(0) =~= time@);
    }
    let p1 = find_char(&v, 0, ':');
    if p1 == n {
        return 0;
    }
    let ghost rest1 = time@.skip(p1 + 1);
    let p2 = find_char(&v, p1 + 1, ':');
    if p2 == n {
        return 0;
    }
    let ghost rest2 = rest1.skip(p2 - p1);
    proof {
        assert(rest2 =~= time@.skip(p2 + 1));
    }
    let p3 = find_char(&v, p2 + 1, ':');
    if p3 != n {
        return 0;
    }
    proof {
        assert(v@.subrange(0, p1 as int) =~= time@.take(p1 as int));
        assert(v@.subrange(p1 + 1, p2 as int) =~= rest1.take(p2 - p1 - 1));
    }
    let h = parse_component(&v, 0, p1);
    let m = parse_component(&v, p1 + 1, p2);
    let sms = parse_seconds_ms(&v, p2 + 1);
    let ghost exact = comp_val(time@.take(p1 as int)) * 3600000 + comp_val(
        rest1.take(p2 - p1 - 1),
    ) * 60000 + spec_seconds_ms(rest2);
    let wide: u128 = (h as u128) * 3600000 + (m as u128) * 60000 + (sms as u128);
    if wide > u64::MAX as u128 {
        proof {
            assert(sms as nat <= spec_seconds_ms(rest2));
            assert(exact > u64::MAX);
            assert(spec_time_ms(time@) == sat_u64(exact));
        }
        u64::MAX
    } else {
        proof {
            if spec_seconds_ms(rest2) > u64::MAX {
                assert(sms == u64::MAX);
                assert((h as u128) * 3600000 + (m as u128) * 60000 == 0);
                assert(wide as nat == u64::MAX);
                assert(exact > u64::MAX);
                assert(sat_u64(exact) == u64::MAX);
            } else {
                assert(sms as nat == spec_seconds_ms(rest2));
                assert(wide as nat == exact);
            }
            assert(spec_time_ms(time@) == sat_u64(exact));
        }
        wide as u64
    }
}

/// The default stream selection: everything included.
pub open spec fn spec_sel_or_default(o: Option<StreamSelection>) -> StreamSelection {
    match o {
        Some(s) => s,
        None => StreamSelection {
            include_video: true,
            include_audio: true,
            include_subtitles: true,
        },
    }
}

/// The stream-exclusion flags demanded by a selection: one flag for each
/// stream kind that is switched off, in video/audio/subtitle order.
pub open spec fn spec_sel_flags(sel: StreamSelection) -> Seq<Seq<char>> {
    (if !sel.include_video {
        seq!["-vn"@]
    } else {
        Seq::empty()
    }) + (if !sel.include_audio {
        seq!["-an"@]
    } else {
        Seq::empty()
    }) + (if !sel.include_subtitles {
        seq!["-sn"@]
    } else {
        Seq::empty()
    })
}

/// Removes the first occurrence of `flag` together with the argument that
/// follows it (the codec value); leaves the list unchanged when the flag
/// is absent, and removes only the flag when it is the last element.
pub open spec fn spec_remove_flag_pair(args: Seq<Seq<char>>, flag: Seq<char>) -> Seq<Seq<char>> {
    match args.index_of_first(flag) {
        None => args,
        Some(i) => if i + 1 < args.len() {
            args.remove(i).remove(i)
        } else {
            args.remove(i)
        },
    }
}

/// Advanced options applied over the argument list built so far: a format
/// flag is appended, codec overrides first remove the previously emitted
/// codec flag and value, and the extra-argument string is tokenized and
/// appended last.
pub open spec fn spec_apply_advanced(args: Seq<Seq<char>>, a: AdvancedOptionsV) -> Seq<Seq<char>> {
    let a1 = args + spec_opt_flag("-f"@, a.format);
    let a2 = match a.video_codec {
        None => a1,
        Some(v) => spec_remove_flag_pair(a1, "-c:v"@) + seq!["-c:v"@, v],
    };
    let a3 = match a.audio_codec {
        None => a2,
        Some(v) => spec_remove_flag_pair(a2, "-c:a"@) + seq!["-c:a"@, v],
    };
    match a.extra_args {
        None => a3,
        Some(e) => a3 + spec_tokenize(e),
    }
}

/// The full transcoder argument list for a request: the input flag first,
/// then stream-exclusion flags, the preset's arguments, the advanced
/// overrides, and finally the unconditional overwrite flag and output path.
/// Meaningful whenever the request names no preset or names one the catalog
/// has.
pub open spec fn spec_build_args(o: ConvertOptionsV) -> Seq<Seq<char>> {
    let base = seq!["-i"@, o.input_path] + spec_sel_flags(spec_sel_or_default(o.stream_selection));
    let with_preset = match o.preset_id {
        None => base,
        Some(id) => base + spec_preset_args(catalog_find(id)->0),
    };
    let with_adv = match o.advanced {
        None => with_preset,
        Some(a) => spec_apply_advanced(with_preset, a),
    };
    with_adv + seq!["-y"@, o.output_path]
}

fn push_one(args: &mut Vec<String>, a: &str)
    ensures
        strs_view(final(args)@) == strs_view(old(args)@) + seq![a@],
{
    let ghost prev = args@;
    args.push(a.to_owned());
    proof {
        lemma_strs_view_push(prev, args@.last());
        assert(strs_view(args@) =~= strs_view(prev) + seq![a@]);
    }
}

fn push_pair(args: &mut Vec<String>, a: &str, b: &String)
    ensures
        strs_view(final(args)@) == strs_view(old(args)@) + seq![a@, b@],
{
    let ghost prev = args@;
    args.push(a.to_owned());
    proof {
        lemma_strs_view_push(prev, args@.last());
    }
    let ghost mid = args@;
    args.push(b.clone());
    proof {
        lemma_strs_view_push(mid, args@.last());
        assert(strs_view(args@) =~= strs_view(prev) + seq![a@, b@]);
    }
}

fn remove_codec_flag(args: &mut Vec<String>, flag: &str)
    ensures
        strs_view(final(args)@) == spec_remove_flag_pair(strs_view(old(args)@), flag@),
{
    let ghost s = strs_view(args@);
    let n = args.len();
    let mut i: usize = 0;
    while i < n
        invariant
            n == args@.len(),
            i <= n,
            args@ == old(args)@,
            s == strs_view(args@),
            forall|j: int| 0 <= j < i ==> s[j] != flag@,
        decreases n - i,
    {
        if crate::strutil::str_eq(args[i].as_str(), flag) {
            proof {
                assert(s[i as int] == flag@);
                assert(s.contains(flag@));
                s.index_of_first_ensures(flag@);
                let idx = s.index_of_first(flag@)->0;
                if idx < i {
                    assert(s[idx] != flag@);
                }
                if idx > i {
                    assert(s[i as int] != flag@);
                }
                assert(s.index_of_first(flag@) == Some(i as int));
            }
            let ghost before = args@;
            args.remove(i);
            proof {
                crate::strutil::lemma_strs_view_remove(before, i as int);
            }
            if i < args.len() {
                let ghost mid = args@;
                args.remove(i);
                proof {
                    crate::strutil::lemma_strs_view_remove(mid, i as int);
                }
            }
            return;
        }
        i = i + 1;
    }
    proof {
        s.index_of_first_ensures(flag@);
        if s.index_of_first(flag@) is Some {
            let idx = s.index_of_first(flag@)->0;
            assert(s[idx] == flag@);
        }
    }
}

/// Builds the complete transcoder argument list for a request.
/// Fails exactly when the request names a preset the catalog lacks.
pub fn build_ffmpeg_args(options: &ConvertOptions) -> (r: Result<Vec<String>, ConvertError>)
    ensures
        match r {
            Ok(args) => {
                &&& match options@.preset_id {
                    Some(id) => catalog_find(id) is Some,
                    None => true,
                }
                &&& strs_view(args@) == spec_build_args(options@)
            },
            Err(e) => {
                &&& options@.preset_id is Some
                &&& catalog_find(options@.preset_id->0) is None
                &&& e@ == ConvertErrorV::PresetNotFound(options@.preset_id->0)
            },
        },
{
    let mut args: Vec<String> = Vec::new();
    proof {
        assert(strs_view(args@) =~= Seq::<Seq<char>>::empty());
    }
    push_pair(&mut args, "-i", &options.input_path);

    let sel = match &options.stream_selection {
        Some(s) => *s,
        None => StreamSelection::default(),
    };
    proof {
        assert(sel == spec_sel_or_default(options@.stream_selection));
    }
    if !sel.include_video {
        push_one(&mut args, "-vn");
    }
    if !sel.include_audio {
        push_one(&mut args, "-an");
    }
    if !sel.include_subtitles {
        push_one(&mut args, "-sn");
    }
    let ghost base = seq!["-i"@, options@.input_path] + spec_sel_flags(sel);
    proof {
        assert(strs_view(args@) =~= base);
    }

    if let Some(preset_id) = &options.preset_id {
        match find_preset(preset_id.as_str()) {
            Some(preset) => {
                let mut pa = preset.build_args();
                let ghost prev = args@;
                let ghost pa_prev = pa@;
                args.append(&mut pa);
                proof {
                    crate::strutil::lemma_strs_view_concat(prev, pa_prev);
                }
            },
            None => {
                return Err(ConvertError::PresetNotFound(preset_id.clone()));
            },
        }
    }
    let ghost with_preset = match options@.preset_id {
        None => base,
        Some(id) => base + spec_preset_args(catalog_find(id)->0),
    };
    proof {
        assert(strs_view(args@) == with_preset);
    }

    if let Some(advanced) = &options.advanced {
        if let Some(format) = &advanced.format {
            push_pair(&mut args, "-f", format);
        }
        let ghost a1 = with_preset + spec_opt_flag("-f"@, advanced@.format);
        proof {
            if advanced@.format is None {
                assert(a1 =~= with_preset);
            }
            assert(strs_view(args@) == a1);
        }
        if let Some(vcodec) = &advanced.video_codec {
            remove_codec_flag(&mut args, "-c:v");
            push_pair(&mut args, "-c:v", vcodec);
        }
        let ghost a2 = match advanced@.video_codec {
            None => a1,
            Some(v) => spec_remove_flag_pair(a1, "-c:v"@) + seq!["-c:v"@, v],
        };
        proof {
            assert(strs_view(args@) == a2);
        }
        if let Some(acodec) = &advanced.audio_codec {
            remove_codec_flag(&mut args, "-c:a");
            push_pair(&mut args, "-c:a", acodec);
        }
        let ghost a3 = match advanced@.audio_codec {
            None => a2,
            Some(v) => spec_remove_flag_pair(a2, "-c:a"@) + seq!["-c:a"@, v],
        };
        proof {
            assert(strs_view(args@) == a3);
        }
        if let Some(extra) = &advanced.extra_args {
            let mut parsed = parse_extra_args(extra.as_str());
            let ghost prev = args@;
            let ghost parsed_prev = parsed@;
            args.append(&mut parsed);
            proof {
                crate::strutil::lemma_strs_view_concat(prev, parsed_prev);
            }
        }
        proof {
            assert(strs_view(args@) == spec_apply_advanced(with_preset, advanced@));
        }
    }
    let ghost with_adv = match options@.advanced {
        None => with_preset,
        Some(a) => spec_apply_advanced(with_preset, a),
    };
    proof {
        assert(strs_view(args@) == with_adv);
    }

    push_pair(&mut args, "-y", &options.output_path);
    proof {
        assert(strs_view(args@) =~= spec_build_args(options@));
    }
    Ok(args)
}

/// How often `x` occurs in `s`.
pub open spec fn count_of<T>(s: Seq<T>, x: T) -> nat
    decreases s.len(),
{
    if s.len() == 0 {
        0
    } else {
        count_of(s.drop_first(), x) + if s[0] == x {
            1nat
        } else {
            0nat
        }
    }
}

/// Occurrences in a concatenation add up.
pub proof fn lemma_count_concat<T>(a: Seq<T>, b: Seq<T>, x: T)
    ensures
        count_of(a + b, x) == count_of(a, x) + count_of(b, x),
    decreases a.len(),
{
    if a.len() == 0 {
        assert(a + b =~= b);
    } else {
        assert((a + b)[0] == a[0]);
        assert((a + b).drop_first() =~= a.drop_first() + b);
        lemma_count_concat(a.drop_first(), b, x);
    }
}

/// Nothing occurs exactly when no position holds it.
pub proof fn lemma_count_zero<T>(s: Seq<T>, x: T)
    ensures
        (count_of(s, x) == 0) <==> (forall|i: int| 0 <= i < s.len() ==> s[i] != x),
    decreases s.len(),
{
    if s.len() != 0 {
        lemma_count_zero(s.drop_first(), x);
        assert forall|i: int| 1 <= i < s.len() implies s[i] == s.drop_first()[i - 1] by {}
    }
}

/// The occurrence count in a one-element sequence.
pub proof fn lemma_count_single<T>(a: T, x: T)
    ensures
        count_of(seq![a], x) == if a == x {
            1nat
        } else {
            0nat
        },
{
    assert(seq![a].len() == 1);
    assert(seq![a][0] == a);
    assert(seq![a].drop_first() =~= Seq::<T>::empty());
    assert(count_of(Seq::<T>::empty(), x) == 0);
}

/// The occurrence count in a two-element sequence.
pub proof fn lemma_count_pair<T>(a: T, b: T, x: T)
    ensures
        count_of(seq![a, b], x) == (if a == x {
            1nat
        } else {
            0nat
        }) + (if b == x {
            1nat
        } else {
            0nat
        }),
{
    assert(seq![a, b].drop_first() =~= seq![b]);
    lemma_count_single(b, x);
}

/// The first position holding `x`, characterized.
pub proof fn lemma_index_of_first_is<T>(s: Seq<T>, x: T, i: int)
    requires
        0 <= i < s.len(),
        s[i] == x,
        forall|j: int| 0 <= j < i ==> s[j] != x,
    ensures
        s.index_of_first(x) == Some(i),
{
    assert(s.contains(x));
    s.index_of_first_ensures(x);
    let idx = s.index_of_first(x)->0;
    if idx < i {
        assert(s[idx] != x);
    }
    if idx > i {
        assert(s[i] != x);
    }
}

/// The command-line words the builder itself emits are pairwise distinct.
pub proof fn lemma_flag_words_distinct()
    ensures
        "-vn"@ != "-an"@ && "-vn"@ != "-sn"@ && "-an"@ != "-sn"@,
        "-i"@ != "-vn"@ && "-i"@ != "-an"@ && "-i"@ != "-sn"@,
        "-f"@ != "-vn"@ && "-f"@ != "-an"@ && "-f"@ != "-sn"@,
        "-y"@ != "-vn"@ && "-y"@ != "-an"@ && "-y"@ != "-sn"@,
        "-c:v"@ != "-vn"@ && "-c:v"@ != "-an"@ && "-c:v"@ != "-sn"@,
        "-c:a"@ != "-vn"@ && "-c:a"@ != "-an"@ && "-c:a"@ != "-sn"@,
        "-c:v"@ != "-c:a"@,
        "-i"@ != "-c:v"@ && "-f"@ != "-c:v"@ && "-y"@ != "-c:v"@,
        "-i"@ != "-c:a"@ && "-f"@ != "-c:a"@ && "-y"@ != "-c:a"@,
{
    reveal_strlit("-vn");
    reveal_strlit("-an");
    reveal_strlit("-sn");
    reveal_strlit("-i");
    reveal_strlit("-f");
    reveal_strlit("-y");
    reveal_strlit("-c:v");
    reveal_strlit("-c:a");
    assert("-vn"@.len() == 3 && "-an"@.len() == 3 && "-sn"@.len() == 3);
    assert("-i"@.len() == 2 && "-f"@.len() == 2 && "-y"@.len() == 2);
    assert("-c:v"@.len() == 4 && "-c:a"@.len() == 4);
    assert(("-vn"@)[1] == 'v' && ("-an"@)[1] == 'a' && ("-sn"@)[1] == 's');
    assert(("-c:v"@)[3] == 'v' && ("-c:a"@)[3] == 'a');
    assert(("-vn"@)[1] != ("-an"@)[1]);
    assert(("-vn"@)[1] != ("-sn"@)[1]);
    assert(("-an"@)[1] != ("-sn"@)[1]);
    assert(("-c:v"@)[3] != ("-c:a"@)[3]);
}

/// How often `x` occurs among the stream-exclusion flags of a selection,
/// for an `x` that is not itself one of the three flags.
pub proof fn lemma_sel_flags_count_other(sel: StreamSelection, x: Seq<char>)
    requires
        x != "-vn"@ && x != "-an"@ && x != "-sn"@,
    ensures
        count_of(spec_sel_flags(sel), x) == 0,
{
    let c1: Seq<Seq<char>> = if !sel.include_video {
        seq!["-vn"@]
    } else {
        Seq::empty()
    };
    let c2: Seq<Seq<char>> = if !sel.include_audio {
        seq!["-an"@]
    } else {
        Seq::empty()
    };
    let c3: Seq<Seq<char>> = if !sel.include_subtitles {
        seq!["-sn"@]
    } else {
        Seq::empty()
    };
    lemma_count_concat(c1 + c2, c3, x);
    lemma_count_concat(c1, c2, x);
    lemma_count_single("-vn"@, x);
    lemma_count_single("-an"@, x);
    lemma_count_single("-sn"@, x);
}

/// How often one particular exclusion flag occurs among the exclusion flags
/// of a selection: once when its stream is off, never otherwise.
pub proof fn lemma_sel_flags_count_flag(sel: StreamSelection, flag: Seq<char>, off: bool)
    requires
        flag == "-vn"@ || flag == "-an"@ || flag == "-sn"@,
        off == ((flag == "-vn"@ && !sel.include_video) || (flag == "-an"@ && !sel.include_audio)
            || (flag == "-sn"@ && !sel.include_subtitles)),
    ensures
        count_of(spec_sel_flags(sel), flag) == if off {
            1nat
        } else {
            0nat
        },
{
    lemma_flag_words_distinct();
    let c1: Seq<Seq<char>> = if !sel.include_video {
        seq!["-vn"@]
    } else {
        Seq::empty()
    };
    let c2: Seq<Seq<char>> = if !sel.include_audio {
        seq!["-an"@]
    } else {
        Seq::empty()
    };
    let c3: Seq<Seq<char>> = if !sel.include_subtitles {
        seq!["-sn"@]
    } else {
        Seq::empty()
    };
    lemma_count_concat(c1 + c2, c3, flag);
    lemma_count_concat(c1, c2, flag);
    lemma_count_single("-vn"@, flag);
    lemma_count_single("-an"@, flag);
    lemma_count_single("-sn"@, flag);
}

/// How often `x` occurs among a preset flag pair.
pub proof fn lemma_opt_flag_count(f: Seq<char>, v: Option<Seq<char>>, x: Seq<char>)
    requires
        f != x,
        v matches Some(val) ==> val != x,
    ensures
        count_of(spec_opt_flag(f, v), x) == 0,
{
    match v {
        Some(val) => lemma_count_pair(f, val, x),
        None => {},
    }
}

/// Each stream-exclusion flag appears in the built argument list exactly
/// once when its stream is switched off and never when it is kept — for any
/// request whose codec overrides are absent and whose paths, preset
/// arguments, format override and extra arguments never yield that flag
/// themselves.
pub proof fn lemma_exclusion_flags(o: ConvertOptionsV, flag: Seq<char>, off: bool)
    requires
        flag == "-vn"@ || flag == "-an"@ || flag == "-sn"@,
        ({
            let sel = spec_sel_or_default(o.stream_selection);
            off == ((flag == "-vn"@ && !sel.include_video) || (flag == "-an"@
                && !sel.include_audio) || (flag == "-sn"@ && !sel.include_subtitles))
        }),
        o.input_path != flag,
        o.output_path != flag,
        match o.preset_id {
            Some(id) => catalog_find(id) matches Some(p) && count_of(spec_preset_args(p), flag)
                == 0,
            None => true,
        },
        match o.advanced {
            Some(a) => {
                &&& a.video_codec is None
                &&& a.audio_codec is None
                &&& (a.format matches Some(f) ==> f != flag)
                &&& (a.extra_args matches Some(e) ==> count_of(spec_tokenize(e), flag) == 0)
            },
            None => true,
        },
    ensures
        count_of(spec_build_args(o), flag) == if off {
            1nat
        } else {
            0nat
        },
{
    lemma_flag_words_distinct();
    let sel = spec_sel_or_default(o.stream_selection);
    let base = seq!["-i"@, o.input_path] + spec_sel_flags(sel);
    lemma_count_pair("-i"@, o.input_path, flag);
    lemma_sel_flags_count_flag(sel, flag, off);
    lemma_count_concat(seq!["-i"@, o.input_path], spec_sel_flags(sel), flag);
    assert(count_of(base, flag) == if off {
        1nat
    } else {
        0nat
    });
    let with_preset = match o.preset_id {
        None => base,
        Some(id) => base + spec_preset_args(catalog_find(id)->0),
    };
    match o.preset_id {
        None => {},
        Some(id) => {
            lemma_count_concat(base, spec_preset_args(catalog_find(id)->0), flag);
        },
    }
    assert(count_of(with_preset, flag) == if off {
        1nat
    } else {
        0nat
    });
    let with_adv = match o.advanced {
        None => with_preset,
        Some(a) => spec_apply_advanced(with_preset, a),
    };
    match o.advanced {
        None => {},
        Some(a) => {
            let a1 = with_preset + spec_opt_flag("-f"@, a.format);
            lemma_opt_flag_count("-f"@, a.format, flag);
            lemma_count_concat(with_preset, spec_opt_flag("-f"@, a.format), flag);
            match a.extra_args {
                None => {
                    assert(with_adv == a1);
                },
                Some(e) => {
                    lemma_count_concat(a1, spec_tokenize(e), flag);
                    assert(with_adv == a1 + spec_tokenize(e));
                },
            }
        },
    }
    assert(count_of(with_adv, flag) == if off {
        1nat
    } else {
        0nat
    });
    lemma_count_pair("-y"@, o.output_path, flag);
    lemma_count_concat(with_adv, seq!["-y"@, o.output_path], flag);
}

/// Removing a flag pair whose first occurrence follows a clean front
/// segment removes exactly that pair.
proof fn lemma_remove_pair_at(
    s: Seq<Seq<char>>,
    front: Seq<Seq<char>>,
    flag: Seq<char>,
    val: Seq<char>,
    back: Seq<Seq<char>>,
)
    requires
        s == front + seq![flag, val] + back,
        count_of(front, flag) == 0,
    ensures
        spec_remove_flag_pair(s, flag) == front + back,
{
    lemma_count_zero(front, flag);
    assert(s[front.len() as int] == flag);
    assert forall|j: int| 0 <= j < front.len() implies s[j] != flag by {
        assert(s[j] == front[j]);
    }
    lemma_index_of_first_is(s, flag, front.len() as int);
    let i0 = front.len() as int;
    assert(i0 + 1 < s.len());
    assert(spec_remove_flag_pair(s, flag) == s.remove(i0).remove(i0));
    assert(s.remove(i0).remove(i0) =~= front + back);
}

/// Removing a flag pair from a list without the flag changes nothing.
proof fn lemma_remove_pair_absent(s: Seq<Seq<char>>, flag: Seq<char>)
    requires
        count_of(s, flag) == 0,
    ensures
        spec_remove_flag_pair(s, flag) == s,
{
    lemma_count_zero(s, flag);
    s.index_of_first_ensures(flag);
    if s.index_of_first(flag) is Some {
        let idx = s.index_of_first(flag)->0;
        assert(s[idx] == flag);
    }
}

/// The segments around the overriding video-codec pair in a built list:
/// everything before the appended `-c:v` flag, and everything after its
/// value. Meaningful under the hypotheses of `lemma_video_codec_override`.
pub open spec fn cv_override_front(o: ConvertOptionsV) -> Seq<Seq<char>> {
    let p = catalog_find(o.preset_id->0)->0;
    let a = o.advanced->0;
    seq!["-i"@, o.input_path] + spec_sel_flags(spec_sel_or_default(o.stream_selection))
        + spec_opt_flag("-f"@, p.format) + (match a.audio_codec {
        None => spec_opt_flag("-c:a"@, p.audio_codec),
        Some(_) => Seq::<Seq<char>>::empty(),
    }) + p.extra_args + spec_opt_flag("-f"@, a.format)
}

/// See `cv_override_front`: the segment after the override pair.
pub open spec fn cv_override_back(o: ConvertOptionsV) -> Seq<Seq<char>> {
    let a = o.advanced->0;
    (match a.audio_codec {
        None => Seq::<Seq<char>>::empty(),
        Some(av) => seq!["-c:a"@, av],
    }) + (match a.extra_args {
        None => Seq::<Seq<char>>::empty(),
        Some(e) => spec_tokenize(e),
    }) + seq!["-y"@, o.output_path]
}

/// The hypotheses shared by the video-override lemmas: the request names a
/// catalog preset that emits a video codec, the advanced options override
/// it, and no other argument source yields the codec flags themselves.
pub open spec fn cv_override_clean(o: ConvertOptionsV) -> bool {
    &&& o.preset_id matches Some(id) && catalog_find(id) matches Some(p) && p.video_codec is Some
    &&& o.advanced matches Some(a) && a.video_codec is Some
    &&& o.input_path != "-c:v"@
    &&& o.output_path != "-c:v"@
    &&& ({
        let p = catalog_find(o.preset_id->0)->0;
        &&& (p.format matches Some(f) ==> f != "-c:v"@)
        &&& p.video_codec->0 != "-c:v"@
        &&& (p.audio_codec matches Some(ac) ==> ac != "-c:v"@)
        &&& count_of(p.extra_args, "-c:v"@) == 0
    })
    &&& ({
        let a = o.advanced->0;
        &&& (a.format matches Some(f) ==> f != "-c:v"@)
        &&& a.video_codec->0 != "-c:v"@
        &&& (a.audio_codec matches Some(av) ==> av != "-c:v"@)
        &&& (a.extra_args matches Some(e) ==> count_of(spec_tokenize(e), "-c:v"@) == 0)
    })
    &&& (o.advanced->0.audio_codec is Some ==> ({
        let p = catalog_find(o.preset_id->0)->0;
        let a = o.advanced->0;
        &&& o.input_path != "-c:a"@
        &&& o.output_path != "-c:a"@
        &&& (p.format matches Some(f) ==> f != "-c:a"@)
        &&& (a.format matches Some(f) ==> f != "-c:a"@)
        &&& a.video_codec->0 != "-c:a"@
        &&& count_of(p.extra_args, "-c:a"@) == 0
        &&& (a.extra_args matches Some(e) ==> count_of(spec_tokenize(e), "-c:a"@) == 0)
    }))
}

/// Under `cv_override_clean`, the built list is exactly the front segment,
/// the overriding flag and value, and the back segment: the preset's codec
/// pair has been removed.
#[verifier::rlimit(100)]
pub proof fn lemma_cv_override_decompose(o: ConvertOptionsV)
    requires
        cv_override_clean(o),
    ensures
        spec_build_args(o) == cv_override_front(o) + seq!["-c:v"@, o.advanced->0.video_codec->0]
            + cv_override_back(o),
{
    lemma_flag_words_distinct();
    let cv = "-c:v"@;
    let ca = "-c:a"@;
    let id = o.preset_id->0;
    let p = catalog_find(id)->0;
    let a = o.advanced->0;
    let v = a.video_codec->0;
    let sel = spec_sel_or_default(o.stream_selection);
    let base = seq!["-i"@, o.input_path] + spec_sel_flags(sel);
    lemma_count_pair("-i"@, o.input_path, cv);
    lemma_sel_flags_count_other(sel, cv);
    lemma_count_concat(seq!["-i"@, o.input_path], spec_sel_flags(sel), cv);
    assert(count_of(base, cv) == 0);

    let fpart = spec_opt_flag("-f"@, p.format);
    let capart = spec_opt_flag("-c:a"@, p.audio_codec);
    let pv = p.video_codec->0;
    assert(spec_preset_args(p) == fpart + seq![cv, pv] + capart + p.extra_args);
    let with_preset = base + spec_preset_args(p);
    let advf = spec_opt_flag("-f"@, a.format);
    let a1 = with_preset + advf;

    let head = base + fpart;
    let tail1 = capart + p.extra_args + advf;
    assert(a1 =~= head + seq![cv, pv] + tail1);
    lemma_opt_flag_count("-f"@, p.format, cv);
    lemma_count_concat(base, fpart, cv);
    assert(count_of(head, cv) == 0);
    lemma_remove_pair_at(a1, head, cv, pv, tail1);
    let a2 = spec_remove_flag_pair(a1, cv) + seq![cv, v];
    assert(a2 == (head + tail1) + seq![cv, v]);

    let a3 = match a.audio_codec {
        None => a2,
        Some(av) => spec_remove_flag_pair(a2, ca) + seq![ca, av],
    };
    let front = cv_override_front(o);
    match a.audio_codec {
        None => {
            assert(a3 =~= front + seq![cv, v]);
        },
        Some(av) => {
            lemma_count_pair("-i"@, o.input_path, ca);
            lemma_sel_flags_count_other(sel, ca);
            lemma_count_concat(seq!["-i"@, o.input_path], spec_sel_flags(sel), ca);
            lemma_opt_flag_count("-f"@, p.format, ca);
            lemma_count_concat(base, fpart, ca);
            assert(count_of(head, ca) == 0);
            match p.audio_codec {
                Some(pa) => {
                    let rest = p.extra_args + advf + seq![cv, v];
                    assert(a2 =~= head + seq![ca, pa] + rest);
                    lemma_remove_pair_at(a2, head, ca, pa, rest);
                    assert(spec_remove_flag_pair(a2, ca) =~= front + seq![cv, v]);
                    assert(a3 =~= front + seq![cv, v] + seq![ca, av]);
                },
                None => {
                    lemma_opt_flag_count("-f"@, a.format, ca);
                    lemma_count_pair(cv, v, ca);
                    lemma_count_concat(head, p.extra_args, ca);
                    lemma_count_concat(head + p.extra_args, advf, ca);
                    lemma_count_concat(head + p.extra_args + advf, seq![cv, v], ca);
                    assert(a2 =~= head + p.extra_args + advf + seq![cv, v]);
                    assert(count_of(a2, ca) == 0);
                    lemma_remove_pair_absent(a2, ca);
                    assert(a3 =~= front + seq![cv, v] + seq![ca, av]);
                },
            }
        },
    }

    let a4 = match a.extra_args {
        None => a3,
        Some(e) => a3 + spec_tokenize(e),
    };
    let r = a4 + seq!["-y"@, o.output_path];
    assert(spec_build_args(o) == r);
    assert(r =~= front + seq![cv, v] + cv_override_back(o));
}

/// Under `cv_override_clean`, neither surrounding segment holds the
/// video-codec flag.
pub proof fn lemma_cv_override_counts(o: ConvertOptionsV)
    requires
        cv_override_clean(o),
    ensures
        count_of(cv_override_front(o), "-c:v"@) == 0,
        count_of(cv_override_back(o), "-c:v"@) == 0,
{
    lemma_flag_words_distinct();
    let cv = "-c:v"@;
    let p = catalog_find(o.preset_id->0)->0;
    let a = o.advanced->0;
    let sel = spec_sel_or_default(o.stream_selection);
    let s1 = seq!["-i"@, o.input_path];
    let s2 = spec_sel_flags(sel);
    let s3 = spec_opt_flag("-f"@, p.format);
    let s4: Seq<Seq<char>> = match a.audio_codec {
        None => spec_opt_flag("-c:a"@, p.audio_codec),
        Some(_) => Seq::empty(),
    };
    let s5 = p.extra_args;
    let s6 = spec_opt_flag("-f"@, a.format);
    lemma_count_pair("-i"@, o.input_path, cv);
    lemma_sel_flags_count_other(sel, cv);
    lemma_opt_flag_count("-f"@, p.format, cv);
    lemma_opt_flag_count("-c:a"@, p.audio_codec, cv);
    lemma_opt_flag_count("-f"@, a.format, cv);
    lemma_count_concat(s1, s2, cv);
    lemma_count_concat(s1 + s2, s3, cv);
    lemma_count_concat(s1 + s2 + s3, s4, cv);
    lemma_count_concat(s1 + s2 + s3 + s4, s5, cv);
    lemma_count_concat(s1 + s2 + s3 + s4 + s5, s6, cv);
    let t0: Seq<Seq<char>> = match a.audio_codec {
        None => Seq::empty(),
        Some(av) => seq!["-c:a"@, av],
    };
    let t1: Seq<Seq<char>> = match a.extra_args {
        None => Seq::empty(),
        Some(e) => spec_tokenize(e),
    };
    match a.audio_codec {
        None => {},
        Some(av) => {
            lemma_count_pair("-c:a"@, av, cv);
        },
    }
    lemma_count_pair("-y"@, o.output_path, cv);
    lemma_count_concat(t0, t1, cv);
    lemma_count_concat(t0 + t1, seq!["-y"@, o.output_path], cv);
}

/// Given a preset that emits a video codec and advanced options that
/// override it, the built argument list holds the video-codec flag exactly
/// once, immediately followed by the override value — for any request whose
/// other argument sources never yield the codec flags themselves.
pub proof fn lemma_video_codec_override(o: ConvertOptionsV)
    requires
        cv_override_clean(o),
    ensures
        count_of(spec_build_args(o), "-c:v"@) == 1,
        forall|k: int|
            0 <= k < spec_build_args(o).len() && #[trigger] spec_build_args(o)[k] == "-c:v"@ ==> k
                + 1 < spec_build_args(o).len() && spec_build_args(o)[k + 1]
                == o.advanced->0.video_codec->0,
{
    lemma_flag_words_distinct();
    let cv = "-c:v"@;
    let v = o.advanced->0.video_codec->0;
    lemma_cv_override_decompose(o);
    lemma_cv_override_counts(o);
    let x = cv_override_front(o);
    let y = cv_override_back(o);
    let r = spec_build_args(o);
    assert(r == x + seq![cv, v] + y);
    lemma_count_pair(cv, v, cv);
    lemma_count_concat(x + seq![cv, v], y, cv);
    lemma_count_concat(x, seq![cv, v], cv);
    assert(count_of(r, cv) == 1);
    lemma_count_zero(x, cv);
    lemma_count_zero(y, cv);
    assert forall|k: int|
        0 <= k < r.len() && #[trigger] r[k] == cv implies k + 1 < r.len() && r[k + 1] == v by {
        if k < x.len() {
            assert(r[k] == x[k]);
            assert(false);
        } else if k == x.len() {
            assert(r[k + 1] == v);
        } else if k == x.len() + 1 {
            assert(r[k] == v);
            assert(false);
        } else {
            assert(r[k] == y[k - x.len() - 2]);
            assert(false);
        }
    }
}

} // verus!
