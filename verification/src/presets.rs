//! The preset catalog: a fixed table of output format/codec/argument bundles,
//! looked up by identifier, together with the transcoder arguments each
//! preset contributes.
use vstd::prelude::*;
use vstd::string::*;

use crate::strutil::{lemma_strs_view_push, strs_view};

verus! {

/// The broad kind of media a preset produces.
#[derive(Clone, Copy, Debug, PartialEq, Eq, Structural)]
pub enum PresetCategory {
    Video,
    Audio,
    Image,
}

/// A named bundle of output format, codec and argument choices.
#[derive(Clone, Debug)]
pub struct Preset {
    pub id: String,
    pub name: String,
    pub category: PresetCategory,
    pub extension: String,
    pub format: Option<String>,
    pub video_codec: Option<String>,
    pub audio_codec: Option<String>,
    pub extra_args: Vec<String>,
}

/// The mathematical value of a preset.
#[verifier::ext_equal]
pub struct PresetV {
    pub id: Seq<char>,
    pub name: Seq<char>,
    pub category: PresetCategory,
    pub extension: Seq<char>,
    pub format: Option<Seq<char>>,
    pub video_codec: Option<Seq<char>>,
    pub audio_codec: Option<Seq<char>>,
    pub extra_args: Seq<Seq<char>>,
}

/// The view of an optional string.
pub open spec fn opt_view(o: Option<String>) -> Option<Seq<char>> {
    match o {
        Some(s) => Some(s@),
        None => None,
    }
}

impl View for Preset {
    type V = PresetV;

    open spec fn view(&self) -> PresetV {
        PresetV {
            id: self.id@,
            name: self.name@,
            category: self.category,
            extension: self.extension@,
            format: opt_view(self.format),
            video_codec: opt_view(self.video_codec),
            audio_codec: opt_view(self.audio_codec),
            extra_args: strs_view(self.extra_args@),
        }
    }
}

/// The views of a sequence of presets.
pub open spec fn presets_view(s: Seq<Preset>) -> Seq<PresetV> {
    s.map_values(|p: Preset| p@)
}

/// The fixed catalog, in its published order.
pub open spec fn spec_catalog() -> Seq<PresetV> {
    seq![
        PresetV {
            id: "mp4_h264"@,
            name: "MP4 (H.264)"@,
            category: PresetCategory::Video,
            extension: "mp4"@,
            format: Some("mp4"@),
            video_codec: Some("libx264"@),
            audio_codec: Some("aac"@),
            extra_args: seq!["-preset"@, "medium"@, "-crf"@, "23"@],
        },
        PresetV {
            id: "mp4_h265"@,
            name: "MP4 (H.265/HEVC)"@,
            category: PresetCategory::Video,
            extension: "mp4"@,
            format: Some("mp4"@),
            video_codec: Some("libx265"@),
            audio_codec: Some("aac"@),
            extra_args: seq!["-preset"@, "medium"@, "-crf"@, "28"@],
        },
        PresetV {
            id: "webm_vp9"@,
            name: "WebM (VP9)"@,
            category: PresetCategory::Video,
            extension: "webm"@,
            format: Some("webm"@),
            video_codec: Some("libvpx-vp9"@),
            audio_codec: Some("libopus"@),
            extra_args: seq!["-crf"@, "30"@, "-b:v"@, "0"@],
        },
        PresetV {
            id: "avi"@,
            name: "AVI"@,
            category: PresetCategory::Video,
            extension: "avi"@,
            format: Some("avi"@),
            video_codec: Some("mpeg4"@),
            audio_codec: Some("mp3"@),
            extra_args: seq!["-q:v"@, "5"@],
        },
        PresetV {
            id: "mkv"@,
            name: "MKV (H.264)"@,
            category: PresetCategory::Video,
            extension: "mkv"@,
            format: Some("matroska"@),
            video_codec: Some("libx264"@),
            audio_codec: Some("aac"@),
            extra_args: seq!["-preset"@, "medium"@, "-crf"@, "23"@],
        },
        PresetV {
            id: "mov"@,
            name: "MOV (ProRes)"@,
            category: PresetCategory::Video,
            extension: "mov"@,
            format: Some("mov"@),
            video_codec: Some("prores_ks"@),
            audio_codec: Some("pcm_s16le"@),
            extra_args: seq!["-profile:v"@, "3"@],
        },
        PresetV {
            id: "gif"@,
            name: "GIF (Animated)"@,
            category: PresetCategory::Video,
            extension: "gif"@,
            format: Some("gif"@),
            video_codec: None,
            audio_codec: None,
            extra_args: seq![
                "-vf"@,
                "fps=15,scale=480:-1:flags=lanczos,split[s0][s1];[s0]palettegen[p];[s1][p]paletteuse"@,
            ],
        },
        PresetV {
            id: "mp3"@,
            name: "MP3"@,
            category: PresetCategory::Audio,
            extension: "mp3"@,
            format: Some("mp3"@),
            video_codec: None,
            audio_codec: Some("libmp3lame"@),
            extra_args: seq!["-q:a"@, "2"@, "-vn"@],
        },
        PresetV {
            id: "aac"@,
            name: "AAC (M4A)"@,
            category: PresetCategory::Audio,
            extension: "m4a"@,
            format: Some("ipod"@),
            video_codec: None,
            audio_codec: Some("aac"@),
            extra_args: seq!["-b:a"@, "192k"@, "-vn"@],
        },
        PresetV {
            id: "flac"@,
            name: "FLAC (Lossless)"@,
            category: PresetCategory::Audio,
            extension: "flac"@,
            format: Some("flac"@),
            video_codec: None,
            audio_codec: Some("flac"@),
            extra_args: seq!["-vn"@],
        },
        PresetV {
            id: "opus"@,
            name: "Opus"@,
            category: PresetCategory::Audio,
            extension: "opus"@,
            format: Some("opus"@),
            video_codec: None,
            audio_codec: Some("libopus"@),
            extra_args: seq!["-b:a"@, "128k"@, "-vn"@],
        },
        PresetV {
            id: "wav"@,
            name: "WAV (PCM)"@,
            category: PresetCategory::Audio,
            extension: "wav"@,
            format: Some("wav"@),
            video_codec: None,
            audio_codec: Some("pcm_s16le"@),
            extra_args: seq!["-vn"@],
        },
        PresetV {
            id: "png"@,
            name: "PNG"@,
            category: PresetCategory::Image,
            extension: "png"@,
            format: Some("image2"@),
            video_codec: Some("png"@),
            audio_codec: None,
            extra_args: seq!["-frames:v"@, "1"@, "-an"@],
        },
        PresetV {
            id: "jpg"@,
            name: "JPEG"@,
            category: PresetCategory::Image,
            extension: "jpg"@,
            format: Some("image2"@),
            video_codec: Some("mjpeg"@),
            audio_codec: None,
            extra_args: seq!["-frames:v"@, "1"@, "-q:v"@, "2"@, "-an"@],
        },
        PresetV {
            id: "webp"@,
            name: "WebP"@,
            category: PresetCategory::Image,
            extension: "webp"@,
            format: Some("webp"@),
            video_codec: Some("libwebp"@),
            audio_codec: None,
            extra_args: seq!["-frames:v"@, "1"@, "-quality"@, "80"@, "-an"@],
        },
    ]
}

/// First catalog entry whose identifier is `id`.
pub open spec fn find_in(s: Seq<PresetV>, id: Seq<char>) -> Option<PresetV>
    decreases s.len(),
{
    if s.len() == 0 {
        None
    } else if s[0].id == id {
        Some(s[0])
    } else {
        find_in(s.drop_first(), id)
    }
}

/// Catalog lookup by identifier.
pub open spec fn catalog_find(id: Seq<char>) -> Option<PresetV> {
    find_in(spec_catalog(), id)
}

fn sargs1(a: &str) -> (r: Vec<String>)
    ensures
        strs_view(r@) == seq![a@],
{
    let mut r: Vec<String> = Vec::new();
    let ghost prev = r@;
    r.push(a.to_owned());
    proof {
        lemma_strs_view_push(prev, r@.last());
        assert(strs_view(r@) =~= seq![a@]);
    }
    r
}

fn sargs2(a: &str, b: &str) -> (r: Vec<String>)
    ensures
        strs_view(r@) == seq![a@, b@],
{
    let mut r = sargs1(a);
    let ghost prev = r@;
    r.push(b.to_owned());
    proof {
        lemma_strs_view_push(prev, r@.last());
        assert(strs_view(r@) =~= seq![a@, b@]);
    }
    r
}

fn sargs3(a: &str, b: &str, c: &str) -> (r: Vec<String>)
    ensures
        strs_view(r@) == seq![a@, b@, c@],
{
    let mut r = sargs2(a, b);
    let ghost prev = r@;
    r.push(c.to_owned());
    proof {
        lemma_strs_view_push(prev, r@.last());
        assert(strs_view(r@) =~= seq![a@, b@, c@]);
    }
    r
}

fn sargs4(a: &str, b: &str, c: &str, d: &str) -> (r: Vec<String>)
    ensures
        strs_view(r@) == seq![a@, b@, c@, d@],
{
    let mut r = sargs3(a, b, c);
    let ghost prev = r@;
    r.push(d.to_owned());
    proof {
        lemma_strs_view_push(prev, r@.last());
        assert(strs_view(r@) =~= seq![a@, b@, c@, d@]);
    }
    r
}

fn sargs5(a: &str, b: &str, c: &str, d: &str, e: &str) -> (r: Vec<String>)
    ensures
        strs_view(r@) == seq![a@, b@, c@, d@, e@],
{
    let mut r = sargs4(a, b, c, d);
    let ghost prev = r@;
    r.push(e.to_owned());
    proof {
        lemma_strs_view_push(prev, r@.last());
        assert(strs_view(r@) =~= seq![a@, b@, c@, d@, e@]);
    }
    r
}

/// All available presets, in the catalog's order.
pub fn get_all_presets() -> (r: Vec<Preset>)
    ensures
        presets_view(r@) == spec_catalog(),
{
    let mut r: Vec<Preset> = Vec::new();
    r.push(Preset {
        id: "mp4_h264".to_owned(),
        name: "MP4 (H.264)".to_owned(),
        category: PresetCategory::Video,
        extension: "mp4".to_owned(),
        format: Some("mp4".to_owned()),
        video_codec: Some("libx264".to_owned()),
        audio_codec: Some("aac".to_owned()),
        extra_args: sargs4("-preset", "medium", "-crf", "23"),
    });
    r.push(Preset {
        id: "mp4_h265".to_owned(),
        name: "MP4 (H.265/HEVC)".to_owned(),
        category: PresetCategory::Video,
        extension: "mp4".to_owned(),
        format: Some("mp4".to_owned()),
        video_codec: Some("libx265".to_owned()),
        audio_codec: Some("aac".to_owned()),
        extra_args: sargs4("-preset", "medium", "-crf", "28"),
    });
    r.push(Preset {
        id: "webm_vp9".to_owned(),
        name: "WebM (VP9)".to_owned(),
        category: PresetCategory::Video,
        extension: "webm".to_owned(),
        format: Some("webm".to_owned()),
        video_codec: Some("libvpx-vp9".to_owned()),
        audio_codec: Some("libopus".to_owned()),
        extra_args: sargs4("-crf", "30", "-b:v", "0"),
    });
    r.push(Preset {
        id: "avi".to_owned(),
        name: "AVI".to_owned(),
        category: PresetCategory::Video,
        extension: "avi".to_owned(),
        format: Some("avi".to_owned()),
        video_codec: Some("mpeg4".to_owned()),
        audio_codec: Some("mp3".to_owned()),
        extra_args: sargs2("-q:v", "5"),
    });
    r.push(Preset {
        id: "mkv".to_owned(),
        name: "MKV (H.264)".to_owned(),
        category: PresetCategory::Video,
        extension: "mkv".to_owned(),
        format: Some("matroska".to_owned()),
        video_codec: Some("libx264".to_owned()),
        audio_codec: Some("aac".to_owned()),
        extra_args: sargs4("-preset", "medium", "-crf", "23"),
    });
    r.push(Preset {
        id: "mov".to_owned(),
        name: "MOV (ProRes)".to_owned(),
        category: PresetCategory::Video,
        extension: "mov".to_owned(),
        format: Some("mov".to_owned()),
        video_codec: Some("prores_ks".to_owned()),
        audio_codec: Some("pcm_s16le".to_owned()),
        extra_args: sargs2("-profile:v", "3"),
    });
    r.push(Preset {
        id: "gif".to_owned(),
        name: "GIF (Animated)".to_owned(),
        category: PresetCategory::Video,
        extension: "gif".to_owned(),
        format: Some("gif".to_owned()),
        video_codec: None,
        audio_codec: None,
        extra_args: sargs2(
            "-vf",
            "fps=15,scale=480:-1:flags=lanczos,split[s0][s1];[s0]palettegen[p];[s1][p]paletteuse",
        ),
    });
    r.push(Preset {
        id: "mp3".to_owned(),
        name: "MP3".to_owned(),
        category: PresetCategory::Audio,
        extension: "mp3".to_owned(),
        format: Some("mp3".to_owned()),
        video_codec: None,
        audio_codec: Some("libmp3lame".to_owned()),
        extra_args: sargs3("-q:a", "2", "-vn"),
    });
    r.push(Preset {
        id: "aac".to_owned(),
        name: "AAC (M4A)".to_owned(),
        category: PresetCategory::Audio,
        extension: "m4a".to_owned(),
        format: Some("ipod".to_owned()),
        video_codec: None,
        audio_codec: Some("aac".to_owned()),
        extra_args: sargs3("-b:a", "192k", "-vn"),
    });
    r.push(Preset {
        id: "flac".to_owned(),
        name: "FLAC (Lossless)".to_owned(),
        category: PresetCategory::Audio,
        extension: "flac".to_owned(),
        format: Some("flac".to_owned()),
        video_codec: None,
        audio_codec: Some("flac".to_owned()),
        extra_args: sargs1("-vn"),
    });
    r.push(Preset {
        id: "opus".to_owned(),
        name: "Opus".to_owned(),
        category: PresetCategory::Audio,
        extension: "opus".to_owned(),
        format: Some("opus".to_owned()),
        video_codec: None,
        audio_codec: Some("libopus".to_owned()),
        extra_args: sargs3("-b:a", "128k", "-vn"),
    });
    r.push(Preset {
        id: "wav".to_owned(),
        name: "WAV (PCM)".to_owned(),
        category: PresetCategory::Audio,
        extension: "wav".to_owned(),
        format: Some("wav".to_owned()),
        video_codec: None,
        audio_codec: Some("pcm_s16le".to_owned()),
        extra_args: sargs1("-vn"),
    });
    r.push(Preset {
        id: "png".to_owned(),
        name: "PNG".to_owned(),
        category: PresetCategory::Image,
        extension: "png".to_owned(),
        format: Some("image2".to_owned()),
        video_codec: Some("png".to_owned()),
        audio_codec: None,
        extra_args: sargs3("-frames:v", "1", "-an"),
    });
    r.push(Preset {
        id: "jpg".to_owned(),
        name: "JPEG".to_owned(),
        category: PresetCategory::Image,
        extension: "jpg".to_owned(),
        format: Some("image2".to_owned()),
        video_codec: Some("mjpeg".to_owned()),
        audio_codec: None,
        extra_args: sargs5("-frames:v", "1", "-q:v", "2", "-an"),
    });
    r.push(Preset {
        id: "webp".to_owned(),
        name: "WebP".to_owned(),
        category: PresetCategory::Image,
        extension: "webp".to_owned(),
        format: Some("webp".to_owned()),
        video_codec: Some("libwebp".to_owned()),
        audio_codec: None,
        extra_args: sargs5("-frames:v", "1", "-quality", "80", "-an"),
    });
    proof {
        assert(presets_view(r@) =~~= spec_catalog());
    }
    r
}

/// Looks a preset up by its identifier; `None` when the catalog has no entry.
pub fn find_preset(id: &str) -> (r: Option<Preset>)
    ensures
        match catalog_find(id@) {
            Some(pv) => r is Some && r->0@ == pv,
            None => r is None,
        },
{
    let mut ps = get_all_presets();
    proof {
        assert(spec_catalog().skip(0) =~= spec_catalog());
    }
    let mut i: usize = 0;
    let n = ps.len();
    while i < n
        invariant
            n == ps@.len(),
            i <= n,
            presets_view(ps@) == spec_catalog(),
            catalog_find(id@) == find_in(spec_catalog().skip(i as int), id@),
        decreases n - i,
    {
        let ghost rest = spec_catalog().skip(i as int);
        assert(rest[0] == spec_catalog()[i as int]);
        if crate::strutil::str_eq(ps[i].id.as_str(), id) {
            let p = ps.remove(i);
            assert(p@ == spec_catalog()[i as int]);
            return Some(p);
        }
        proof {
            assert(rest.drop_first() =~= spec_catalog().skip(i + 1));
        }
        i = i + 1;
    }
    proof {
        assert(spec_catalog().skip(i as int) =~= Seq::<PresetV>::empty());
    }
    None
}

/// The transcoder arguments a preset contributes: its format flag, codec
/// flags, and extra arguments, in that fixed order.
pub open spec fn spec_opt_flag(f: Seq<char>, v: Option<Seq<char>>) -> Seq<Seq<char>> {
    match v {
        Some(x) => seq![f, x],
        None => Seq::empty(),
    }
}

/// See `spec_opt_flag`: the full argument contribution of one preset.
pub open spec fn spec_preset_args(p: PresetV) -> Seq<Seq<char>> {
    spec_opt_flag("-f"@, p.format) + spec_opt_flag("-c:v"@, p.video_codec) + spec_opt_flag(
        "-c:a"@,
        p.audio_codec,
    ) + p.extra_args
}

impl Preset {
    /// The arguments this preset adds to a transcoder command line.
    pub fn build_args(&self) -> (r: Vec<String>)
        ensures
            strs_view(r@) == spec_preset_args(self@),
    {
        let mut r: Vec<String> = Vec::new();
        if let Some(format) = &self.format {
            r.push("-f".to_owned());
            r.push(format.clone());
        }
        if let Some(vcodec) = &self.video_codec {
            r.push("-c:v".to_owned());
            r.push(vcodec.clone());
        }
        if let Some(acodec) = &self.audio_codec {
            r.push("-c:a".to_owned());
            r.push(acodec.clone());
        }
        let ghost head = r@;
        let mut i: usize = 0;
        let n = self.extra_args.len();
        while i < n
            invariant
                n == self.extra_args@.len(),
                i <= n,
                strs_view(r@) == strs_view(head) + strs_view(self.extra_args@.take(i as int)),
            decreases n - i,
        {
            let ghost prev = r@;
            r.push(self.extra_args[i].clone());
            proof {
                lemma_strs_view_push(prev, r@.last());
                lemma_strs_view_push(self.extra_args@.take(i as int), self.extra_args@[i as int]);
                assert(self.extra_args@.take(i + 1) =~= self.extra_args@.take(i as int).push(
                    self.extra_args@[i as int],
                ));
                assert(strs_view(r@) =~= strs_view(head) + strs_view(self.extra_args@.take(i + 1)));
            }
            i = i + 1;
        }
        proof {
            assert(self.extra_args@.take(n as int) =~= self.extra_args@);
            assert(strs_view(r@) =~= spec_preset_args(self@));
        }
        r
    }
}

} // verus!
