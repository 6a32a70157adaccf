//! Output-path resolution: a collision-free destination path derived from
//! the input path and the chosen preset or format.
use vstd::prelude::*;
use vstd::string::*;

use crate::presets::catalog_find;
use crate::presets::find_preset;
use crate::strutil::{opt_str_view, spec_u64_string, str_eq, str_to_chars, string_from_chars, u64_to_string};

verus! {

/// Index of the last occurrence of `c` in `s`, or -1 when absent.
pub open spec fn last_index_of(s: Seq<char>, c: char) -> int
    decreases s.len(),
{
    if s.len() == 0 {
        -1
    } else if s.last() == c {
        s.len() - 1
    } else {
        last_index_of(s.drop_last(), c)
    }
}

/// `last_index_of` is the unique maximal position holding `c`.
pub proof fn lemma_last_index_of_is(s: Seq<char>, c: char, k: int)
    requires
        -1 <= k < s.len(),
        k >= 0 ==> s[k] == c,
        forall|j: int| k < j < s.len() ==> s[j] != c,
    ensures
        last_index_of(s, c) == k,
    decreases s.len(),
{
    if s.len() != 0 {
        if s.last() == c {
            assert(k == s.len() - 1);
        } else {
            assert(k < s.len() - 1);
            lemma_last_index_of_is(s.drop_last(), c, k);
        }
    }
}

/// The directory part of a path, kept up to and including its last slash;
/// empty for a bare file name.
pub open spec fn dir_prefix(p: Seq<char>) -> Seq<char> {
    p.take(last_index_of(p, '/') + 1)
}

/// The file-name part of a path: everything after its last slash.
pub open spec fn file_name_of(p: Seq<char>) -> Seq<char> {
    p.skip(last_index_of(p, '/') + 1)
}

/// The stem of a file name: everything before its last dot, or the whole
/// name when it has no dot past its first character.
pub open spec fn stem_of(name: Seq<char>) -> Seq<char> {
    let d = last_index_of(name, '.');
    if d <= 0 {
        name
    } else {
        name.take(d)
    }
}

/// The output extension a container-format name maps to; names outside the
/// table pass through unchanged.
pub open spec fn spec_format_ext(f: Seq<char>) -> Seq<char> {
    if f == "matroska"@ || f == "mkv"@ {
        "mkv"@
    } else if f == "mpegts"@ {
        "ts"@
    } else if f == "m4a"@ || f == "ipod"@ {
        "m4a"@
    } else if f == "image2"@ || f == "png"@ {
        "png"@
    } else if f == "mjpeg"@ || f == "jpeg"@ || f == "jpg"@ {
        "jpg"@
    } else if f == "rawvideo"@ {
        "raw"@
    } else {
        f
    }
}

/// The extension chosen for an output: the preset's declared extension when
/// a preset is named (the default when the catalog lacks it), else the
/// format mapping, else the default.
pub open spec fn spec_ext_for(preset_id: Option<Seq<char>>, format: Option<Seq<char>>) -> Seq<
    char,
> {
    match preset_id {
        Some(id) => match catalog_find(id) {
            Some(p) => p.extension,
            None => "mp4"@,
        },
        None => match format {
            Some(f) => spec_format_ext(f),
            None => "mp4"@,
        },
    }
}

/// The `n`-th candidate output path for an input: the stem with a fixed
/// suffix in the input's directory, numbered from the second candidate on.
pub open spec fn spec_candidate(input: Seq<char>, ext: Seq<char>, n: int) -> Seq<char> {
    let head = dir_prefix(input) + stem_of(file_name_of(input));
    if n == 1 {
        head + "_Convertified."@ + ext
    } else {
        head + "_Convertified_"@ + spec_u64_string(n as nat) + "."@ + ext
    }
}

/// Maps a container-format name to its usual file extension.
pub fn format_to_extension(format: &str) -> (r: String)
    ensures
        r@ == spec_format_ext(format@),
{
    if str_eq(format, "matroska") || str_eq(format, "mkv") {
        "mkv".to_owned()
    } else if str_eq(format, "mpegts") {
        "ts".to_owned()
    } else if str_eq(format, "m4a") || str_eq(format, "ipod") {
        "m4a".to_owned()
    } else if str_eq(format, "image2") || str_eq(format, "png") {
        "png".to_owned()
    } else if str_eq(format, "mjpeg") || str_eq(format, "jpeg") || str_eq(format, "jpg") {
        "jpg".to_owned()
    } else if str_eq(format, "rawvideo") {
        "raw".to_owned()
    } else {
        format.to_owned()
    }
}

fn ext_for(preset_id: Option<&str>, format: Option<&str>) -> (r: String)
    ensures
        r@ == spec_ext_for(opt_str_view(preset_id), opt_str_view(format)),
{
    match preset_id {
        Some(id) => match find_preset(id) {
            Some(p) => p.extension,
            None => "mp4".to_owned(),
        },
        None => match format {
            Some(f) => format_to_extension(f),
            None => "mp4".to_owned(),
        },
    }
}

/// Last position of `c` in `v`, as `len + 1` positions encoded: returns
/// `None` when absent.
fn rfind_char(v: &Vec<char>, c: char) -> (r: Option<usize>)
    ensures
        match r {
            Some(k) => k < v@.len() && last_index_of(v@, c) == k as int,
            None => last_index_of(v@, c) == -1,
        },
{
    let mut found: Option<usize> = None;
    let mut i: usize = 0;
    while i < v.len()
        invariant
            i <= v@.len(),
            match found {
                Some(k) => k < i && v@[k as int] == c && (forall|j: int| k < j < i ==> v@[j] != c),
                None => forall|j: int| 0 <= j < i ==> v@[j] != c,
            },
        decreases v@.len() - i,
    {
        if v[i] == c {
            found = Some(i);
        }
        i = i + 1;
    }
    proof {
        match found {
            Some(k) => lemma_last_index_of_is(v@, c, k as int),
            None => lemma_last_index_of_is(v@, c, -1),
        }
    }
    found
}

pub(crate) fn take_chars(v: &Vec<char>, to: usize) -> (r: Vec<char>)
    requires
        to <= v@.len(),
    ensures
        r@ == v@.take(to as int),
{
    let mut r: Vec<char> = Vec::new();
    let mut i: usize = 0;
    while i < to
        invariant
            i <= to <= v@.len(),
            r@ == v@.take(i as int),
        decreases to - i,
    {
        r.push(v[i]);
        assert(r@ =~= v@.take(i + 1));
        i = i + 1;
    }
    r
}

pub(crate) fn skip_chars(v: &Vec<char>, from: usize) -> (r: Vec<char>)
    requires
        from <= v@.len(),
    ensures
        r@ == v@.skip(from as int),
{
    let mut r: Vec<char> = Vec::new();
    let mut i: usize = from;
    while i < v.len()
        invariant
            from <= i <= v@.len(),
            r@ == v@.subrange(from as int, i as int),
        decreases v@.len() - i,
    {
        r.push(v[i]);
        assert(r@ =~= v@.subrange(from as int, i + 1));
        i = i + 1;
    }
    proof {
        assert(v@.subrange(from as int, v@.len() as int) =~= v@.skip(from as int));
    }
    r
}

/// The numbered candidate path for an input and the chosen preset or format;
/// candidate 1 is unnumbered.
pub fn output_candidate(input_path: &str, preset_id: Option<&str>, format: Option<&str>, counter: u64) -> (r:
    String)
    requires
        counter >= 1,
    ensures
        r@ == spec_candidate(
            input_path@,
            spec_ext_for(opt_str_view(preset_id), opt_str_view(format)),
            counter as int,
        ),
{
    let ext = ext_for(preset_id, format);
    let v = str_to_chars(input_path);
    let n = v.len();
    let name_start: usize = match rfind_char(&v, '/') {
        Some(k) => {
            assert(k < n);
            k + 1
        },
        None => 0,
    };
    let dir = take_chars(&v, name_start);
    let name = skip_chars(&v, name_start);
    proof {
        assert(dir@ == dir_prefix(input_path@));
        assert(name@ == file_name_of(input_path@));
    }
    let stem = match rfind_char(&name, '.') {
        Some(d) => {
            if d == 0 {
                skip_chars(&name, 0)
            } else {
                take_chars(&name, d)
            }
        },
        None => skip_chars(&name, 0),
    };
    proof {
        assert(name@.skip(0) =~= name@);
        assert(stem@ == stem_of(file_name_of(input_path@)));
    }
    let mut out = string_from_chars(&dir);
    let stem_s = string_from_chars(&stem);
    out.append(stem_s.as_str());
    if counter == 1 {
        out.append("_Convertified.");
    } else {
        out.append("_Convertified_");
        let num = u64_to_string(counter);
        out.append(num.as_str());
        out.append(".");
    }
    out.append(ext.as_str());
    out
}

/// Relies on `std::path::Path::exists`: whether the path names an existing
/// file-system entity at the time of the call.
#[verifier::external_body]
pub(crate) fn path_exists(p: &str) -> bool {
    std::path::Path::new(p).exists()
}

/// A destination path for converting `input_path`: the first candidate not
/// already on disk, probing numbered candidates up to a fixed ceiling; the
/// ceiling candidate is returned regardless of existence.
pub fn generate_output_path(input_path: &str, preset_id: Option<&str>, format: Option<&str>) -> (r:
    String)
    ensures
        exists|n: int|
            1 <= n <= 9999 && r@ == #[trigger] spec_candidate(
                input_path@,
                spec_ext_for(opt_str_view(preset_id), opt_str_view(format)),
                n,
            ),
{
    let base = output_candidate(input_path, preset_id, format, 1);
    if !path_exists(base.as_str()) {
        return base;
    }
    let mut counter: u64 = 2;
    loop
        invariant
            2 <= counter <= 9999,
        decreases 9999 - counter,
    {
        let candidate = output_candidate(input_path, preset_id, format, counter);
        if !path_exists(candidate.as_str()) {
            return candidate;
        }
        counter = counter + 1;
        if counter > 9999 {
            return candidate;
        }
    }
}

} // verus!
