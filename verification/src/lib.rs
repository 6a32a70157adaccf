//! Orchestration core for a media-conversion tool: preset catalog,
//! transcoder argument building, progress computation, run logging,
//! media-probe output parsing, and output-path resolution.
use vstd::prelude::*;

pub mod convert;
pub mod logger;
pub mod orchestrate;
pub mod outpath;
pub mod presets;
pub mod probe;
pub mod strutil;

verus! {

/// Percent of `elapsed_ms` against a known duration, clamped to [0, 100].
/// An unknown or zero duration yields 0 for the whole run.
pub open spec fn spec_percent(elapsed_ms: u64, duration_ms: Option<u64>) -> int {
    match duration_ms {
        Some(d) => if d == 0 {
            0
        } else if elapsed_ms as int * 100 / d as int > 100 {
            100
        } else {
            elapsed_ms as int * 100 / d as int
        },
        None => 0,
    }
}

/// Progress percent for a run: elapsed media time over total duration,
/// clamped to 100; 0 when the duration is unknown or zero.
pub fn percent_of(elapsed_ms: u64, duration_ms: Option<u64>) -> (r: u32)
    ensures
        r as int == spec_percent(elapsed_ms, duration_ms),
        r <= 100,
{
    match duration_ms {
        Some(d) => {
            if d == 0 {
                0
            } else {
                let wide: u128 = (elapsed_ms as u128) * 100 / (d as u128);
                if wide > 100 {
                    100
                } else {
                    wide as u32
                }
            }
        },
        None => 0,
    }
}

} // verus!
