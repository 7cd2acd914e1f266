//! Per-call search parameters.

use vstd::prelude::*;

verus! {

/// The segment duration, in seconds, used when none is given.
pub const DEFAULT_SEGMENT_DURATION_SECONDS: u32 = 10;

/// The segment duration that an optional setting comes to: the setting, or
/// the default when there is none.
pub open spec fn segment_duration_or_default(segment_duration_seconds: Option<u32>) -> u32 {
    match segment_duration_seconds {
        Some(d) => d,
        None => DEFAULT_SEGMENT_DURATION_SECONDS,
    }
}

/// A given segment duration is kept as it is, whatever its value; only its
/// absence gives the default of 10 seconds.
pub proof fn lemma_segment_duration_choice(segment_duration_seconds: Option<u32>)
    ensures
        segment_duration_seconds matches Some(d) ==> segment_duration_or_default(
            segment_duration_seconds,
        ) == d,
        segment_duration_seconds is None ==> segment_duration_or_default(segment_duration_seconds)
            == 10,
{
}

/// Options for one signature generation.
#[derive(Debug, Clone)]
pub struct SearchParams {
    /// How many seconds of audio are sampled, from the middle of the track.
    pub segment_duration_seconds: u32,
}

impl SearchParams {
    /// Creates search parameters; the segment duration defaults to 10
    /// seconds.
    pub fn new(segment_duration_seconds: Option<u32>) -> (r: Self)
        ensures
            r.segment_duration_seconds == segment_duration_or_default(segment_duration_seconds),
            segment_duration_seconds matches Some(d) ==> r.segment_duration_seconds == d,
            segment_duration_seconds is None ==> r.segment_duration_seconds == 10,
    {
        let duration = match segment_duration_seconds {
            Some(d) => d,
            None => DEFAULT_SEGMENT_DURATION_SECONDS,
        };
        Self { segment_duration_seconds: duration }
    }
}

} // verus!
