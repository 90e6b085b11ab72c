//! What a caller asks of the long-form planner.

use vstd::prelude::*;

use crate::longform::duration;
use crate::longform::duration::executor_window_limit_samples;

verus! {

/// How a recording is cut into slices.
#[derive(Debug, Clone, Copy, PartialEq, Eq, Structural)]
pub enum LongFormMode {
    Off,
    Fixed,
    Energy,
    Vad,
    Auto,
}

/// The planner's settings, with every soft duration as a count of samples at the
/// recording's rate.
///
/// The hard ceiling stays a duration (its single-precision bit pattern): it is
/// converted exactly, and nothing else is. `silence_level` is the configured silence
/// threshold as a level (see the `energy` module).
#[derive(Debug, Clone, Copy, PartialEq, Eq, Structural)]
pub struct LongFormOptions {
    pub mode: LongFormMode,
    pub chunk_samples: usize,
    pub overlap_samples: usize,
    pub min_chunk_samples: usize,
    pub padding_samples: usize,
    pub search_samples: usize,
    pub max_chunk_seconds_bits: u32,
    pub silence_level: u32,
    /// Longest pause that does not end a kept region.
    pub gap_bridge_samples: usize,
    /// Silence laid between two kept regions of a packed timeline.
    pub seam_samples: usize,
    /// Window round a slice boundary whose loudness is charged.
    pub boundary_window_samples: usize,
    /// Window at each edge of an elided gap whose loudness is charged.
    pub edge_window_samples: usize,
    /// Least charge for a seam.
    pub seam_floor_samples: usize,
    pub one_second_samples: usize,
    pub two_second_samples: usize,
    pub fallback_to_energy_when_vad_unavailable: bool,
    pub fallback_to_energy_when_vad_empty: bool,
    pub carry_prompt_across_slices: bool,
    pub max_context_tokens: usize,
}

impl LongFormOptions {
    /// The executor ceiling in samples.
    pub open spec fn ceiling(self, rate: u32) -> int {
        duration::window_limit(self.max_chunk_seconds_bits, rate as int)
    }

    /// Whether the ceiling is a duration that the machine can count.
    pub open spec fn has_ceiling(self, rate: u32) -> bool {
        rate > 0 && duration::has_window_limit(self.max_chunk_seconds_bits, rate as int)
    }

    /// The executor ceiling in samples.
    pub fn max_chunk_samples(&self, sample_rate_hz: u32) -> (samples: usize)
        requires
            self.has_ceiling(sample_rate_hz),
        ensures
            samples == self.ceiling(sample_rate_hz),
            samples >= 1,
    {
        executor_window_limit_samples_checked(self.max_chunk_seconds_bits, sample_rate_hz)
    }
}

/// The executor ceiling of a duration that is known to have one.
pub fn executor_window_limit_samples_checked(
    max_chunk_seconds_bits: u32,
    sample_rate_hz: u32,
) -> (samples: usize)
    requires
        sample_rate_hz > 0,
        duration::has_window_limit(max_chunk_seconds_bits, sample_rate_hz as int),
    ensures
        samples == duration::window_limit(max_chunk_seconds_bits, sample_rate_hz as int),
        samples >= 1,
{
    proof {
        duration::law_window_limit_is_the_smallest_cover(
            max_chunk_seconds_bits,
            sample_rate_hz as int,
            0,
        );
    }
    match executor_window_limit_samples(max_chunk_seconds_bits, sample_rate_hz) {
        Ok(samples) => samples,
        Err(_) => 0,
    }
}

/// The ceiling of settings is the least number of samples that holds their longest chunk; no
/// other setting moves it.
pub proof fn law_the_ceiling_holds_the_longest_chunk(
    options: LongFormOptions,
    sample_rate_hz: u32,
    samples: usize,
)
    requires
        options.has_ceiling(sample_rate_hz),
        call_ensures(LongFormOptions::max_chunk_samples, (&options, sample_rate_hz), samples),
    ensures
        samples == options.ceiling(sample_rate_hz),
        duration::covers_duration(
            options.max_chunk_seconds_bits,
            sample_rate_hz as int,
            samples as int,
        ),
        !duration::covers_duration(
            options.max_chunk_seconds_bits,
            sample_rate_hz as int,
            samples - 1,
        ),
{
    duration::law_window_limit_is_the_smallest_cover(
        options.max_chunk_seconds_bits,
        sample_rate_hz as int,
        samples as int,
    );
    duration::law_window_limit_is_the_smallest_cover(
        options.max_chunk_seconds_bits,
        sample_rate_hz as int,
        samples - 1,
    );
}

} // verus!
