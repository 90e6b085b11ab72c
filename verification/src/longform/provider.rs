//! Detectors of speech that a caller brings along.

use vstd::prelude::*;

use crate::longform::errors::LongFormVadProviderError;
use crate::longform::options::LongFormOptions;
use crate::longform::slices::LongFormVadSlice;

verus! {

/// What a detector decides by.
#[derive(Debug, Clone, Copy, PartialEq, Eq, Structural)]
pub enum LongFormVadProviderKind {
    Custom,
    /// By signal energy alone, as the planner's own candidates are.
    EnergyLike,
}

/// A detector of speech. Nothing is promised of what it calls speech: whatever it
/// answers is clipped to the recording and put in order.
pub trait LongFormVadProvider<T> {
    fn provider_kind(&self) -> (kind: LongFormVadProviderKind)
        default_ensures
            kind == LongFormVadProviderKind::Custom,
    {
        LongFormVadProviderKind::Custom
    }

    fn compute_speech_slices(
        &self,
        samples: &[T],
        sample_rate_hz: u32,
        options: &LongFormOptions,
    ) -> Result<Vec<LongFormVadSlice>, String>;

    /// Cancellation-aware form. A detector with bounded internal work should override
    /// this and poll `canceled` between work units; the default asks before and after an
    /// indivisible call.
    fn compute_speech_slices_cancellable<C: Fn() -> bool>(
        &self,
        samples: &[T],
        sample_rate_hz: u32,
        options: &LongFormOptions,
        canceled: &C,
    ) -> (reply: Result<Vec<LongFormVadSlice>, LongFormVadProviderError>)
        requires
            call_requires(*canceled, ()),
        default_ensures
            match reply {
                Ok(speech) => call_ensures(*canceled, (), false) && call_ensures(
                    Self::compute_speech_slices,
                    (self, samples, sample_rate_hz, options),
                    Ok(speech),
                ),
                Err(LongFormVadProviderError::Canceled) => call_ensures(*canceled, (), true),
                Err(LongFormVadProviderError::Failed { reason }) => call_ensures(
                    Self::compute_speech_slices,
                    (self, samples, sample_rate_hz, options),
                    Err(reason),
                ),
            },
    {
        if canceled() {
            return Err(LongFormVadProviderError::Canceled);
        }
        match self.compute_speech_slices(samples, sample_rate_hz, options) {
            Err(reason) => Err(LongFormVadProviderError::Failed { reason }),
            Ok(speech) => if canceled() {
                Err(LongFormVadProviderError::Canceled)
            } else {
                Ok(speech)
            },
        }
    }
}

/// Whether a detector may answer so when it is asked about a recording.
pub open spec fn may_reply<T, P: LongFormVadProvider<T>, C: Fn() -> bool>(
    provider: &P,
    samples: &[T],
    sample_rate_hz: u32,
    options: &LongFormOptions,
    canceled: &C,
    reply: Result<Vec<LongFormVadSlice>, LongFormVadProviderError>,
) -> bool {
    call_ensures(
        P::compute_speech_slices_cancellable::<C>,
        (provider, samples, sample_rate_hz, options, canceled),
        reply,
    )
}

/// Asks a detector about a recording.
pub(crate) fn ask_provider<T, P: LongFormVadProvider<T>, C: Fn() -> bool>(
    provider: &P,
    samples: &[T],
    sample_rate_hz: u32,
    options: &LongFormOptions,
    canceled: &C,
) -> (reply: Result<Vec<LongFormVadSlice>, LongFormVadProviderError>)
    requires
        call_requires(*canceled, ()),
    ensures
        may_reply(provider, samples, sample_rate_hz, options, canceled, reply),
{
    provider.compute_speech_slices_cancellable(samples, sample_rate_hz, options, canceled)
}

} // verus!
