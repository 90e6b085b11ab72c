//! Why slice planning stops.

use vstd::prelude::*;
use vstd::string::*;

verus! {

/// Why a voice-activity provider has no answer.
#[derive(Debug, Clone, PartialEq, Eq)]
pub enum LongFormVadProviderError {
    Canceled,
    Failed { reason: String },
}

/// Why a recording has no slice plan.
#[derive(Debug, Clone, PartialEq, Eq)]
pub enum LongFormSliceError {
    Canceled,
    InvalidSampleRate,
    InvalidOptions { reason: String },
    VadUnavailable,
    VadFailed { reason: String },
}

/// Why planning behind a materialization gate stops: on its own account, or because the
/// gate refused.
#[derive(Debug, Clone, PartialEq, Eq)]
pub enum LongFormSlicePlanningError<E> {
    Planning(LongFormSliceError),
    PackedAudioAdmission(E),
}

impl<E> From<LongFormSliceError> for LongFormSlicePlanningError<E> {
    fn from(error: LongFormSliceError) -> (wrapped: Self) {
        LongFormSlicePlanningError::Planning(error)
    }
}

impl<E> vstd::std_specs::convert::FromSpecImpl<LongFormSliceError>
    for LongFormSlicePlanningError<E> {
    open spec fn obeys_from_spec() -> bool {
        true
    }

    open spec fn from_spec(error: LongFormSliceError) -> Self {
        LongFormSlicePlanningError::Planning(error)
    }
}

impl LongFormVadProviderError {
    /// The text of the error.
    pub open spec fn text(self) -> Seq<char> {
        match self {
            LongFormVadProviderError::Canceled => "longform VAD provider was canceled"@,
            LongFormVadProviderError::Failed { reason } => reason@,
        }
    }

    pub fn message(&self) -> (message: String)
        ensures
            message@ == self.text(),
    {
        match self {
            LongFormVadProviderError::Canceled => "longform VAD provider was canceled".to_owned(),
            LongFormVadProviderError::Failed { reason } => reason.clone(),
        }
    }
}

impl LongFormSliceError {
    /// The text of the error.
    pub open spec fn text(self) -> Seq<char> {
        match self {
            LongFormSliceError::Canceled => "longform slice planning was canceled"@,
            LongFormSliceError::InvalidSampleRate => "longform sample_rate_hz must be > 0"@,
            LongFormSliceError::InvalidOptions { reason } => "longform options are invalid: "@
                + reason@,
            LongFormSliceError::VadUnavailable =>
                "longform mode 'vad' requested but no VAD provider is configured"@,
            LongFormSliceError::VadFailed { reason } => "longform VAD provider failed: "@
                + reason@,
        }
    }

    pub fn message(&self) -> (message: String)
        ensures
            message@ == self.text(),
    {
        match self {
            LongFormSliceError::Canceled => "longform slice planning was canceled".to_owned(),
            LongFormSliceError::InvalidSampleRate => {
                "longform sample_rate_hz must be > 0".to_owned()
            },
            LongFormSliceError::InvalidOptions { reason } => {
                let mut message: String = "longform options are invalid: ".to_owned();
                message.append(reason.as_str());
                message
            },
            LongFormSliceError::VadUnavailable => {
                "longform mode 'vad' requested but no VAD provider is configured".to_owned()
            },
            LongFormSliceError::VadFailed { reason } => {
                let mut message: String = "longform VAD provider failed: ".to_owned();
                message.append(reason.as_str());
                message
            },
        }
    }
}

/// A provider that was canceled cancels the planning; one that failed fails it, for the
/// same reason.
pub open spec fn provider_failure(error: LongFormVadProviderError) -> LongFormSliceError {
    match error {
        LongFormVadProviderError::Canceled => LongFormSliceError::Canceled,
        LongFormVadProviderError::Failed { reason } => LongFormSliceError::VadFailed { reason },
    }
}

pub fn map_vad_provider_error(error: LongFormVadProviderError) -> (mapped: LongFormSliceError)
    ensures
        mapped == provider_failure(error),
{
    match error {
        LongFormVadProviderError::Canceled => LongFormSliceError::Canceled,
        LongFormVadProviderError::Failed { reason } => LongFormSliceError::VadFailed { reason },
    }
}

/// Asks whether the request was canceled, and stops planning where it was.
pub fn check_planning_canceled<C: Fn() -> bool>(canceled: &C) -> (go_on: Result<
    (),
    LongFormSliceError,
>)
    requires
        call_requires(*canceled, ()),
    ensures
        match go_on {
            Ok(_) => call_ensures(*canceled, (), false),
            Err(error) => error == LongFormSliceError::Canceled && call_ensures(
                *canceled,
                (),
                true,
            ),
        },
{
    if canceled() {
        Err(LongFormSliceError::Canceled)
    } else {
        Ok(())
    }
}

/// A detector's cancellation is the request's, and its failure never is: it stays a failure,
/// with the reason that the detector gave.
pub proof fn law_detector_errors_keep_their_meaning(error: LongFormVadProviderError)
    ensures
        error == LongFormVadProviderError::Canceled <==> provider_failure(error)
            == LongFormSliceError::Canceled,
        error matches LongFormVadProviderError::Failed { reason } ==> provider_failure(error)
            == (LongFormSliceError::VadFailed { reason }),
{
}

/// A message closes with the reason where there is one, and says before that whose it is.
pub proof fn law_messages_close_with_their_reason(error: LongFormSliceError)
    ensures
        error matches LongFormSliceError::InvalidOptions { reason } ==> reason@.is_suffix_of(
            error.text(),
        ) && "longform options are invalid: "@.is_prefix_of(error.text()),
        error matches LongFormSliceError::VadFailed { reason } ==> reason@.is_suffix_of(
            error.text(),
        ) && "longform VAD provider failed: "@.is_prefix_of(error.text()),
{
    match error {
        LongFormSliceError::InvalidOptions { reason } => {
            crate::text::lemma_both_ends("longform options are invalid: "@, reason@);
        },
        LongFormSliceError::VadFailed { reason } => {
            crate::text::lemma_both_ends("longform VAD provider failed: "@, reason@);
        },
        _ => {},
    }
}

} // verus!
