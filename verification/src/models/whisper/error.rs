//! Why a job of the batching server fails.

use vstd::prelude::*;
use vstd::string::*;

use crate::models::backend::GgmlCpuGraphBackend;
use crate::text::append_decimal;

verus! {

/// Why a job of the batching server fails.
#[derive(Debug, Clone, PartialEq, Eq)]
pub enum WhisperServeBatchError {
    InvalidEnabledBatch { max_batch: usize },
    UnsupportedBackend { backend: GgmlCpuGraphBackend },
    RegistryPoisoned,
    ThreadSpawnFailed { reason: String },
    QueueFull,
    OwnerDisconnected,
    ReplyTimedOut,
    OwnerFailed { reason: String },
    DecodeFailed { reason: String },
}

fn joined(a: &str, b: &str) -> (whole: String)
    ensures
        whole@ == a@ + b@,
{
    let mut whole: String = a.to_owned();
    whole.append(b);
    whole
}

/// Whether an error is a failed decode with this reason.
pub open spec fn decode_failed(error: WhisperServeBatchError, why: Seq<char>) -> bool {
    error matches WhisperServeBatchError::DecodeFailed { reason } && reason@ == why
}

/// A failed decode with a reason.
pub(crate) fn failed_decode(why: &str) -> (error: WhisperServeBatchError)
    ensures
        decode_failed(error, why@),
{
    WhisperServeBatchError::DecodeFailed { reason: why.to_owned() }
}

impl WhisperServeBatchError {
    /// The text of the error.
    pub open spec fn text(self) -> Seq<char> {
        match self {
            WhisperServeBatchError::InvalidEnabledBatch { max_batch } =>
                "whisper serve batch requires max batch >= 2 when enabled, got "@
                    + crate::text::decimal(max_batch as nat),
            WhisperServeBatchError::UnsupportedBackend { backend } =>
                "whisper serve batch supports only gpu-class direct ggml backends, got "@
                    + backend.text(),
            WhisperServeBatchError::RegistryPoisoned =>
                "whisper serve batch engine registry mutex is poisoned"@,
            WhisperServeBatchError::ThreadSpawnFailed { reason } =>
                "whisper serve batch owner thread spawn failed: "@ + reason@,
            WhisperServeBatchError::QueueFull => "whisper serve batch queue is full"@,
            WhisperServeBatchError::OwnerDisconnected =>
                "whisper serve batch owner thread is disconnected"@,
            WhisperServeBatchError::ReplyTimedOut => "whisper serve batch owner reply timed out"@,
            WhisperServeBatchError::OwnerFailed { reason } =>
                "whisper serve batch owner failed: "@ + reason@,
            WhisperServeBatchError::DecodeFailed { reason } =>
                "whisper serve batch decode failed: "@ + reason@,
        }
    }

    pub fn message(&self) -> (message: String)
        ensures
            message@ == self.text(),
    {
        match self {
            WhisperServeBatchError::InvalidEnabledBatch { max_batch } => {
                let mut message: String =
                    "whisper serve batch requires max batch >= 2 when enabled, got ".to_owned();
                append_decimal(&mut message, *max_batch as u128);
                message
            },
            WhisperServeBatchError::UnsupportedBackend { backend } => joined(
                "whisper serve batch supports only gpu-class direct ggml backends, got ",
                backend.name(),
            ),
            WhisperServeBatchError::RegistryPoisoned =>
                "whisper serve batch engine registry mutex is poisoned".to_owned(),
            WhisperServeBatchError::ThreadSpawnFailed { reason } => joined(
                "whisper serve batch owner thread spawn failed: ",
                reason.as_str(),
            ),
            WhisperServeBatchError::QueueFull => "whisper serve batch queue is full".to_owned(),
            WhisperServeBatchError::OwnerDisconnected =>
                "whisper serve batch owner thread is disconnected".to_owned(),
            WhisperServeBatchError::ReplyTimedOut =>
                "whisper serve batch owner reply timed out".to_owned(),
            WhisperServeBatchError::OwnerFailed { reason } => joined(
                "whisper serve batch owner failed: ",
                reason.as_str(),
            ),
            WhisperServeBatchError::DecodeFailed { reason } => joined(
                "whisper serve batch decode failed: ",
                reason.as_str(),
            ),
        }
    }

    /// Which failures are transient: a full queue, which is worth a retry, and an owner that
    /// is gone or hangs, which is not. Every other failure is final.
    pub open spec fn transient(self) -> Option<bool> {
        match self {
            WhisperServeBatchError::QueueFull => Some(true),
            WhisperServeBatchError::OwnerDisconnected => Some(false),
            WhisperServeBatchError::ReplyTimedOut => Some(false),
            _ => None,
        }
    }

    pub fn unavailable_retryable(&self) -> (retryable: Option<bool>)
        ensures
            retryable == self.transient(),
    {
        match self {
            WhisperServeBatchError::QueueFull => Some(true),
            WhisperServeBatchError::OwnerDisconnected => Some(false),
            WhisperServeBatchError::ReplyTimedOut => Some(false),
            _ => None,
        }
    }
}

/// Only a full queue is worth a retry. An owner that is gone or hangs is not, and nothing else
/// is transient at all.
pub proof fn law_only_a_full_queue_is_retried(error: WhisperServeBatchError)
    ensures
        error.transient() == Some(true) <==> error == WhisperServeBatchError::QueueFull,
        error.transient() == Some(false) <==> error == WhisperServeBatchError::OwnerDisconnected
            || error == WhisperServeBatchError::ReplyTimedOut,
{
}

/// A message closes with what went wrong: the batch or the backend that was asked for, or the
/// reason; and it says before that where it happened.
pub proof fn law_messages_close_with_what_went_wrong(error: WhisperServeBatchError)
    ensures
        error matches WhisperServeBatchError::InvalidEnabledBatch { max_batch }
            ==> crate::text::decimal(max_batch as nat).is_suffix_of(error.text()),
        error matches WhisperServeBatchError::UnsupportedBackend { backend }
            ==> backend.text().is_suffix_of(error.text()),
        error matches WhisperServeBatchError::ThreadSpawnFailed { reason }
            ==> reason@.is_suffix_of(error.text())
            && "whisper serve batch owner thread spawn failed: "@.is_prefix_of(error.text()),
        error matches WhisperServeBatchError::OwnerFailed { reason } ==> reason@.is_suffix_of(
            error.text(),
        ) && "whisper serve batch owner failed: "@.is_prefix_of(error.text()),
        error matches WhisperServeBatchError::DecodeFailed { reason } ==> reason@.is_suffix_of(
            error.text(),
        ) && "whisper serve batch decode failed: "@.is_prefix_of(error.text()),
{
    match error {
        WhisperServeBatchError::InvalidEnabledBatch { max_batch } => {
            crate::text::lemma_both_ends(
                "whisper serve batch requires max batch >= 2 when enabled, got "@,
                crate::text::decimal(max_batch as nat),
            );
        },
        WhisperServeBatchError::UnsupportedBackend { backend } => {
            crate::text::lemma_both_ends(
                "whisper serve batch supports only gpu-class direct ggml backends, got "@,
                backend.text(),
            );
        },
        WhisperServeBatchError::ThreadSpawnFailed { reason } => {
            crate::text::lemma_both_ends(
                "whisper serve batch owner thread spawn failed: "@,
                reason@,
            );
        },
        WhisperServeBatchError::OwnerFailed { reason } => {
            crate::text::lemma_both_ends("whisper serve batch owner failed: "@, reason@);
        },
        WhisperServeBatchError::DecodeFailed { reason } => {
            crate::text::lemma_both_ends("whisper serve batch decode failed: "@, reason@);
        },
        _ => {},
    }
}

} // verus!
