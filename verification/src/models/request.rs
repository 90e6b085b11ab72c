//! Requests to execute, and what comes back.

use std::sync::Arc;

use vstd::prelude::*;
use vstd::slice::slice_subrange;
use vstd::string::*;

use crate::models::backend::{
    GgmlAsrBackendPreference, GgmlCpuGraphBackend, ResolvedFamilyRuntimeInput,
};
use crate::models::decoder_state;
use crate::models::decoder_state::{
    GgmlAsrDecoderState, GgmlAsrDecoderStatePlanningError, GgmlAsrDecoderStatePlanningInput,
    InvocationShapeInput,
};
use crate::models::options::GgmlAsrExecutionOptions;
use crate::text::same_text;

verus! {

// ---------------------------------------------------------------------------
// Audio
// ---------------------------------------------------------------------------

/// Sample rate of prepared mono audio.
pub const PREPARED_SAMPLE_RATE_HZ: u32 = 16_000;

/// Audio that a request owns.
#[derive(Debug, Clone, PartialEq)]
pub struct GgmlAsrPreparedAudio<T> {
    pub sample_rate_hz: u32,
    pub channels: u16,
    pub samples: Vec<T>,
}

impl<T> GgmlAsrPreparedAudio<T> {
    pub fn mono_16khz(samples: Vec<T>) -> (audio: Self)
        ensures
            audio.sample_rate_hz == PREPARED_SAMPLE_RATE_HZ,
            audio.channels == 1,
            audio.samples == samples,
    {
        GgmlAsrPreparedAudio { sample_rate_hz: PREPARED_SAMPLE_RATE_HZ, channels: 1, samples }
    }

    /// The audio without a copy.
    pub open spec fn viewed(&self) -> GgmlAsrPreparedAudioView<'_, T> {
        GgmlAsrPreparedAudioView {
            sample_rate_hz: self.sample_rate_hz,
            channels: self.channels,
            samples: GgmlAsrSamplesView::Borrowed(&self.samples),
        }
    }

    pub fn as_view(&self) -> (view: GgmlAsrPreparedAudioView<'_, T>)
        ensures
            view == self.viewed(),
    {
        GgmlAsrPreparedAudioView {
            sample_rate_hz: self.sample_rate_hz,
            channels: self.channels,
            samples: GgmlAsrSamplesView::Borrowed(&self.samples),
        }
    }
}

/// A range of samples of a shared recording.
#[derive(Debug, PartialEq)]
pub struct PcmSlice<T> {
    buffer: Arc<Vec<T>>,
    start: usize,
    end: usize,
}

impl<T> PcmSlice<T> {
    #[verifier::type_invariant]
    spec fn in_range(self) -> bool {
        self.start <= self.end <= self.buffer@.len()
    }

    /// The samples in the range.
    pub closed spec fn samples(self) -> Seq<T> {
        self.buffer@.subrange(self.start as int, self.end as int)
    }

    /// A whole recording.
    pub fn full(samples: Vec<T>) -> (slice: Self)
        ensures
            slice.samples() == samples@,
    {
        let end: usize = samples.len();
        let ghost all = samples@;
        let slice = PcmSlice { buffer: Arc::new(samples), start: 0, end };
        assert(slice.samples() =~= all);
        slice
    }

    /// Part of a shared recording; nothing where the range does not lie in it.
    pub fn of_buffer(buffer: Arc<Vec<T>>, start: usize, end: usize) -> (slice: Option<Self>)
        ensures
            match slice {
                Some(part) => start <= end <= buffer@.len() && part.samples() == buffer@.subrange(
                    start as int,
                    end as int,
                ),
                None => !(start <= end <= buffer@.len()),
            },
    {
        if start <= end && end <= buffer.len() {
            Some(PcmSlice { buffer, start, end })
        } else {
            None
        }
    }

    pub fn as_slice(&self) -> (samples: &[T])
        ensures
            samples@ == self.samples(),
    {
        proof {
            use_type_invariant(self);
        }
        slice_subrange(self.buffer.as_slice(), self.start, self.end)
    }
}

/// Samples that a request borrows, or shares with other requests.
#[derive(Debug, PartialEq)]
pub enum GgmlAsrSamplesView<'a, T> {
    Borrowed(&'a Vec<T>),
    Shared(PcmSlice<T>),
}

fn copied<T: Copy>(samples: &[T]) -> (copy: Vec<T>)
    ensures
        copy@ == samples@,
{
    let mut copy: Vec<T> = Vec::new();
    let mut at: usize = 0;
    while at < samples.len()
        invariant
            at <= samples@.len(),
            copy@ == samples@.take(at as int),
        decreases samples@.len() - at,
    {
        copy.push(samples[at]);
        at = at + 1;
        assert(copy@ =~= samples@.take(at as int));
    }
    assert(copy@ =~= samples@);
    copy
}

impl<'a, T> GgmlAsrSamplesView<'a, T> {
    /// The samples themselves.
    pub open spec fn samples(self) -> Seq<T> {
        match self {
            GgmlAsrSamplesView::Borrowed(samples) => samples@,
            GgmlAsrSamplesView::Shared(slice) => slice.samples(),
        }
    }

    pub fn as_slice(&self) -> (samples: &[T])
        ensures
            samples@ == self.samples(),
    {
        match self {
            GgmlAsrSamplesView::Borrowed(samples) => samples.as_slice(),
            GgmlAsrSamplesView::Shared(slice) => slice.as_slice(),
        }
    }
}

impl<'a, T: Copy> GgmlAsrSamplesView<'a, T> {
    /// An owned range for a dedicated runtime thread: a shared one is handed on, a
    /// borrowed one is copied.
    pub fn to_owned_pcm_slice(self) -> (slice: PcmSlice<T>)
        ensures
            slice.samples() == self.samples(),
            self matches GgmlAsrSamplesView::Shared(shared) ==> slice == shared,
    {
        match self {
            GgmlAsrSamplesView::Borrowed(samples) => PcmSlice::full(copied(samples.as_slice())),
            GgmlAsrSamplesView::Shared(slice) => slice,
        }
    }
}

/// Audio without a copy, used only inside the native runtime.
#[derive(Debug, PartialEq)]
pub struct GgmlAsrPreparedAudioView<'a, T> {
    pub sample_rate_hz: u32,
    pub channels: u16,
    pub samples: GgmlAsrSamplesView<'a, T>,
}

impl<'a, T> GgmlAsrPreparedAudioView<'a, T> {
    pub fn mono_16khz(samples: Vec<T>) -> (view: Self)
        ensures
            view.sample_rate_hz == PREPARED_SAMPLE_RATE_HZ,
            view.channels == 1,
            view.samples.samples() == samples@,
    {
        Self::mono_16khz_shared(PcmSlice::full(samples))
    }

    pub fn mono_16khz_shared(samples: PcmSlice<T>) -> (view: Self)
        ensures
            view.sample_rate_hz == PREPARED_SAMPLE_RATE_HZ,
            view.channels == 1,
            view.samples == GgmlAsrSamplesView::<T>::Shared(samples),
    {
        GgmlAsrPreparedAudioView {
            sample_rate_hz: PREPARED_SAMPLE_RATE_HZ,
            channels: 1,
            samples: GgmlAsrSamplesView::Shared(samples),
        }
    }
}

// ---------------------------------------------------------------------------
// Families and packs
// ---------------------------------------------------------------------------

/// How an executor takes an adapter pack.
#[derive(Debug, Clone, Copy, PartialEq, Eq, Structural)]
pub enum GgmlAdapterBindingStrategy {
    Unsupported,
    Qwen3AsrLoraV1,
    MoonshineLoraV1,
}

/// How an executor is found for a family that none is registered for by name.
#[derive(Debug, Clone, Copy, PartialEq, Eq, Structural)]
pub enum GgmlExecutionCapability {
    DedicatedRuntimeExecutorV1,
    NativeGraphLoweringV1,
}

/// A model family, as the inventory describes it.
#[derive(Debug, Clone, Copy, PartialEq, Eq)]
pub struct GgmlFamilyAdapterDescriptor {
    pub adapter_id: &'static str,
    pub model_family: &'static str,
    pub model_architecture: &'static str,
    pub execution_capability: GgmlExecutionCapability,
    pub adapter_binding: GgmlAdapterBindingStrategy,
}

/// Proof of what a pack holds, made where the pack entered.
#[derive(Debug, Clone, PartialEq, Eq)]
pub struct VerifiedPack<F> {
    pub model_family: String,
    pub model_architecture: String,
    pub preflight: F,
}

impl GgmlAdapterBindingStrategy {
    pub open spec fn text(self) -> Seq<char> {
        match self {
            GgmlAdapterBindingStrategy::Unsupported => "unsupported"@,
            GgmlAdapterBindingStrategy::Qwen3AsrLoraV1 => "qwen3-asr-lora-v1"@,
            GgmlAdapterBindingStrategy::MoonshineLoraV1 => "moonshine-lora-v1"@,
        }
    }

    pub fn label(&self) -> (label: &'static str)
        ensures
            label@ == self.text(),
    {
        match self {
            GgmlAdapterBindingStrategy::Unsupported => "unsupported",
            GgmlAdapterBindingStrategy::Qwen3AsrLoraV1 => "qwen3-asr-lora-v1",
            GgmlAdapterBindingStrategy::MoonshineLoraV1 => "moonshine-lora-v1",
        }
    }

    /// Whether adapters can be bound at all.
    pub open spec fn supported(self) -> bool {
        self != GgmlAdapterBindingStrategy::Unsupported
    }

    pub fn is_supported(&self) -> (supported: bool)
        ensures
            supported == self.supported(),
    {
        match self {
            GgmlAdapterBindingStrategy::Unsupported => false,
            _ => true,
        }
    }
}

impl GgmlExecutionCapability {
    pub open spec fn text(self) -> Seq<char> {
        match self {
            GgmlExecutionCapability::DedicatedRuntimeExecutorV1 =>
                "dedicated-runtime-executor-v1"@,
            GgmlExecutionCapability::NativeGraphLoweringV1 => "native-graph-lowering-v1"@,
        }
    }
}

/// Name of a capability.
pub fn capability_label(capability: GgmlExecutionCapability) -> (label: &'static str)
    ensures
        label@ == capability.text(),
{
    match capability {
        GgmlExecutionCapability::DedicatedRuntimeExecutorV1 => "dedicated-runtime-executor-v1",
        GgmlExecutionCapability::NativeGraphLoweringV1 => "native-graph-lowering-v1",
    }
}

impl<F> VerifiedPack<F> {
    /// Whether the pack was proved to hold this family and architecture.
    pub open spec fn proves(self, model_family: Seq<char>, model_architecture: Seq<char>) -> bool {
        self.model_family@ == model_family && self.model_architecture@ == model_architecture
    }

    pub fn proves_asr_family(&self, model_family: &str, model_architecture: &str) -> (proved: bool)
        ensures
            proved == self.proves(model_family@, model_architecture@),
    {
        same_text(self.model_family.as_str(), model_family) && same_text(
            self.model_architecture.as_str(),
            model_architecture,
        )
    }

    pub fn preflight(&self) -> (preflight: &F)
        ensures
            *preflight == self.preflight,
    {
        &self.preflight
    }
}

// ---------------------------------------------------------------------------
// Requests
// ---------------------------------------------------------------------------

/// What the next slice inherits from this one.
#[derive(Debug, Clone, PartialEq, Eq)]
pub struct GgmlAsrCarryContext {
    pub prompt_text: Option<String>,
    pub prompt_token_ids: Option<Vec<u32>>,
}

impl Default for GgmlAsrCarryContext {
    fn default() -> (context: Self)
        ensures
            context.prompt_text is None,
            context.prompt_token_ids is None,
    {
        GgmlAsrCarryContext { prompt_text: None, prompt_token_ids: None }
    }
}

/// One offline execution.
#[derive(Debug, Clone, PartialEq)]
pub struct GgmlAsrExecutionRequest<T, F> {
    pub decoder_state: GgmlAsrDecoderState,
    pub verified_pack: VerifiedPack<F>,
    pub selected_family: GgmlFamilyAdapterDescriptor,
    pub prepared_audio: GgmlAsrPreparedAudio<T>,
    pub request_options: GgmlAsrExecutionOptions,
    pub backend_preference: GgmlAsrBackendPreference,
    /// The family's backend, resolved by whoever built the request.
    pub resolved_runtime: ResolvedFamilyRuntimeInput,
}

/// One offline execution, with the audio borrowed or shared.
#[derive(Debug, PartialEq)]
pub struct GgmlAsrExecutionViewRequest<'a, T, F> {
    pub decoder_state: &'a GgmlAsrDecoderState,
    pub verified_pack: &'a VerifiedPack<F>,
    pub selected_family: GgmlFamilyAdapterDescriptor,
    pub prepared_audio: GgmlAsrPreparedAudioView<'a, T>,
    pub request_options: &'a GgmlAsrExecutionOptions,
    pub backend_preference: GgmlAsrBackendPreference,
    pub resolved_runtime: ResolvedFamilyRuntimeInput,
}

impl<T, F> GgmlAsrExecutionRequest<T, F> {
    pub fn runtime_source_preflight(&self) -> (preflight: &F)
        ensures
            *preflight == self.verified_pack.preflight,
    {
        self.verified_pack.preflight()
    }

    /// The request with its audio borrowed.
    pub open spec fn viewed(&self) -> GgmlAsrExecutionViewRequest<'_, T, F> {
        GgmlAsrExecutionViewRequest {
            decoder_state: &self.decoder_state,
            verified_pack: &self.verified_pack,
            selected_family: self.selected_family,
            prepared_audio: self.prepared_audio.viewed(),
            request_options: &self.request_options,
            backend_preference: self.backend_preference,
            resolved_runtime: self.resolved_runtime,
        }
    }

    pub fn as_view(&self) -> (view: GgmlAsrExecutionViewRequest<'_, T, F>)
        ensures
            view == self.viewed(),
    {
        GgmlAsrExecutionViewRequest {
            decoder_state: &self.decoder_state,
            verified_pack: &self.verified_pack,
            selected_family: self.selected_family,
            prepared_audio: self.prepared_audio.as_view(),
            request_options: &self.request_options,
            backend_preference: self.backend_preference,
            resolved_runtime: self.resolved_runtime,
        }
    }
}

impl<'a, F> GgmlAsrDecoderStatePlanningInput<'a, F> {
    /// What decoder state is planned for, for audio that a request owns.
    pub fn for_offline_request<
        T,
        I: Fn(InvocationShapeInput) -> Result<(), String>,
        N: Fn(u32, usize) -> Result<(), String>,
        S: Fn(u32) -> String,
    >(
        preflight: &'a F,
        prepared_audio: &GgmlAsrPreparedAudio<T>,
        request_options: &'a GgmlAsrExecutionOptions,
        backend: GgmlCpuGraphBackend,
        accept_invocation: &I,
        accept_envelope: &N,
        describe_seconds: &S,
    ) -> (result: Result<Self, GgmlAsrDecoderStatePlanningError>)
        requires
            forall|shape: InvocationShapeInput| #[trigger]
                call_requires(*accept_invocation, (shape,)),
            forall|rate: u32, samples: usize| #[trigger]
                call_requires(*accept_envelope, (rate, samples)),
            forall|bits: u32| #[trigger] call_requires(*describe_seconds, (bits,)),
        ensures
            decoder_state::plans_offline(
                preflight,
                InvocationShapeInput {
                    sample_rate_hz: prepared_audio.sample_rate_hz,
                    samples: prepared_audio.samples@.len() as usize,
                },
                request_options,
                backend,
                *accept_invocation,
                *accept_envelope,
                *describe_seconds,
                result,
            ),
    {
        let sample_count: usize = prepared_audio.samples.len();
        Self::for_offline_audio_shape(
            preflight,
            prepared_audio.sample_rate_hz,
            sample_count,
            request_options,
            backend,
            accept_invocation,
            accept_envelope,
            describe_seconds,
        )
    }

    /// What decoder state is planned for, for audio that a request borrows or shares.
    pub fn for_offline_view_request<
        T,
        I: Fn(InvocationShapeInput) -> Result<(), String>,
        N: Fn(u32, usize) -> Result<(), String>,
        S: Fn(u32) -> String,
    >(
        preflight: &'a F,
        prepared_audio: &GgmlAsrPreparedAudioView<'_, T>,
        request_options: &'a GgmlAsrExecutionOptions,
        backend: GgmlCpuGraphBackend,
        accept_invocation: &I,
        accept_envelope: &N,
        describe_seconds: &S,
    ) -> (result: Result<Self, GgmlAsrDecoderStatePlanningError>)
        requires
            forall|shape: InvocationShapeInput| #[trigger]
                call_requires(*accept_invocation, (shape,)),
            forall|rate: u32, samples: usize| #[trigger]
                call_requires(*accept_envelope, (rate, samples)),
            forall|bits: u32| #[trigger] call_requires(*describe_seconds, (bits,)),
        ensures
            decoder_state::plans_offline(
                preflight,
                InvocationShapeInput {
                    sample_rate_hz: prepared_audio.sample_rate_hz,
                    samples: prepared_audio.samples.samples().len() as usize,
                },
                request_options,
                backend,
                *accept_invocation,
                *accept_envelope,
                *describe_seconds,
                result,
            ),
    {
        let sample_count: usize = prepared_audio.samples.as_slice().len();
        Self::for_offline_audio_shape(
            preflight,
            prepared_audio.sample_rate_hz,
            sample_count,
            request_options,
            backend,
            accept_invocation,
            accept_envelope,
            describe_seconds,
        )
    }
}

/// Whether an owned request says the same as a borrowed one, sample for sample.
pub open spec fn owns_view<T, F>(
    owned: GgmlAsrExecutionRequest<T, F>,
    view: GgmlAsrExecutionViewRequest<'_, T, F>,
) -> bool {
    &&& decoder_state::planned_streams(owned.decoder_state) == decoder_state::planned_streams(
        *view.decoder_state,
    )
    &&& owned.verified_pack.model_family@ == view.verified_pack.model_family@
    &&& owned.verified_pack.model_architecture@ == view.verified_pack.model_architecture@
    &&& owned.verified_pack.preflight == view.verified_pack.preflight
    &&& owned.selected_family == view.selected_family
    &&& owned.prepared_audio.sample_rate_hz == view.prepared_audio.sample_rate_hz
    &&& owned.prepared_audio.channels == view.prepared_audio.channels
    &&& owned.prepared_audio.samples@ == view.prepared_audio.samples.samples()
    &&& owned.request_options@ == view.request_options@
    &&& owned.backend_preference == view.backend_preference
    &&& owned.resolved_runtime == view.resolved_runtime
}

impl<'a, T, F> GgmlAsrExecutionViewRequest<'a, T, F> {
    pub fn runtime_source_preflight(&self) -> (preflight: &F)
        ensures
            *preflight == self.verified_pack.preflight,
    {
        self.verified_pack.preflight()
    }
}

impl<'a, T: Copy, F: Copy> GgmlAsrExecutionViewRequest<'a, T, F> {
    /// The request with its own copy of the audio.
    pub fn to_owned_request(&self) -> (owned: GgmlAsrExecutionRequest<T, F>)
        ensures
            owns_view(owned, *self),
    {
        GgmlAsrExecutionRequest {
            decoder_state: self.decoder_state.duplicate(),
            verified_pack: VerifiedPack {
                model_family: self.verified_pack.model_family.clone(),
                model_architecture: self.verified_pack.model_architecture.clone(),
                preflight: self.verified_pack.preflight,
            },
            selected_family: self.selected_family,
            prepared_audio: GgmlAsrPreparedAudio {
                sample_rate_hz: self.prepared_audio.sample_rate_hz,
                channels: self.prepared_audio.channels,
                samples: copied(self.prepared_audio.samples.as_slice()),
            },
            request_options: self.request_options.duplicate(),
            backend_preference: self.backend_preference,
            resolved_runtime: self.resolved_runtime,
        }
    }
}

/// How a streaming session takes audio and gives results.
#[derive(Debug, Clone, Copy, PartialEq, Eq)]
pub struct GgmlAsrStreamingSessionConfig<A, B> {
    pub audio_format: A,
    pub backpressure: B,
    pub partial_results: bool,
    pub word_timestamps: bool,
    pub min_partial_interval_ms: Option<u32>,
}

impl<A, B> GgmlAsrStreamingSessionConfig<A, B> {
    /// Effective floor between partial decodes in milliseconds: the client's, if set, else
    /// the family's. It gates partial results only, never the final one.
    pub fn partial_floor_ms(&self, family_default: u32) -> (floor: u64)
        ensures
            floor == (match self.min_partial_interval_ms {
                Some(interval) => interval,
                None => family_default,
            }),
    {
        match self.min_partial_interval_ms {
            Some(interval) => interval as u64,
            None => family_default as u64,
        }
    }
}

/// One streaming session.
#[derive(Debug, Clone, PartialEq)]
pub struct GgmlAsrStreamingSessionRequest<F, A, B, C, P> {
    pub decoder_state: GgmlAsrDecoderState,
    pub verified_pack: VerifiedPack<F>,
    pub selected_family: GgmlFamilyAdapterDescriptor,
    pub request_options: GgmlAsrExecutionOptions,
    pub configured_diarize: bool,
    pub backend_preference: GgmlAsrBackendPreference,
    /// The family's backend, resolved once for the whole session.
    pub resolved_runtime: ResolvedFamilyRuntimeInput,
    /// The session's own final-text processor slot, as its holders share it. It is never
    /// derived from the resolved runtime.
    pub final_text_processor: Option<P>,
    pub session_context: C,
    pub session_config: GgmlAsrStreamingSessionConfig<A, B>,
}

impl<F, A, B, C, P> GgmlAsrStreamingSessionRequest<F, A, B, C, P> {
    pub fn runtime_source_preflight(&self) -> (preflight: &F)
        ensures
            *preflight == self.verified_pack.preflight,
    {
        self.verified_pack.preflight()
    }
}

/// Where the final text of a streaming session is processed further, once a processor has
/// been installed. A processor is installed once, and text passes unchanged until then.
#[derive(Debug)]
pub struct GgmlAsrStreamingFinalTextProcessorSlot<P> {
    processor: Option<P>,
}

impl<P: Fn(&str) -> Result<String, String>> GgmlAsrStreamingFinalTextProcessorSlot<P> {
    /// The installed processor.
    pub closed spec fn installed(self) -> Option<P> {
        self.processor
    }

    pub fn empty() -> (slot: Self)
        ensures
            slot.installed() is None,
    {
        GgmlAsrStreamingFinalTextProcessorSlot { processor: None }
    }

    pub fn is_installed(&self) -> (yes: bool)
        ensures
            yes == (self.installed() is Some),
    {
        self.processor.is_some()
    }

    /// Installs a processor, unless one is installed already.
    pub fn install(&mut self, processor: P) -> (result: Result<(), &'static str>)
        ensures
            match result {
                Ok(_) => old(self).installed() is None && final(self).installed() == Some(
                    processor,
                ),
                Err(reason) => old(self).installed() is Some && *final(self) == *old(self)
                    && reason@ == "streaming final-text processor is already installed"@,
            },
    {
        if self.processor.is_some() {
            return Err("streaming final-text processor is already installed");
        }
        self.processor = Some(processor);
        Ok(())
    }

    /// Processes final text: what the processor makes of it, or the text itself.
    pub fn process(&self, text: &str) -> (result: Result<String, String>)
        requires
            self.installed() matches Some(processor) ==> call_requires(processor, (text,)),
        ensures
            match self.installed() {
                Some(processor) => call_ensures(processor, (text,), result),
                None => result matches Ok(unchanged) && unchanged@ == text@,
            },
    {
        match &self.processor {
            Some(processor) => processor(text),
            None => Ok(text.to_owned()),
        }
    }
}

/// Why a decode stopped short of its audio.
#[derive(Debug, Clone, PartialEq, Eq)]
pub struct DecodeTruncation {
    pub reason: String,
}

/// What an execution gives.
#[derive(Debug, Clone, PartialEq)]
pub struct GgmlAsrExecutionResult<Y> {
    pub transcription: Y,
    pub carry_context: Option<GgmlAsrCarryContext>,
    /// Set when the decode stopped short of the audio it was given; a truncated decode is
    /// otherwise indistinguishable from a complete one.
    pub decode_truncation: Option<DecodeTruncation>,
}

impl<Y> GgmlAsrExecutionResult<Y> {
    pub fn into_transcription(self) -> (transcription: Y)
        ensures
            transcription == self.transcription,
    {
        self.transcription
    }
}

/// A pack stands for one family and one architecture, those it was proved to hold.
pub proof fn law_packs_stand_for_one_family<F>(
    pack: VerifiedPack<F>,
    a_family: Seq<char>,
    a_architecture: Seq<char>,
    b_family: Seq<char>,
    b_architecture: Seq<char>,
)
    ensures
        pack.proves(pack.model_family@, pack.model_architecture@),
        pack.proves(a_family, a_architecture) && pack.proves(b_family, b_architecture) ==> a_family
            == b_family && a_architecture == b_architecture,
        pack.proves(a_family, a_architecture) ==> pack.model_family@ == a_family
            && pack.model_architecture@ == a_architecture,
{
}

/// Every way of binding adapters takes them but the one that says it does not, and each goes
/// by a name of its own.
pub proof fn law_only_unsupported_takes_no_adapter(
    a: GgmlAdapterBindingStrategy,
    b: GgmlAdapterBindingStrategy,
)
    ensures
        !GgmlAdapterBindingStrategy::Unsupported.supported(),
        GgmlAdapterBindingStrategy::Qwen3AsrLoraV1.supported(),
        GgmlAdapterBindingStrategy::MoonshineLoraV1.supported(),
        a.text() == b.text() <==> a == b,
{
    reveal_strlit("unsupported");
    reveal_strlit("qwen3-asr-lora-v1");
    reveal_strlit("moonshine-lora-v1");
    assert("unsupported"@[0] != "qwen3-asr-lora-v1"@[0]);
    assert("unsupported"@[0] != "moonshine-lora-v1"@[0]);
    assert("qwen3-asr-lora-v1"@[0] != "moonshine-lora-v1"@[0]);
}

/// Capabilities go by names of their own.
pub proof fn law_capabilities_have_names_of_their_own(
    a: GgmlExecutionCapability,
    b: GgmlExecutionCapability,
)
    ensures
        a.text() == b.text() <==> a == b,
{
    reveal_strlit("dedicated-runtime-executor-v1");
    reveal_strlit("native-graph-lowering-v1");
    assert("dedicated-runtime-executor-v1"@[0] != "native-graph-lowering-v1"@[0]);
}

/// An owned copy of a borrowed request is the same request: the same audio, sample for sample,
/// at the same rate, for the same family, pack, options and backend.
pub proof fn law_owned_copies_say_the_same<T, F>(
    owned: GgmlAsrExecutionRequest<T, F>,
    view: GgmlAsrExecutionViewRequest<'_, T, F>,
    i: int,
    family: Seq<char>,
    architecture: Seq<char>,
)
    requires
        owns_view(owned, view),
    ensures
        owned.prepared_audio.samples@.len() == view.prepared_audio.samples.samples().len(),
        0 <= i < owned.prepared_audio.samples@.len() ==> owned.prepared_audio.samples@[i]
            == view.prepared_audio.samples.samples()[i],
        owned.prepared_audio.sample_rate_hz == view.prepared_audio.sample_rate_hz,
        owned.prepared_audio.channels == view.prepared_audio.channels,
        owned.selected_family == view.selected_family,
        owned.verified_pack.proves(family, architecture) == view.verified_pack.proves(
            family,
            architecture,
        ),
        owned.verified_pack.preflight == view.verified_pack.preflight,
        owned.request_options@ == view.request_options@,
        owned.backend_preference == view.backend_preference,
        owned.resolved_runtime == view.resolved_runtime,
        owned.decoder_state is NoPersistentState == view.decoder_state is NoPersistentState,
{
}

/// A request that is looked at in place is the request: the same audio, sample for sample, at
/// the same rate and with as many channels, for the same family, pack, state, options and
/// backend.
pub proof fn law_views_show_the_request<T, F>(request: GgmlAsrExecutionRequest<T, F>)
    ensures
        ({
            let view = request.viewed();
            &&& view.prepared_audio.samples.samples() == request.prepared_audio.samples@
            &&& view.prepared_audio.sample_rate_hz == request.prepared_audio.sample_rate_hz
            &&& view.prepared_audio.channels == request.prepared_audio.channels
            &&& *view.decoder_state == request.decoder_state
            &&& *view.verified_pack == request.verified_pack
            &&& view.selected_family == request.selected_family
            &&& *view.request_options == request.request_options
            &&& view.backend_preference == request.backend_preference
            &&& view.resolved_runtime == request.resolved_runtime
            &&& owns_view(request, view)
        }),
{
}

/// Prepared audio is mono at 16 kHz and holds the samples that it was made from, whether it is
/// owned, shared or looked at.
pub proof fn law_prepared_audio_is_mono_at_16_khz<T>(
    samples: Vec<T>,
    owned: GgmlAsrPreparedAudio<T>,
    view: GgmlAsrPreparedAudioView<'_, T>,
    part: PcmSlice<T>,
    shared: GgmlAsrPreparedAudioView<'_, T>,
)
    requires
        call_ensures(GgmlAsrPreparedAudio::<T>::mono_16khz, (samples,), owned),
        call_ensures(GgmlAsrPreparedAudioView::<T>::mono_16khz, (samples,), view),
        call_ensures(GgmlAsrPreparedAudioView::<T>::mono_16khz_shared, (part,), shared),
    ensures
        owned.sample_rate_hz == 16000 && owned.channels == 1 && owned.samples@ == samples@,
        view.sample_rate_hz == 16000 && view.channels == 1 && view.samples.samples() == samples@,
        shared.sample_rate_hz == 16000 && shared.channels == 1 && shared.samples.samples()
            == part.samples(),
{
}

/// Part of a shared recording is there exactly where its range lies in the recording, and reads
/// sample for sample what the recording holds there.
pub proof fn law_shared_parts_read_the_recording<T>(
    buffer: Arc<Vec<T>>,
    start: usize,
    end: usize,
    part: Option<PcmSlice<T>>,
    i: int,
)
    requires
        call_ensures(PcmSlice::<T>::of_buffer, (buffer, start, end), part),
    ensures
        part is Some <==> start <= end && end <= buffer@.len(),
        part matches Some(slice) ==> slice.samples().len() == end - start && (0 <= i < end - start
            ==> slice.samples()[i] == buffer@[start + i]),
{
}

/// A client's own floor between partial results comes before that of the family, be it lower or
/// higher.
pub proof fn law_the_clients_floor_comes_first<A, B>(
    config: GgmlAsrStreamingSessionConfig<A, B>,
    family_default: u32,
    floor: u64,
)
    requires
        call_ensures(
            GgmlAsrStreamingSessionConfig::<A, B>::partial_floor_ms,
            (&config, family_default),
            floor,
        ),
    ensures
        config.min_partial_interval_ms matches Some(interval) ==> floor == interval,
        config.min_partial_interval_ms is None ==> floor == family_default,
{
}

/// Final text passes unchanged until a processor is installed, and through that processor from
/// then on.
pub proof fn law_final_text_passes_unchanged_without_a_processor<
    P: Fn(&str) -> Result<String, String>,
>(
    slot: GgmlAsrStreamingFinalTextProcessorSlot<P>,
    text: &str,
    result: Result<String, String>,
)
    requires
        call_ensures(
            GgmlAsrStreamingFinalTextProcessorSlot::<P>::process,
            (&slot, text),
            result,
        ),
    ensures
        slot.installed() is None ==> (result matches Ok(passed) && passed@ == text@),
        slot.installed() matches Some(processor) ==> call_ensures(processor, (text,), result),
{
}

} // verus!
