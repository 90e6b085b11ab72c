//! Executors behind the dispatch, and the gates in front of them.

use std::cell::{Cell, RefCell};
use std::rc::Rc;
use std::sync::Arc;

use openasr_core::longform::options::{LongFormMode, LongFormOptions};
use openasr_core::models::backend::{
    effective_backend_override, GgmlAsrBackendPreference, GgmlCpuGraphBackend,
    RequestBackendPreference, ResolvedFamilyRuntimeInput,
};
use openasr_core::models::decoder_state::{
    offline_invocation_envelope_samples, DecoderStatePlan, GgmlAsrDecoderState,
    GgmlAsrDecoderStateContract, GgmlAsrDecoderStatePlanningError,
    GgmlAsrDecoderStatePlanningInput, GgmlAsrDecoderStateStreamContract, InvocationEnvelope,
    InvocationShapeInput, StateAllocation, StateDemand, StateKind,
};
use openasr_core::models::dispatch::{
    ensure_adapter_binding_for_executor, ensure_dispatch_not_canceled, publish_unless_canceled,
    GgmlAsrExecutionDispatch,
    StreamingPartialGranularity,
};
use openasr_core::models::executor::{
    ExecutionRouteError, GgmlAsrExecutionError, GgmlAsrExecutor, GgmlAsrStreamingExecutor,
    GgmlAsrViewExecutor, GgmlCpuGraphError,
};
use openasr_core::models::identity::{serve_batch_build_identity_for_request, RuntimeBuildIdentity};
use openasr_core::models::options::{
    GgmlAsrExecutionOptions, PhraseBias, PhraseBiasConfig, ServeBatchPolicy, TranscriptionTask,
};
use openasr_core::models::registry::Registry;
use openasr_core::models::request::{
    capability_label, GgmlAdapterBindingStrategy, GgmlAsrCarryContext, GgmlAsrExecutionRequest,
    GgmlAsrExecutionResult, GgmlAsrExecutionViewRequest, GgmlAsrPreparedAudio,
    GgmlAsrPreparedAudioView, GgmlAsrSamplesView, GgmlAsrStreamingFinalTextProcessorSlot,
    GgmlAsrStreamingSessionConfig, GgmlAsrStreamingSessionRequest, GgmlExecutionCapability,
    GgmlFamilyAdapterDescriptor, PcmSlice, VerifiedPack,
};

const WHISPER_GGML_ADAPTER_ID: &str = "ggml-family-whisper-runtime-v1";
const QWEN3_ASR_GGML_ADAPTER_ID: &str = "ggml-family-qwen3-asr-runtime-v1";
const QWEN3_ASR_MODEL_FAMILY: &str = "qwen3-asr";
const QWEN3_ASR_GGML_ARCHITECTURE_ID: &str = "qwen3-asr";

fn whisper() -> GgmlFamilyAdapterDescriptor {
    GgmlFamilyAdapterDescriptor {
        adapter_id: WHISPER_GGML_ADAPTER_ID,
        model_family: "whisper",
        model_architecture: "whisper",
        execution_capability: GgmlExecutionCapability::DedicatedRuntimeExecutorV1,
        adapter_binding: GgmlAdapterBindingStrategy::Unsupported,
    }
}

fn qwen() -> GgmlFamilyAdapterDescriptor {
    GgmlFamilyAdapterDescriptor {
        adapter_id: QWEN3_ASR_GGML_ADAPTER_ID,
        model_family: QWEN3_ASR_MODEL_FAMILY,
        model_architecture: QWEN3_ASR_GGML_ARCHITECTURE_ID,
        execution_capability: GgmlExecutionCapability::NativeGraphLoweringV1,
        adapter_binding: GgmlAdapterBindingStrategy::Qwen3AsrLoraV1,
    }
}

fn moonshine() -> GgmlFamilyAdapterDescriptor {
    GgmlFamilyAdapterDescriptor {
        adapter_id: "ggml-family-moonshine-runtime-v1",
        model_family: "moonshine",
        model_architecture: "moonshine",
        execution_capability: GgmlExecutionCapability::NativeGraphLoweringV1,
        adapter_binding: GgmlAdapterBindingStrategy::MoonshineLoraV1,
    }
}

fn parakeet_tdt() -> GgmlFamilyAdapterDescriptor {
    GgmlFamilyAdapterDescriptor {
        adapter_id: "ggml-family-parakeet-tdt-runtime-v1",
        model_family: "parakeet-tdt",
        model_architecture: "parakeet-tdt",
        execution_capability: GgmlExecutionCapability::DedicatedRuntimeExecutorV1,
        adapter_binding: GgmlAdapterBindingStrategy::Unsupported,
    }
}

fn xasr_zipformer() -> GgmlFamilyAdapterDescriptor {
    GgmlFamilyAdapterDescriptor {
        adapter_id: "ggml-family-xasr-zipformer-runtime-v1",
        model_family: "xasr-zipformer",
        model_architecture: "xasr-zipformer",
        execution_capability: GgmlExecutionCapability::DedicatedRuntimeExecutorV1,
        adapter_binding: GgmlAdapterBindingStrategy::Unsupported,
    }
}

#[derive(Debug, Clone, PartialEq)]
struct Transcription {
    text: String,
}

type Request = GgmlAsrExecutionRequest<f32, u8>;
type View<'a> = GgmlAsrExecutionViewRequest<'a, f32, u8>;
type Answer = Result<GgmlAsrExecutionResult<Transcription>, GgmlAsrExecutionError>;
type Promise = Result<GgmlAsrDecoderStateContract, GgmlAsrExecutionError>;
type Plan = Result<DecoderStatePlan, GgmlAsrDecoderStatePlanningError>;
type StreamingRequest = GgmlAsrStreamingSessionRequest<u8, u8, u8, String, u16>;
type Dispatch<X> = GgmlAsrExecutionDispatch<X, ViewStub, StreamingStub>;

fn longform() -> LongFormOptions {
    LongFormOptions {
        mode: LongFormMode::Auto,
        chunk_samples: 480_000,
        overlap_samples: 8_000,
        min_chunk_samples: 16_000,
        padding_samples: 1_600,
        search_samples: 32_000,
        max_chunk_seconds_bits: 30.0_f32.to_bits(),
        silence_level: 0.01_f32.to_bits(),
        gap_bridge_samples: 8_000,
        seam_samples: 3_200,
        boundary_window_samples: 3_200,
        edge_window_samples: 3_200,
        seam_floor_samples: 1_600,
        one_second_samples: 16_000,
        two_second_samples: 32_000,
        fallback_to_energy_when_vad_unavailable: true,
        fallback_to_energy_when_vad_empty: true,
        carry_prompt_across_slices: true,
        max_context_tokens: 224,
    }
}

fn options_with(longform: LongFormOptions) -> GgmlAsrExecutionOptions {
    GgmlAsrExecutionOptions {
        longform: Some(longform),
        ..GgmlAsrExecutionOptions::default()
    }
}

fn seconds_text(bits: u32) -> String {
    format!("{}", f32::from_bits(bits))
}

fn request_for(
    family: GgmlFamilyAdapterDescriptor,
    backend_preference: GgmlAsrBackendPreference,
) -> Request {
    GgmlAsrExecutionRequest {
        decoder_state: GgmlAsrDecoderState::NoPersistentState,
        verified_pack: VerifiedPack {
            model_family: family.model_family.to_string(),
            model_architecture: family.model_architecture.to_string(),
            preflight: 7,
        },
        selected_family: family,
        prepared_audio: GgmlAsrPreparedAudio::mono_16khz(vec![0.0, 0.1]),
        request_options: GgmlAsrExecutionOptions::default(),
        backend_preference,
        resolved_runtime: ResolvedFamilyRuntimeInput {
            backend: GgmlCpuGraphBackend::Cpu,
        },
    }
}

fn whisper_request(backend_preference: GgmlAsrBackendPreference) -> Request {
    request_for(whisper(), backend_preference)
}

fn streaming_request_for(family: GgmlFamilyAdapterDescriptor) -> StreamingRequest {
    GgmlAsrStreamingSessionRequest {
        decoder_state: GgmlAsrDecoderState::NoPersistentState,
        verified_pack: VerifiedPack {
            model_family: family.model_family.to_string(),
            model_architecture: family.model_architecture.to_string(),
            preflight: 9,
        },
        selected_family: family,
        request_options: GgmlAsrExecutionOptions::default(),
        configured_diarize: false,
        backend_preference: GgmlAsrBackendPreference::Auto,
        resolved_runtime: ResolvedFamilyRuntimeInput {
            backend: GgmlCpuGraphBackend::Cpu,
        },
        final_text_processor: None,
        session_context: "rt_ggml_streaming".to_string(),
        session_config: GgmlAsrStreamingSessionConfig {
            audio_format: 0,
            backpressure: 0,
            partial_results: true,
            word_timestamps: false,
            min_partial_interval_ms: None,
        },
    }
}

fn successful_execution_result(text: &str) -> GgmlAsrExecutionResult<Transcription> {
    GgmlAsrExecutionResult {
        transcription: Transcription {
            text: text.to_string(),
        },
        carry_context: None,
        decode_truncation: None,
    }
}

/// An executor that answers with a text, and counts what it is told.
#[derive(Clone)]
struct Stub {
    text: &'static str,
    adapter_binding: GgmlAdapterBindingStrategy,
    contract: GgmlAsrDecoderStateContract,
    executed: Rc<Cell<usize>>,
    unloaded: Rc<Cell<usize>>,
}

impl Stub {
    fn new(text: &'static str) -> Self {
        Stub {
            text,
            adapter_binding: GgmlAdapterBindingStrategy::Unsupported,
            contract: GgmlAsrDecoderStateContract::NoPersistentState,
            executed: Rc::new(Cell::new(0)),
            unloaded: Rc::new(Cell::new(0)),
        }
    }
}

impl GgmlAsrExecutor<f32, u8, Transcription> for Stub {
    fn executor_id(&self) -> &'static str {
        "stub"
    }

    fn adapter_binding_strategy(&self) -> GgmlAdapterBindingStrategy {
        self.adapter_binding
    }

    fn supports_phrase_bias(&self) -> bool {
        true
    }

    fn decoder_state_contract(&self, _family: &GgmlFamilyAdapterDescriptor) -> Promise {
        Ok(self.contract.clone())
    }

    fn plan_decoder_state_topology(
        &self,
        input: &GgmlAsrDecoderStatePlanningInput<'_, u8>,
    ) -> Plan {
        Ok(self_kv_plan(
            input.invocation.samples,
            input.envelope.max_samples,
        ))
    }

    fn execute(&self, _request: &Request) -> Answer {
        self.executed.set(self.executed.get() + 1);
        Ok(successful_execution_result(self.text))
    }

    fn unload_idle_state(&self) {
        self.unloaded.set(self.unloaded.get() + 1);
    }
}

/// An executor that reads samples in place.
#[derive(Clone)]
struct ViewStub {
    observed_pointers: Rc<RefCell<Vec<usize>>>,
    evicted: Rc<RefCell<Vec<String>>>,
    refuses_binding: bool,
}

impl ViewStub {
    fn new() -> Self {
        ViewStub {
            observed_pointers: Rc::new(RefCell::new(Vec::new())),
            evicted: Rc::new(RefCell::new(Vec::new())),
            refuses_binding: false,
        }
    }
}

impl GgmlAsrViewExecutor<f32, u8, Transcription> for ViewStub {
    fn executor_id(&self) -> &'static str {
        "view-executor"
    }

    fn adapter_binding_strategy_for(
        &self,
        _family: &GgmlFamilyAdapterDescriptor,
    ) -> Result<GgmlAdapterBindingStrategy, GgmlAsrExecutionError> {
        if self.refuses_binding {
            return Err(GgmlAsrExecutionError::executor_failed(
                "view-executor",
                "composed",
                "no such child",
            ));
        }
        Ok(GgmlAdapterBindingStrategy::Unsupported)
    }

    fn supports_phrase_bias(&self) -> bool {
        false
    }

    fn decoder_state_contract(&self, _family: &GgmlFamilyAdapterDescriptor) -> Promise {
        Ok(GgmlAsrDecoderStateContract::NoPersistentState)
    }

    fn plan_decoder_state_topology(
        &self,
        _input: &GgmlAsrDecoderStatePlanningInput<'_, u8>,
    ) -> Plan {
        unreachable!("no state is promised")
    }

    fn execute_view(&self, request: &View<'_>) -> Answer {
        self.observed_pointers
            .borrow_mut()
            .push(request.prepared_audio.samples.as_slice().as_ptr() as usize);
        Ok(successful_execution_result("view"))
    }

    fn evict_prepared_runtime_content_id(&self, pack_content_id: &str) {
        self.evicted.borrow_mut().push(pack_content_id.to_string());
    }
}

/// A streaming executor that gives its session's name.
#[derive(Clone)]
struct StreamingStub {
    unloaded: Rc<Cell<usize>>,
    never_starts: bool,
}

impl StreamingStub {
    fn new() -> Self {
        StreamingStub {
            unloaded: Rc::new(Cell::new(0)),
            never_starts: false,
        }
    }
}

impl GgmlAsrStreamingExecutor<u8, u8, u8, String, u16, String> for StreamingStub {
    fn executor_id(&self) -> &'static str {
        "streaming-stub"
    }

    fn start_streaming_session(
        &self,
        request: &StreamingRequest,
    ) -> Result<String, GgmlAsrExecutionError> {
        assert!(
            !self.never_starts,
            "the adapter must be rejected before session construction"
        );
        Ok(request.session_context.clone())
    }

    fn unload_idle_state(&self) {
        self.unloaded.set(self.unloaded.get() + 1);
    }
}

fn never(_: Option<&GgmlAsrExecutionResult<Transcription>>) -> bool {
    false
}

fn execute<X>(dispatch: &Dispatch<X>, request: &Request) -> Answer
where
    X: GgmlAsrExecutor<f32, u8, Transcription>,
{
    dispatch.execute(request, None, &never)
}

fn self_kv_plan(logical: usize, reserve: usize) -> DecoderStatePlan {
    DecoderStatePlan {
        allocations: vec![StateAllocation {
            logical: StateDemand {
                id: "test.self_kv",
                kind: StateKind::SelfAttentionKv,
                positions: logical,
            },
            reserve: StateDemand {
                id: "test.self_kv",
                kind: StateKind::SelfAttentionKv,
                positions: reserve,
            },
        }],
    }
}

fn self_kv_contract() -> GgmlAsrDecoderStateContract {
    GgmlAsrDecoderStateContract::planned(vec![GgmlAsrDecoderStateStreamContract::new(
        "test.self_kv",
        StateKind::SelfAttentionKv,
    )])
}

#[test]
fn offline_envelope_maps_longform_oracle_errors() {
    let rate = 16_000;
    for seconds in [0.0_f32, f32::NAN] {
        let options = options_with(LongFormOptions {
            max_chunk_seconds_bits: seconds.to_bits(),
            ..longform()
        });
        assert!(
            matches!(
                offline_invocation_envelope_samples(&options, rate, 160_000, &seconds_text),
                Err(GgmlAsrDecoderStatePlanningError::InvalidEnvelopeDuration { .. })
            ),
            "seconds={seconds}"
        );
    }
    let tenth = options_with(LongFormOptions {
        max_chunk_seconds_bits: 0.1_f32.to_bits(),
        ..longform()
    });
    assert_eq!(
        offline_invocation_envelope_samples(&tenth, rate, 16_000, &seconds_text).unwrap(),
        1_601
    );
}

#[test]
fn offline_envelope_does_not_add_padding_above_the_fed_window_cap() {
    let options = options_with(LongFormOptions {
        max_chunk_seconds_bits: 30.0_f32.to_bits(),
        padding_samples: 4_000,
        ..longform()
    });
    assert_eq!(
        offline_invocation_envelope_samples(&options, 16_000, 160_000, &seconds_text).unwrap(),
        480_000
    );
}

#[test]
fn active_longform_envelope_does_not_expand_to_an_illegal_slice() {
    let options = options_with(LongFormOptions {
        mode: LongFormMode::Fixed,
        max_chunk_seconds_bits: 30.0_f32.to_bits(),
        ..longform()
    });
    assert_eq!(
        offline_invocation_envelope_samples(&options, 16_000, 480_001, &seconds_text).unwrap(),
        480_000,
        "the planner must reject an oversized invocation against this envelope"
    );

    let off = options_with(LongFormOptions {
        mode: LongFormMode::Off,
        ..longform()
    });
    assert_eq!(
        offline_invocation_envelope_samples(&off, 16_000, 480_001, &seconds_text).unwrap(),
        480_001,
        "explicit longform-off uses the direct invocation as its envelope"
    );
}

#[test]
fn contract_distinguishes_affirmative_no_state_from_planned_state() {
    let envelope = InvocationEnvelope {
        sample_rate_hz: 16_000,
        max_samples: 200,
        max_prompt_tokens: 0,
    };
    let plan = self_kv_plan(100, envelope.maximum_invocation().samples);
    let planned = GgmlAsrDecoderState::planned(plan, envelope);
    assert!(GgmlAsrDecoderStateContract::NoPersistentState
        .validates(&GgmlAsrDecoderState::NoPersistentState));
    assert!(!GgmlAsrDecoderStateContract::NoPersistentState.validates(&planned));
    let matching = self_kv_contract();
    let wrong = GgmlAsrDecoderStateContract::planned(vec![GgmlAsrDecoderStateStreamContract::new(
        "test.cross_kv",
        StateKind::CrossAttentionKv,
    )]);
    assert!(matching.validates(&planned));
    assert!(
        !wrong.validates(&planned),
        "a non-empty plan with the wrong stream identity/kind must fail closed"
    );
}

#[test]
fn execution_options_distinguish_longform_mode_from_prompt_carry() {
    let disabled = options_with(LongFormOptions {
        mode: LongFormMode::Off,
        ..longform()
    });
    assert!(!disabled.longform_mode_enabled());
    assert!(!disabled.longform_prompt_carry_enabled());
    assert_eq!(disabled.max_longform_prompt_tokens(), 0);

    let no_carry = options_with(LongFormOptions {
        mode: LongFormMode::Fixed,
        carry_prompt_across_slices: false,
        ..longform()
    });
    assert!(no_carry.longform_mode_enabled());
    assert!(!no_carry.longform_prompt_carry_enabled());
    assert_eq!(no_carry.max_longform_prompt_tokens(), 0);

    let carry = options_with(LongFormOptions {
        mode: LongFormMode::Fixed,
        max_context_tokens: 37,
        ..longform()
    });
    assert!(carry.longform_mode_enabled());
    assert!(carry.longform_prompt_carry_enabled());
    assert_eq!(carry.max_longform_prompt_tokens(), 37);
}

#[test]
fn runtime_build_identity_separates_same_route_content_replacements() {
    let route = "whisper:metal:base";
    let options = "adapter=none";
    let first = RuntimeBuildIdentity::new("verified-content-a", route, options);
    let replacement = RuntimeBuildIdentity::new("verified-content-b", route, options);
    assert_ne!(
        first, replacement,
        "same path/route must not reuse replacement content"
    );
    assert_ne!(
        first,
        RuntimeBuildIdentity::new("verified-content-a", route, "adapter=/tmp/a.oadp"),
        "adapter/options fingerprint must rebuild the engine"
    );
    assert_eq!(
        first,
        RuntimeBuildIdentity::new("verified-content-a", route, options)
    );
}

#[test]
fn runtime_build_identity_resolve_prefers_explicit_request_content_id() {
    let verified = RuntimeBuildIdentity::new("verified-content-a", "old", "old");
    let resolved = RuntimeBuildIdentity::resolve_for_request(
        Some(&verified),
        "whisper:gpu",
        "adapter=none",
        "sha256:should-not-win",
    );
    assert_eq!(resolved.pack_content_id, "verified-content-a");
    assert_eq!(resolved.route, "whisper:gpu");
    assert_eq!(resolved.options_fingerprint, "adapter=none");
}

#[test]
fn serve_batch_identity_follows_content_route_and_adapter() {
    let mut options = GgmlAsrExecutionOptions::default();
    let content = RuntimeBuildIdentity::content_id_from_sha256_hex("00ff");
    assert_eq!(content, "sha256:00ff");
    let identity = serve_batch_build_identity_for_request(
        &options,
        "whisper",
        GgmlCpuGraphBackend::Gpu,
        &content,
    );
    assert_eq!(
        identity,
        RuntimeBuildIdentity::new("sha256:00ff", "whisper:Gpu", "adapter=none")
    );
    let replaced = serve_batch_build_identity_for_request(
        &options,
        "whisper",
        GgmlCpuGraphBackend::Gpu,
        "sha256:00fe",
    );
    assert_ne!(identity, replaced);
    options.adapter_path = Some("/tmp/a.oadp".to_string());
    options.runtime_build_identity = Some(RuntimeBuildIdentity::new("verified", "r", "o"));
    let adapted = serve_batch_build_identity_for_request(
        &options,
        "whisper",
        GgmlCpuGraphBackend::Metal,
        &content,
    );
    assert_eq!(
        adapted,
        RuntimeBuildIdentity::new("verified", "whisper:Metal", "adapter=/tmp/a.oadp")
    );
}

#[test]
fn execute_rejects_a_verified_pack_paired_with_the_wrong_family() {
    let mut request = whisper_request(GgmlAsrBackendPreference::CpuOnly);
    request.selected_family = qwen();

    let error = execute(&Dispatch::<Stub>::default(), &request)
        .expect_err("route mismatch must fail before executor lookup");
    assert!(matches!(
        error,
        GgmlAsrExecutionError::VerifiedPackRouteMismatch {
            model_family: "qwen3-asr",
            model_architecture: QWEN3_ASR_GGML_ARCHITECTURE_ID,
        }
    ));
    assert_eq!(
        error.message(),
        "verified pack route does not match selected family 'qwen3-asr' (architecture 'qwen3-asr')"
    );
}

#[test]
fn supported_adapter_binding_cannot_be_self_certified_by_the_descriptor() {
    let error = ensure_adapter_binding_for_executor(
        &qwen(),
        GgmlAdapterBindingStrategy::Unsupported,
        None,
        None,
    )
    .expect_err("a supported descriptor requires a matching concrete executor binding");
    assert!(matches!(
        error,
        GgmlAsrExecutionError::AdapterBindingContractMismatch {
            declared,
            provided: "unsupported",
            ..
        } if declared == GgmlAdapterBindingStrategy::Qwen3AsrLoraV1.label()
    ));
}

#[test]
fn the_process_adapter_counts_where_the_request_has_none() {
    let family = whisper();
    let process = "/srv/process.oadp".to_string();
    let own = "/tmp/own.oadp".to_string();
    let error = ensure_adapter_binding_for_executor(
        &family,
        GgmlAdapterBindingStrategy::Unsupported,
        None,
        Some(&process),
    )
    .unwrap_err();
    assert_eq!(
        error.message(),
        "an adapter pack is active ('/srv/process.oadp') but model family 'whisper' does not \
         implement an adapter-binding strategy; fail-closed"
    );
    let error = ensure_adapter_binding_for_executor(
        &family,
        GgmlAdapterBindingStrategy::Unsupported,
        Some(&own),
        Some(&process),
    )
    .unwrap_err();
    assert_eq!(
        error,
        GgmlAsrExecutionError::AdapterUnsupportedForFamily {
            model_family: "whisper",
            adapter_path: own.clone(),
        }
    );
    assert!(ensure_adapter_binding_for_executor(
        &family,
        GgmlAdapterBindingStrategy::Unsupported,
        None,
        None
    )
    .is_ok());
    assert!(ensure_adapter_binding_for_executor(
        &qwen(),
        GgmlAdapterBindingStrategy::Qwen3AsrLoraV1,
        Some(&own),
        None
    )
    .is_ok());
}

#[test]
fn public_prepared_audio_retains_the_mutable_vec_contract() {
    let mut audio = GgmlAsrPreparedAudio {
        sample_rate_hz: 16_000,
        channels: 1,
        samples: vec![0.25],
    };
    audio.samples.push(-0.5);
    assert_eq!(audio.samples, vec![0.25, -0.5]);
}

#[test]
fn shared_view_materializes_only_at_an_owned_extension_boundary() {
    struct OwnedExtension {
        observed: Rc<RefCell<(usize, Vec<f32>)>>,
    }

    impl GgmlAsrExecutor<f32, u8, Transcription> for OwnedExtension {
        fn executor_id(&self) -> &'static str {
            "owned-extension"
        }

        fn supports_phrase_bias(&self) -> bool {
            false
        }

        fn decoder_state_contract(&self, _family: &GgmlFamilyAdapterDescriptor) -> Promise {
            Ok(GgmlAsrDecoderStateContract::NoPersistentState)
        }

        fn plan_decoder_state_topology(
            &self,
            _input: &GgmlAsrDecoderStatePlanningInput<'_, u8>,
        ) -> Plan {
            unreachable!("no state is promised")
        }

        fn execute(&self, request: &Request) -> Answer {
            *self.observed.borrow_mut() = (
                request.prepared_audio.samples.as_ptr() as usize,
                request.prepared_audio.samples.clone(),
            );
            Ok(successful_execution_result("owned"))
        }
    }

    let backing = Arc::new(vec![0.25_f32, -0.5, 0.75]);
    let shared_pointer = backing.as_ptr() as usize;
    let owned = whisper_request(GgmlAsrBackendPreference::CpuOnly);
    let mut view = owned.as_view();
    view.prepared_audio = GgmlAsrPreparedAudioView::mono_16khz_shared(
        PcmSlice::of_buffer(Arc::clone(&backing), 0, 3).unwrap(),
    );
    let observed = Rc::new(RefCell::new((0, Vec::new())));
    let dispatch = Dispatch::default().with_executor_for_adapter(
        WHISPER_GGML_ADAPTER_ID,
        OwnedExtension {
            observed: Rc::clone(&observed),
        },
    );

    let result: GgmlAsrExecutionResult<Transcription> = dispatch
        .execute_view(&view, None, &never)
        .expect("compatibility dispatch");
    assert_eq!(result.transcription.text, "owned");
    let (observed_pointer, observed_samples) = observed.borrow().clone();
    assert_eq!(observed_samples, *backing);
    assert_ne!(
        observed_pointer, shared_pointer,
        "the owned extension boundary must receive its own Vec"
    );
}

#[test]
fn native_view_slot_preserves_pcm_for_shared_and_public_owned_requests() {
    let executor = ViewStub::new();
    let observed_pointers = Rc::clone(&executor.observed_pointers);
    let dispatch = Dispatch::<Stub>::default()
        .with_view_executor_for_adapter(WHISPER_GGML_ADAPTER_ID, executor);

    let backing = Arc::new(vec![0.1_f32, 0.2, 0.3]);
    let shared_pointer = backing.as_ptr() as usize;
    let holder = whisper_request(GgmlAsrBackendPreference::CpuOnly);
    let mut shared_request = holder.as_view();
    shared_request.prepared_audio = GgmlAsrPreparedAudioView::mono_16khz_shared(
        PcmSlice::of_buffer(Arc::clone(&backing), 0, 3).unwrap(),
    );
    dispatch
        .execute_view(&shared_request, None, &never)
        .expect("shared view dispatch");

    let owned_request = whisper_request(GgmlAsrBackendPreference::CpuOnly);
    let owned_pointer = owned_request.prepared_audio.samples.as_ptr() as usize;
    execute(&dispatch, &owned_request).expect("owned dispatch");

    assert_eq!(
        observed_pointers.borrow().as_slice(),
        &[shared_pointer, owned_pointer]
    );
}

#[test]
fn dedicated_tdt_cannot_bypass_the_shared_pre_execution_cancel_fence() {
    let stub = Stub::new("must not execute");
    let calls = Rc::clone(&stub.executed);
    let request = request_for(parakeet_tdt(), GgmlAsrBackendPreference::CpuOnly);
    let dispatch = Dispatch::default().with_executor_for_adapter(parakeet_tdt().adapter_id, stub);

    let canceled = |_: Option<&GgmlAsrExecutionResult<Transcription>>| true;
    let error = dispatch
        .execute(&request, None, &canceled)
        .expect_err("pre-canceled TDT request must fail before its dedicated executor");
    assert!(error.message().contains("canceled"));
    assert_eq!(calls.get(), 0);
}

#[test]
fn a_result_is_not_published_once_cancellation_has_won() {
    let stub = Stub::new("late");
    let calls = Rc::clone(&stub.executed);
    let request = whisper_request(GgmlAsrBackendPreference::CpuOnly);
    let dispatch = Dispatch::default().with_executor_for_adapter(WHISPER_GGML_ADAPTER_ID, stub);

    let seen = Rc::clone(&calls);
    let asked = RefCell::new(Vec::new());
    let canceled = |behind: Option<&GgmlAsrExecutionResult<Transcription>>| {
        asked
            .borrow_mut()
            .push(behind.map(|answer| answer.transcription.text.clone()));
        seen.get() > 0
    };
    let error = dispatch.execute(&request, None, &canceled).unwrap_err();
    assert_eq!(
        error.message(),
        "ggml executor 'stub' failed for adapter 'ggml-family-whisper-runtime-v1': \
         transcription canceled at shared execution boundary"
    );
    assert_eq!(calls.get(), 1);
    assert_eq!(*asked.borrow(), [None, Some("late".to_string())]);
    let view = dispatch
        .execute_view(&request.as_view(), None, &|behind: Option<
            &GgmlAsrExecutionResult<Transcription>,
        >| behind.is_some())
        .unwrap_err();
    assert_eq!(view, error);
}

#[test]
fn the_cancel_fence_follows_its_question() {
    let failure = GgmlAsrExecutionError::ExecutorFailed {
        executor_id: "x",
        adapter_id: "a",
        reason: "transcription canceled at shared execution boundary".to_string(),
    };
    assert_eq!(ensure_dispatch_not_canceled(false, "x", "a"), Ok(()));
    assert_eq!(
        ensure_dispatch_not_canceled(true, "x", "a"),
        Err(failure.clone())
    );
    let answer = successful_execution_result("text");
    assert_eq!(
        publish_unless_canceled(answer.clone(), false, "x", "a"),
        Ok(answer.clone())
    );
    assert_eq!(publish_unless_canceled(answer, true, "x", "a"), Err(failure));
}

#[test]
fn dispatch_fails_closed_when_executor_is_not_registered() {
    let dispatch = Dispatch::<Stub>::default();
    let request = whisper_request(GgmlAsrBackendPreference::CpuOnly);

    let error = execute(&dispatch, &request).expect_err("missing executor must fail closed");
    assert!(matches!(
        error,
        GgmlAsrExecutionError::ExecutorUnavailable {
            adapter_id: "ggml-family-whisper-runtime-v1",
            model_family: "whisper",
            capability: "dedicated-runtime-executor-v1"
        }
    ));
    assert!(error
        .message()
        .contains("no ggml executor is registered for adapter"));
}

#[test]
fn dispatch_accepts_auto_backend_preference() {
    let request = whisper_request(GgmlAsrBackendPreference::Auto);
    let dispatch =
        Dispatch::default().with_executor_for_adapter(WHISPER_GGML_ADAPTER_ID, Stub::new("ok"));
    let result = execute(&dispatch, &request).expect("auto should dispatch");
    assert_eq!(result.transcription.text, "ok");
}

#[test]
fn dispatch_allows_phrase_bias_to_reach_registered_executor() {
    struct Biased;

    impl GgmlAsrExecutor<f32, u8, Transcription> for Biased {
        fn executor_id(&self) -> &'static str {
            "phrase-bias-stub"
        }

        fn supports_phrase_bias(&self) -> bool {
            true
        }

        fn decoder_state_contract(&self, _family: &GgmlFamilyAdapterDescriptor) -> Promise {
            Ok(GgmlAsrDecoderStateContract::NoPersistentState)
        }

        fn plan_decoder_state_topology(
            &self,
            _input: &GgmlAsrDecoderStatePlanningInput<'_, u8>,
        ) -> Plan {
            unreachable!("no state is promised")
        }

        fn execute(&self, request: &Request) -> Answer {
            assert!(request.request_options.phrase_bias.is_some());
            Ok(successful_execution_result("biased"))
        }
    }

    let mut request = whisper_request(GgmlAsrBackendPreference::Auto);
    request.request_options.phrase_bias = Some(PhraseBiasConfig {
        phrases: vec![PhraseBias {
            phrase: "OpenASR".to_string(),
            boost_bits: 2.0_f32.to_bits(),
        }],
    });
    let dispatch = Dispatch::default().with_executor_for_adapter(WHISPER_GGML_ADAPTER_ID, Biased);
    let result = execute(&dispatch, &request).expect("registered executor receives phrase bias");
    assert_eq!(result.transcription.text, "biased");
}

#[test]
fn dispatch_fails_closed_when_qwen_executor_is_not_registered() {
    let request = request_for(qwen(), GgmlAsrBackendPreference::CpuOnly);
    let error = execute(&Dispatch::<Stub>::default(), &request)
        .expect_err("missing qwen executor must fail closed");
    assert!(matches!(
        error,
        GgmlAsrExecutionError::ExecutorUnavailable {
            adapter_id: QWEN3_ASR_GGML_ADAPTER_ID,
            model_family: QWEN3_ASR_MODEL_FAMILY,
            capability: "native-graph-lowering-v1"
        }
    ));
}

#[test]
fn dispatch_allows_qwen_lora_and_rejects_unsupported_families() {
    let mut request = request_for(qwen(), GgmlAsrBackendPreference::CpuOnly);
    request.request_options.adapter_path = Some("/tmp/fixture.oadp".to_string());
    let dispatch = Dispatch::default().with_native_graph_lowering_v1(Stub {
        adapter_binding: GgmlAdapterBindingStrategy::Qwen3AsrLoraV1,
        ..Stub::new("qwen-lora")
    });
    let result =
        execute(&dispatch, &request).expect("Qwen adapter request must reach its executor");
    assert_eq!(result.transcription.text, "qwen-lora");

    let mut unsupported = whisper_request(GgmlAsrBackendPreference::CpuOnly);
    unsupported.request_options.adapter_path = Some("/tmp/fixture.oadp".to_string());
    let dispatch = Dispatch::default()
        .with_executor_for_adapter(WHISPER_GGML_ADAPTER_ID, Stub::new("qwen-lora"));
    let error = execute(&dispatch, &unsupported)
        .expect_err("unsupported family must fail closed before execution");
    assert!(matches!(
        error,
        GgmlAsrExecutionError::AdapterUnsupportedForFamily {
            model_family: "whisper",
            ..
        }
    ));

    // With no moonshine executor registered the lookup fails first.
    let mut request = request_for(moonshine(), GgmlAsrBackendPreference::CpuOnly);
    request.request_options.adapter_path = Some("/tmp/fixture.oadp".to_string());
    let error = execute(&Dispatch::<Stub>::default(), &request)
        .expect_err("no moonshine executor registered");
    assert!(matches!(
        error,
        GgmlAsrExecutionError::ExecutorUnavailable { .. }
    ));
}

#[test]
fn streaming_dispatch_fails_closed_when_adapter_is_active_for_non_lora_family() {
    let mut request = streaming_request_for(whisper());
    request.request_options.adapter_path = Some("/tmp/fixture.oadp".to_string());
    let dispatch = Dispatch::<Stub>::default().with_streaming_executor_for_adapter(
        WHISPER_GGML_ADAPTER_ID,
        StreamingStub {
            never_starts: true,
            ..StreamingStub::new()
        },
    );

    let error = match dispatch.start_streaming_session(&request, None) {
        Ok(_) => panic!("adapter on a non-LoRA family must fail closed"),
        Err(error) => error,
    };
    assert!(matches!(
        error,
        GgmlAsrExecutionError::AdapterUnsupportedForFamily {
            model_family: "whisper",
            ..
        }
    ));
}

#[test]
fn dispatch_falls_back_to_capability_executor() {
    let request = request_for(qwen(), GgmlAsrBackendPreference::Auto);
    let dispatch = Dispatch::default().with_native_graph_lowering_v1(Stub {
        adapter_binding: GgmlAdapterBindingStrategy::Qwen3AsrLoraV1,
        ..Stub::new("ok")
    });
    let result = execute(&dispatch, &request).expect("capability executor should dispatch");
    assert_eq!(result.transcription.text, "ok");
}

#[test]
fn an_adapter_registration_wins_and_replaces() {
    let request = whisper_request(GgmlAsrBackendPreference::Auto);
    let capability = GgmlExecutionCapability::DedicatedRuntimeExecutorV1;
    let dispatch = Dispatch::default()
        .with_executor_for_adapter(WHISPER_GGML_ADAPTER_ID, Stub::new("first"))
        .with_executor_for_capability(capability, Stub::new("capability"))
        .with_executor_for_adapter(WHISPER_GGML_ADAPTER_ID, Stub::new("second"));
    assert_eq!(
        execute(&dispatch, &request).unwrap().transcription.text,
        "second"
    );
    let other = request_for(parakeet_tdt(), GgmlAsrBackendPreference::Auto);
    assert_eq!(
        execute(&dispatch, &other).unwrap().transcription.text,
        "capability"
    );
}

#[test]
fn registries_hold_one_value_for_a_name() {
    let registry = Registry::empty().with("a", 1).with("b", 2).with("a", 3);
    assert_eq!(registry.get("a"), Some(&3));
    assert_eq!(registry.get("b"), Some(&2));
    assert_eq!(registry.get("c"), None);
    assert_eq!(registry.len(), 2);
}

#[test]
fn registries_keep_the_order_of_names() {
    let names = ["b", "a-b", "", "a", "\u{e9}", "ab", "Z", "a"];
    let mut registry = Registry::empty();
    let mut expected = std::collections::BTreeMap::new();
    for (value, name) in names.into_iter().enumerate() {
        registry = registry.with(name, value);
        expected.insert(name, value);
    }
    let values: Vec<usize> = (0..registry.len()).map(|at| *registry.value_at(at)).collect();
    assert_eq!(values, expected.into_values().collect::<Vec<usize>>());
}

#[test]
fn executors_are_told_in_the_order_of_their_names() {
    struct Named {
        name: &'static str,
        told: Rc<RefCell<Vec<&'static str>>>,
    }

    impl GgmlAsrStreamingExecutor<u8, u8, u8, String, u16, String> for Named {
        fn executor_id(&self) -> &'static str {
            self.name
        }

        fn start_streaming_session(
            &self,
            request: &StreamingRequest,
        ) -> Result<String, GgmlAsrExecutionError> {
            Ok(request.session_context.clone())
        }

        fn unload_idle_state(&self) {
            self.told.borrow_mut().push(self.name);
        }
    }

    let told = Rc::new(RefCell::new(Vec::new()));
    let mut dispatch: GgmlAsrExecutionDispatch<Stub, ViewStub, Named> =
        GgmlAsrExecutionDispatch::default();
    for name in ["whisper", "moonshine", "qwen", "canary"] {
        dispatch = dispatch.with_streaming_executor_for_adapter(
            name,
            Named {
                name,
                told: Rc::clone(&told),
            },
        );
    }
    dispatch.unload_all::<f32, u8, Transcription, u8, u8, String, u16, String>();
    assert_eq!(*told.borrow(), ["canary", "moonshine", "qwen", "whisper"]);
}

#[test]
fn streaming_dispatch_fails_closed_when_executor_is_not_registered() {
    let dispatch = Dispatch::<Stub>::default();
    let request = streaming_request_for(whisper());

    let error = match dispatch.start_streaming_session(&request, None) {
        Ok(_) => panic!("missing streaming executor must fail closed"),
        Err(error) => error,
    };
    assert!(matches!(
        error,
        GgmlAsrExecutionError::ExecutorUnavailable {
            adapter_id: "ggml-family-whisper-runtime-v1",
            model_family: "whisper",
            capability: "dedicated-runtime-executor-v1"
        }
    ));
}

#[test]
fn streaming_dispatch_routes_registered_adapter_executor() {
    let request = streaming_request_for(whisper());
    let dispatch = Dispatch::<Stub>::default()
        .with_streaming_executor_for_adapter(WHISPER_GGML_ADAPTER_ID, StreamingStub::new());
    let session = dispatch
        .start_streaming_session(&request, None)
        .expect("registered streaming executor should dispatch");
    assert_eq!(session, "rt_ggml_streaming");
    assert_eq!(*request.runtime_source_preflight(), 9);
}

#[test]
fn streaming_dispatch_checks_the_pack_first() {
    let mut request = streaming_request_for(whisper());
    request.selected_family = qwen();
    let error = Dispatch::<Stub>::default()
        .start_streaming_session(&request, None)
        .unwrap_err();
    assert!(matches!(
        error,
        GgmlAsrExecutionError::VerifiedPackRouteMismatch { .. }
    ));
}

#[test]
fn streaming_dispatch_reports_executor_coverage() {
    let empty_dispatch = Dispatch::<Stub>::default();
    assert!(!empty_dispatch.has_streaming_executor_for(&whisper()));
    assert!(!empty_dispatch.has_streaming_executor_for(&qwen()));
    assert_eq!(empty_dispatch.streaming_executor_id_for(&whisper()), None);

    let adapter_dispatch = Dispatch::<Stub>::default()
        .with_streaming_executor_for_adapter(whisper().adapter_id, StreamingStub::new());
    assert!(adapter_dispatch.has_streaming_executor_for(&whisper()));
    assert!(!adapter_dispatch.has_streaming_executor_for(&qwen()));
    assert_eq!(
        adapter_dispatch.streaming_executor_id_for(&whisper()),
        Some("streaming-stub")
    );

    let capability_dispatch = Dispatch::<Stub>::default()
        .with_streaming_executor_for_capability(qwen().execution_capability, StreamingStub::new());
    assert!(capability_dispatch.has_streaming_executor_for(&qwen()));
}

#[test]
fn is_frame_sync_for_reports_registered_granularity_and_defaults_closed() {
    let empty_dispatch = Dispatch::<Stub>::default();
    assert!(!empty_dispatch.is_frame_sync_for(&whisper()));
    assert!(!empty_dispatch.is_frame_sync_for(&qwen()));

    let mixed_dispatch = Dispatch::<Stub>::default()
        .with_streaming_partial_granularity_for_adapter(
            whisper().adapter_id,
            StreamingPartialGranularity::FrameSyncAppend,
        )
        .with_streaming_partial_granularity_for_adapter(
            qwen().adapter_id,
            StreamingPartialGranularity::RevisableSnapshot,
        );
    assert!(mixed_dispatch.is_frame_sync_for(&whisper()));
    assert!(!mixed_dispatch.is_frame_sync_for(&qwen()));
    assert_eq!(
        mixed_dispatch.streaming_partial_granularity_for(&qwen()),
        Some(StreamingPartialGranularity::RevisableSnapshot)
    );

    let capability_dispatch = Dispatch::<Stub>::default()
        .with_streaming_partial_granularity_for_capability(
            qwen().execution_capability,
            StreamingPartialGranularity::FrameSyncAppend,
        );
    assert!(capability_dispatch.is_frame_sync_for(&qwen()));
}

#[test]
fn unload_all_reaches_every_registered_executor_map() {
    let offline_adapter = Stub::new("");
    let offline_capability = Stub::new("");
    let streaming_adapter = StreamingStub::new();
    let streaming_capability = StreamingStub::new();

    let dispatch = Dispatch::default()
        .with_executor_for_adapter(WHISPER_GGML_ADAPTER_ID, offline_adapter.clone())
        .with_executor_for_capability(
            GgmlExecutionCapability::NativeGraphLoweringV1,
            offline_capability.clone(),
        )
        .with_streaming_executor_for_adapter(WHISPER_GGML_ADAPTER_ID, streaming_adapter.clone())
        .with_streaming_executor_for_capability(
            GgmlExecutionCapability::NativeGraphLoweringV1,
            streaming_capability.clone(),
        );

    dispatch.unload_all::<f32, u8, Transcription, u8, u8, String, u16, String>();

    assert_eq!(offline_adapter.unloaded.get(), 1);
    assert_eq!(offline_capability.unloaded.get(), 1);
    assert_eq!(streaming_adapter.unloaded.get(), 1);
    assert_eq!(streaming_capability.unloaded.get(), 1);
}

#[test]
fn unload_idle_state_default_is_a_no_op() {
    struct NoCacheExecutor;

    impl GgmlAsrExecutor<f32, u8, Transcription> for NoCacheExecutor {
        fn executor_id(&self) -> &'static str {
            "no-cache-stub"
        }

        fn supports_phrase_bias(&self) -> bool {
            false
        }

        fn decoder_state_contract(&self, _family: &GgmlFamilyAdapterDescriptor) -> Promise {
            Ok(GgmlAsrDecoderStateContract::NoPersistentState)
        }

        fn plan_decoder_state_topology(
            &self,
            _input: &GgmlAsrDecoderStatePlanningInput<'_, u8>,
        ) -> Plan {
            unreachable!("no state is promised")
        }

        fn execute(&self, _request: &Request) -> Answer {
            unreachable!("this test never executes a request")
        }
    }

    let dispatch = Dispatch::default()
        .with_executor_for_adapter(WHISPER_GGML_ADAPTER_ID, NoCacheExecutor);
    dispatch.unload_all::<f32, u8, Transcription, u8, u8, String, u16, String>();
    // An executor that reads audio without a copy has the same default.
    let dispatch = Dispatch::<Stub>::default()
        .with_view_executor_for_adapter(WHISPER_GGML_ADAPTER_ID, ViewStub::new());
    dispatch.unload_all::<f32, u8, Transcription, u8, u8, String, u16, String>();
}

#[test]
fn eviction_names_one_pack_and_unloads_what_knows_none() {
    let owned = Stub::new("");
    let view = ViewStub::new();
    let dispatch = Dispatch::default()
        .with_executor_for_adapter(WHISPER_GGML_ADAPTER_ID, owned.clone())
        .with_view_executor_for_capability(
            GgmlExecutionCapability::NativeGraphLoweringV1,
            view.clone(),
        );
    dispatch.evict_prepared_runtime_content_id::<f32, u8, Transcription>("sha256:aa");
    assert_eq!(owned.unloaded.get(), 1);
    assert_eq!(view.evicted.borrow().as_slice(), ["sha256:aa".to_string()]);
}

#[test]
fn from_ggml_cpu_graph_error_preserves_execution_route() {
    let route_error = ExecutionRouteError::init_failed("provider=cuda stable_id=CUDA0");
    let mapped = GgmlAsrExecutionError::from_ggml_cpu_graph_error(
        "test-executor",
        "test-adapter",
        GgmlCpuGraphError::ExecutionRoute(route_error.clone()),
    );
    assert_eq!(mapped, GgmlAsrExecutionError::ExecutionRoute(route_error));

    let other = GgmlAsrExecutionError::from_ggml_cpu_graph_error(
        "test-executor",
        "test-adapter",
        GgmlCpuGraphError::CpuBackendUnavailable,
    );
    assert!(matches!(
        other,
        GgmlAsrExecutionError::ExecutorFailed {
            executor_id: "test-executor",
            adapter_id: "test-adapter",
            ..
        }
    ));
}

#[test]
fn dispatch_honors_gated_family_auto_policy_for_registered_architecture() {
    struct Recording {
        observed: Rc<Cell<Option<GgmlCpuGraphBackend>>>,
    }

    impl GgmlAsrExecutor<f32, u8, Transcription> for Recording {
        fn executor_id(&self) -> &'static str {
            "gated-policy-stub"
        }

        fn supports_phrase_bias(&self) -> bool {
            false
        }

        fn decoder_state_contract(&self, _family: &GgmlFamilyAdapterDescriptor) -> Promise {
            Ok(GgmlAsrDecoderStateContract::NoPersistentState)
        }

        fn plan_decoder_state_topology(
            &self,
            _input: &GgmlAsrDecoderStatePlanningInput<'_, u8>,
        ) -> Plan {
            unreachable!("no state is promised")
        }

        fn execute(&self, request: &Request) -> Answer {
            self.observed.set(Some(request.resolved_runtime.backend));
            Ok(successful_execution_result("ok"))
        }
    }

    for generic_auto in [
        GgmlCpuGraphBackend::Cpu,
        GgmlCpuGraphBackend::Gpu,
        GgmlCpuGraphBackend::Metal,
    ] {
        let observed = Rc::new(Cell::new(None));
        let dispatch = Dispatch::default().with_executor_for_adapter(
            xasr_zipformer().adapter_id,
            Recording {
                observed: Rc::clone(&observed),
            },
        );
        let mut request = request_for(xasr_zipformer(), GgmlAsrBackendPreference::Auto);
        assert_eq!(
            GgmlAsrBackendPreference::Auto.request_backend_override(),
            None
        );
        // The family takes every backend but Metal; the request arrives with that resolved.
        request.resolved_runtime = ResolvedFamilyRuntimeInput {
            backend: if generic_auto == GgmlCpuGraphBackend::Metal {
                GgmlCpuGraphBackend::Cpu
            } else {
                generic_auto
            },
        };
        execute(&dispatch, &request).expect("recording executor always succeeds");

        let observed = observed.get().expect("executor must have run");
        assert_ne!(observed, GgmlCpuGraphBackend::Metal);
        if generic_auto == GgmlCpuGraphBackend::Metal {
            assert_eq!(observed, GgmlCpuGraphBackend::Cpu);
        } else {
            assert_eq!(observed, generic_auto);
        }
    }
}

#[test]
fn state_that_was_not_promised_is_refused() {
    let mut request = whisper_request(GgmlAsrBackendPreference::CpuOnly);
    let dispatch = Dispatch::default().with_executor_for_adapter(
        WHISPER_GGML_ADAPTER_ID,
        Stub {
            contract: self_kv_contract(),
            ..Stub::new("planned")
        },
    );
    let error = execute(&dispatch, &request).unwrap_err();
    assert_eq!(
        error,
        GgmlAsrExecutionError::DecoderStateContractMismatch {
            executor_id: "stub",
            adapter_id: WHISPER_GGML_ADAPTER_ID,
        }
    );
    assert_eq!(
        error.message(),
        "executor 'stub' decoder-state contract does not match the state carried by adapter \
         'ggml-family-whisper-runtime-v1'"
    );
    request.decoder_state = GgmlAsrDecoderState::planned(
        self_kv_plan(100, 200),
        InvocationEnvelope {
            sample_rate_hz: 16_000,
            max_samples: 200,
            max_prompt_tokens: 0,
        },
    );
    assert_eq!(
        execute(&dispatch, &request).unwrap().transcription.text,
        "planned"
    );
}

#[test]
fn a_refused_binding_is_passed_on() {
    let request = whisper_request(GgmlAsrBackendPreference::CpuOnly);
    let dispatch = Dispatch::<Stub>::default().with_view_executor_for_adapter(
        WHISPER_GGML_ADAPTER_ID,
        ViewStub {
            refuses_binding: true,
            ..ViewStub::new()
        },
    );
    assert_eq!(
        execute(&dispatch, &request).unwrap_err().message(),
        "ggml executor 'view-executor' failed for adapter 'composed': no such child"
    );
}

#[test]
fn dispatch_plans_state_through_the_registered_executor() {
    let options = GgmlAsrExecutionOptions::default();
    let preflight = 3_u8;
    let accept = |_: u32, _: usize| -> Result<(), String> { Ok(()) };
    let input = GgmlAsrDecoderStatePlanningInput::for_streaming_session(
        &preflight,
        &options,
        GgmlCpuGraphBackend::Cpu,
        &accept,
    )
    .unwrap();
    assert_eq!(input.invocation.samples, 480_000);
    let stateful = Dispatch::default().with_executor_for_adapter(
        WHISPER_GGML_ADAPTER_ID,
        Stub {
            contract: self_kv_contract(),
            ..Stub::new("")
        },
    );
    let expected = GgmlAsrDecoderState::planned(self_kv_plan(480_000, 480_000), input.envelope);
    assert_eq!(
        stateful
            .plan_decoder_state::<f32, u8, Transcription>(&whisper(), &input)
            .unwrap(),
        expected
    );
    assert_eq!(
        stateful
            .replan_streaming_decoder_state::<f32, u8, Transcription>(&whisper(), &input)
            .unwrap(),
        expected
    );
    let stateless = Dispatch::default()
        .with_executor_for_adapter(WHISPER_GGML_ADAPTER_ID, Stub::new(""));
    assert_eq!(
        stateless
            .plan_decoder_state::<f32, u8, Transcription>(&whisper(), &input)
            .unwrap(),
        GgmlAsrDecoderState::NoPersistentState
    );
    assert!(matches!(
        stateless.plan_decoder_state::<f32, u8, Transcription>(&qwen(), &input),
        Err(GgmlAsrExecutionError::ExecutorUnavailable { .. })
    ));
    assert!(matches!(
        stateless.replan_streaming_decoder_state::<f32, u8, Transcription>(&qwen(), &input),
        Err(GgmlAsrExecutionError::ExecutorUnavailable { .. })
    ));
}

#[test]
fn offline_planning_takes_the_audio_and_the_envelope() {
    let preflight = 1_u8;
    let options = options_with(longform());
    let any_shape = |_: InvocationShapeInput| -> Result<(), String> { Ok(()) };
    let any_envelope = |_: u32, _: usize| -> Result<(), String> { Ok(()) };
    let plan = |rate: u32| {
        GgmlAsrDecoderStatePlanningInput::for_offline_audio_shape(
            &preflight,
            rate,
            1_000,
            &options,
            GgmlCpuGraphBackend::Gpu,
            &any_shape,
            &any_envelope,
            &seconds_text,
        )
    };
    let input = plan(16_000).unwrap();
    assert_eq!(input.invocation.samples, 1_000);
    assert_eq!(
        input.envelope,
        InvocationEnvelope {
            sample_rate_hz: 16_000,
            max_samples: 480_000,
            max_prompt_tokens: 224,
        }
    );
    assert!(matches!(
        plan(0),
        Err(GgmlAsrDecoderStatePlanningError::InvalidSampleRate { sample_rate_hz: 0 })
    ));
    let no_envelope = |_: u32, samples: usize| -> Result<(), String> {
        Err(format!("{samples} samples"))
    };
    let refused = GgmlAsrDecoderStatePlanningInput::for_offline_audio_shape(
        &preflight,
        16_000,
        1_000,
        &options,
        GgmlCpuGraphBackend::Gpu,
        &any_shape,
        &no_envelope,
        &seconds_text,
    );
    match refused {
        Ok(_) => panic!("the topology refused the envelope"),
        Err(error) => assert_eq!(
            error.message(),
            "decoder-state planning shape is invalid: 480000 samples"
        ),
    }
    let audio = GgmlAsrPreparedAudio::mono_16khz(vec![0.0_f32; 700]);
    let owned = GgmlAsrDecoderStatePlanningInput::for_offline_request(
        &preflight,
        &audio,
        &options,
        GgmlCpuGraphBackend::Gpu,
        &any_shape,
        &any_envelope,
        &seconds_text,
    )
    .unwrap();
    let borrowed = GgmlAsrDecoderStatePlanningInput::for_offline_view_request(
        &preflight,
        &audio.as_view(),
        &options,
        GgmlCpuGraphBackend::Gpu,
        &any_shape,
        &any_envelope,
        &seconds_text,
    )
    .unwrap();
    assert_eq!((owned.invocation.samples, borrowed.invocation.samples), (700, 700));
    assert_eq!((owned.envelope, borrowed.envelope), (input.envelope, input.envelope));
    let decode = GgmlAsrDecoderStatePlanningInput::for_streaming_decode_view(
        &preflight,
        16_000,
        320,
        input.envelope,
        &options,
        GgmlCpuGraphBackend::Gpu,
        &any_shape,
    )
    .unwrap();
    assert_eq!(decode.invocation.samples, 320);
    assert_eq!(decode.envelope, input.envelope);
}

#[test]
fn resident_demands_keep_class_and_envelope() {
    let envelope = |max_samples: usize| InvocationEnvelope {
        sample_rate_hz: 16_000,
        max_samples,
        max_prompt_tokens: 0,
    };
    let logical = GgmlAsrDecoderState::planned(self_kv_plan(10, 10), envelope(10));
    let resident = GgmlAsrDecoderState::planned(self_kv_plan(90, 100), envelope(100));
    let rebind = |demand: &DecoderStatePlan, held: &DecoderStatePlan| {
        Ok::<_, String>(self_kv_plan(
            demand.allocations[0].logical.positions,
            held.allocations[0].reserve.positions,
        ))
    };
    assert_eq!(
        logical
            .clone()
            .with_resident_demands_from(&resident, rebind)
            .unwrap(),
        GgmlAsrDecoderState::planned(self_kv_plan(10, 100), envelope(100))
    );
    assert_eq!(
        logical
            .clone()
            .with_resident_demands_from(&GgmlAsrDecoderState::NoPersistentState, rebind)
            .unwrap_err(),
        GgmlAsrDecoderStatePlanningError::StateClassChanged
    );
    assert_eq!(
        GgmlAsrDecoderState::NoPersistentState
            .with_resident_demands_from(&GgmlAsrDecoderState::NoPersistentState, rebind)
            .unwrap(),
        GgmlAsrDecoderState::NoPersistentState
    );
    let unfit = |_: &DecoderStatePlan, _: &DecoderStatePlan| {
        Err::<DecoderStatePlan, String>("too large".to_string())
    };
    assert_eq!(
        logical
            .with_resident_demands_from(&resident, unfit)
            .unwrap_err()
            .message(),
        "streaming decoder-state logical demand no longer fits the admitted resident session \
         envelope: too large"
    );
}

#[test]
fn valid_plans_hold_no_stranger() {
    let stranger = StateAllocation {
        logical: StateDemand {
            id: "other",
            kind: StateKind::CrossAttentionKv,
            positions: 1,
        },
        reserve: StateDemand {
            id: "other",
            kind: StateKind::CrossAttentionKv,
            positions: 1,
        },
    };
    let envelope = InvocationEnvelope {
        sample_rate_hz: 16_000,
        max_samples: 1,
        max_prompt_tokens: 0,
    };
    let mut plan = self_kv_plan(1, 1);
    plan.allocations.push(stranger);
    assert!(!self_kv_contract().validates(&GgmlAsrDecoderState::planned(plan, envelope)));
    let mut mixed = self_kv_plan(1, 1);
    mixed.allocations[0].reserve.kind = StateKind::CrossAttentionKv;
    assert!(!self_kv_contract().validates(&GgmlAsrDecoderState::planned(mixed, envelope)));
    let twice = GgmlAsrDecoderStateContract::planned(vec![
        GgmlAsrDecoderStateStreamContract::new("test.self_kv", StateKind::SelfAttentionKv),
        GgmlAsrDecoderStateStreamContract::new("test.self_kv", StateKind::SelfAttentionKv),
    ]);
    let mut doubled = self_kv_plan(1, 1);
    doubled.allocations.push(doubled.allocations[0]);
    assert!(!twice.validates(&GgmlAsrDecoderState::planned(doubled, envelope)));
    let nothing = GgmlAsrDecoderStateContract::planned(Vec::new());
    assert!(!nothing.validates(&GgmlAsrDecoderState::planned(
        DecoderStatePlan {
            allocations: Vec::new()
        },
        envelope
    )));
}

#[test]
fn options_of_a_request_leave_everything_else_off() {
    let options = GgmlAsrExecutionOptions::from_transcription_request(
        Some("en".to_string()),
        Some("hint".to_string()),
        None,
    );
    assert_eq!(options.language.as_deref(), Some("en"));
    assert_eq!(options.prompt.as_deref(), Some("hint"));
    assert_eq!(options.task, TranscriptionTask::Transcribe);
    assert_eq!(options.serve_batch, ServeBatchPolicy::serial());
    assert_eq!(
        GgmlAsrExecutionOptions::from_transcription_request_with_phrase_bias(
            Some("en".to_string()),
            Some("hint".to_string()),
            None,
            None
        ),
        options
    );
    assert!(!options.word_timestamps);
    assert!(options.adapter_path.is_none());
}

#[test]
fn samples_are_borrowed_shared_and_copied() {
    let samples = vec![1_i32, 2, 3, 4];
    let owned = GgmlAsrSamplesView::Borrowed(&samples).to_owned_pcm_slice();
    assert_eq!(owned.as_slice(), &[1, 2, 3, 4]);
    let buffer = Arc::new(samples);
    assert!(PcmSlice::of_buffer(Arc::clone(&buffer), 3, 5).is_none());
    assert!(PcmSlice::of_buffer(Arc::clone(&buffer), 3, 2).is_none());
    let part = PcmSlice::of_buffer(Arc::clone(&buffer), 1, 3).unwrap();
    assert_eq!(part.as_slice(), &[2, 3]);
    let view = GgmlAsrSamplesView::Shared(part);
    assert_eq!(view.as_slice(), &[2, 3]);
    let handed_on = view.to_owned_pcm_slice();
    assert_eq!(handed_on.as_slice().as_ptr(), buffer[1..].as_ptr());
    let prepared = GgmlAsrPreparedAudioView::mono_16khz(vec![5_u8]);
    assert_eq!(prepared.sample_rate_hz, 16_000);
    assert_eq!(prepared.channels, 1);
    assert_eq!(prepared.samples.as_slice(), &[5]);
}

#[test]
fn requests_borrow_and_copy_alike() {
    let request = whisper_request(GgmlAsrBackendPreference::Auto);
    assert_eq!(*request.runtime_source_preflight(), 7);
    let view = request.as_view();
    assert_eq!(*view.runtime_source_preflight(), 7);
    assert_eq!(view.to_owned_request(), request);
}

#[test]
fn a_final_text_processor_is_installed_once() {
    let mut slot = GgmlAsrStreamingFinalTextProcessorSlot::empty();
    assert_eq!(slot.process("as is"), Ok("as is".to_string()));
    let shout = |text: &str| -> Result<String, String> { Ok(text.to_uppercase()) };
    assert_eq!(slot.install(shout), Ok(()));
    assert_eq!(slot.process("loud"), Ok("LOUD".to_string()));
    assert_eq!(
        slot.install(shout),
        Err("streaming final-text processor is already installed")
    );
}

#[test]
fn partial_floors_prefer_the_client() {
    let mut config = streaming_request_for(whisper()).session_config;
    assert_eq!(config.partial_floor_ms(250), 250);
    config.min_partial_interval_ms = Some(40);
    assert_eq!(config.partial_floor_ms(250), 40);
}

#[test]
fn backend_overrides_follow_the_attempt_and_then_the_request() {
    let accelerated = Some(RequestBackendPreference::Accelerated);
    assert_eq!(
        effective_backend_override(true, accelerated, GgmlAsrBackendPreference::CpuOnly),
        accelerated
    );
    assert_eq!(
        effective_backend_override(false, accelerated, GgmlAsrBackendPreference::CpuOnly),
        Some(RequestBackendPreference::CpuOnly)
    );
    assert_eq!(
        effective_backend_override(true, None, GgmlAsrBackendPreference::Auto),
        None
    );
}

#[test]
fn errors_say_what_failed() {
    let route = GgmlAsrExecutionError::ExecutionRoute(ExecutionRouteError::init_failed("gone"));
    assert_eq!(route.message(), "gone");
    assert_eq!(
        GgmlAsrExecutionError::UnsupportedCapability {
            adapter_id: "a",
            backend_preference: "accelerated"
        }
        .message(),
        "ggml execution capability is unsupported for adapter 'a': backend preference \
         'accelerated'"
    );
    assert_eq!(
        GgmlAsrExecutionError::PhraseBiasUnsupported {
            adapter_id: "a",
            model_family: "f"
        }
        .message(),
        "phrase bias / hotword boosting is unsupported for adapter 'a' (family 'f')"
    );
    assert_eq!(
        GgmlAsrExecutionError::ServeBatchUnavailable {
            reason: "queue".to_string(),
            retryable: true
        }
        .message(),
        "queue"
    );
    assert_eq!(
        GgmlAsrExecutionError::DecoderStatePlanning(
            GgmlAsrDecoderStatePlanningError::InvalidSampleRate { sample_rate_hz: 0 }
        )
        .message(),
        "decoder-state planning received invalid sample rate 0 Hz"
    );
    assert_eq!(
        GgmlAsrExecutionError::AdapterBindingContractMismatch {
            model_family: "f",
            declared: "d",
            provided: "p"
        }
        .message(),
        "adapter binding contract mismatch for family 'f': descriptor declares 'd', executor \
         provides 'p'"
    );
    let planning = |error: GgmlAsrDecoderStatePlanningError| error.message();
    assert_eq!(
        planning(GgmlAsrDecoderStatePlanningError::InvalidEnvelopeDuration {
            value: "NaN".to_string()
        }),
        "decoder-state planning received invalid envelope duration 'NaN' seconds"
    );
    assert_eq!(
        planning(GgmlAsrDecoderStatePlanningError::MetadataUnavailable {
            family: "f",
            reason: "r".to_string()
        }),
        "model family 'f' decoder-state metadata is unavailable: r"
    );
    assert_eq!(
        planning(GgmlAsrDecoderStatePlanningError::PromptTokenCountUnavailable {
            family: "f",
            reason: "r".to_string()
        }),
        "model family 'f' exact prompt token count is unavailable: r"
    );
    assert_eq!(
        planning(GgmlAsrDecoderStatePlanningError::Topology {
            family: "f",
            source: "s".to_string()
        }),
        "model family 'f' decoder-state topology failed: s"
    );
    assert_eq!(
        planning(GgmlAsrDecoderStatePlanningError::StateClassChanged),
        "streaming decoder-state family changed persistent-state class within one session"
    );
    assert_eq!(
        GgmlCpuGraphError::Failed {
            reason: "x".to_string()
        }
        .message(),
        "x"
    );
}

#[test]
fn results_give_their_transcription() {
    let result = successful_execution_result("said");
    assert_eq!(result.into_transcription().text, "said");
    let context = GgmlAsrCarryContext::default();
    assert!(context.prompt_text.is_none() && context.prompt_token_ids.is_none());
    assert_eq!(
        capability_label(GgmlExecutionCapability::NativeGraphLoweringV1),
        "native-graph-lowering-v1"
    );
}
