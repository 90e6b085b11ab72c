//! Whisper on the batching server.

use std::cell::{Cell, RefCell};

use openasr_core::models::backend::{GgmlBackendCapabilities, GgmlCpuGraphBackend};
use openasr_core::models::decoder_state::StateKind;
use openasr_core::models::identity::RuntimeBuildIdentity;
use openasr_core::models::whisper::config::{
    effective_max_batch_after_vram_cap, whisper_decode_policy_config,
    whisper_serve_batch_decode_config, whisper_serve_batch_decoder_graph_execution_config,
    whisper_serve_batch_effective_max_batch_for_capabilities,
    whisper_serve_decode_configs_can_share_fixed_bucket, Seq2SeqGreedyDecodeConfig,
};
use openasr_core::models::whisper::error::WhisperServeBatchError;
use openasr_core::models::whisper::finish::{
    build_longform_token_history_carry, finish_whisper_serve_batch_output,
    Seq2SeqGreedyDecodeStopReason, WhisperExecutionOutput,
};
use openasr_core::models::whisper::job::{
    admit_cross_attention, configure_for_job, engine_key, engine_key_backend,
    plan_whisper_serve_runtime, submit_whisper_serve_batch_job,
    validate_whisper_serve_decoder_state, whisper_serve_batch_vram_slot_bytes, ExecutionLaneKey,
    ValidatedBatch, WhisperGgmlExecutionMetadata, WhisperServeBatchEngineKey,
    WhisperServeBatchEngineRegistry, WhisperServeBatchJob,
};
use openasr_core::models::whisper::serial::{SerialDecode, WhisperStepRuntime};
use openasr_core::models::whisper::slot::{GreedyStep, WhisperBatchSlot};
use openasr_core::models::whisper::state::{
    Seq2SeqDecoderState, Seq2SeqStateAxis, Seq2SeqStateRules,
};
use openasr_core::text::trimmed_text;

#[derive(Debug, Clone, PartialEq)]
struct Word {
    word: String,
    start: f32,
    end: f32,
}

const VOCABULARY: [&str; 8] = [" ", "h", "e", "l", "o", "w", "r", "d"];
const SPECIAL_TOKEN_IDS: [u32; 5] = [8, 9, 10, 11, 12];

fn decode_text(tokens: &Vec<u32>) -> Result<String, String> {
    let mut text = String::new();
    for token in tokens {
        match VOCABULARY.get(*token as usize) {
            Some(piece) => text.push_str(piece),
            None => return Err(format!("no text for token {token}")),
        }
    }
    Ok(text)
}

/// One word over the whole audio.
fn one_word(
    tokens: &Vec<u32>,
    _probabilities: &Vec<f32>,
    start: f32,
    end: f32,
) -> Result<Vec<Word>, String> {
    Ok(vec![Word {
        word: decode_text(tokens)?,
        start,
        end,
    }])
}

fn execution_fixture() -> WhisperGgmlExecutionMetadata {
    WhisperGgmlExecutionMetadata {
        encoder_layers: 1,
        encoder_hidden_size: 4,
        encoder_attention_heads: 2,
        encoder_mels_count: 80,
        encoder_context_length: 1500,
        decoder_layers: 1,
        decoder_hidden_size: 4,
        decoder_attention_heads: 2,
        max_target_positions: 32,
        vocab_size: 14,
        decoder_start_token_id: 9,
        eos_token_id: 8,
    }
}

fn decode_config(prompt: Vec<u32>, max_generated_tokens: usize) -> Seq2SeqGreedyDecodeConfig {
    let execution = execution_fixture();
    whisper_serve_batch_decode_config(
        prompt,
        execution.eos_token_id,
        execution.vocab_size,
        max_generated_tokens,
        None,
        Ok(()),
        |_, input, _| Ok(whisper_decode_policy_config(input, &SPECIAL_TOKEN_IDS.to_vec())),
    )
    .expect("decode config")
}

fn state_fixture(encoder_frames: usize) -> Seq2SeqDecoderState {
    Seq2SeqDecoderState {
        self_attention: Seq2SeqStateAxis {
            logical_positions: 31,
            resident_positions: 31,
            hard_position_cap: 32,
        },
        cross_attention: Seq2SeqStateAxis {
            logical_positions: encoder_frames,
            resident_positions: 1536,
            hard_position_cap: 1536,
        },
    }
}

fn job() -> WhisperServeBatchJob {
    WhisperServeBatchJob {
        runtime_cache_path: "/packs/whisper.oasr".to_string(),
        build_identity: RuntimeBuildIdentity::new("sha256:aa", "whisper:test", "adapter=none"),
        backend: GgmlCpuGraphBackend::Gpu,
        uses_scheduler: false,
        execution: execution_fixture(),
        decoder_state: state_fixture(1500),
        encoder_frames: 1500,
        encoder_hidden_size: 4,
        decode_config: decode_config(vec![9, 10, 11], 4),
        word_timestamps: false,
        carry_prompt_seed_token_ids: None,
    }
}

/// Rules that object where they are told to.
struct Rules {
    objects_to: &'static str,
}

impl Rules {
    fn verdict(&self, name: &str) -> Result<(), String> {
        if self.objects_to == name {
            Err(format!("{name} objects"))
        } else {
            Ok(())
        }
    }
}

impl Seq2SeqStateRules for Rules {
    fn greedy_self_kv_positions(
        &self,
        prompt_tokens: usize,
        max_generated_tokens: usize,
    ) -> Result<usize, String> {
        self.verdict("schedule")?;
        Ok(prompt_tokens + max_generated_tokens - 1)
    }

    fn cross_attention_stride_frames(&self, encoder_frames: usize) -> usize {
        encoder_frames.div_ceil(256) * 256
    }

    fn validate(&self, _state: &Seq2SeqDecoderState) -> Result<(), String> {
        self.verdict("state")
    }

    fn validate_runtime_ceiling(
        &self,
        _axis: &Seq2SeqStateAxis,
        kind: StateKind,
        ceiling: usize,
    ) -> Result<(), String> {
        match kind {
            StateKind::SelfAttentionKv => {
                assert_eq!(ceiling, 32);
                self.verdict("self ceiling")
            }
            StateKind::CrossAttentionKv => {
                assert_eq!(ceiling, 1536);
                self.verdict("cross ceiling")
            }
        }
    }

    fn validate_exact_shape(
        &self,
        axis: &Seq2SeqStateAxis,
        _kind: StateKind,
        positions: usize,
    ) -> Result<(), String> {
        assert_eq!(axis.logical_positions, positions);
        self.verdict("cross shape")
    }

    fn validate_resident_shape(
        &self,
        axis: &Seq2SeqStateAxis,
        _kind: StateKind,
        positions: usize,
    ) -> Result<(), String> {
        assert_eq!(axis.resident_positions, positions);
        self.verdict("cross residence")
    }
}

const FINE: Rules = Rules { objects_to: "" };

fn failure(reason: &str) -> WhisperServeBatchError {
    WhisperServeBatchError::DecodeFailed {
        reason: reason.to_string(),
    }
}

#[test]
fn serve_batch_error_classifies_transient_failures() {
    assert_eq!(
        WhisperServeBatchError::QueueFull.unavailable_retryable(),
        Some(true)
    );
    assert_eq!(
        WhisperServeBatchError::OwnerDisconnected.unavailable_retryable(),
        Some(false)
    );
    assert_eq!(
        WhisperServeBatchError::ReplyTimedOut.unavailable_retryable(),
        Some(false)
    );
    assert_eq!(
        WhisperServeBatchError::DecodeFailed {
            reason: "boom".to_string()
        }
        .unavailable_retryable(),
        None
    );
    assert_eq!(
        WhisperServeBatchError::OwnerFailed {
            reason: "boom".to_string()
        }
        .unavailable_retryable(),
        None
    );
}

#[test]
fn serve_batch_errors_say_what_failed() {
    let say = |error: WhisperServeBatchError| error.message();
    assert_eq!(
        say(WhisperServeBatchError::InvalidEnabledBatch { max_batch: 1 }),
        "whisper serve batch requires max batch >= 2 when enabled, got 1"
    );
    assert_eq!(
        say(WhisperServeBatchError::UnsupportedBackend {
            backend: GgmlCpuGraphBackend::Cpu
        }),
        "whisper serve batch supports only gpu-class direct ggml backends, got Cpu"
    );
    assert_eq!(
        say(WhisperServeBatchError::RegistryPoisoned),
        "whisper serve batch engine registry mutex is poisoned"
    );
    assert_eq!(
        say(WhisperServeBatchError::ThreadSpawnFailed {
            reason: "r".to_string()
        }),
        "whisper serve batch owner thread spawn failed: r"
    );
    assert_eq!(
        say(WhisperServeBatchError::QueueFull),
        "whisper serve batch queue is full"
    );
    assert_eq!(
        say(WhisperServeBatchError::OwnerDisconnected),
        "whisper serve batch owner thread is disconnected"
    );
    assert_eq!(
        say(WhisperServeBatchError::ReplyTimedOut),
        "whisper serve batch owner reply timed out"
    );
    assert_eq!(
        say(WhisperServeBatchError::OwnerFailed {
            reason: "r".to_string()
        }),
        "whisper serve batch owner failed: r"
    );
    assert_eq!(say(failure("r")), "whisper serve batch decode failed: r");
}

#[test]
fn serve_batch_engine_key_separates_scheduler_modes_on_the_same_backend() {
    let lane = ExecutionLaneKey {
        backend: GgmlCpuGraphBackend::Cpu,
        device: "cpu".to_string(),
    };
    let direct = WhisperServeBatchEngineKey {
        build_identity: RuntimeBuildIdentity::new("test-pack", "whisper:test", "adapter=none"),
        lane: lane.clone(),
        resident_self_positions: 448,
        resident_cross_positions: 1500,
        hidden_size: 512,
        uses_scheduler: false,
        max_batch: 2,
    };
    let scheduled = WhisperServeBatchEngineKey {
        uses_scheduler: true,
        ..direct.clone()
    };

    assert_eq!(engine_key_backend(&direct), engine_key_backend(&scheduled));
    assert_ne!(direct, scheduled);
}

#[test]
fn engine_keys_come_from_the_job() {
    let lane = ExecutionLaneKey {
        backend: GgmlCpuGraphBackend::Gpu,
        device: "CUDA0".to_string(),
    };
    let key = engine_key(&job(), lane.clone(), 3);
    assert_eq!(
        key,
        WhisperServeBatchEngineKey {
            build_identity: RuntimeBuildIdentity::new("sha256:aa", "whisper:test", "adapter=none"),
            lane: lane.clone(),
            resident_self_positions: 31,
            resident_cross_positions: 1536,
            hidden_size: 4,
            uses_scheduler: false,
            max_batch: 3,
        }
    );
    assert!(job().can_batch_with(&job()));
    assert_eq!(engine_key(&job(), lane, 3), key);
}

#[test]
fn whisper_serve_batch_decode_config_uses_whisper_policy() {
    let config = decode_config(vec![9, 10, 11], 4);

    assert_eq!(config.eot_token_id, 8);
    assert_eq!(config.suppress_first_step_token_ids, vec![8]);
    assert_eq!(config.suppress_token_ids, vec![9, 10, 11, 12]);
}

#[test]
fn decode_config_reports_a_missing_policy_and_a_failed_build() {
    let missing = whisper_serve_batch_decode_config(
        vec![9],
        8,
        14,
        4,
        None,
        Err::<(), String>("no such policy".to_string()),
        |_, _, _| unreachable!("there is no policy to build with"),
    );
    assert_eq!(missing, Err(failure("no such policy")));
    let failed = whisper_serve_batch_decode_config(vec![9], 8, 14, 4, None, Ok(3), |policy, input, bias| {
        assert_eq!(policy, 3);
        assert_eq!(input.initial_prompt_tokens, vec![9]);
        assert!(bias.is_none());
        Err("cannot build".to_string())
    });
    assert_eq!(failed, Err(failure("cannot build")));
}

#[test]
fn whisper_serve_batch_decoder_config_keeps_serial_flash_policy() {
    for (self_flash, cross_flash) in [(true, true), (true, false), (false, true), (false, false)] {
        let config =
            whisper_serve_batch_decoder_graph_execution_config(2, 1, self_flash, cross_flash);

        assert_eq!(config.attention_heads, 2);
        assert_eq!(config.use_self_flash_attention, self_flash);
        assert_eq!(config.use_cross_flash_attention, cross_flash);
        assert!(!config.collect_cross_attention);
        assert_eq!(f32::from_bits(config.layer_norm_epsilon_bits), 1.0e-5_f32);
    }
}

#[test]
fn whisper_serve_batch_decoder_config_disables_flash_for_batched_slots() {
    let config = whisper_serve_batch_decoder_graph_execution_config(2, 2, true, true);

    assert_eq!(config.attention_heads, 2);
    assert!(!config.use_self_flash_attention);
    assert!(!config.use_cross_flash_attention);
    assert!(!config.collect_cross_attention);
}

fn capabilities(backend: GgmlCpuGraphBackend, name: &str) -> GgmlBackendCapabilities {
    GgmlBackendCapabilities {
        backend,
        vulkan: name.to_ascii_lowercase().contains("vulkan"),
    }
}

#[test]
fn whisper_serve_batch_effective_max_batch_caps_vulkan_to_serial() {
    assert_eq!(
        whisper_serve_batch_effective_max_batch_for_capabilities(
            8,
            capabilities(GgmlCpuGraphBackend::Gpu, "Vulkan0"),
        ),
        1
    );
    assert_eq!(
        whisper_serve_batch_effective_max_batch_for_capabilities(
            2,
            capabilities(GgmlCpuGraphBackend::Gpu, "ggml-vulkan"),
        ),
        1
    );
}

#[test]
fn whisper_serve_batch_effective_max_batch_keeps_other_backends() {
    for backend_name in ["HIP0", "ROCm0", "CUDA0", "Metal", "CPU"] {
        assert_eq!(
            whisper_serve_batch_effective_max_batch_for_capabilities(
                8,
                capabilities(
                    if matches!(backend_name, "Metal") {
                        GgmlCpuGraphBackend::Metal
                    } else if matches!(backend_name, "CPU") {
                        GgmlCpuGraphBackend::Cpu
                    } else {
                        GgmlCpuGraphBackend::Gpu
                    },
                    backend_name,
                ),
            ),
            8,
            "backend_name={backend_name}"
        );
    }
}

#[test]
fn effective_max_batch_needs_known_capabilities() {
    assert_eq!(
        effective_max_batch_after_vram_cap(
            4,
            Ok(capabilities(GgmlCpuGraphBackend::Gpu, "Vulkan0"))
        ),
        Ok(1)
    );
    assert_eq!(
        effective_max_batch_after_vram_cap(4, Err("no device".to_string())),
        Err(failure(
            "could not resolve whisper serve-batch backend capabilities: no device"
        ))
    );
}

#[test]
fn whisper_serve_batch_finish_can_emit_approx_word_timestamps() {
    let generated_tokens = vec![1, 2, 3, 3, 4];

    let without_words: WhisperExecutionOutput<f32, Word> = finish_whisper_serve_batch_output(
        &decode_text,
        &one_word,
        generated_tokens.clone(),
        Vec::new(),
        false,
        0.0,
        2.0,
        None,
        Seq2SeqGreedyDecodeStopReason::StopToken,
    )
    .expect("finish without words");
    assert!(without_words.segments.is_empty());

    let with_words = finish_whisper_serve_batch_output(
        &decode_text,
        &one_word,
        generated_tokens,
        vec![0.5; 5],
        true,
        0.0,
        2.0,
        None,
        Seq2SeqGreedyDecodeStopReason::StopToken,
    )
    .expect("finish with words");
    assert_eq!(with_words.text, "hello");
    assert_eq!(with_words.segments.len(), 1);
    assert_eq!(with_words.segments[0].text, "hello");
    assert_eq!(with_words.segments[0].words.len(), 1);
    assert_eq!(with_words.segments[0].words[0].word, "hello");
    assert_eq!(with_words.segments[0].words[0].start, 0.0);
    assert_eq!(with_words.segments[0].words[0].end, 2.0);
}

#[test]
fn whisper_serve_batch_finish_can_emit_longform_carry_prompt_tokens() {
    let generated_tokens = vec![1, 2, 3, 3, 4];
    let output: WhisperExecutionOutput<f32, Word> = finish_whisper_serve_batch_output(
        &decode_text,
        &one_word,
        generated_tokens.clone(),
        Vec::new(),
        false,
        0.0,
        2.0,
        Some((1..=40).collect()),
        Seq2SeqGreedyDecodeStopReason::StopToken,
    )
    .expect("finish with carry tokens");

    let carry = output
        .carry_prompt_token_ids
        .expect("longform carry prompt tokens");
    let mut expected = (14..=40).collect::<Vec<_>>();
    expected.extend(generated_tokens);
    assert_eq!(carry, expected);
}

#[test]
fn carried_tokens_are_the_end_of_the_history() {
    let carry = |seed: Vec<u32>, generated: Vec<u32>, limit: usize| {
        build_longform_token_history_carry(true, seed, &generated, limit)
    };
    assert_eq!(carry(vec![1, 2], vec![3], 5), Some(vec![1, 2, 3]));
    assert_eq!(carry(vec![1, 2], vec![3], 2), Some(vec![2, 3]));
    assert_eq!(carry(vec![1, 2], vec![3, 4, 5], 2), Some(vec![4, 5]));
    assert_eq!(carry(vec![1, 2], vec![3], 0), None);
    assert_eq!(carry(Vec::new(), Vec::new(), 4), None);
    assert_eq!(
        build_longform_token_history_carry(false, vec![1], &vec![2], 4),
        None
    );
}

#[test]
fn finish_trims_and_refuses_silence() {
    let finish = |tokens: Vec<u32>| {
        finish_whisper_serve_batch_output::<f32, f32, Word, _, _>(
            &decode_text,
            &one_word,
            tokens,
            Vec::new(),
            false,
            0.0,
            1.0,
            None,
            Seq2SeqGreedyDecodeStopReason::GuardTruncated,
        )
    };
    let output = finish(vec![0, 1, 2, 0]).unwrap();
    assert_eq!(output.text, "he");
    assert_eq!(
        output.stop_reason,
        Seq2SeqGreedyDecodeStopReason::GuardTruncated
    );
    assert_eq!(output.detected_language, None);
    assert_eq!(
        finish(vec![0, 0]),
        Err(failure("tokenizer decode produced empty text"))
    );
    assert_eq!(finish(vec![99]), Err(failure("no text for token 99")));
}

#[test]
fn finish_reports_words_that_cannot_be_timed() {
    let no_words = |_: &Vec<u32>, _: &Vec<f32>, _: f32, _: f32| -> Result<Vec<Word>, String> {
        Err("no alignment".to_string())
    };
    assert_eq!(
        finish_whisper_serve_batch_output(
            &decode_text,
            &no_words,
            vec![1],
            vec![0.5],
            true,
            0.0,
            1.0,
            None,
            Seq2SeqGreedyDecodeStopReason::StopToken,
        ),
        Err(failure("no alignment"))
    );
}

#[test]
fn white_space_is_trimmed_as_unicode_has_it() {
    for text in [
        "", " ", "a", " a", "a ", "\t\r\n a b \u{b}\u{c}", "\u{a0}\u{85}\u{1680}x\u{2003}\u{3000}",
        "\u{2028}y\u{2029}", "\u{202f}z\u{205f}", "\u{200b}kept\u{feff}",
    ] {
        assert_eq!(trimmed_text(text), text.trim());
    }
}

#[test]
fn whisper_serve_batch_bucket_compatibility_allows_mixed_token_caps() {
    let short_cap = decode_config(vec![9, 10, 11], 1);
    let long_cap = decode_config(vec![9, 10, 11], 4);
    assert!(whisper_serve_decode_configs_can_share_fixed_bucket(
        &short_cap, &long_cap
    ));

    let different_prompt = decode_config(vec![9, 10], 4);
    assert!(!whisper_serve_decode_configs_can_share_fixed_bucket(
        &short_cap,
        &different_prompt
    ));
}

#[test]
fn jobs_batch_where_nothing_tells_them_apart() {
    let a = job();
    let mut b = job();
    b.decode_config.max_generated_tokens = 1;
    b.word_timestamps = true;
    assert!(a.can_batch_with(&b));
    assert!(b.can_batch_with(&a));
    b.uses_scheduler = true;
    assert!(!a.can_batch_with(&b));
    let mut c = job();
    c.decoder_state.self_attention.logical_positions = 30;
    assert!(!a.can_batch_with(&c));
    let mut d = job();
    d.runtime_cache_path = "/packs/other.oasr".to_string();
    assert!(!a.can_batch_with(&d));
}

#[test]
fn decoder_state_is_checked_in_order() {
    let validate = |rules: &Rules, job: &WhisperServeBatchJob| {
        validate_whisper_serve_decoder_state(rules, job)
    };
    assert_eq!(validate(&FINE, &job()), Ok(()));

    let mut endless = job();
    endless.decode_config.max_generated_tokens = usize::MAX;
    assert_eq!(
        validate(&FINE, &endless),
        Err(failure("whisper semantic decoder positions overflowed"))
    );

    let mut long = job();
    long.decode_config.max_generated_tokens = 30;
    assert_eq!(
        validate(&FINE, &long),
        Err(failure(
            "whisper prompt plus generation budget 33 exceeds semantic context 32"
        ))
    );

    let schedule = Rules {
        objects_to: "schedule",
    };
    assert_eq!(
        validate(&schedule, &job()),
        Err(failure("whisper decode schedule is invalid: schedule objects"))
    );

    let mut small = job();
    small.decoder_state.self_attention.logical_positions = 5;
    assert_eq!(
        validate(&FINE, &small),
        Err(failure(
            "whisper greedy schedule requires 6 self-KV rows, planner supplied 5"
        ))
    );

    for name in [
        "state",
        "self ceiling",
        "cross shape",
        "cross ceiling",
        "cross residence",
    ] {
        assert_eq!(
            validate(&Rules { objects_to: name }, &job()),
            Err(failure(&format!("{name} objects")))
        );
    }
}

#[test]
fn runtimes_are_planned_from_the_job() {
    let mut prompted = job();
    prompted.uses_scheduler = true;
    let plan = plan_whisper_serve_runtime(&FINE, &prompted, 2, true, true).unwrap();
    assert!(plan.use_scheduler);
    assert_eq!(plan.token_count, 3);
    assert_eq!(plan.resident_self_positions, 31);
    assert_eq!(plan.n_seq, 2);
    assert!(!plan.config.use_self_flash_attention);
    let mut bare = job();
    bare.decode_config.initial_prompt_tokens = Vec::new();
    assert_eq!(
        plan_whisper_serve_runtime(&FINE, &bare, 1, true, false)
            .unwrap()
            .token_count,
        1
    );
    let mut long = job();
    long.decode_config.max_generated_tokens = 30;
    assert!(plan_whisper_serve_runtime(&FINE, &long, 1, true, true).is_err());
}

#[test]
fn runtimes_take_only_jobs_of_their_residence() {
    let mut other = job().decoder_state;
    other.self_attention.resident_positions = 16;
    let mismatch = failure(&format!(
        "whisper serve-batch resident runtime state mismatch: built={:?}, requested={:?}",
        other,
        job().decoder_state
    ));
    assert_eq!(configure_for_job(&FINE, &job().decoder_state, &job()), Ok(()));
    assert_eq!(
        admit_cross_attention(&FINE, &job().decoder_state, &job()),
        Ok(())
    );
    assert_eq!(
        configure_for_job(&FINE, &other, &job()),
        Err(mismatch.clone())
    );
    assert_eq!(
        admit_cross_attention(&FINE, &other, &job()),
        Err(mismatch.clone())
    );
    let objecting = Rules {
        objects_to: "state",
    };
    assert_eq!(
        configure_for_job(&objecting, &other, &job()),
        Err(failure("state objects"))
    );
    assert_eq!(admit_cross_attention(&objecting, &other, &job()), Err(mismatch));
}

#[test]
fn slot_memory_is_estimated_from_resident_rows() {
    let estimate = |layers: usize,
                    self_rows: usize,
                    width: usize,
                    cross_rows: usize,
                    cross_width: usize,
                    self_bytes: usize,
                    cross_bytes: usize| {
        layers * 2 * (self_rows * width * self_bytes + cross_rows * cross_width * cross_bytes)
    };
    assert_eq!(
        whisper_serve_batch_vram_slot_bytes(&job(), &estimate),
        2 * (31 * 4 * 2 + 1536 * 4 * 2)
    );
}

/// Engines that note what they are asked.
struct Engines {
    refuse: &'static str,
    log: RefCell<Vec<String>>,
}

impl WhisperServeBatchEngineRegistry<usize, &'static str, String> for Engines {
    fn validate_for_job(
        &self,
        config: usize,
        _job: &WhisperServeBatchJob,
    ) -> Result<ValidatedBatch<usize>, WhisperServeBatchError> {
        if self.refuse == "validate" {
            return Err(WhisperServeBatchError::InvalidEnabledBatch { max_batch: config });
        }
        Ok(ValidatedBatch {
            config,
            max_batch: config / 2,
        })
    }

    fn execution_lane(&self, backend: GgmlCpuGraphBackend) -> ExecutionLaneKey {
        ExecutionLaneKey {
            backend,
            device: "lane".to_string(),
        }
    }

    fn engine_for_key(
        &self,
        key: &WhisperServeBatchEngineKey,
        batch: ValidatedBatch<usize>,
    ) -> Result<&'static str, WhisperServeBatchError> {
        self.log
            .borrow_mut()
            .push(format!("find {} of {}", key.max_batch, batch.config));
        if self.refuse == "engine" {
            return Err(WhisperServeBatchError::RegistryPoisoned);
        }
        Ok("engine")
    }

    fn submit(
        &self,
        engine: &&'static str,
        _job: WhisperServeBatchJob,
    ) -> Result<String, WhisperServeBatchError> {
        self.log.borrow_mut().push("submit".to_string());
        if self.refuse == "submit" {
            return Err(WhisperServeBatchError::QueueFull);
        }
        Ok(engine.to_string())
    }

    fn evict_after_candidate_failure(
        &self,
        key: &WhisperServeBatchEngineKey,
        engine: &&'static str,
    ) {
        self.log
            .borrow_mut()
            .push(format!("settle {} {}", engine, key.lane.device));
    }
}

#[test]
fn jobs_are_submitted_to_the_engine_of_their_key() {
    let run = |refuse: &'static str| {
        let engines = Engines {
            refuse,
            log: RefCell::new(Vec::new()),
        };
        let result = submit_whisper_serve_batch_job(&engines, 6, job());
        (result, engines.log.into_inner())
    };
    let (result, log) = run("");
    assert_eq!(result, Ok("engine".to_string()));
    assert_eq!(log, ["find 3 of 6", "submit", "settle engine lane"]);
    let (result, log) = run("validate");
    assert_eq!(
        result,
        Err(WhisperServeBatchError::InvalidEnabledBatch { max_batch: 6 })
    );
    assert!(log.is_empty());
    let (result, log) = run("engine");
    assert_eq!(result, Err(WhisperServeBatchError::RegistryPoisoned));
    assert_eq!(log, ["find 3 of 6"]);
    let (result, log) = run("submit");
    assert_eq!(result, Err(WhisperServeBatchError::QueueFull));
    assert_eq!(log, ["find 3 of 6", "submit", "settle engine lane"]);
}

/// A decoder that says "hello" and then ends, and notes what it is given.
#[derive(Default)]
struct Speller {
    given: Vec<(u32, usize)>,
    resets: usize,
    fails_at: Option<usize>,
    refuses_audio: bool,
}

impl WhisperStepRuntime<u32> for Speller {
    fn reset_self_kv_state(mut self) -> Self {
        self.resets += 1;
        self.given.clear();
        self
    }

    fn populate_cross_attention_cache_slot(
        self,
        slot_index: usize,
        _job: &WhisperServeBatchJob,
    ) -> (Self, Result<(), WhisperServeBatchError>) {
        assert_eq!(slot_index, 0);
        if self.refuses_audio {
            return (self, Err(failure("no audio")));
        }
        (self, Ok(()))
    }

    fn compute_reused_step_logits(
        mut self,
        token_id: u32,
        position: usize,
    ) -> (Self, Result<Vec<u32>, WhisperServeBatchError>) {
        if self.fails_at == Some(position) {
            return (self, Err(failure("device lost")));
        }
        self.given.push((token_id, position));
        let said = (position + 1).saturating_sub(3);
        let logits = vec![*[1, 2, 3, 3, 4, 8].get(said).unwrap_or(&8)];
        (self, Ok(logits))
    }
}

fn stop_ids(config: &Seq2SeqGreedyDecodeConfig) -> Vec<u32> {
    vec![config.eot_token_id]
}

fn greedy(
    _config: &Seq2SeqGreedyDecodeConfig,
    generated: &Vec<u32>,
    stops: &Vec<u32>,
    logits: Vec<u32>,
) -> Result<GreedyStep<f32>, String> {
    let token_id = logits[0];
    if stops.contains(&token_id) {
        Ok(GreedyStep::Finish {
            kept: generated.len(),
            reason: Seq2SeqGreedyDecodeStopReason::StopToken,
        })
    } else {
        Ok(GreedyStep::Append {
            token_id,
            probability: 0.5,
        })
    }
}

fn decode_once(
    runtime: Speller,
    job: WhisperServeBatchJob,
) -> (
    Speller,
    Result<WhisperExecutionOutput<f32, Word>, WhisperServeBatchError>,
) {
    let decode = SerialDecode {
        stop_token_ids: stop_ids,
        select: greedy,
        decode: decode_text,
        words: one_word,
        canceled: |_: &Vec<u32>| false,
    };
    decode.decode_on(runtime, job, 0.0, 1.0, "canceled")
}

fn budgeted(max_generated_tokens: usize) -> WhisperServeBatchJob {
    let mut job = job();
    job.decode_config.max_generated_tokens = max_generated_tokens;
    job
}

#[test]
fn a_serial_decode_runs_to_its_stop_token() {
    let mut kept: Option<Speller> = None;
    let decode = SerialDecode {
        stop_token_ids: stop_ids,
        select: greedy,
        decode: decode_text,
        words: one_word,
        canceled: |_: &Vec<u32>| false,
    };
    let builds = Cell::new(0);
    for _ in 0..2 {
        let output: WhisperExecutionOutput<f32, Word> = decode
            .decode_serial(
                &mut kept,
                |_: &WhisperServeBatchJob| {
                    builds.set(builds.get() + 1);
                    Ok(Speller::default())
                },
                budgeted(16),
                0.0,
                1.0,
                "canceled",
            )
            .unwrap();
        assert_eq!(output.text, "hello");
        assert_eq!(
            output.stop_reason,
            Seq2SeqGreedyDecodeStopReason::StopToken
        );
    }
    assert_eq!(builds.get(), 1);
    assert_eq!(kept.unwrap().resets, 2);
}

#[test]
fn a_serial_decode_stops_at_its_budget() {
    let output = decode_once(Speller::default(), budgeted(3)).1.unwrap();
    assert_eq!(output.text, "hel");
    assert_eq!(
        output.stop_reason,
        Seq2SeqGreedyDecodeStopReason::BudgetExhausted
    );
}

#[test]
fn a_serial_decode_gives_every_token_its_position() {
    let decode = SerialDecode {
        stop_token_ids: stop_ids,
        select: greedy,
        decode: decode_text,
        words: one_word,
        canceled: |_: &Vec<u32>| false,
    };
    let (runtime, result) = decode.decode_on(Speller::default(), budgeted(3), 0.0, 1.0, "canceled");
    let output: WhisperExecutionOutput<f32, Word> = result.unwrap();
    assert_eq!(output.text, "hel");
    assert_eq!(
        runtime.given,
        [(9, 0), (10, 1), (11, 2), (1, 3), (2, 4)]
    );
}

#[test]
fn a_serial_decode_fails_where_its_parts_fail() {
    let lost = Speller {
        fails_at: Some(4),
        ..Speller::default()
    };
    assert_eq!(
        decode_once(lost, budgeted(16)).1,
        Err(failure("device lost"))
    );
    let prompt_lost = Speller {
        fails_at: Some(1),
        ..Speller::default()
    };
    let (runtime, result) = decode_once(prompt_lost, budgeted(16));
    assert_eq!(result, Err(failure("device lost")));
    assert_eq!(runtime.given, [(9, 0)]);
    let deaf = Speller {
        refuses_audio: true,
        ..Speller::default()
    };
    assert_eq!(decode_once(deaf, budgeted(16)).1, Err(failure("no audio")));
    assert_eq!(
        decode_once(Speller::default(), budgeted(0)).1,
        Err(failure(
            "whisper serve batch requires max_generated_tokens > 0"
        ))
    );
    let canceled = SerialDecode {
        stop_token_ids: stop_ids,
        select: greedy,
        decode: decode_text,
        words: one_word,
        canceled: |_: &Vec<u32>| true,
    };
    let mut kept: Option<Speller> = Some(Speller::default());
    let result: Result<WhisperExecutionOutput<f32, Word>, WhisperServeBatchError> = canceled
        .decode_serial(
            &mut kept,
            |_: &WhisperServeBatchJob| Err(failure("not needed")),
            budgeted(16),
            0.0,
            1.0,
            "request canceled",
        );
    assert_eq!(result, Err(failure("request canceled")));
    // The prompt was given, and nothing past it.
    assert_eq!(kept.unwrap().given, [(9, 0), (10, 1), (11, 2)]);
    // Asked behind every token: canceled once the second one has been picked.
    let late = SerialDecode {
        stop_token_ids: stop_ids,
        select: greedy,
        decode: decode_text,
        words: one_word,
        canceled: |picked: &Vec<u32>| picked.len() >= 2,
    };
    let (runtime, result): (
        Speller,
        Result<WhisperExecutionOutput<f32, Word>, WhisperServeBatchError>,
    ) = late.decode_on(Speller::default(), budgeted(16), 0.0, 1.0, "request canceled");
    assert_eq!(result, Err(failure("request canceled")));
    assert_eq!(runtime.given, [(9, 0), (10, 1), (11, 2), (1, 3)]);
    let undecided = SerialDecode {
        stop_token_ids: stop_ids,
        select: |_: &Seq2SeqGreedyDecodeConfig, _: &Vec<u32>, _: &Vec<u32>, _: Vec<u32>| {
            Err::<GreedyStep<f32>, String>("no finite logit".to_string())
        },
        decode: decode_text,
        words: one_word,
        canceled: |_: &Vec<u32>| false,
    };
    let result: Result<WhisperExecutionOutput<f32, Word>, WhisperServeBatchError> = undecided
        .decode_on(Speller::default(), budgeted(16), 0.0, 1.0, "canceled")
        .1;
    assert_eq!(result, Err(failure("no finite logit")));
    let mut none: Option<Speller> = None;
    let result: Result<WhisperExecutionOutput<f32, Word>, WhisperServeBatchError> = canceled
        .decode_serial(
            &mut none,
            |_: &WhisperServeBatchJob| Err(failure("no memory")),
            budgeted(16),
            0.0,
            1.0,
            "canceled",
        );
    assert_eq!(result, Err(failure("no memory")));
    assert!(none.is_none());
}

#[test]
fn a_guard_keeps_only_what_it_says() {
    let cut = SerialDecode {
        stop_token_ids: stop_ids,
        select: |config: &Seq2SeqGreedyDecodeConfig,
                 generated: &Vec<u32>,
                 stops: &Vec<u32>,
                 logits: Vec<u32>| {
            if generated.len() == 4 {
                Ok(GreedyStep::Finish {
                    kept: 2,
                    reason: Seq2SeqGreedyDecodeStopReason::GuardTruncated,
                })
            } else {
                greedy(config, generated, stops, logits)
            }
        },
        decode: decode_text,
        words: one_word,
        canceled: |_: &Vec<u32>| false,
    };
    let output: WhisperExecutionOutput<f32, Word> = cut
        .decode_on(Speller::default(), budgeted(16), 0.0, 1.0, "canceled")
        .1
        .unwrap();
    assert_eq!(output.text, "he");
    assert_eq!(
        output.stop_reason,
        Seq2SeqGreedyDecodeStopReason::GuardTruncated
    );
}

#[test]
fn slots_refuse_jobs_that_cannot_be_decoded() {
    let refuse = |change: fn(&mut WhisperServeBatchJob)| {
        let mut changed = job();
        change(&mut changed);
        WhisperBatchSlot::<f32>::new(changed, &stop_ids).unwrap_err()
    };
    assert_eq!(
        refuse(|job| job.decode_config.initial_prompt_tokens.clear()),
        failure("whisper serve batch requires at least one prompt token")
    );
    assert_eq!(
        refuse(|job| job.decode_config.vocab_size = 0),
        failure("whisper serve batch requires vocab_size > 0")
    );
    let mut slot = WhisperBatchSlot::<f32>::new(job(), &stop_ids).unwrap();
    assert_eq!(slot.stop_token_ids, vec![8]);
    assert!(!slot.is_done());
    assert_eq!(slot.select_next_token_from_logits(vec![1], &greedy), Ok(()));
    assert_eq!(slot.generated_tokens, vec![1]);
    assert_eq!(slot.generated_probabilities, vec![0.5]);
    slot.exhaust_budget();
    assert!(!slot.is_done());
    assert_eq!(slot.select_next_token_from_logits(vec![8], &greedy), Ok(()));
    assert!(slot.is_done());
    let output: WhisperExecutionOutput<f32, Word> =
        slot.finish(&decode_text, &one_word, 0.0, 1.0).unwrap();
    assert_eq!(output.text, "h");
}
