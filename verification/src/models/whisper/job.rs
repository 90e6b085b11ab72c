//! A job of the batching server, and the engine that it goes to.

use vstd::prelude::*;
use vstd::string::*;

use crate::models::backend::GgmlCpuGraphBackend;
use crate::models::decoder_state::StateKind;
use crate::models::identity::RuntimeBuildIdentity;
use crate::models::whisper::config;
use crate::models::whisper::config::{
    whisper_serve_batch_decoder_graph_execution_config,
    whisper_serve_decode_configs_can_share_fixed_bucket, Seq2SeqGreedyDecodeConfig,
    WhisperDecoderGraphExecutionConfig, LAYER_NORM_EPSILON_BITS,
};
use crate::models::whisper::error;
use crate::models::whisper::error::{failed_decode, WhisperServeBatchError};
use crate::models::whisper::state::{Seq2SeqDecoderState, Seq2SeqStateRules};
use crate::text::append_field;

verus! {

/// Sizes of a whisper model.
#[derive(Debug, Clone, Copy, PartialEq, Eq, Structural)]
pub struct WhisperGgmlExecutionMetadata {
    pub encoder_layers: usize,
    pub encoder_hidden_size: usize,
    pub encoder_attention_heads: usize,
    pub encoder_mels_count: usize,
    pub encoder_context_length: usize,
    pub decoder_layers: usize,
    pub decoder_hidden_size: usize,
    pub decoder_attention_heads: usize,
    pub max_target_positions: usize,
    pub vocab_size: usize,
    pub decoder_start_token_id: u32,
    pub eos_token_id: u32,
}

/// One decode that was handed to the batching server.
#[derive(Debug, Clone, PartialEq, Eq)]
pub struct WhisperServeBatchJob {
    pub runtime_cache_path: String,
    pub build_identity: RuntimeBuildIdentity,
    pub backend: GgmlCpuGraphBackend,
    pub uses_scheduler: bool,
    pub execution: WhisperGgmlExecutionMetadata,
    pub decoder_state: Seq2SeqDecoderState,
    pub encoder_frames: usize,
    pub encoder_hidden_size: usize,
    pub decode_config: Seq2SeqGreedyDecodeConfig,
    pub word_timestamps: bool,
    pub carry_prompt_seed_token_ids: Option<Vec<u32>>,
}

// ---------------------------------------------------------------------------
// What fits a job
// ---------------------------------------------------------------------------

/// What the rules may say of the state of a job: each is asked in turn, until one objects.
pub open spec fn state_checked<R: Seq2SeqStateRules>(
    rules: &R,
    job: WhisperServeBatchJob,
    cross_resident: usize,
    verdict: Result<(), String>,
) -> bool {
    let state = job.decoder_state;
    let whole = |reply: Result<(), String>| call_ensures(R::validate, (rules, &state), reply);
    let ceiling = |reply: Result<(), String>|
        call_ensures(
            R::validate_runtime_ceiling,
            (
                rules,
                &state.self_attention,
                StateKind::SelfAttentionKv,
                job.execution.max_target_positions,
            ),
            reply,
        );
    let exact = |reply: Result<(), String>|
        call_ensures(
            R::validate_exact_shape,
            (rules, &state.cross_attention, StateKind::CrossAttentionKv, job.encoder_frames),
            reply,
        );
    let cross_ceiling = |reply: Result<(), String>|
        call_ensures(
            R::validate_runtime_ceiling,
            (rules, &state.cross_attention, StateKind::CrossAttentionKv, cross_resident),
            reply,
        );
    let resident = |reply: Result<(), String>|
        call_ensures(
            R::validate_resident_shape,
            (rules, &state.cross_attention, StateKind::CrossAttentionKv, cross_resident),
            reply,
        );
    match verdict {
        Ok(_) => whole(Ok(())) && ceiling(Ok(())) && exact(Ok(())) && cross_ceiling(Ok(()))
            && resident(Ok(())),
        Err(_) => {
            ||| whole(verdict)
            ||| whole(Ok(())) && ceiling(verdict)
            ||| whole(Ok(())) && ceiling(Ok(())) && exact(verdict)
            ||| whole(Ok(())) && ceiling(Ok(())) && exact(Ok(())) && cross_ceiling(verdict)
            ||| whole(Ok(())) && ceiling(Ok(())) && exact(Ok(())) && cross_ceiling(Ok(()))
                && resident(verdict)
        },
    }
}

fn check_state<R: Seq2SeqStateRules>(
    rules: &R,
    job: &WhisperServeBatchJob,
    cross_resident: usize,
) -> (verdict: Result<(), String>)
    ensures
        state_checked(rules, *job, cross_resident, verdict),
{
    match rules.validate(&job.decoder_state) {
        Err(reason) => {
            return Err(reason);
        },
        Ok(unit) => {
            assert(unit == ());
        },
    }
    match rules.validate_runtime_ceiling(
        &job.decoder_state.self_attention,
        StateKind::SelfAttentionKv,
        job.execution.max_target_positions,
    ) {
        Err(reason) => {
            return Err(reason);
        },
        Ok(unit) => {
            assert(unit == ());
        },
    }
    match rules.validate_exact_shape(
        &job.decoder_state.cross_attention,
        StateKind::CrossAttentionKv,
        job.encoder_frames,
    ) {
        Err(reason) => {
            return Err(reason);
        },
        Ok(unit) => {
            assert(unit == ());
        },
    }
    match rules.validate_runtime_ceiling(
        &job.decoder_state.cross_attention,
        StateKind::CrossAttentionKv,
        cross_resident,
    ) {
        Err(reason) => {
            return Err(reason);
        },
        Ok(unit) => {
            assert(unit == ());
        },
    }
    match rules.validate_resident_shape(
        &job.decoder_state.cross_attention,
        StateKind::CrossAttentionKv,
        cross_resident,
    ) {
        Err(reason) => Err(reason),
        Ok(unit) => {
            assert(unit == ());
            Ok(())
        },
    }
}

/// Positions that the prompt and the longest generation take.
pub open spec fn semantic_positions(job: WhisperServeBatchJob) -> int {
    job.decode_config.initial_prompt_tokens@.len() + job.decode_config.max_generated_tokens
}

/// Whether a job may be found to fit its state.
pub open spec fn fits_state<R: Seq2SeqStateRules>(rules: &R, job: WhisperServeBatchJob) -> bool {
    &&& semantic_positions(job) <= job.execution.max_target_positions
    &&& exists|rows: usize, cross_resident: usize|
        #![trigger needs_rows(rules, job, Ok(rows)), strides(rules, job, cross_resident)]
        needs_rows(rules, job, Ok(rows)) && rows
            <= job.decoder_state.self_attention.logical_positions && strides(
            rules,
            job,
            cross_resident,
        ) && state_checked(rules, job, cross_resident, Ok(()))
}

/// Whether the rules may say so of the self-attention rows that a job needs.
pub open spec fn needs_rows<R: Seq2SeqStateRules>(
    rules: &R,
    job: WhisperServeBatchJob,
    reply: Result<usize, String>,
) -> bool {
    call_ensures(
        R::greedy_self_kv_positions,
        (
            rules,
            job.decode_config.initial_prompt_tokens.len(),
            job.decode_config.max_generated_tokens,
        ),
        reply,
    )
}

/// Whether the rules may say so of the cross-attention rows that are held for a job.
pub open spec fn strides<R: Seq2SeqStateRules>(
    rules: &R,
    job: WhisperServeBatchJob,
    cross_resident: usize,
) -> bool {
    call_ensures(R::cross_attention_stride_frames, (rules, job.encoder_frames), cross_resident)
}

/// Whether a job may be refused for this reason. The reasons are tried in order: more
/// positions than can be counted, more than the context holds, rows that cannot be
/// scheduled, more rows than were planned, and what the rules object to.
pub open spec fn misfits_state<R: Seq2SeqStateRules>(
    rules: &R,
    job: WhisperServeBatchJob,
    why: Seq<char>,
) -> bool {
    if semantic_positions(job) > usize::MAX {
        why == "whisper semantic decoder positions overflowed"@
    } else if semantic_positions(job) > job.execution.max_target_positions {
        why == "whisper prompt plus generation budget "@ + crate::text::decimal(
            semantic_positions(job) as nat,
        ) + " exceeds semantic context "@ + crate::text::decimal(
            job.execution.max_target_positions as nat,
        )
    } else {
        ||| exists|reason: String| #[trigger]
            needs_rows(rules, job, Err(reason)) && why == "whisper decode schedule is invalid: "@
                + reason@
        ||| exists|rows: usize| #[trigger]
            needs_rows(rules, job, Ok(rows)) && rows
                > job.decoder_state.self_attention.logical_positions && why
                == "whisper greedy schedule requires "@ + crate::text::decimal(rows as nat)
                + " self-KV rows, planner supplied "@ + crate::text::decimal(
                job.decoder_state.self_attention.logical_positions as nat,
            )
        ||| exists|rows: usize, cross_resident: usize, reason: String|
            #![trigger needs_rows(rules, job, Ok(rows)), state_checked(
                    rules,
                    job,
                    cross_resident,
                    Err(reason),
                )]
            needs_rows(rules, job, Ok(rows)) && rows
                <= job.decoder_state.self_attention.logical_positions && strides(
                rules,
                job,
                cross_resident,
            ) && state_checked(rules, job, cross_resident, Err(reason)) && why == reason@
    }
}

/// Checks that a job fits the state that was planned for it.
pub fn validate_whisper_serve_decoder_state<R: Seq2SeqStateRules>(
    rules: &R,
    job: &WhisperServeBatchJob,
) -> (result: Result<(), WhisperServeBatchError>)
    ensures
        match result {
            Ok(_) => fits_state(rules, *job),
            Err(error) => error matches WhisperServeBatchError::DecodeFailed { reason }
                && misfits_state(rules, *job, reason@),
        },
{
    let prompt_tokens: usize = job.decode_config.initial_prompt_tokens.len();
    let positions: usize = match prompt_tokens.checked_add(
        job.decode_config.max_generated_tokens,
    ) {
        Some(positions) => positions,
        None => {
            return Err(failed_decode("whisper semantic decoder positions overflowed"));
        },
    };
    if positions > job.execution.max_target_positions {
        let mut why: String = "".to_owned();
        proof {
            reveal_strlit("");
        }
        append_field(&mut why, "whisper prompt plus generation budget ", positions as u128);
        append_field(
            &mut why,
            " exceeds semantic context ",
            job.execution.max_target_positions as u128,
        );
        assert(why@ =~= "whisper prompt plus generation budget "@ + crate::text::decimal(
            semantic_positions(*job) as nat,
        ) + " exceeds semantic context "@ + crate::text::decimal(
            job.execution.max_target_positions as nat,
        ));
        return Err(WhisperServeBatchError::DecodeFailed { reason: why });
    }
    let rows: usize = match rules.greedy_self_kv_positions(
        prompt_tokens,
        job.decode_config.max_generated_tokens,
    ) {
        Ok(rows) => rows,
        Err(reason) => {
            assert(needs_rows(rules, *job, Err(reason)));
            let mut why: String = "whisper decode schedule is invalid: ".to_owned();
            why.append(reason.as_str());
            return Err(WhisperServeBatchError::DecodeFailed { reason: why });
        },
    };
    assert(needs_rows(rules, *job, Ok(rows)));
    if rows > job.decoder_state.self_attention.logical_positions {
        let mut why: String = "".to_owned();
        proof {
            reveal_strlit("");
        }
        append_field(&mut why, "whisper greedy schedule requires ", rows as u128);
        append_field(
            &mut why,
            " self-KV rows, planner supplied ",
            job.decoder_state.self_attention.logical_positions as u128,
        );
        assert(why@ =~= "whisper greedy schedule requires "@ + crate::text::decimal(rows as nat)
            + " self-KV rows, planner supplied "@ + crate::text::decimal(
            job.decoder_state.self_attention.logical_positions as nat,
        ));
        return Err(WhisperServeBatchError::DecodeFailed { reason: why });
    }
    let cross_resident: usize = rules.cross_attention_stride_frames(job.encoder_frames);
    assert(strides(rules, *job, cross_resident));
    match check_state(rules, job, cross_resident) {
        Ok(unit) => {
            assert(unit == ());
            Ok(())
        },
        Err(reason) => {
            assert(state_checked(rules, *job, cross_resident, Err(reason)));
            Err(failed_decode(reason.as_str()))
        },
    }
}

// ---------------------------------------------------------------------------
// The runtime of a job
// ---------------------------------------------------------------------------

/// What a decoder runtime is built from.
#[derive(Debug, Clone, Copy, PartialEq, Eq, Structural)]
pub struct WhisperServeRuntimePlan {
    pub backend: GgmlCpuGraphBackend,
    /// As resolved where the job was submitted; the owner of the runtime resolves nothing
    /// anew.
    pub use_scheduler: bool,
    pub decoder_layers: usize,
    pub decoder_hidden_size: usize,
    pub vocab_size: usize,
    pub semantic_context_positions: usize,
    pub token_count: usize,
    pub encoder_frames: usize,
    pub encoder_hidden_size: usize,
    pub resident_self_positions: usize,
    pub n_seq: usize,
    pub config: WhisperDecoderGraphExecutionConfig,
    pub decoder_state: Seq2SeqDecoderState,
}

/// The runtime that a job is planned for.
pub open spec fn runtime_plan(
    job: WhisperServeBatchJob,
    n_seq: usize,
    self_flash: bool,
    cross_flash: bool,
) -> WhisperServeRuntimePlan {
    WhisperServeRuntimePlan {
        backend: job.backend,
        use_scheduler: job.uses_scheduler,
        decoder_layers: job.execution.decoder_layers,
        decoder_hidden_size: job.execution.decoder_hidden_size,
        vocab_size: job.execution.vocab_size,
        semantic_context_positions: job.execution.max_target_positions,
        token_count: if job.decode_config.initial_prompt_tokens@.len() == 0 {
            1
        } else {
            job.decode_config.initial_prompt_tokens.len()
        },
        encoder_frames: job.encoder_frames,
        encoder_hidden_size: job.execution.encoder_hidden_size,
        resident_self_positions: job.decoder_state.self_attention.resident_positions,
        n_seq,
        config: WhisperDecoderGraphExecutionConfig {
            attention_heads: job.execution.decoder_attention_heads,
            use_self_flash_attention: n_seq <= 1 && self_flash,
            use_cross_flash_attention: n_seq <= 1 && cross_flash,
            collect_cross_attention: false,
            layer_norm_epsilon_bits: LAYER_NORM_EPSILON_BITS,
        },
        decoder_state: job.decoder_state,
    }
}

/// Plans the decoder runtime of a job, for so many sequences side by side. Nothing is built
/// for a job that does not fit its state.
pub fn plan_whisper_serve_runtime<R: Seq2SeqStateRules>(
    rules: &R,
    job: &WhisperServeBatchJob,
    n_seq: usize,
    self_flash_attention_enabled: bool,
    cross_flash_attention_enabled: bool,
) -> (result: Result<WhisperServeRuntimePlan, WhisperServeBatchError>)
    ensures
        match result {
            Ok(plan) => fits_state(rules, *job) && plan == runtime_plan(
                *job,
                n_seq,
                self_flash_attention_enabled,
                cross_flash_attention_enabled,
            ),
            Err(error) => error matches WhisperServeBatchError::DecodeFailed { reason }
                && misfits_state(rules, *job, reason@),
        },
{
    if let Err(error) = validate_whisper_serve_decoder_state(rules, job) {
        return Err(error);
    }
    let prompt_tokens: usize = job.decode_config.initial_prompt_tokens.len();
    Ok(
        WhisperServeRuntimePlan {
            backend: job.backend,
            use_scheduler: job.uses_scheduler,
            decoder_layers: job.execution.decoder_layers,
            decoder_hidden_size: job.execution.decoder_hidden_size,
            vocab_size: job.execution.vocab_size,
            semantic_context_positions: job.execution.max_target_positions,
            token_count: if prompt_tokens == 0 {
                1
            } else {
                prompt_tokens
            },
            encoder_frames: job.encoder_frames,
            encoder_hidden_size: job.execution.encoder_hidden_size,
            resident_self_positions: job.decoder_state.self_attention.resident_positions,
            n_seq,
            config: whisper_serve_batch_decoder_graph_execution_config(
                job.execution.decoder_attention_heads,
                n_seq,
                self_flash_attention_enabled,
                cross_flash_attention_enabled,
            ),
            decoder_state: job.decoder_state,
        },
    )
}

/// The reason why a runtime does not take a job that needs other resident state.
pub open spec fn capacity_mismatch(
    built: Seq2SeqDecoderState,
    requested: Seq2SeqDecoderState,
) -> Seq<char> {
    "whisper serve-batch resident runtime state mismatch: built="@ + built.text()
        + ", requested="@ + requested.text()
}

fn check_capacity(built: &Seq2SeqDecoderState, requested: &Seq2SeqDecoderState) -> (result: Result<
    (),
    WhisperServeBatchError,
>)
    ensures
        match result {
            Ok(_) => requested.resident() == built.resident(),
            Err(error) => requested.resident() != built.resident() && error::decode_failed(
                error,
                capacity_mismatch(*built, *requested),
            ),
        },
{
    if requested.resident_capacity() == built.resident_capacity() {
        return Ok(());
    }
    let mut why: String = "whisper serve-batch resident runtime state mismatch: built=".to_owned();
    built.append_to(&mut why);
    why.append(", requested=");
    requested.append_to(&mut why);
    Err(WhisperServeBatchError::DecodeFailed { reason: why })
}

/// Whether a runtime that was built for one state takes a job: the job fits its own state,
/// and needs what is resident.
pub fn configure_for_job<R: Seq2SeqStateRules>(
    rules: &R,
    built: &Seq2SeqDecoderState,
    job: &WhisperServeBatchJob,
) -> (result: Result<(), WhisperServeBatchError>)
    ensures
        match result {
            Ok(_) => fits_state(rules, *job) && job.decoder_state.resident() == built.resident(),
            Err(error) => {
                ||| error matches WhisperServeBatchError::DecodeFailed { reason } && misfits_state(
                    rules,
                    *job,
                    reason@,
                )
                ||| fits_state(rules, *job) && job.decoder_state.resident() != built.resident()
                    && error::decode_failed(error, capacity_mismatch(*built, job.decoder_state))
            },
        },
{
    if let Err(error) = validate_whisper_serve_decoder_state(rules, job) {
        return Err(error);
    }
    check_capacity(built, &job.decoder_state)
}

/// Whether the encoder's output of a job may go into a runtime that was built for one state.
/// Resident state is looked at first.
pub fn admit_cross_attention<R: Seq2SeqStateRules>(
    rules: &R,
    built: &Seq2SeqDecoderState,
    job: &WhisperServeBatchJob,
) -> (result: Result<(), WhisperServeBatchError>)
    ensures
        match result {
            Ok(_) => job.decoder_state.resident() == built.resident() && fits_state(rules, *job),
            Err(error) => if job.decoder_state.resident() != built.resident() {
                error::decode_failed(error, capacity_mismatch(*built, job.decoder_state))
            } else {
                error matches WhisperServeBatchError::DecodeFailed { reason } && misfits_state(
                    rules,
                    *job,
                    reason@,
                )
            },
        },
{
    if let Err(error) = check_capacity(built, &job.decoder_state) {
        return Err(error);
    }
    validate_whisper_serve_decoder_state(rules, job)
}

// ---------------------------------------------------------------------------
// The engine of a job
// ---------------------------------------------------------------------------

/// Where an engine executes.
#[derive(Debug, Clone, Eq, Hash)]
pub struct ExecutionLaneKey {
    pub backend: GgmlCpuGraphBackend,
    pub device: String,
}

impl ExecutionLaneKey {
    pub fn backend(&self) -> (backend: GgmlCpuGraphBackend)
        ensures
            backend == self.backend,
    {
        self.backend
    }
}

impl PartialEq for ExecutionLaneKey {
    fn eq(&self, other: &Self) -> (same: bool) {
        self.backend == other.backend && self.device == other.device
    }
}

impl vstd::std_specs::cmp::PartialEqSpecImpl for ExecutionLaneKey {
    open spec fn obeys_eq_spec() -> bool {
        true
    }

    open spec fn eq_spec(&self, other: &Self) -> bool {
        self.backend == other.backend && self.device@ == other.device@
    }
}

/// What makes two jobs go to the same engine.
#[derive(Debug, Clone, Eq, Hash)]
pub struct WhisperServeBatchEngineKey {
    pub build_identity: RuntimeBuildIdentity,
    pub lane: ExecutionLaneKey,
    pub resident_self_positions: usize,
    pub resident_cross_positions: usize,
    pub hidden_size: usize,
    pub uses_scheduler: bool,
    pub max_batch: usize,
}

impl PartialEq for WhisperServeBatchEngineKey {
    fn eq(&self, other: &Self) -> (same: bool) {
        self.build_identity == other.build_identity && self.lane == other.lane
            && self.resident_self_positions == other.resident_self_positions
            && self.resident_cross_positions == other.resident_cross_positions && self.hidden_size
            == other.hidden_size && self.uses_scheduler == other.uses_scheduler && self.max_batch
            == other.max_batch
    }
}

impl vstd::std_specs::cmp::PartialEqSpecImpl for WhisperServeBatchEngineKey {
    open spec fn obeys_eq_spec() -> bool {
        true
    }

    open spec fn eq_spec(&self, other: &Self) -> bool {
        same_engine(*self, *other)
    }
}

/// Whether two keys name the same engine.
pub open spec fn same_engine(a: WhisperServeBatchEngineKey, b: WhisperServeBatchEngineKey) -> bool {
    &&& a.build_identity@ == b.build_identity@
    &&& a.lane.backend == b.lane.backend
    &&& a.lane.device@ == b.lane.device@
    &&& a.resident_self_positions == b.resident_self_positions
    &&& a.resident_cross_positions == b.resident_cross_positions
    &&& a.hidden_size == b.hidden_size
    &&& a.uses_scheduler == b.uses_scheduler
    &&& a.max_batch == b.max_batch
}

/// Whether a key names the engine of a job on a lane, with so many slots.
pub open spec fn keys_job(
    key: WhisperServeBatchEngineKey,
    job: WhisperServeBatchJob,
    lane: ExecutionLaneKey,
    max_batch: usize,
) -> bool {
    &&& key.build_identity@ == job.build_identity@
    &&& key.lane == lane
    &&& key.resident_self_positions == job.decoder_state.self_attention.resident_positions
    &&& key.resident_cross_positions == job.decoder_state.cross_attention.resident_positions
    &&& key.hidden_size == job.encoder_hidden_size
    &&& key.uses_scheduler == job.uses_scheduler
    &&& key.max_batch == max_batch
}

/// The engine of a job on a lane, with so many slots.
pub fn engine_key(
    job: &WhisperServeBatchJob,
    lane: ExecutionLaneKey,
    max_batch: usize,
) -> (key: WhisperServeBatchEngineKey)
    ensures
        keys_job(key, *job, lane, max_batch),
{
    WhisperServeBatchEngineKey {
        build_identity: job.build_identity.duplicate(),
        lane,
        resident_self_positions: job.decoder_state.self_attention.resident_positions,
        resident_cross_positions: job.decoder_state.cross_attention.resident_positions,
        hidden_size: job.encoder_hidden_size,
        uses_scheduler: job.uses_scheduler,
        max_batch,
    }
}

pub fn engine_key_backend(key: &WhisperServeBatchEngineKey) -> (backend: GgmlCpuGraphBackend)
    ensures
        backend == key.lane.backend,
{
    key.lane.backend()
}

/// Whether two jobs can run side by side.
pub open spec fn batches_with(a: WhisperServeBatchJob, b: WhisperServeBatchJob) -> bool {
    &&& a.build_identity@ == b.build_identity@
    &&& a.runtime_cache_path@ == b.runtime_cache_path@
    &&& a.backend == b.backend
    &&& a.uses_scheduler == b.uses_scheduler
    &&& config::share_bucket(a.decode_config, b.decode_config)
    &&& a.execution == b.execution
    &&& a.decoder_state == b.decoder_state
}

impl WhisperServeBatchJob {
    pub fn can_batch_with(&self, other: &Self) -> (batches: bool)
        ensures
            batches == batches_with(*self, *other),
    {
        self.build_identity == other.build_identity && self.runtime_cache_path
            == other.runtime_cache_path && self.backend == other.backend && self.uses_scheduler
            == other.uses_scheduler && whisper_serve_decode_configs_can_share_fixed_bucket(
            &self.decode_config,
            &other.decode_config,
        ) && self.execution == other.execution && self.decoder_state == other.decoder_state
    }
}

/// Memory that one slot of a job takes. `estimate` gets the decoder's layers, the resident
/// self-attention rows and their width, the resident cross-attention rows and theirs, and
/// the bytes of an element of each.
pub fn whisper_serve_batch_vram_slot_bytes<E>(job: &WhisperServeBatchJob, estimate: &E) -> (bytes:
    usize) where E: Fn(usize, usize, usize, usize, usize, usize, usize) -> usize
    requires
        forall|a: usize, b: usize, c: usize, d: usize, e: usize, f: usize, g: usize| #[trigger]
            call_requires(*estimate, (a, b, c, d, e, f, g)),
    ensures
        call_ensures(
            *estimate,
            (
                job.execution.decoder_layers,
                job.decoder_state.self_attention.resident_positions,
                job.execution.decoder_hidden_size,
                job.decoder_state.cross_attention.resident_positions,
                job.encoder_hidden_size,
                HALF_PRECISION_BYTES,
                HALF_PRECISION_BYTES,
            ),
            bytes,
        ),
{
    estimate(
        job.execution.decoder_layers,
        job.decoder_state.self_attention.resident_positions,
        job.execution.decoder_hidden_size,
        job.decoder_state.cross_attention.resident_positions,
        job.encoder_hidden_size,
        HALF_PRECISION_BYTES,
        HALF_PRECISION_BYTES,
    )
}

/// Bytes of an element of attention state.
pub const HALF_PRECISION_BYTES: usize = 2;

/// Two jobs that run side by side go to the same engine, on one lane and with as many slots,
/// if their encoders' outputs are equally wide; and whether they run side by side does not
/// depend on which one asks.
pub proof fn law_batched_jobs_share_an_engine(
    a: WhisperServeBatchJob,
    b: WhisperServeBatchJob,
    lane: ExecutionLaneKey,
    max_batch: usize,
    a_key: WhisperServeBatchEngineKey,
    b_key: WhisperServeBatchEngineKey,
)
    requires
        keys_job(a_key, a, lane, max_batch),
        keys_job(b_key, b, lane, max_batch),
    ensures
        batches_with(a, b) == batches_with(b, a),
        batches_with(a, b) && a.encoder_hidden_size == b.encoder_hidden_size ==> same_engine(
            a_key,
            b_key,
        ),
{
}

/// Engines keep apart what must not mix: jobs of one engine have the same build, scheduler
/// and resident state.
pub proof fn law_engines_keep_jobs_apart(
    a: WhisperServeBatchJob,
    b: WhisperServeBatchJob,
    a_lane: ExecutionLaneKey,
    b_lane: ExecutionLaneKey,
    a_batch: usize,
    b_batch: usize,
    a_key: WhisperServeBatchEngineKey,
    b_key: WhisperServeBatchEngineKey,
)
    requires
        keys_job(a_key, a, a_lane, a_batch),
        keys_job(b_key, b, b_lane, b_batch),
        same_engine(a_key, b_key),
    ensures
        a.build_identity@ == b.build_identity@,
        a.uses_scheduler == b.uses_scheduler,
        a.decoder_state.resident() == b.decoder_state.resident(),
        a_lane.backend == b_lane.backend,
        a_batch == b_batch,
        a_lane.device@ == b_lane.device@,
        a.encoder_hidden_size == b.encoder_hidden_size,
        a.decoder_state.self_attention.resident_positions
            == b.decoder_state.self_attention.resident_positions,
        a.decoder_state.cross_attention.resident_positions
            == b.decoder_state.cross_attention.resident_positions,
{
}

/// Nothing else keeps jobs apart: jobs of one build, lane, scheduler and number of slots that
/// keep as many rows resident and whose encoders' outputs are equally wide have one engine.
pub proof fn law_engines_are_shared(
    a: WhisperServeBatchJob,
    b: WhisperServeBatchJob,
    a_lane: ExecutionLaneKey,
    b_lane: ExecutionLaneKey,
    max_batch: usize,
    a_key: WhisperServeBatchEngineKey,
    b_key: WhisperServeBatchEngineKey,
)
    requires
        keys_job(a_key, a, a_lane, max_batch),
        keys_job(b_key, b, b_lane, max_batch),
        a.build_identity@ == b.build_identity@,
        a_lane.backend == b_lane.backend,
        a_lane.device@ == b_lane.device@,
        a.uses_scheduler == b.uses_scheduler,
        a.encoder_hidden_size == b.encoder_hidden_size,
        a.decoder_state.self_attention.resident_positions
            == b.decoder_state.self_attention.resident_positions,
        a.decoder_state.cross_attention.resident_positions
            == b.decoder_state.cross_attention.resident_positions,
    ensures
        same_engine(a_key, b_key),
{
}

/// Jobs run side by side exactly where nothing that the batch has in common differs: the
/// build, the path of its cache, the backend, the scheduler, the sizes of the model, the
/// decoder state, the prompt token for token, the end of text, and the vocabulary. What a job
/// keeps for itself, how long it may run among it, does not matter.
pub proof fn law_batched_jobs_are_alike(a: WhisperServeBatchJob, b: WhisperServeBatchJob)
    ensures
        batches_with(a, b) <==> {
            &&& a.build_identity@ == b.build_identity@
            &&& a.runtime_cache_path@ == b.runtime_cache_path@
            &&& a.backend == b.backend
            &&& a.uses_scheduler == b.uses_scheduler
            &&& a.execution == b.execution
            &&& a.decoder_state == b.decoder_state
            &&& a.decode_config.initial_prompt_tokens@ == b.decode_config.initial_prompt_tokens@
            &&& a.decode_config.eot_token_id == b.decode_config.eot_token_id
            &&& a.decode_config.vocab_size == b.decode_config.vocab_size
        },
{
    config::law_a_bucket_has_one_prompt(a.decode_config, b.decode_config);
    let left = a.decode_config.initial_prompt_tokens@;
    let right = b.decode_config.initial_prompt_tokens@;
    if left.len() == right.len() && forall|i: int| 0 <= i < left.len() ==> left[i] == right[i] {
        assert(left =~= right);
    }
}

/// The runtime of a job keeps the sizes of its model and its state. Flash attention is used
/// only by a single sequence, and only where it is enabled.
pub proof fn law_runtimes_follow_their_job(
    job: WhisperServeBatchJob,
    n_seq: usize,
    self_flash: bool,
    cross_flash: bool,
)
    ensures
        ({
            let plan = runtime_plan(job, n_seq, self_flash, cross_flash);
            &&& plan.n_seq == n_seq
            &&& plan.backend == job.backend
            &&& plan.use_scheduler == job.uses_scheduler
            &&& plan.decoder_layers == job.execution.decoder_layers
            &&& plan.decoder_hidden_size == job.execution.decoder_hidden_size
            &&& plan.vocab_size == job.execution.vocab_size
            &&& plan.semantic_context_positions == job.execution.max_target_positions
            &&& plan.encoder_frames == job.encoder_frames
            &&& plan.encoder_hidden_size == job.execution.encoder_hidden_size
            &&& plan.resident_self_positions == job.decoder_state.self_attention.resident_positions
            &&& plan.decoder_state == job.decoder_state
            &&& plan.token_count >= 1
            &&& job.decode_config.initial_prompt_tokens@.len() >= 1 ==> plan.token_count
                == job.decode_config.initial_prompt_tokens@.len()
            &&& job.decode_config.initial_prompt_tokens@.len() == 0 ==> plan.token_count == 1
            &&& n_seq > 1 ==> !plan.config.use_self_flash_attention
                && !plan.config.use_cross_flash_attention
            &&& n_seq <= 1 ==> plan.config.use_self_flash_attention == self_flash
                && plan.config.use_cross_flash_attention == cross_flash
            &&& plan.config.attention_heads == job.execution.decoder_attention_heads
            &&& !plan.config.collect_cross_attention
            &&& plan.config.layer_norm_epsilon_bits == 0x3727_c5ac
        }),
{
}

/// A job is found to fit only where its prompt and all that it may generate fit the context,
/// and the rows that it needs fit what was planned.
pub proof fn law_a_fitting_job_stays_in_its_context<R: Seq2SeqStateRules>(
    rules: &R,
    job: WhisperServeBatchJob,
)
    ensures
        fits_state(rules, job) ==> job.decode_config.initial_prompt_tokens@.len()
            + job.decode_config.max_generated_tokens <= job.execution.max_target_positions,
        fits_state(rules, job) ==> exists|rows: usize|
            rows <= job.decoder_state.self_attention.logical_positions && #[trigger] call_ensures(
                R::greedy_self_kv_positions,
                (
                    rules,
                    job.decode_config.initial_prompt_tokens.len(),
                    job.decode_config.max_generated_tokens,
                ),
                Ok(rows),
            ),
{
    if fits_state(rules, job) {
        let (rows, cross_resident) = choose|rows: usize, cross_resident: usize|
            #![trigger needs_rows(rules, job, Ok(rows)), strides(rules, job, cross_resident)]
            needs_rows(rules, job, Ok(rows)) && rows
                <= job.decoder_state.self_attention.logical_positions && strides(
                rules,
                job,
                cross_resident,
            ) && state_checked(rules, job, cross_resident, Ok(()));
        assert(needs_rows(rules, job, Ok(rows)));
        assert(call_ensures(
            R::greedy_self_kv_positions,
            (
                rules,
                job.decode_config.initial_prompt_tokens.len(),
                job.decode_config.max_generated_tokens,
            ),
            Ok(rows),
        ));
    }
}

/// A job that fits was looked at in every respect: the rules took its state as a whole; the
/// self-attention under the ceiling of the model's context; and the cross-attention as exactly
/// the encoder's frames, held in as many rows as are kept for those frames.
pub proof fn law_a_fitting_job_passed_every_rule<R: Seq2SeqStateRules>(
    rules: &R,
    job: WhisperServeBatchJob,
) -> (held: usize)
    requires
        fits_state(rules, job),
    ensures
        call_ensures(R::cross_attention_stride_frames, (rules, job.encoder_frames), held),
        call_ensures(R::validate, (rules, &job.decoder_state), Ok(())),
        call_ensures(
            R::validate_runtime_ceiling,
            (
                rules,
                &job.decoder_state.self_attention,
                StateKind::SelfAttentionKv,
                job.execution.max_target_positions,
            ),
            Ok(()),
        ),
        call_ensures(
            R::validate_exact_shape,
            (
                rules,
                &job.decoder_state.cross_attention,
                StateKind::CrossAttentionKv,
                job.encoder_frames,
            ),
            Ok(()),
        ),
        call_ensures(
            R::validate_runtime_ceiling,
            (rules, &job.decoder_state.cross_attention, StateKind::CrossAttentionKv, held),
            Ok(()),
        ),
        call_ensures(
            R::validate_resident_shape,
            (rules, &job.decoder_state.cross_attention, StateKind::CrossAttentionKv, held),
            Ok(()),
        ),
{
    let (rows, held) = choose|rows: usize, cross_resident: usize|
        #![trigger needs_rows(rules, job, Ok(rows)), strides(rules, job, cross_resident)]
        needs_rows(rules, job, Ok(rows)) && rows
            <= job.decoder_state.self_attention.logical_positions && strides(
            rules,
            job,
            cross_resident,
        ) && state_checked(rules, job, cross_resident, Ok(()));
    held
}

/// A job is refused for a reason of its own: what it may generate does not fit the context
/// behind its prompt, or else the rules refused to schedule it, asked for more rows than were
/// planned, or objected to its state.
pub proof fn law_a_job_is_refused_for_a_reason<R: Seq2SeqStateRules>(
    rules: &R,
    job: WhisperServeBatchJob,
    why: Seq<char>,
)
    requires
        misfits_state(rules, job, why),
        job.decode_config.initial_prompt_tokens@.len() + job.decode_config.max_generated_tokens
            <= job.execution.max_target_positions,
        forall|reply: Result<usize, String>| #[trigger]
            call_ensures(
                R::greedy_self_kv_positions,
                (
                    rules,
                    job.decode_config.initial_prompt_tokens.len(),
                    job.decode_config.max_generated_tokens,
                ),
                reply,
            ) ==> (reply matches Ok(rows) && rows
                <= job.decoder_state.self_attention.logical_positions),
    ensures
        exists|reason: String| #[trigger] is_objected(rules, job, reason) && why == reason@,
{
    let (rows, held, reason) = choose|rows: usize, cross_resident: usize, reason: String|
        #![trigger needs_rows(rules, job, Ok(rows)), state_checked(
                rules,
                job,
                cross_resident,
                Err(reason),
            )]
        needs_rows(rules, job, Ok(rows)) && rows
            <= job.decoder_state.self_attention.logical_positions && strides(
            rules,
            job,
            cross_resident,
        ) && state_checked(rules, job, cross_resident, Err(reason)) && why == reason@;
    assert(is_objected(rules, job, reason));
}

/// Whether the rules may object to the state of a job for this reason.
pub open spec fn is_objected<R: Seq2SeqStateRules>(
    rules: &R,
    job: WhisperServeBatchJob,
    reason: String,
) -> bool {
    let state = job.decoder_state;
    ||| call_ensures(R::validate, (rules, &state), Err(reason))
    ||| call_ensures(
        R::validate_runtime_ceiling,
        (
            rules,
            &state.self_attention,
            StateKind::SelfAttentionKv,
            job.execution.max_target_positions,
        ),
        Err(reason),
    )
    ||| call_ensures(
        R::validate_exact_shape,
        (rules, &state.cross_attention, StateKind::CrossAttentionKv, job.encoder_frames),
        Err(reason),
    )
    ||| exists|held: usize| #[trigger]
        call_ensures(R::cross_attention_stride_frames, (rules, job.encoder_frames), held) && (
        call_ensures(
            R::validate_runtime_ceiling,
            (rules, &state.cross_attention, StateKind::CrossAttentionKv, held),
            Err(reason),
        ) || call_ensures(
            R::validate_resident_shape,
            (rules, &state.cross_attention, StateKind::CrossAttentionKv, held),
            Err(reason),
        ))
}

/// A slot is priced by what stays resident for it, in elements of two bytes.
pub proof fn law_slots_are_priced_by_what_stays_resident<E>(
    job: WhisperServeBatchJob,
    estimate: E,
    bytes: usize,
) where E: Fn(usize, usize, usize, usize, usize, usize, usize) -> usize
    requires
        call_ensures(whisper_serve_batch_vram_slot_bytes::<E>, (&job, &estimate), bytes),
    ensures
        call_ensures(
            estimate,
            (
                job.execution.decoder_layers,
                job.decoder_state.self_attention.resident_positions,
                job.execution.decoder_hidden_size,
                job.decoder_state.cross_attention.resident_positions,
                job.encoder_hidden_size,
                2usize,
                2usize,
            ),
            bytes,
        ),
{
}

/// A configuration that was checked against a job, with the slots that it ends up with.
#[derive(Debug, Clone, PartialEq, Eq)]
pub struct ValidatedBatch<G> {
    pub config: G,
    pub max_batch: usize,
}

/// The engines of the batching server. Nothing is promised of what they answer.
pub trait WhisperServeBatchEngineRegistry<G, E, O> {
    fn validate_for_job(&self, config: G, job: &WhisperServeBatchJob) -> Result<
        ValidatedBatch<G>,
        WhisperServeBatchError,
    >;

    /// The lane that a backend executes on.
    fn execution_lane(&self, backend: GgmlCpuGraphBackend) -> ExecutionLaneKey;

    fn engine_for_key(&self, key: &WhisperServeBatchEngineKey, batch: ValidatedBatch<G>) -> Result<
        E,
        WhisperServeBatchError,
    >;

    fn submit(&self, engine: &E, job: WhisperServeBatchJob) -> Result<O, WhisperServeBatchError>;

    /// Drops an engine whose candidate failed, if it did.
    fn evict_after_candidate_failure(&self, key: &WhisperServeBatchEngineKey, engine: &E);
}

/// Whether a configuration may be accepted for a job, and the job keyed so.
pub open spec fn keyed<G, E, O, S: WhisperServeBatchEngineRegistry<G, E, O>>(
    registry: &S,
    config: G,
    job: WhisperServeBatchJob,
    batch: ValidatedBatch<G>,
    key: WhisperServeBatchEngineKey,
) -> bool {
    &&& call_ensures(S::validate_for_job, (registry, config, &job), Ok(batch))
    &&& call_ensures(S::execution_lane, (registry, job.backend), key.lane)
    &&& keys_job(key, job, key.lane, batch.max_batch)
}

/// Hands a job to its engine: checks the configuration, finds the engine by the job's key,
/// submits, and lets the registry drop the engine if its candidate failed.
pub fn submit_whisper_serve_batch_job<G, E, O, S: WhisperServeBatchEngineRegistry<G, E, O>>(
    registry: &S,
    config: G,
    job: WhisperServeBatchJob,
) -> (result: Result<O, WhisperServeBatchError>)
    ensures
        ({
            ||| result matches Err(error) && call_ensures(
                S::validate_for_job,
                (registry, config, &job),
                Err(error),
            )
            ||| exists|batch: ValidatedBatch<G>, key: WhisperServeBatchEngineKey| #[trigger]
                keyed(registry, config, job, batch, key) && (engine_refused(
                    registry,
                    key,
                    batch,
                    result,
                ) || engine_answered(registry, key, batch, job, result))
        }),
{
    let batch: ValidatedBatch<G> = match registry.validate_for_job(config, &job) {
        Ok(batch) => batch,
        Err(error) => {
            return Err(error);
        },
    };
    let lane: ExecutionLaneKey = registry.execution_lane(job.backend);
    let key: WhisperServeBatchEngineKey = engine_key(&job, lane, batch.max_batch);
    assert(keyed(registry, config, job, batch, key));
    let engine: E = match registry.engine_for_key(&key, batch) {
        Ok(engine) => engine,
        Err(error) => {
            return Err(error);
        },
    };
    let result: Result<O, WhisperServeBatchError> = registry.submit(&engine, job);
    let unit: () = registry.evict_after_candidate_failure(&key, &engine);
    assert(unit == ());
    assert(finds_engine(registry, key, batch, engine));
    result
}

/// Whether a key and a configuration may find this engine.
pub open spec fn finds_engine<G, E, O, S: WhisperServeBatchEngineRegistry<G, E, O>>(
    registry: &S,
    key: WhisperServeBatchEngineKey,
    batch: ValidatedBatch<G>,
    engine: E,
) -> bool {
    call_ensures(S::engine_for_key, (registry, &key, batch), Ok(engine))
}

/// Whether a result says that there is no engine.
pub open spec fn engine_refused<G, E, O, S: WhisperServeBatchEngineRegistry<G, E, O>>(
    registry: &S,
    key: WhisperServeBatchEngineKey,
    batch: ValidatedBatch<G>,
    result: Result<O, WhisperServeBatchError>,
) -> bool {
    result matches Err(error) && call_ensures(
        S::engine_for_key,
        (registry, &key, batch),
        Err(error),
    )
}

/// Whether a result is what an engine answered, with the registry told of it.
pub open spec fn engine_answered<G, E, O, S: WhisperServeBatchEngineRegistry<G, E, O>>(
    registry: &S,
    key: WhisperServeBatchEngineKey,
    batch: ValidatedBatch<G>,
    job: WhisperServeBatchJob,
    result: Result<O, WhisperServeBatchError>,
) -> bool {
    exists|engine: E| #[trigger]
        finds_engine(registry, key, batch, engine) && call_ensures(
            S::submit,
            (registry, &engine, job),
            result,
        ) && call_ensures(S::evict_after_candidate_failure, (registry, &key, &engine), ())
}

/// A job that was answered was accepted with its configuration, and its engine was the one of
/// its build, its scheduler, what stays resident for it and the width of its encoder's output,
/// on the lane of its backend, with as many slots as were accepted. The registry was told
/// afterwards which engine had answered.
pub proof fn law_a_job_is_answered_by_its_own_engine<
    G,
    E,
    O,
    S: WhisperServeBatchEngineRegistry<G, E, O>,
>(registry: &S, config: G, job: WhisperServeBatchJob, reply: O) -> (by: (
    ValidatedBatch<G>,
    WhisperServeBatchEngineKey,
    E,
))
    requires
        call_ensures(
            submit_whisper_serve_batch_job::<G, E, O, S>,
            (registry, config, job),
            Ok(reply),
        ),
    ensures
        call_ensures(S::validate_for_job, (registry, config, &job), Ok(by.0)),
        call_ensures(S::execution_lane, (registry, job.backend), by.1.lane),
        by.1.build_identity@ == job.build_identity@,
        by.1.uses_scheduler == job.uses_scheduler,
        by.1.resident_self_positions == job.decoder_state.self_attention.resident_positions,
        by.1.resident_cross_positions == job.decoder_state.cross_attention.resident_positions,
        by.1.hidden_size == job.encoder_hidden_size,
        by.1.max_batch == by.0.max_batch,
        call_ensures(S::engine_for_key, (registry, &by.1, by.0), Ok(by.2)),
        call_ensures(S::submit, (registry, &by.2, job), Ok(reply)),
        call_ensures(S::evict_after_candidate_failure, (registry, &by.1, &by.2), ()),
{
    let result = Ok::<O, WhisperServeBatchError>(reply);
    let (batch, key) = choose|batch: ValidatedBatch<G>, key: WhisperServeBatchEngineKey| #[trigger]
        keyed(registry, config, job, batch, key) && (engine_refused(registry, key, batch, result)
            || engine_answered(registry, key, batch, job, result));
    let engine = choose|engine: E| #[trigger]
        finds_engine(registry, key, batch, engine) && call_ensures(
            S::submit,
            (registry, &engine, job),
            result,
        ) && call_ensures(S::evict_after_candidate_failure, (registry, &key, &engine), ());
    (batch, key, engine)
}

/// A runtime takes a job only where it holds as many rows of either attention as were planned
/// for the job, and the job fits its own state; and so does it take the encoder's output.
pub proof fn law_runtimes_take_what_they_were_built_for<R: Seq2SeqStateRules>(
    rules: &R,
    built: Seq2SeqDecoderState,
    job: WhisperServeBatchJob,
    result: Result<(), WhisperServeBatchError>,
)
    requires
        call_ensures(configure_for_job::<R>, (rules, &built, &job), result) || call_ensures(
            admit_cross_attention::<R>,
            (rules, &built, &job),
            result,
        ),
    ensures
        result is Ok ==> fits_state(rules, job)
            && job.decoder_state.self_attention.resident_positions
            == built.self_attention.resident_positions
            && job.decoder_state.cross_attention.resident_positions
            == built.cross_attention.resident_positions,
        result is Err && job.decoder_state.self_attention.resident_positions
            == built.self_attention.resident_positions
            && job.decoder_state.cross_attention.resident_positions
            == built.cross_attention.resident_positions ==> misfits_state(
            rules,
            job,
            result->Err_0->DecodeFailed_reason@,
        ),
{
}

} // verus!
