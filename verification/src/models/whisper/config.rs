//! How jobs are decoded: token policy, graph execution and batch sizes.

use vstd::prelude::*;
use vstd::string::*;

use crate::models::backend::GgmlBackendCapabilities;
use crate::models::options::PhraseBiasConfig;
use crate::models::whisper::error;
use crate::models::whisper::error::{failed_decode, WhisperServeBatchError};

verus! {

/// Most slots that a batch can have.
pub const WHISPER_SERVE_BATCH_MAX_BATCH_LIMIT: usize = 8;

/// The layer-norm epsilon of the decoder, 1e-5, as the bits of a single-precision number.
pub const LAYER_NORM_EPSILON_BITS: u32 = 0x3727_c5ac;

/// What a greedy decode starts from and what it may pick.
#[derive(Debug, Clone, PartialEq, Eq)]
pub struct Seq2SeqGreedyDecodeConfig {
    pub initial_prompt_tokens: Vec<u32>,
    pub eot_token_id: u32,
    pub vocab_size: usize,
    pub max_generated_tokens: usize,
    /// Never picked in the first step.
    pub suppress_first_step_token_ids: Vec<u32>,
    /// Never picked.
    pub suppress_token_ids: Vec<u32>,
}

/// What a decode policy is asked to configure.
#[derive(Debug, Clone, PartialEq, Eq)]
pub struct Seq2SeqDecodePolicyConfigInput {
    pub initial_prompt_tokens: Vec<u32>,
    pub eot_token_id: u32,
    pub vocab_size: usize,
    pub max_generated_tokens: usize,
}

/// The ids of a list but one, in order.
pub open spec fn all_but(ids: Seq<u32>, id: u32) -> Seq<u32>
    decreases ids.len(),
{
    if ids.len() == 0 {
        Seq::empty()
    } else if ids.last() == id {
        all_but(ids.drop_last(), id)
    } else {
        all_but(ids.drop_last(), id).push(ids.last())
    }
}

/// The whisper policy: no special token but the end of text is ever picked, and the end of
/// text not in the first step, so that a decode says something.
pub fn whisper_decode_policy_config(
    input: Seq2SeqDecodePolicyConfigInput,
    special_token_ids: &Vec<u32>,
) -> (config: Seq2SeqGreedyDecodeConfig)
    ensures
        config.initial_prompt_tokens == input.initial_prompt_tokens,
        config.eot_token_id == input.eot_token_id,
        config.vocab_size == input.vocab_size,
        config.max_generated_tokens == input.max_generated_tokens,
        config.suppress_first_step_token_ids@ == seq![input.eot_token_id],
        config.suppress_token_ids@ == all_but(special_token_ids@, input.eot_token_id),
{
    let mut suppressed: Vec<u32> = Vec::new();
    let mut at: usize = 0;
    while at < special_token_ids.len()
        invariant
            at <= special_token_ids.len(),
            suppressed@ == all_but(special_token_ids@.take(at as int), input.eot_token_id),
        decreases special_token_ids.len() - at,
    {
        let id: u32 = special_token_ids[at];
        if id != input.eot_token_id {
            suppressed.push(id);
        }
        at = at + 1;
        proof {
            let seen = special_token_ids@.take(at as int);
            assert(seen.drop_last() =~= special_token_ids@.take(at - 1));
            assert(seen.last() == id);
        }
    }
    assert(special_token_ids@.take(at as int) =~= special_token_ids@);
    let first: Vec<u32> = vec![input.eot_token_id];
    assert(first@ =~= seq![input.eot_token_id]);
    Seq2SeqGreedyDecodeConfig {
        initial_prompt_tokens: input.initial_prompt_tokens,
        eot_token_id: input.eot_token_id,
        vocab_size: input.vocab_size,
        max_generated_tokens: input.max_generated_tokens,
        suppress_first_step_token_ids: first,
        suppress_token_ids: suppressed,
    }
}

/// The end of text is the only special token that a whisper decode can pick.
pub proof fn law_only_the_end_of_text_is_left(special_token_ids: Seq<u32>, eot_token_id: u32)
    ensures
        forall|id: u32|
            #![trigger all_but(special_token_ids, eot_token_id).contains(id)]
            all_but(special_token_ids, eot_token_id).contains(id) <==> (
            special_token_ids.contains(id) && id != eot_token_id),
    decreases special_token_ids.len(),
{
    let left = all_but(special_token_ids, eot_token_id);
    if special_token_ids.len() > 0 {
        let before = special_token_ids.drop_last();
        let last = special_token_ids.last();
        law_only_the_end_of_text_is_left(before, eot_token_id);
        let left_before = all_but(before, eot_token_id);
        assert forall|id: u32| #![trigger left.contains(id)]
            left.contains(id) <==> (special_token_ids.contains(id) && id != eot_token_id) by {
            assert(special_token_ids =~= before.push(last));
            assert(special_token_ids.contains(id) <==> (before.contains(id) || id == last)) by {
                if before.contains(id) {
                    let i = choose|i: int| 0 <= i < before.len() && before[i] == id;
                    assert(special_token_ids[i] == id);
                }
                if special_token_ids.contains(id) {
                    let i = choose|i: int|
                        0 <= i < special_token_ids.len() && special_token_ids[i] == id;
                    if i < before.len() {
                        assert(before[i] == id);
                    }
                }
                assert(special_token_ids[before.len() as int] == last);
            }
            if last != eot_token_id {
                assert(left == left_before.push(last));
                if left_before.contains(id) {
                    let i = choose|i: int| 0 <= i < left_before.len() && left_before[i] == id;
                    assert(left[i] == id);
                }
                if left.contains(id) {
                    let i = choose|i: int| 0 <= i < left.len() && left[i] == id;
                    if i < left_before.len() {
                        assert(left_before[i] == id);
                    }
                }
                assert(left[left_before.len() as int] == last);
            }
        }
    }
}

/// Configures the decode of one job with its family's policy. `policy` is what the registry
/// of policies says; `build` configures with it.
pub fn whisper_serve_batch_decode_config<D, B>(
    initial_prompt_tokens: Vec<u32>,
    eot_token_id: u32,
    vocab_size: usize,
    max_generated_tokens: usize,
    phrase_bias: Option<&PhraseBiasConfig>,
    policy: Result<D, String>,
    build: B,
) -> (result: Result<Seq2SeqGreedyDecodeConfig, WhisperServeBatchError>) where
    B: FnOnce(D, Seq2SeqDecodePolicyConfigInput, Option<&PhraseBiasConfig>) -> Result<
        Seq2SeqGreedyDecodeConfig,
        String,
    >,

    requires
        forall|resolved: D, input: Seq2SeqDecodePolicyConfigInput| #[trigger]
            call_requires(build, (resolved, input, phrase_bias)),
    ensures
        match policy {
            Err(reason) => result matches Err(error) && error::decode_failed(error, reason@),
            Ok(resolved) => {
                let input = Seq2SeqDecodePolicyConfigInput {
                    initial_prompt_tokens,
                    eot_token_id,
                    vocab_size,
                    max_generated_tokens,
                };
                match result {
                    Ok(config) => call_ensures(build, (resolved, input, phrase_bias), Ok(config)),
                    Err(error) => exists|reason: String| #[trigger]
                        call_ensures(build, (resolved, input, phrase_bias), Err(reason))
                            && error::decode_failed(error, reason@),
                }
            },
        },
{
    let resolved: D = match policy {
        Ok(resolved) => resolved,
        Err(reason) => {
            return Err(failed_decode(reason.as_str()));
        },
    };
    let input = Seq2SeqDecodePolicyConfigInput {
        initial_prompt_tokens,
        eot_token_id,
        vocab_size,
        max_generated_tokens,
    };
    match build(resolved, input, phrase_bias) {
        Ok(config) => Ok(config),
        Err(reason) => Err(failed_decode(reason.as_str())),
    }
}

/// Whether two ids lists are the same.
fn same_ids(a: &Vec<u32>, b: &Vec<u32>) -> (same: bool)
    ensures
        same == (a@ == b@),
{
    if a.len() != b.len() {
        return false;
    }
    let mut at: usize = 0;
    while at < a.len()
        invariant
            at <= a.len(),
            a.len() == b.len(),
            forall|i: int| 0 <= i < at ==> a@[i] == b@[i],
        decreases a.len() - at,
    {
        if a[at] != b[at] {
            return false;
        }
        at = at + 1;
    }
    assert(a@ =~= b@);
    true
}

/// Whether two decodes can run in one fixed bucket: they start from the same prompt, stop at
/// the same token and pick from the same vocabulary. How long they may run is their own.
pub open spec fn share_bucket(
    left: Seq2SeqGreedyDecodeConfig,
    right: Seq2SeqGreedyDecodeConfig,
) -> bool {
    &&& left.initial_prompt_tokens@ == right.initial_prompt_tokens@
    &&& left.eot_token_id == right.eot_token_id
    &&& left.vocab_size == right.vocab_size
}

pub fn whisper_serve_decode_configs_can_share_fixed_bucket(
    left: &Seq2SeqGreedyDecodeConfig,
    right: &Seq2SeqGreedyDecodeConfig,
) -> (share: bool)
    ensures
        share == share_bucket(*left, *right),
{
    same_ids(&left.initial_prompt_tokens, &right.initial_prompt_tokens) && left.eot_token_id
        == right.eot_token_id && left.vocab_size == right.vocab_size
}

/// How a decoder graph is executed.
#[derive(Debug, Clone, Copy, PartialEq, Eq, Structural)]
pub struct WhisperDecoderGraphExecutionConfig {
    pub attention_heads: usize,
    pub use_self_flash_attention: bool,
    pub use_cross_flash_attention: bool,
    pub collect_cross_attention: bool,
    /// As the bits of a single-precision number.
    pub layer_norm_epsilon_bits: u32,
}

/// How the decoder graph of a batch is executed. Flash attention can drift with several
/// sequences in a graph, so a batch of more than one runs without; a serial decode follows
/// what is enabled.
pub fn whisper_serve_batch_decoder_graph_execution_config(
    attention_heads: usize,
    n_seq: usize,
    self_flash_attention_enabled: bool,
    cross_flash_attention_enabled: bool,
) -> (config: WhisperDecoderGraphExecutionConfig)
    ensures
        config == (WhisperDecoderGraphExecutionConfig {
            attention_heads,
            use_self_flash_attention: n_seq <= 1 && self_flash_attention_enabled,
            use_cross_flash_attention: n_seq <= 1 && cross_flash_attention_enabled,
            collect_cross_attention: false,
            layer_norm_epsilon_bits: LAYER_NORM_EPSILON_BITS,
        }),
{
    let batched_slots: bool = n_seq > 1;
    WhisperDecoderGraphExecutionConfig {
        attention_heads,
        use_self_flash_attention: !batched_slots && self_flash_attention_enabled,
        use_cross_flash_attention: !batched_slots && cross_flash_attention_enabled,
        collect_cross_attention: false,
        layer_norm_epsilon_bits: LAYER_NORM_EPSILON_BITS,
    }
}

/// Slots that a batch gets on a device: one on Vulkan, where several sequences can come out
/// empty, else as many as configured.
pub open spec fn effective_max_batch(
    configured_max_batch: usize,
    capabilities: GgmlBackendCapabilities,
) -> usize {
    if capabilities.vulkan {
        1
    } else {
        configured_max_batch
    }
}

pub fn whisper_serve_batch_effective_max_batch_for_capabilities(
    configured_max_batch: usize,
    capabilities: GgmlBackendCapabilities,
) -> (max_batch: usize)
    ensures
        max_batch == effective_max_batch(configured_max_batch, capabilities),
{
    if capabilities.is_vulkan() {
        1
    } else {
        configured_max_batch
    }
}

/// Slots that a batch gets once memory has capped them, on the device that was resolved for
/// the job.
pub fn effective_max_batch_after_vram_cap(
    capped_max_batch: usize,
    capabilities: Result<GgmlBackendCapabilities, String>,
) -> (result: Result<usize, WhisperServeBatchError>)
    ensures
        match capabilities {
            Ok(known) => result == Ok::<_, WhisperServeBatchError>(
                effective_max_batch(capped_max_batch, known),
            ),
            Err(reason) => result matches Err(error) && error::decode_failed(
                error,
                "could not resolve whisper serve-batch backend capabilities: "@ + reason@,
            ),
        },
{
    match capabilities {
        Ok(known) => Ok(
            whisper_serve_batch_effective_max_batch_for_capabilities(capped_max_batch, known),
        ),
        Err(reason) => {
            let mut why: String =
                "could not resolve whisper serve-batch backend capabilities: ".to_owned();
            why.append(reason.as_str());
            Err(WhisperServeBatchError::DecodeFailed { reason: why })
        },
    }
}

/// Sharing a bucket sorts decodes into classes: it is reflexive, symmetric and transitive,
/// and does not look at how long a decode may run.
pub proof fn law_buckets_are_classes(
    a: Seq2SeqGreedyDecodeConfig,
    b: Seq2SeqGreedyDecodeConfig,
    c: Seq2SeqGreedyDecodeConfig,
    max_generated_tokens: usize,
)
    ensures
        share_bucket(a, a),
        share_bucket(a, b) == share_bucket(b, a),
        share_bucket(a, b) && share_bucket(b, c) ==> share_bucket(a, c),
        share_bucket(a, b) == share_bucket(
            Seq2SeqGreedyDecodeConfig { max_generated_tokens, ..a },
            b,
        ),
{
}

/// Two decodes share a bucket exactly where their prompts are the same, token for token, and
/// so are the token that ends them and the size of their vocabulary.
pub proof fn law_a_bucket_has_one_prompt(
    left: Seq2SeqGreedyDecodeConfig,
    right: Seq2SeqGreedyDecodeConfig,
)
    ensures
        share_bucket(left, right) <==> {
            &&& left.initial_prompt_tokens@.len() == right.initial_prompt_tokens@.len()
            &&& forall|i: int|
                0 <= i < left.initial_prompt_tokens@.len() ==> left.initial_prompt_tokens@[i]
                    == right.initial_prompt_tokens@[i]
            &&& left.eot_token_id == right.eot_token_id
            &&& left.vocab_size == right.vocab_size
        },
{
    let a = left.initial_prompt_tokens@;
    let b = right.initial_prompt_tokens@;
    if a.len() == b.len() && forall|i: int| 0 <= i < a.len() ==> a[i] == b[i] {
        assert(a =~= b);
    }
}

/// Slots on a device are as many as configured, but one where it is Vulkan.
pub proof fn law_vulkan_decodes_one_by_one(
    configured_max_batch: usize,
    capabilities: GgmlBackendCapabilities,
)
    ensures
        capabilities.vulkan ==> effective_max_batch(configured_max_batch, capabilities) == 1,
        !capabilities.vulkan ==> effective_max_batch(configured_max_batch, capabilities)
            == configured_max_batch,
{
}

/// Each special token is suppressed for itself, whatever stands round it: a list is suppressed
/// part by part and in order, a token by itself is, and the end of text is not.
pub proof fn law_each_special_token_is_suppressed_for_itself(
    front: Seq<u32>,
    back: Seq<u32>,
    id: u32,
    eot_token_id: u32,
)
    ensures
        all_but(front + back, eot_token_id) == all_but(front, eot_token_id) + all_but(
            back,
            eot_token_id,
        ),
        id != eot_token_id ==> all_but(seq![id], eot_token_id) == seq![id],
        all_but(seq![eot_token_id], eot_token_id) == Seq::<u32>::empty(),
    decreases back.len(),
{
    assert(seq![id].drop_last() =~= Seq::<u32>::empty());
    assert(seq![eot_token_id].drop_last() =~= Seq::<u32>::empty());
    assert(all_but(Seq::<u32>::empty(), eot_token_id) =~= Seq::<u32>::empty());
    assert(id != eot_token_id ==> all_but(seq![id], eot_token_id) =~= seq![id]);
    if back.len() == 0 {
        assert(front + back =~= front);
        assert(all_but(back, eot_token_id) =~= Seq::<u32>::empty());
        assert(all_but(front, eot_token_id) + all_but(back, eot_token_id) =~= all_but(
            front,
            eot_token_id,
        ));
    } else {
        law_each_special_token_is_suppressed_for_itself(front, back.drop_last(), id, eot_token_id);
        assert((front + back).drop_last() =~= front + back.drop_last());
        assert((front + back).last() == back.last());
        assert(all_but(front + back, eot_token_id) =~= all_but(front, eot_token_id) + all_but(
            back,
            eot_token_id,
        ));
    }
}

/// A whisper decode keeps what it was asked for, cannot end in its first step, and can end in
/// every later one; no other special token is ever picked.
pub proof fn law_a_decode_says_something_before_it_ends(
    input: Seq2SeqDecodePolicyConfigInput,
    special_token_ids: Vec<u32>,
    config: Seq2SeqGreedyDecodeConfig,
    id: u32,
)
    requires
        call_ensures(whisper_decode_policy_config, (input, &special_token_ids), config),
    ensures
        config.initial_prompt_tokens@ == input.initial_prompt_tokens@,
        config.eot_token_id == input.eot_token_id,
        config.vocab_size == input.vocab_size,
        config.max_generated_tokens == input.max_generated_tokens,
        config.suppress_first_step_token_ids@.contains(id) <==> id == input.eot_token_id,
        config.suppress_token_ids@.contains(id) <==> special_token_ids@.contains(id) && id
            != input.eot_token_id,
{
    law_only_the_end_of_text_is_left(special_token_ids@, input.eot_token_id);
    assert(config.suppress_first_step_token_ids@[0] == input.eot_token_id);
}

/// Memory does not lift what a device allows: a capped batch stays as it is, but for Vulkan,
/// where it is one; and there is no batch on a device that could not be resolved.
pub proof fn law_capped_batches_follow_their_device(
    capped_max_batch: usize,
    capabilities: Result<GgmlBackendCapabilities, String>,
    result: Result<usize, WhisperServeBatchError>,
)
    requires
        call_ensures(effective_max_batch_after_vram_cap, (capped_max_batch, capabilities), result),
    ensures
        capabilities is Err <==> result is Err,
        capabilities matches Ok(known) ==> result == Ok::<usize, WhisperServeBatchError>(
            if known.vulkan {
                1
            } else {
                capped_max_batch
            },
        ),
{
}

} // verus!
