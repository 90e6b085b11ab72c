//! What a caller asks of one execution.

use vstd::prelude::*;
use vstd::string::*;

use crate::longform::options::{LongFormMode, LongFormOptions};
use crate::models::identity::{BuildIdentity, RuntimeBuildIdentity};
use crate::text;
use crate::text::copied_text;

verus! {

/// Speech task.
#[derive(Debug, Clone, Copy, PartialEq, Eq, Structural)]
pub enum TranscriptionTask {
    Transcribe,
    Translate,
}

/// One phrase that decoding is biased towards; the boost is a single-precision bit
/// pattern.
#[derive(Debug, Clone, PartialEq, Eq)]
pub struct PhraseBias {
    pub phrase: String,
    pub boost_bits: u32,
}

/// Phrases that decoding is biased towards.
#[derive(Debug, Clone, PartialEq, Eq)]
pub struct PhraseBiasConfig {
    pub phrases: Vec<PhraseBias>,
}

/// How many requests a server decodes together.
#[derive(Debug, Clone, Copy, PartialEq, Eq, Structural)]
pub struct ServeBatchPolicy {
    pub max_batch: usize,
}

impl ServeBatchPolicy {
    /// One request at a time.
    pub fn serial() -> (policy: Self)
        ensures
            policy == (ServeBatchPolicy { max_batch: 1 }),
    {
        ServeBatchPolicy { max_batch: 1 }
    }
}

/// What a caller asks of one execution.
#[derive(Debug, Clone, PartialEq, Eq)]
pub struct GgmlAsrExecutionOptions {
    pub language: Option<String>,
    pub task: TranscriptionTask,
    pub prompt: Option<String>,
    pub prompt_token_ids: Option<Vec<u32>>,
    pub phrase_bias: Option<PhraseBiasConfig>,
    pub inference_threads: Option<usize>,
    pub word_timestamps: bool,
    /// Word timestamps were forced on only to anchor diarization.
    pub word_timestamps_forced_for_diarization: bool,
    /// The family's own decode carries speaker structure.
    pub in_decoder_speakers: bool,
    pub longform: Option<LongFormOptions>,
    pub longform_chunk_count_hint: Option<usize>,
    /// Multi-chunk long-form on Metal should use the CPU decoder.
    pub auto_prefer_cpu_decoder_for_multichunk_metal: bool,
    pub serve_batch: ServeBatchPolicy,
    /// Verified cache identity; executors must not substitute a path.
    pub runtime_build_identity: Option<RuntimeBuildIdentity>,
    /// Path of the request's adapter pack.
    pub adapter_path: Option<String>,
}

/// A [`PhraseBias`] as a value.
#[verifier::ext_equal]
pub struct Bias {
    pub phrase: Seq<char>,
    pub boost_bits: u32,
}

/// [`GgmlAsrExecutionOptions`] as a value.
#[verifier::ext_equal]
pub struct ExecutionOptions {
    pub language: Option<Seq<char>>,
    pub task: TranscriptionTask,
    pub prompt: Option<Seq<char>>,
    pub prompt_token_ids: Option<Seq<u32>>,
    pub phrase_bias: Option<Seq<Bias>>,
    pub inference_threads: Option<usize>,
    pub word_timestamps: bool,
    pub word_timestamps_forced_for_diarization: bool,
    pub in_decoder_speakers: bool,
    pub longform: Option<LongFormOptions>,
    pub longform_chunk_count_hint: Option<usize>,
    pub auto_prefer_cpu_decoder_for_multichunk_metal: bool,
    pub serve_batch: ServeBatchPolicy,
    pub runtime_build_identity: Option<BuildIdentity>,
    pub adapter_path: Option<Seq<char>>,
}

impl View for PhraseBiasConfig {
    type V = Seq<Bias>;

    open spec fn view(&self) -> Seq<Bias> {
        Seq::new(
            self.phrases@.len(),
            |i: int|
                Bias { phrase: self.phrases@[i].phrase@, boost_bits: self.phrases@[i].boost_bits },
        )
    }
}

impl View for GgmlAsrExecutionOptions {
    type V = ExecutionOptions;

    open spec fn view(&self) -> ExecutionOptions {
        ExecutionOptions {
            language: text::optional_text(self.language),
            task: self.task,
            prompt: text::optional_text(self.prompt),
            prompt_token_ids: match self.prompt_token_ids {
                Some(ids) => Some(ids@),
                None => None,
            },
            phrase_bias: match self.phrase_bias {
                Some(bias) => Some(bias@),
                None => None,
            },
            inference_threads: self.inference_threads,
            word_timestamps: self.word_timestamps,
            word_timestamps_forced_for_diarization: self.word_timestamps_forced_for_diarization,
            in_decoder_speakers: self.in_decoder_speakers,
            longform: self.longform,
            longform_chunk_count_hint: self.longform_chunk_count_hint,
            auto_prefer_cpu_decoder_for_multichunk_metal:
                self.auto_prefer_cpu_decoder_for_multichunk_metal,
            serve_batch: self.serve_batch,
            runtime_build_identity: match self.runtime_build_identity {
                Some(identity) => Some(identity@),
                None => None,
            },
            adapter_path: text::optional_text(self.adapter_path),
        }
    }
}

/// The options of a transcription request: everything but what the request names is off.
pub open spec fn request_options(
    language: Option<Seq<char>>,
    prompt: Option<Seq<char>>,
    phrase_bias: Option<Seq<Bias>>,
    longform: Option<LongFormOptions>,
) -> ExecutionOptions {
    ExecutionOptions {
        language,
        task: TranscriptionTask::Transcribe,
        prompt,
        prompt_token_ids: None,
        phrase_bias,
        inference_threads: None,
        word_timestamps: false,
        word_timestamps_forced_for_diarization: false,
        in_decoder_speakers: false,
        longform,
        longform_chunk_count_hint: None,
        auto_prefer_cpu_decoder_for_multichunk_metal: false,
        serve_batch: ServeBatchPolicy { max_batch: 1 },
        runtime_build_identity: None,
        adapter_path: None,
    }
}

impl ExecutionOptions {
    /// Whether long recordings are cut into slices.
    pub open spec fn longform_on(self) -> bool {
        self.longform matches Some(options) && options.mode != LongFormMode::Off
    }

    /// Whether the prompt is carried from slice to slice.
    pub open spec fn carries_prompt(self) -> bool {
        self.longform_on() && self.longform->Some_0.carry_prompt_across_slices
    }

    /// Most prompt tokens that a slice may inherit.
    pub open spec fn carried_tokens(self) -> usize {
        if self.carries_prompt() {
            self.longform->Some_0.max_context_tokens
        } else {
            0
        }
    }
}

impl Default for GgmlAsrExecutionOptions {
    fn default() -> (options: Self)
        ensures
            options@ == request_options(None, None, None, None),
    {
        GgmlAsrExecutionOptions::from_transcription_request(None, None, None)
    }
}

impl GgmlAsrExecutionOptions {
    /// Whether long recordings are cut into slices.
    pub fn longform_mode_enabled(&self) -> (enabled: bool)
        ensures
            enabled == self@.longform_on(),
    {
        match &self.longform {
            Some(options) => options.mode != LongFormMode::Off,
            None => false,
        }
    }

    /// Whether the prompt is carried from slice to slice.
    pub fn longform_prompt_carry_enabled(&self) -> (enabled: bool)
        ensures
            enabled == self@.carries_prompt(),
    {
        self.longform_mode_enabled() && match &self.longform {
            Some(options) => options.carry_prompt_across_slices,
            None => false,
        }
    }

    /// Most prompt tokens that a slice may inherit: none where no prompt is carried.
    pub fn max_longform_prompt_tokens(&self) -> (tokens: usize)
        ensures
            tokens == self@.carried_tokens(),
    {
        if !self.longform_prompt_carry_enabled() {
            return 0;
        }
        match &self.longform {
            Some(options) => options.max_context_tokens,
            None => 0,
        }
    }

    pub fn from_transcription_request(
        language: Option<String>,
        prompt: Option<String>,
        longform: Option<LongFormOptions>,
    ) -> (options: Self)
        ensures
            options@ == request_options(
                text::optional_text(language),
                text::optional_text(prompt),
                None,
                longform,
            ),
    {
        Self::from_transcription_request_with_phrase_bias(language, prompt, None, longform)
    }

    pub fn from_transcription_request_with_phrase_bias(
        language: Option<String>,
        prompt: Option<String>,
        phrase_bias: Option<PhraseBiasConfig>,
        longform: Option<LongFormOptions>,
    ) -> (options: Self)
        ensures
            options@ == request_options(
                text::optional_text(language),
                text::optional_text(prompt),
                match phrase_bias {
                    Some(bias) => Some(bias@),
                    None => None,
                },
                longform,
            ),
    {
        GgmlAsrExecutionOptions {
            language,
            task: TranscriptionTask::Transcribe,
            prompt,
            prompt_token_ids: None,
            phrase_bias,
            inference_threads: None,
            word_timestamps: false,
            word_timestamps_forced_for_diarization: false,
            in_decoder_speakers: false,
            longform,
            longform_chunk_count_hint: None,
            auto_prefer_cpu_decoder_for_multichunk_metal: false,
            serve_batch: ServeBatchPolicy::serial(),
            runtime_build_identity: None,
            adapter_path: None,
        }
    }

    /// A copy.
    pub(crate) fn duplicate(&self) -> (copy: Self)
        ensures
            copy@ == self@,
    {
        GgmlAsrExecutionOptions {
            language: copied_text(&self.language),
            task: self.task,
            prompt: copied_text(&self.prompt),
            prompt_token_ids: match &self.prompt_token_ids {
                Some(ids) => Some(copied_ids(ids)),
                None => None,
            },
            phrase_bias: match &self.phrase_bias {
                Some(bias) => Some(bias.duplicate()),
                None => None,
            },
            inference_threads: self.inference_threads,
            word_timestamps: self.word_timestamps,
            word_timestamps_forced_for_diarization: self.word_timestamps_forced_for_diarization,
            in_decoder_speakers: self.in_decoder_speakers,
            longform: self.longform,
            longform_chunk_count_hint: self.longform_chunk_count_hint,
            auto_prefer_cpu_decoder_for_multichunk_metal:
                self.auto_prefer_cpu_decoder_for_multichunk_metal,
            serve_batch: self.serve_batch,
            runtime_build_identity: match &self.runtime_build_identity {
                Some(identity) => Some(identity.duplicate()),
                None => None,
            },
            adapter_path: copied_text(&self.adapter_path),
        }
    }
}

impl PhraseBiasConfig {
    /// A copy.
    pub(crate) fn duplicate(&self) -> (copy: Self)
        ensures
            copy@ == self@,
    {
        let mut phrases: Vec<PhraseBias> = Vec::new();
        let mut at: usize = 0;
        while at < self.phrases.len()
            invariant
                at <= self.phrases.len(),
                phrases.len() == at,
                forall|i: int|
                    0 <= i < at ==> (#[trigger] phrases@[i]).phrase@ == self.phrases@[i].phrase@
                        && phrases@[i].boost_bits == self.phrases@[i].boost_bits,
            decreases self.phrases.len() - at,
        {
            let bias: &PhraseBias = &self.phrases[at];
            phrases.push(PhraseBias { phrase: bias.phrase.clone(), boost_bits: bias.boost_bits });
            at = at + 1;
        }
        let copy = PhraseBiasConfig { phrases };
        assert(copy@ =~= self@);
        copy
    }
}

/// A copy of token ids.
pub(crate) fn copied_ids(ids: &Vec<u32>) -> (copy: Vec<u32>)
    ensures
        copy@ == ids@,
{
    let mut copy: Vec<u32> = Vec::new();
    copy.extend_from_slice(ids.as_slice());
    assert(copy@ =~= ids@);
    copy
}

/// A request without long-form mode carries no prompt, and one that carries none
/// inherits no tokens; one that does inherits as many as its settings say.
pub proof fn law_prompt_carry_needs_longform(options: ExecutionOptions)
    ensures
        !options.longform_on() ==> !options.carries_prompt(),
        !options.carries_prompt() ==> options.carried_tokens() == 0,
        options.longform is None ==> !options.longform_on() && options.carried_tokens() == 0,
        options.longform matches Some(longform) ==> {
            &&& options.longform_on() <==> longform.mode != LongFormMode::Off
            &&& longform.mode != LongFormMode::Off && longform.carry_prompt_across_slices
                ==> options.carries_prompt() && options.carried_tokens()
                == longform.max_context_tokens
            &&& longform.mode == LongFormMode::Off || !longform.carry_prompt_across_slices
                ==> options.carried_tokens() == 0
        },
{
}

/// A transcription request asks for what it names and for nothing else.
pub proof fn law_requests_ask_for_what_they_name(
    language: Option<Seq<char>>,
    prompt: Option<Seq<char>>,
    phrase_bias: Option<Seq<Bias>>,
    longform: Option<LongFormOptions>,
)
    ensures
        ({
            let options = request_options(language, prompt, phrase_bias, longform);
            &&& options.language == language
            &&& options.prompt == prompt
            &&& options.phrase_bias == phrase_bias
            &&& options.longform == longform
            &&& options.task == TranscriptionTask::Transcribe
            &&& options.prompt_token_ids is None
            &&& options.inference_threads is None
            &&& !options.word_timestamps
            &&& !options.word_timestamps_forced_for_diarization
            &&& !options.in_decoder_speakers
            &&& options.longform_chunk_count_hint is None
            &&& !options.auto_prefer_cpu_decoder_for_multichunk_metal
            &&& options.serve_batch.max_batch == 1
            &&& options.runtime_build_identity is None
            &&& options.adapter_path is None
        }),
{
}

} // verus!
