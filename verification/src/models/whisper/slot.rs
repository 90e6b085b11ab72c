//! One decode under way.

use vstd::prelude::*;
use vstd::string::*;

use crate::models::whisper::config::Seq2SeqGreedyDecodeConfig;
use crate::models::whisper::error;
use crate::models::whisper::error::{failed_decode, WhisperServeBatchError};
use crate::models::whisper::finish;
use crate::models::whisper::finish::{
    finish_whisper_serve_batch_output, Seq2SeqGreedyDecodeStopReason, WhisperExecutionOutput,
};
use crate::models::whisper::job::WhisperServeBatchJob;

verus! {

/// What one greedy step decides: another token, or an end, with the first `kept` tokens.
#[derive(Debug, Clone, Copy, PartialEq)]
pub enum GreedyStep<P> {
    Append { token_id: u32, probability: P },
    Finish { kept: usize, reason: Seq2SeqGreedyDecodeStopReason },
}

/// One decode under way.
#[derive(Debug, Clone, PartialEq)]
pub struct WhisperBatchSlot<P> {
    pub job: WhisperServeBatchJob,
    pub stop_token_ids: Vec<u32>,
    pub generated_tokens: Vec<u32>,
    /// Probability of each generated token.
    pub generated_probabilities: Vec<P>,
    /// How the decode ended, once it has.
    pub stop_reason: Option<Seq2SeqGreedyDecodeStopReason>,
}

/// Why a job cannot be decoded at all.
pub open spec fn refused_job(job: WhisperServeBatchJob) -> Option<Seq<char>> {
    if job.decode_config.initial_prompt_tokens@.len() == 0 {
        Some("whisper serve batch requires at least one prompt token"@)
    } else if job.decode_config.vocab_size == 0 {
        Some("whisper serve batch requires vocab_size > 0"@)
    } else if job.decode_config.max_generated_tokens == 0 {
        Some("whisper serve batch requires max_generated_tokens > 0"@)
    } else {
        None
    }
}

/// Whether a step was picked for tokens, given what the model says comes next.
pub open spec fn picks<L, P, S>(
    select: S,
    config: Seq2SeqGreedyDecodeConfig,
    stop_token_ids: Vec<u32>,
    tokens: Seq<u32>,
    logits: Seq<L>,
    reply: Result<GreedyStep<P>, String>,
) -> bool where
    S: Fn(&Seq2SeqGreedyDecodeConfig, &Vec<u32>, &Vec<u32>, Vec<L>) -> Result<
        GreedyStep<P>,
        String,
    >,
 {
    exists|generated: Vec<u32>, scores: Vec<L>| #[trigger]
        call_ensures(select, (&config, &generated, &stop_token_ids, scores), reply)
            && generated@ == tokens && scores@ == logits
}

/// The number of tokens that an end keeps of those there are.
pub open spec fn kept_of(kept: usize, generated: nat) -> int {
    if kept <= generated {
        kept as int
    } else {
        generated as int
    }
}

/// Whether a slot is another one after a step.
pub open spec fn stepped<P>(
    before: WhisperBatchSlot<P>,
    step: GreedyStep<P>,
    after: WhisperBatchSlot<P>,
) -> bool {
    &&& after.job == before.job
    &&& after.stop_token_ids == before.stop_token_ids
    &&& match step {
        GreedyStep::Append { token_id, probability } => {
            &&& after.generated_tokens@ == before.generated_tokens@.push(token_id)
            &&& after.generated_probabilities@ == before.generated_probabilities@.push(probability)
            &&& after.stop_reason == before.stop_reason
        },
        GreedyStep::Finish { kept, reason } => {
            let count = kept_of(kept, before.generated_tokens@.len());
            &&& after.generated_tokens@ == before.generated_tokens@.take(count)
            &&& after.generated_probabilities@ == before.generated_probabilities@.take(count)
            &&& after.stop_reason == Some(reason)
        },
    }
}

impl<P> WhisperBatchSlot<P> {
    /// Every generated token has its probability.
    pub open spec fn well_formed(self) -> bool {
        self.generated_probabilities@.len() == self.generated_tokens@.len()
    }

    /// Starts a decode. `stop_token_ids` gives the tokens that end one.
    pub fn new<B: Fn(&Seq2SeqGreedyDecodeConfig) -> Vec<u32>>(
        job: WhisperServeBatchJob,
        stop_token_ids: &B,
    ) -> (result: Result<Self, WhisperServeBatchError>)
        requires
            call_requires(*stop_token_ids, (&job.decode_config,)),
        ensures
            match refused_job(job) {
                Some(why) => result matches Err(error) && error::decode_failed(error, why),
                None => result matches Ok(slot) && slot.well_formed() && slot.job == job
                    && call_ensures(*stop_token_ids, (&job.decode_config,), slot.stop_token_ids)
                    && slot.generated_tokens@.len() == 0 && slot.stop_reason is None,
            },
    {
        if job.decode_config.initial_prompt_tokens.len() == 0 {
            return Err(failed_decode("whisper serve batch requires at least one prompt token"));
        }
        if job.decode_config.vocab_size == 0 {
            return Err(failed_decode("whisper serve batch requires vocab_size > 0"));
        }
        if job.decode_config.max_generated_tokens == 0 {
            return Err(failed_decode("whisper serve batch requires max_generated_tokens > 0"));
        }
        let stop_ids: Vec<u32> = stop_token_ids(&job.decode_config);
        Ok(
            WhisperBatchSlot {
                job,
                stop_token_ids: stop_ids,
                generated_tokens: Vec::new(),
                generated_probabilities: Vec::new(),
                stop_reason: None,
            },
        )
    }

    /// Whether the decode has ended, for any reason.
    pub fn is_done(&self) -> (done: bool)
        ensures
            done == (self.stop_reason is Some),
    {
        self.stop_reason.is_some()
    }

    fn apply(&mut self, step: GreedyStep<P>)
        requires
            old(self).well_formed(),
        ensures
            final(self).well_formed(),
            stepped(*old(self), step, *final(self)),
    {
        match step {
            GreedyStep::Append { token_id, probability } => {
                self.generated_tokens.push(token_id);
                self.generated_probabilities.push(probability);
            },
            GreedyStep::Finish { kept, reason } => {
                if kept < self.generated_tokens.len() {
                    self.generated_tokens.truncate(kept);
                    self.generated_probabilities.truncate(kept);
                }
                self.stop_reason = Some(reason);
                assert(self.generated_tokens@ =~= old(self).generated_tokens@.take(
                    kept_of(kept, old(self).generated_tokens@.len()),
                ));
                assert(self.generated_probabilities@ =~= old(self).generated_probabilities@.take(
                    kept_of(kept, old(self).generated_tokens@.len()),
                ));
            },
        }
    }

    /// Takes the step that `select` picks from what the model says comes next.
    pub fn select_next_token_from_logits<L, S>(&mut self, logits: Vec<L>, select: &S) -> (result:
        Result<(), WhisperServeBatchError>) where
        S: Fn(&Seq2SeqGreedyDecodeConfig, &Vec<u32>, &Vec<u32>, Vec<L>) -> Result<
            GreedyStep<P>,
            String,
        >,

        requires
            old(self).well_formed(),
            forall|config: Seq2SeqGreedyDecodeConfig,
                tokens: Vec<u32>,
                stops: Vec<u32>,
                scores: Vec<L>,
            | #[trigger]
                call_requires(*select, (&config, &tokens, &stops, scores)),
        ensures
            final(self).well_formed(),
            match result {
                Ok(_) => exists|step: GreedyStep<P>| #[trigger]
                    picks(
                        *select,
                        old(self).job.decode_config,
                        old(self).stop_token_ids,
                        old(self).generated_tokens@,
                        logits@,
                        Ok(step),
                    ) && stepped(*old(self), step, *final(self)),
                Err(error) => *final(self) == *old(self) && exists|reason: String| #[trigger]
                    picks(
                        *select,
                        old(self).job.decode_config,
                        old(self).stop_token_ids,
                        old(self).generated_tokens@,
                        logits@,
                        Err(reason),
                    ) && error::decode_failed(error, reason@),
            },
    {
        let ghost scores = logits;
        match select(
            &self.job.decode_config,
            &self.generated_tokens,
            &self.stop_token_ids,
            logits,
        ) {
            Ok(step) => {
                assert(picks(
                    *select,
                    self.job.decode_config,
                    self.stop_token_ids,
                    self.generated_tokens@,
                    scores@,
                    Ok(step),
                ));
                self.apply(step);
                Ok(())
            },
            Err(reason) => {
                assert(picks(
                    *select,
                    self.job.decode_config,
                    self.stop_token_ids,
                    self.generated_tokens@,
                    scores@,
                    Err(reason),
                ));
                Err(failed_decode(reason.as_str()))
            },
        }
    }

    /// Ends the decode where it may generate no more.
    pub fn exhaust_budget(&mut self)
        ensures
            final(self).job == old(self).job,
            final(self).stop_token_ids == old(self).stop_token_ids,
            final(self).generated_tokens == old(self).generated_tokens,
            final(self).generated_probabilities == old(self).generated_probabilities,
            final(self).stop_reason == (if old(self).stop_reason is None
                && old(self).generated_tokens@.len()
                >= old(self).job.decode_config.max_generated_tokens {
                Some(Seq2SeqGreedyDecodeStopReason::BudgetExhausted)
            } else {
                old(self).stop_reason
            }),
    {
        if self.stop_reason.is_none() && self.generated_tokens.len()
            >= self.job.decode_config.max_generated_tokens {
            self.stop_reason = Some(Seq2SeqGreedyDecodeStopReason::BudgetExhausted);
        }
    }

    /// How the decode ended; one that was not cut short ended with a stop token.
    pub open spec fn ended_by(self) -> Seq2SeqGreedyDecodeStopReason {
        match self.stop_reason {
            Some(reason) => reason,
            None => Seq2SeqGreedyDecodeStopReason::StopToken,
        }
    }

    /// Finishes the decode over the audio from `start` to `end`.
    pub fn finish<T: Copy, W, D, Z>(self, decode: &D, words: &Z, start: T, end: T) -> (result:
        Result<WhisperExecutionOutput<T, W>, WhisperServeBatchError>) where
        D: Fn(&Vec<u32>) -> Result<String, String>,
        Z: Fn(&Vec<u32>, &Vec<P>, T, T) -> Result<Vec<W>, String>,

        requires
            forall|tokens: Vec<u32>| #[trigger] call_requires(*decode, (&tokens,)),
            forall|tokens: Vec<u32>, probabilities: Vec<P>, from: T, to: T| #[trigger]
                call_requires(*words, (&tokens, &probabilities, from, to)),
        ensures
            finish::finishes(
                *decode,
                *words,
                self.generated_tokens,
                self.generated_probabilities,
                self.job.word_timestamps,
                start,
                end,
                self.job.carry_prompt_seed_token_ids,
                self.ended_by(),
                result,
            ),
    {
        let stop_reason: Seq2SeqGreedyDecodeStopReason = match self.stop_reason {
            Some(reason) => reason,
            None => Seq2SeqGreedyDecodeStopReason::StopToken,
        };
        finish_whisper_serve_batch_output(
            decode,
            words,
            self.generated_tokens,
            self.generated_probabilities,
            self.job.word_timestamps,
            start,
            end,
            self.job.carry_prompt_seed_token_ids,
            stop_reason,
        )
    }
}

/// A job can be decoded exactly where it has a prompt token, a vocabulary, and a token to
/// generate.
pub proof fn law_a_job_needs_prompt_vocabulary_and_budget(job: WhisperServeBatchJob)
    ensures
        refused_job(job) is None <==> job.decode_config.initial_prompt_tokens@.len() > 0
            && job.decode_config.vocab_size > 0 && job.decode_config.max_generated_tokens > 0,
{
}

/// A step that appends lengthens the decode by its token, with its probability, and ends
/// nothing. A step that ends the decode keeps as many of the first tokens as it says, and all
/// of them where it says more; it adds none.
pub proof fn law_steps_append_or_end<P>(
    before: WhisperBatchSlot<P>,
    step: GreedyStep<P>,
    after: WhisperBatchSlot<P>,
)
    requires
        before.well_formed(),
        stepped(before, step, after),
    ensures
        after.well_formed(),
        after.job == before.job,
        step matches GreedyStep::Append { token_id, probability } ==> {
            &&& after.generated_tokens@.len() == before.generated_tokens@.len() + 1
            &&& after.generated_tokens@.last() == token_id
            &&& after.generated_probabilities@.last() == probability
            &&& after.generated_tokens@.drop_last() == before.generated_tokens@
            &&& after.stop_reason == before.stop_reason
        },
        step matches GreedyStep::Finish { kept, reason } ==> {
            &&& after.stop_reason == Some(reason)
            &&& kept <= before.generated_tokens@.len() ==> after.generated_tokens@.len() == kept
            &&& kept > before.generated_tokens@.len() ==> after.generated_tokens@
                == before.generated_tokens@
            &&& forall|i: int|
                0 <= i < after.generated_tokens@.len() ==> after.generated_tokens@[i]
                    == before.generated_tokens@[i] && after.generated_probabilities@[i]
                    == before.generated_probabilities@[i]
        },
{
    assert(step is Append ==> after.generated_tokens@.drop_last() =~= before.generated_tokens@);
    assert(before.generated_tokens@.take(before.generated_tokens@.len() as int)
        =~= before.generated_tokens@);
}

/// A decode ends for the reason that it was ended with, and with a stop token where nothing
/// else ended it.
pub proof fn law_decodes_end_for_their_reason<P>(
    slot: WhisperBatchSlot<P>,
    reason: Seq2SeqGreedyDecodeStopReason,
)
    ensures
        slot.stop_reason == Some(reason) ==> slot.ended_by() == reason,
        slot.stop_reason is None ==> slot.ended_by() == Seq2SeqGreedyDecodeStopReason::StopToken,
{
}

} // verus!
