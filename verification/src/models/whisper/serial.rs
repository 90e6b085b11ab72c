//! The decode of one job by itself, token after token.

use vstd::prelude::*;
use vstd::string::*;

use crate::models::whisper::config::Seq2SeqGreedyDecodeConfig;
use crate::models::whisper::error;
use crate::models::whisper::error::{failed_decode, WhisperServeBatchError};
use crate::models::whisper::finish;
use crate::models::whisper::finish::{Seq2SeqGreedyDecodeStopReason, WhisperExecutionOutput};
use crate::models::whisper::job::WhisperServeBatchJob;
use crate::models::whisper::slot;
use crate::models::whisper::slot::{GreedyStep, WhisperBatchSlot};

verus! {

// ---------------------------------------------------------------------------
// Runtime
// ---------------------------------------------------------------------------

/// A decoder that takes one token at a time. Nothing is promised of what it answers. Every
/// call takes the runtime and gives it back, so that where a runtime ends up tells what it
/// was asked.
pub trait WhisperStepRuntime<L>: Sized {
    /// Forgets every token.
    fn reset_self_kv_state(self) -> Self;

    /// Takes in the encoder's output of a job.
    fn populate_cross_attention_cache_slot(
        self,
        slot_index: usize,
        job: &WhisperServeBatchJob,
    ) -> (Self, Result<(), WhisperServeBatchError>);

    /// Takes a token at a position, and says how likely each token is to come next.
    fn compute_reused_step_logits(self, token_id: u32, position: usize) -> (
        Self,
        Result<Vec<L>, WhisperServeBatchError>,
    );
}

/// Whether a runtime that was asked to forget every token may be left so.
pub open spec fn forgot<R: WhisperStepRuntime<L>, L>(before: R, after: R) -> bool {
    call_ensures(R::reset_self_kv_state, (before,), after)
}

/// Whether a runtime that was handed the encoder's output of a job may be left so, with this
/// reply.
pub open spec fn took_in<R: WhisperStepRuntime<L>, L>(
    before: R,
    slot_index: usize,
    job: WhisperServeBatchJob,
    after: R,
    reply: Result<(), WhisperServeBatchError>,
) -> bool {
    call_ensures(
        R::populate_cross_attention_cache_slot,
        (before, slot_index, &job),
        (after, reply),
    )
}

/// Whether a runtime that was given a token at a position may be left so, with this reply.
pub open spec fn stepped<R: WhisperStepRuntime<L>, L>(
    before: R,
    token_id: u32,
    position: int,
    after: R,
    reply: Result<Vec<L>, WhisperServeBatchError>,
) -> bool {
    0 <= position <= usize::MAX && call_ensures(
        R::compute_reused_step_logits,
        (before, token_id, position as usize),
        (after, reply),
    )
}

/// Whether a runtime that was given a token at a position may be left so, having said this.
pub open spec fn answered<R: WhisperStepRuntime<L>, L>(
    before: R,
    token_id: u32,
    position: int,
    after: R,
    logits: Seq<L>,
) -> bool {
    exists|said: Vec<L>|
        said@ == logits && #[trigger] stepped(before, token_id, position, after, Ok(said))
}

/// Whether a runtime may be left so before the first token: it forgot every token, and took
/// in the encoder's output of the job in its only slot.
pub open spec fn opened<R: WhisperStepRuntime<L>, L>(
    before: R,
    job: WhisperServeBatchJob,
    after: R,
    reply: Result<(), WhisperServeBatchError>,
) -> bool {
    exists|clean: R| #[trigger]
        forgot::<R, L>(before, clean) && took_in::<R, L>(clean, 0, job, after, reply)
}

fn open<R: WhisperStepRuntime<L>, L>(runtime: R, job: &WhisperServeBatchJob) -> (outcome: (
    R,
    Result<(), WhisperServeBatchError>,
))
    ensures
        opened::<R, L>(runtime, *job, outcome.0, outcome.1),
{
    let clean: R = runtime.reset_self_kv_state();
    assert(forgot::<R, L>(runtime, clean));
    let outcome: (R, Result<(), WhisperServeBatchError>) =
        clean.populate_cross_attention_cache_slot(0, job);
    assert(took_in::<R, L>(clean, 0, *job, outcome.0, outcome.1));
    outcome
}

fn step<R: WhisperStepRuntime<L>, L>(runtime: R, token_id: u32, position: usize) -> (outcome: (
    R,
    Result<Vec<L>, WhisperServeBatchError>,
))
    ensures
        stepped(runtime, token_id, position as int, outcome.0, outcome.1),
{
    runtime.compute_reused_step_logits(token_id, position)
}

// ---------------------------------------------------------------------------
// The course of a decode
// ---------------------------------------------------------------------------

/// The course of a decode: the tokens that were picked, their probabilities, what the
/// runtime said after each token that it was given, and how it was left: first by the
/// opening, then by every token.
#[verifier::ext_equal]
pub struct Course<R, L, P> {
    pub tokens: Seq<u32>,
    pub probabilities: Seq<P>,
    pub logits: Seq<Seq<L>>,
    pub runtimes: Seq<R>,
}

/// The token that a runtime is given in a place: the prompt first, then what was picked.
pub open spec fn token_at(prompt: Seq<u32>, tokens: Seq<u32>, place: int) -> u32 {
    (prompt + tokens)[place]
}

/// Whether the runtime was given the token of a place, at that place as position.
pub open spec fn fed_at<R: WhisperStepRuntime<L>, L, P>(
    prompt: Seq<u32>,
    course: Course<R, L, P>,
    place: int,
) -> bool {
    answered(
        course.runtimes[place],
        token_at(prompt, course.tokens, place),
        place,
        course.runtimes[place + 1],
        course.logits[place],
    )
}

/// Whether the runtime was given every token in its place, and nothing else.
pub open spec fn fed<R: WhisperStepRuntime<L>, L, P>(
    prompt: Seq<u32>,
    course: Course<R, L, P>,
) -> bool {
    &&& course.runtimes.len() == course.logits.len() + 1
    &&& forall|i: int| 0 <= i < course.logits.len() ==> #[trigger] fed_at(prompt, course, i)
}

/// Whether a runtime was opened for a job and then fed in the course of its decode, nothing
/// else being asked of it; the course ends where the runtime stands now.
pub open spec fn ran<R: WhisperStepRuntime<L>, L, P>(
    before: R,
    job: WhisperServeBatchJob,
    course: Course<R, L, P>,
) -> bool {
    &&& fed(job.decode_config.initial_prompt_tokens@, course)
    &&& opened::<R, L>(before, job, course.runtimes[0], Ok(()))
}

/// What the decode of a job by itself needs beside a runtime.
pub struct SerialDecode<B, S, D, Z, C> {
    /// The tokens that end a decode.
    pub stop_token_ids: B,
    /// The greedy step to take next.
    pub select: S,
    /// The text of tokens.
    pub decode: D,
    /// The words of tokens, timed.
    pub words: Z,
    /// Whether the job is canceled by the time that these tokens have been picked.
    pub canceled: C,
}

impl<B, S, D, Z, C> SerialDecode<B, S, D, Z, C> {
    /// Whether everything can be called on anything.
    pub open spec fn callable<L, P, T, W>(&self) -> bool where
        B: Fn(&Seq2SeqGreedyDecodeConfig) -> Vec<u32>,
        S: Fn(&Seq2SeqGreedyDecodeConfig, &Vec<u32>, &Vec<u32>, Vec<L>) -> Result<
            GreedyStep<P>,
            String,
        >,
        D: Fn(&Vec<u32>) -> Result<String, String>,
        Z: Fn(&Vec<u32>, &Vec<P>, T, T) -> Result<Vec<W>, String>,
        C: Fn(&Vec<u32>) -> bool,
     {
        &&& forall|config: Seq2SeqGreedyDecodeConfig| #[trigger]
            call_requires(self.stop_token_ids, (&config,))
        &&& forall|
            config: Seq2SeqGreedyDecodeConfig,
            tokens: Vec<u32>,
            stops: Vec<u32>,
            scores: Vec<L>,
        | #[trigger]
            call_requires(self.select, (&config, &tokens, &stops, scores))
        &&& forall|tokens: Vec<u32>| #[trigger] call_requires(self.decode, (&tokens,))
        &&& forall|tokens: Vec<u32>, probabilities: Vec<P>, from: T, to: T| #[trigger]
            call_requires(self.words, (&tokens, &probabilities, from, to))
        &&& forall|tokens: Vec<u32>| #[trigger] call_requires(self.canceled, (&tokens,))
    }

    /// Whether the token in a place was picked after those before it, from what the runtime
    /// had said last.
    pub open spec fn picked_at<R, L, P>(
        &self,
        config: Seq2SeqGreedyDecodeConfig,
        stop_token_ids: Vec<u32>,
        course: Course<R, L, P>,
        place: int,
    ) -> bool where
        S: Fn(&Seq2SeqGreedyDecodeConfig, &Vec<u32>, &Vec<u32>, Vec<L>) -> Result<
            GreedyStep<P>,
            String,
        >,
     {
        slot::picks(
            self.select,
            config,
            stop_token_ids,
            course.tokens.take(place),
            course.logits[config.initial_prompt_tokens@.len() + place - 1],
            Ok(
                GreedyStep::Append {
                    token_id: course.tokens[place],
                    probability: course.probabilities[place],
                },
            ),
        )
    }

    /// Whether the job's cancellation may have been answered so, asked behind these tokens.
    pub open spec fn found(&self, tokens: Seq<u32>, canceled: bool) -> bool where
        C: Fn(&Vec<u32>) -> bool,
     {
        exists|picked: Vec<u32>|
            picked@ == tokens && #[trigger] call_ensures(self.canceled, (&picked,), canceled)
    }

    /// Whether the job was found not to be canceled behind the first `count` tokens.
    pub open spec fn went_on_behind<R, L, P>(&self, course: Course<R, L, P>, count: int) -> bool where
        C: Fn(&Vec<u32>) -> bool,
     {
        self.found(course.tokens.take(count), false)
    }

    /// Whether a decode may take this course: it stays in its budget, every token was picked
    /// in its turn, and each of them was given to the runtime only where the job was found
    /// not to be canceled behind that very token.
    pub open spec fn may_take<R, L, P>(
        &self,
        config: Seq2SeqGreedyDecodeConfig,
        stop_token_ids: Vec<u32>,
        course: Course<R, L, P>,
    ) -> bool where
        B: Fn(&Seq2SeqGreedyDecodeConfig) -> Vec<u32>,
        S: Fn(&Seq2SeqGreedyDecodeConfig, &Vec<u32>, &Vec<u32>, Vec<L>) -> Result<
            GreedyStep<P>,
            String,
        >,
        C: Fn(&Vec<u32>) -> bool,
     {
        &&& call_ensures(self.stop_token_ids, (&config,), stop_token_ids)
        &&& course.probabilities.len() == course.tokens.len()
        &&& course.tokens.len() <= config.max_generated_tokens
        &&& course.logits.len() <= config.initial_prompt_tokens@.len() + course.tokens.len()
        &&& forall|i: int|
            0 <= i < course.tokens.len() ==> #[trigger] self.picked_at(
                config,
                stop_token_ids,
                course,
                i,
            )
        &&& forall|i: int|
            0 < i <= course.logits.len() - config.initial_prompt_tokens@.len()
                ==> #[trigger] self.went_on_behind(course, i)
    }

    /// Whether a course ends so, with the first `kept` tokens: the budget is used up, or the
    /// last step ended it.
    pub open spec fn ends<R, L, P>(
        &self,
        config: Seq2SeqGreedyDecodeConfig,
        stop_token_ids: Vec<u32>,
        course: Course<R, L, P>,
        kept: int,
        reason: Seq2SeqGreedyDecodeStopReason,
    ) -> bool where
        S: Fn(&Seq2SeqGreedyDecodeConfig, &Vec<u32>, &Vec<u32>, Vec<L>) -> Result<
            GreedyStep<P>,
            String,
        >,
     {
        let prompt = config.initial_prompt_tokens@.len();
        ||| {
            &&& course.tokens.len() == config.max_generated_tokens
            &&& course.logits.len() == prompt + course.tokens.len() - 1
            &&& kept == course.tokens.len()
            &&& reason == Seq2SeqGreedyDecodeStopReason::BudgetExhausted
        }
        ||| {
            &&& course.tokens.len() < config.max_generated_tokens
            &&& course.logits.len() == prompt + course.tokens.len()
            &&& exists|cut: usize|
                kept == slot::kept_of(cut, course.tokens.len()) && #[trigger] slot::picks(
                    self.select,
                    config,
                    stop_token_ids,
                    course.tokens,
                    course.logits.last(),
                    Ok(GreedyStep::<P>::Finish { kept: cut, reason }),
                )
        }
    }

    /// Whether a decode that ran to its end gives this result.
    pub open spec fn gives<R, L, P, T, W>(
        &self,
        job: WhisperServeBatchJob,
        stop_token_ids: Vec<u32>,
        course: Course<R, L, P>,
        start: T,
        end: T,
        result: Result<WhisperExecutionOutput<T, W>, WhisperServeBatchError>,
    ) -> bool where
        B: Fn(&Seq2SeqGreedyDecodeConfig) -> Vec<u32>,
        S: Fn(&Seq2SeqGreedyDecodeConfig, &Vec<u32>, &Vec<u32>, Vec<L>) -> Result<
            GreedyStep<P>,
            String,
        >,
        D: Fn(&Vec<u32>) -> Result<String, String>,
        Z: Fn(&Vec<u32>, &Vec<P>, T, T) -> Result<Vec<W>, String>,
        C: Fn(&Vec<u32>) -> bool,
     {
        exists|tokens: Vec<u32>, probabilities: Vec<P>, reason: Seq2SeqGreedyDecodeStopReason|
            #[trigger]
            finish::finishes(
                self.decode,
                self.words,
                tokens,
                probabilities,
                job.word_timestamps,
                start,
                end,
                job.carry_prompt_seed_token_ids,
                reason,
                result,
            ) && tokens@.len() <= course.tokens.len() && tokens@ == course.tokens.take(
                tokens@.len() as int,
            ) && probabilities@ == course.probabilities.take(tokens@.len() as int) && self.ends(
                job.decode_config,
                stop_token_ids,
                course,
                tokens@.len() as int,
                reason,
            )
    }

    /// Whether a decode may fail on the way: the runtime refuses a token, no step can be
    /// picked, the job was canceled between two tokens, or positions cannot be counted.
    /// A token past the prompt is given to the runtime only where the job was found not to be
    /// canceled behind it.
    pub open spec fn fails<R: WhisperStepRuntime<L>, L, P>(
        &self,
        after: R,
        job: WhisperServeBatchJob,
        stop_token_ids: Vec<u32>,
        course: Course<R, L, P>,
        cancel_reason: Seq<char>,
        error: WhisperServeBatchError,
    ) -> bool where
        S: Fn(&Seq2SeqGreedyDecodeConfig, &Vec<u32>, &Vec<u32>, Vec<L>) -> Result<
            GreedyStep<P>,
            String,
        >,
        C: Fn(&Vec<u32>) -> bool,
     {
        let prompt = job.decode_config.initial_prompt_tokens@;
        let given = course.logits.len() as int;
        let between = given == prompt.len() + course.tokens.len() - 1 && 0 < course.tokens.len()
            < job.decode_config.max_generated_tokens;
        ||| {
            &&& given < prompt.len() + course.tokens.len()
            &&& stepped::<R, L>(
                course.runtimes.last(),
                token_at(prompt, course.tokens, given),
                given,
                after,
                Err(error),
            )
            &&& given >= prompt.len() ==> between && self.found(course.tokens, false)
        }
        ||| {
            &&& after == course.runtimes.last()
            &&& given == prompt.len() + course.tokens.len()
            &&& exists|reason: String|
                error::decode_failed(error, reason@) && #[trigger] slot::picks(
                    self.select,
                    job.decode_config,
                    stop_token_ids,
                    course.tokens,
                    course.logits.last(),
                    Err::<GreedyStep<P>, String>(reason),
                )
        }
        ||| {
            &&& after == course.runtimes.last()
            &&& between
            &&& self.found(course.tokens, true)
            &&& error::decode_failed(error, cancel_reason)
        }
        ||| {
            &&& after == course.runtimes.last()
            &&& between
            &&& self.found(course.tokens, false)
            &&& prompt.len() + course.tokens.len() > usize::MAX
            &&& error::decode_failed(error, "whisper serve batch token count overflowed"@)
        }
    }

    /// Whether the decode of a job on a runtime may go so, and leave the runtime so.
    pub open spec fn decodes<R: WhisperStepRuntime<L>, L, P, T, W>(
        &self,
        before: R,
        after: R,
        job: WhisperServeBatchJob,
        start: T,
        end: T,
        cancel_reason: Seq<char>,
        result: Result<WhisperExecutionOutput<T, W>, WhisperServeBatchError>,
    ) -> bool where
        B: Fn(&Seq2SeqGreedyDecodeConfig) -> Vec<u32>,
        S: Fn(&Seq2SeqGreedyDecodeConfig, &Vec<u32>, &Vec<u32>, Vec<L>) -> Result<
            GreedyStep<P>,
            String,
        >,
        D: Fn(&Vec<u32>) -> Result<String, String>,
        Z: Fn(&Vec<u32>, &Vec<P>, T, T) -> Result<Vec<W>, String>,
        C: Fn(&Vec<u32>) -> bool,
     {
        ||| result matches Err(error) && opened::<R, L>(before, job, after, Err(error))
        ||| {
            &&& slot::refused_job(job) matches Some(why) && (result matches Err(error)
                && error::decode_failed(error, why))
            &&& opened::<R, L>(before, job, after, Ok(()))
        }
        ||| {
            &&& slot::refused_job(job) is None
            &&& exists|stop_token_ids: Vec<u32>, course: Course<R, L, P>| #[trigger]
                self.may_take(job.decode_config, stop_token_ids, course) && ran(before, job, course)
                    && ((after == course.runtimes.last() && self.gives(
                    job,
                    stop_token_ids,
                    course,
                    start,
                    end,
                    result,
                )) || (result matches Err(error) && self.fails(
                    after,
                    job,
                    stop_token_ids,
                    course,
                    cancel_reason,
                    error,
                )))
        }
    }

    /// Whether a slot stands where a course has come to.
    spec fn stands_at<R, L, P>(
        &self,
        slot: WhisperBatchSlot<P>,
        job: WhisperServeBatchJob,
        course: Course<R, L, P>,
    ) -> bool where
        B: Fn(&Seq2SeqGreedyDecodeConfig) -> Vec<u32>,
        S: Fn(&Seq2SeqGreedyDecodeConfig, &Vec<u32>, &Vec<u32>, Vec<L>) -> Result<
            GreedyStep<P>,
            String,
        >,
        C: Fn(&Vec<u32>) -> bool,
     {
        &&& slot.well_formed()
        &&& slot.job == job
        &&& self.may_take(job.decode_config, slot.stop_token_ids, course)
        &&& match slot.stop_reason {
            None => {
                &&& slot.generated_tokens@ == course.tokens
                &&& slot.generated_probabilities@ == course.probabilities
                &&& course.tokens.len() > 0
                &&& course.logits.len() == job.decode_config.initial_prompt_tokens@.len()
                    + course.tokens.len() - 1
            },
            Some(reason) => {
                let kept = slot.generated_tokens@.len() as int;
                &&& kept <= course.tokens.len()
                &&& slot.generated_tokens@ == course.tokens.take(kept)
                &&& slot.generated_probabilities@ == course.probabilities.take(kept)
                &&& self.ends(job.decode_config, slot.stop_token_ids, course, kept, reason)
            },
        }
    }

    /// Takes the step that is picked from what the runtime said last.
    fn take_step<R: WhisperStepRuntime<L>, L, P>(
        &self,
        slot: &mut WhisperBatchSlot<P>,
        logits: Vec<L>,
        Ghost(course): Ghost<Course<R, L, P>>,
    ) -> (outcome: (Result<(), WhisperServeBatchError>, Ghost<Course<R, L, P>>)) where
        B: Fn(&Seq2SeqGreedyDecodeConfig) -> Vec<u32>,
        S: Fn(&Seq2SeqGreedyDecodeConfig, &Vec<u32>, &Vec<u32>, Vec<L>) -> Result<
            GreedyStep<P>,
            String,
        >,
        C: Fn(&Vec<u32>) -> bool,

        requires
            forall|config: Seq2SeqGreedyDecodeConfig,
                tokens: Vec<u32>,
                stops: Vec<u32>,
                scores: Vec<L>,
            | #[trigger]
                call_requires(self.select, (&config, &tokens, &stops, scores)),
            old(slot).well_formed(),
            old(slot).stop_reason is None,
            self.may_take(old(slot).job.decode_config, old(slot).stop_token_ids, course),
            old(slot).generated_tokens@ == course.tokens,
            old(slot).generated_probabilities@ == course.probabilities,
            course.tokens.len() < old(slot).job.decode_config.max_generated_tokens,
            old(slot).job.decode_config.initial_prompt_tokens@.len() > 0,
            course.logits.len() == old(slot).job.decode_config.initial_prompt_tokens@.len()
                + course.tokens.len(),
            course.logits.last() == logits@,
            fed(old(slot).job.decode_config.initial_prompt_tokens@, course),
        ensures
            ({
                let next = outcome.1@;
                &&& next.runtimes == course.runtimes
                &&& fed(old(slot).job.decode_config.initial_prompt_tokens@, next)
                &&& match outcome.0 {
                    Ok(_) => {
                        &&& self.stands_at(*final(slot), old(slot).job, next)
                        &&& final(slot).stop_token_ids == old(slot).stop_token_ids
                        &&& final(slot).stop_reason is None ==> next.tokens.len()
                            == course.tokens.len() + 1
                    },
                    Err(error) => *final(slot) == *old(slot) && next == course && exists|
                        reason: String,
                    |
                        error::decode_failed(error, reason@) && #[trigger] slot::picks(
                            self.select,
                            old(slot).job.decode_config,
                            old(slot).stop_token_ids,
                            course.tokens,
                            course.logits.last(),
                            Err::<GreedyStep<P>, String>(reason),
                        ),
                }
            }),
    {
        let ghost config = slot.job.decode_config;
        let ghost stops = slot.stop_token_ids;
        let ghost before = *slot;
        match slot.select_next_token_from_logits(logits, &self.select) {
            Err(error) => (Err(error), Ghost(course)),
            Ok(_) => {
                let ghost step = choose|step: GreedyStep<P>| #[trigger]
                    slot::picks(
                        self.select,
                        config,
                        stops,
                        course.tokens,
                        course.logits.last(),
                        Ok(step),
                    ) && slot::stepped(before, step, *slot);
                let ghost next = match step {
                    GreedyStep::Append { token_id, probability } => Course {
                        tokens: course.tokens.push(token_id),
                        probabilities: course.probabilities.push(probability),
                        ..course
                    },
                    GreedyStep::Finish { kept, reason } => course,
                };
                proof {
                    let prompt = config.initial_prompt_tokens@;
                    assert forall|i: int| 0 <= i < next.tokens.len() implies #[trigger]
                        self.picked_at(config, stops, next, i) by {
                        if i < course.tokens.len() {
                            assert(self.picked_at(config, stops, course, i));
                            assert(next.tokens.take(i) =~= course.tokens.take(i));
                        } else {
                            assert(next.tokens.take(i) =~= course.tokens);
                        }
                    }
                    assert forall|i: int| 0 < i <= next.logits.len() - prompt.len() implies #[trigger]
                        self.went_on_behind(next, i) by {
                        assert(self.went_on_behind(course, i));
                        assert(next.tokens.take(i) =~= course.tokens.take(i));
                    }
                    assert forall|i: int| 0 <= i < next.logits.len() implies #[trigger]
                        fed_at(prompt, next, i) by {
                        assert(fed_at(prompt, course, i));
                        assert(token_at(prompt, next.tokens, i) == token_at(
                            prompt,
                            course.tokens,
                            i,
                        ));
                    }
                }
                (Ok(()), Ghost(next))
            },
        }
    }

    /// Decodes a job on a runtime, and gives the runtime back: the runtime forgets what came
    /// before and takes in the encoder's output, is given the prompt and then every token
    /// that is picked, and is asked no more once the decode has ended. Behind every token
    /// that is picked, cancellation is asked before the runtime is given it.
    pub fn decode_on<R: WhisperStepRuntime<L>, L, P, T: Copy, W>(
        &self,
        runtime: R,
        job: WhisperServeBatchJob,
        start: T,
        end: T,
        cancel_reason: &str,
    ) -> (outcome: (R, Result<WhisperExecutionOutput<T, W>, WhisperServeBatchError>)) where
        B: Fn(&Seq2SeqGreedyDecodeConfig) -> Vec<u32>,
        S: Fn(&Seq2SeqGreedyDecodeConfig, &Vec<u32>, &Vec<u32>, Vec<L>) -> Result<
            GreedyStep<P>,
            String,
        >,
        D: Fn(&Vec<u32>) -> Result<String, String>,
        Z: Fn(&Vec<u32>, &Vec<P>, T, T) -> Result<Vec<W>, String>,
        C: Fn(&Vec<u32>) -> bool,

        requires
            self.callable::<L, P, T, W>(),
        ensures
            self.decodes::<R, L, P, T, W>(
                runtime,
                outcome.0,
                job,
                start,
                end,
                cancel_reason@,
                outcome.1,
            ),
    {
        let ghost prompt = job.decode_config.initial_prompt_tokens@;
        let (ready, populated) = open::<R, L>(runtime, &job);
        match populated {
            Err(error) => {
                return (ready, Err(error));
            },
            Ok(unit) => {
                assert(unit == ());
            },
        }
        let mut slot: WhisperBatchSlot<P> = match WhisperBatchSlot::new(
            job,
            &self.stop_token_ids,
        ) {
            Ok(slot) => slot,
            Err(error) => {
                return (ready, Err(error));
            },
        };
        let prompt_len: usize = slot.job.decode_config.initial_prompt_tokens.len();
        let (prefilled, reply, Ghost(first)) = prefill::<R, L, P>(
            ready,
            &slot.job.decode_config.initial_prompt_tokens,
        );
        let mut current: R = prefilled;
        let ghost mut course: Course<R, L, P> = first;
        assert(self.may_take(job.decode_config, slot.stop_token_ids, course));
        assert(ran(runtime, job, course));
        let logits: Vec<L> = match reply {
            Ok(logits) => logits,
            Err(error) => {
                assert(self.fails(
                    current,
                    job,
                    slot.stop_token_ids,
                    course,
                    cancel_reason@,
                    error,
                ));
                return (current, Err(error));
            },
        };
        assert(slot.generated_tokens@ =~= course.tokens);
        assert(slot.generated_probabilities@ =~= course.probabilities);
        let (taken, Ghost(next)) = self.take_step::<R, L, P>(&mut slot, logits, Ghost(course));
        if let Err(error) = taken {
            assert(self.fails(
                current,
                job,
                slot.stop_token_ids,
                course,
                cancel_reason@,
                error,
            ));
            return (current, Err(error));
        }
        proof {
            course = next;
        }
        loop
            invariant
                self.callable::<L, P, T, W>(),
                slot::refused_job(job) is None,
                prompt == job.decode_config.initial_prompt_tokens@,
                prompt_len == prompt.len(),
                self.stands_at(slot, job, course),
                ran(runtime, job, course),
                current == course.runtimes.last(),
            decreases
                (if slot.stop_reason is None {
                    job.decode_config.max_generated_tokens - course.tokens.len() + 1
                } else {
                    0
                }),
        {
            slot.exhaust_budget();
            if slot.is_done() {
                let ghost ended = slot;
                assert(ended.generated_tokens@ =~= course.tokens.take(
                    ended.generated_tokens@.len() as int,
                ));
                assert(ended.generated_probabilities@ =~= course.probabilities.take(
                    ended.generated_tokens@.len() as int,
                ));
                let result: Result<WhisperExecutionOutput<T, W>, WhisperServeBatchError> =
                    slot.finish(&self.decode, &self.words, start, end);
                assert(self.gives(job, ended.stop_token_ids, course, start, end, result));
                return (current, result);
            }
            let canceled: bool = (self.canceled)(&slot.generated_tokens);
            assert(self.found(course.tokens, canceled));
            if canceled {
                let error: WhisperServeBatchError = failed_decode(cancel_reason);
                assert(self.fails(
                    current,
                    job,
                    slot.stop_token_ids,
                    course,
                    cancel_reason@,
                    error,
                ));
                return (current, Err(error));
            }
            let generated: usize = slot.generated_tokens.len();
            let token_id: u32 = slot.generated_tokens[generated - 1];
            let total_tokens: usize = match prompt_len.checked_add(generated) {
                Some(total) => total,
                None => {
                    let error: WhisperServeBatchError = failed_decode(
                        "whisper serve batch token count overflowed",
                    );
                    assert(self.fails(
                        current,
                        job,
                        slot.stop_token_ids,
                        course,
                        cancel_reason@,
                        error,
                    ));
                    return (current, Err(error));
                },
            };
            let position: usize = total_tokens - 1;
            assert(token_at(prompt, course.tokens, position as int) == token_id);
            let (moved, reply) = step::<R, L>(current, token_id, position);
            let logits: Vec<L> = match reply {
                Ok(logits) => logits,
                Err(error) => {
                    assert(self.fails(
                        moved,
                        job,
                        slot.stop_token_ids,
                        course,
                        cancel_reason@,
                        error,
                    ));
                    return (moved, Err(error));
                },
            };
            current = moved;
            let ghost answered_course: Course<R, L, P> = Course {
                logits: course.logits.push(logits@),
                runtimes: course.runtimes.push(current),
                ..course
            };
            proof {
                lemma_fed_on(prompt, course, logits, current);
                assert forall|i: int|
                    0 < i <= answered_course.logits.len() - prompt.len() implies #[trigger]
                    self.went_on_behind(answered_course, i) by {
                    if i < course.tokens.len() {
                        assert(self.went_on_behind(course, i));
                    } else {
                        assert(course.tokens.take(i) =~= course.tokens);
                    }
                }
                assert forall|i: int| 0 <= i < answered_course.tokens.len() implies #[trigger]
                    self.picked_at(job.decode_config, slot.stop_token_ids, answered_course, i) by {
                    assert(self.picked_at(job.decode_config, slot.stop_token_ids, course, i));
                }
            }
            assert(self.may_take(job.decode_config, slot.stop_token_ids, answered_course));
            assert(ran(runtime, job, answered_course));
            let (taken, Ghost(next)) = self.take_step::<R, L, P>(
                &mut slot,
                logits,
                Ghost(answered_course),
            );
            if let Err(error) = taken {
                assert(self.fails(
                    current,
                    job,
                    slot.stop_token_ids,
                    answered_course,
                    cancel_reason@,
                    error,
                ));
                return (current, Err(error));
            }
            proof {
                course = next;
            }
        }
    }

    /// Decodes a job by itself, on the runtime that is kept for that; the first job has it
    /// built, and it stays whatever becomes of a job.
    pub fn decode_serial<R: WhisperStepRuntime<L>, L, P, T: Copy, W, K>(
        &self,
        serial_runtime: &mut Option<R>,
        build: K,
        job: WhisperServeBatchJob,
        start: T,
        end: T,
        cancel_reason: &str,
    ) -> (result: Result<WhisperExecutionOutput<T, W>, WhisperServeBatchError>) where
        B: Fn(&Seq2SeqGreedyDecodeConfig) -> Vec<u32>,
        S: Fn(&Seq2SeqGreedyDecodeConfig, &Vec<u32>, &Vec<u32>, Vec<L>) -> Result<
            GreedyStep<P>,
            String,
        >,
        D: Fn(&Vec<u32>) -> Result<String, String>,
        Z: Fn(&Vec<u32>, &Vec<P>, T, T) -> Result<Vec<W>, String>,
        C: Fn(&Vec<u32>) -> bool,
        K: FnOnce(&WhisperServeBatchJob) -> Result<R, WhisperServeBatchError>,

        requires
            self.callable::<L, P, T, W>(),
            call_requires(build, (&job,)),
        ensures
            match *old(serial_runtime) {
                Some(kept) => *final(serial_runtime) matches Some(used) && self.decodes::<
                    R,
                    L,
                    P,
                    T,
                    W,
                >(kept, used, job, start, end, cancel_reason@, result),
                None => match *final(serial_runtime) {
                    None => result matches Err(error) && call_ensures(build, (&job,), Err(error)),
                    Some(used) => exists|built: R| #[trigger]
                        call_ensures(build, (&job,), Ok(built)) && self.decodes::<R, L, P, T, W>(
                            built,
                            used,
                            job,
                            start,
                            end,
                            cancel_reason@,
                            result,
                        ),
                },
            },
    {
        let runtime: R = match serial_runtime.take() {
            Some(kept) => kept,
            None => match build(&job) {
                Ok(built) => built,
                Err(error) => {
                    return Err(error);
                },
            },
        };
        let (used, result) = self.decode_on::<R, L, P, T, W>(
            runtime,
            job,
            start,
            end,
            cancel_reason,
        );
        *serial_runtime = Some(used);
        result
    }
}

/// A course goes on where the runtime is given the next token and answers.
proof fn lemma_fed_on<R: WhisperStepRuntime<L>, L, P>(
    prompt: Seq<u32>,
    course: Course<R, L, P>,
    said: Vec<L>,
    after: R,
)
    requires
        fed(prompt, course),
        stepped(
            course.runtimes.last(),
            token_at(prompt, course.tokens, course.logits.len() as int),
            course.logits.len() as int,
            after,
            Ok(said),
        ),
    ensures
        fed(
            prompt,
            Course {
                logits: course.logits.push(said@),
                runtimes: course.runtimes.push(after),
                ..course
            },
        ),
{
    let next = Course {
        logits: course.logits.push(said@),
        runtimes: course.runtimes.push(after),
        ..course
    };
    assert forall|i: int| 0 <= i < next.logits.len() implies #[trigger] fed_at(
        prompt,
        next,
        i,
    ) by {
        if i < course.logits.len() {
            assert(fed_at(prompt, course, i));
        }
    }
}

/// In the course of a decode every token takes the next position, and none lies outside the
/// context that the job was checked against.
pub proof fn law_positions_stay_in_the_context<B, S, D, Z, C, R, L, P>(
    decode: SerialDecode<B, S, D, Z, C>,
    before: R,
    job: WhisperServeBatchJob,
    stop_token_ids: Vec<u32>,
    course: Course<R, L, P>,
    place: int,
) where
    B: Fn(&Seq2SeqGreedyDecodeConfig) -> Vec<u32>,
    S: Fn(&Seq2SeqGreedyDecodeConfig, &Vec<u32>, &Vec<u32>, Vec<L>) -> Result<
        GreedyStep<P>,
        String,
    >,
    C: Fn(&Vec<u32>) -> bool,
    R: WhisperStepRuntime<L>,

    requires
        decode.may_take(job.decode_config, stop_token_ids, course),
        ran(before, job, course),
        crate::models::whisper::job::semantic_positions(job) <= job.execution.max_target_positions,
        0 <= place < course.logits.len(),
    ensures
        answered(
            course.runtimes[place],
            token_at(job.decode_config.initial_prompt_tokens@, course.tokens, place),
            place,
            course.runtimes[place + 1],
            course.logits[place],
        ),
        place < job.execution.max_target_positions,
{
    assert(fed_at(job.decode_config.initial_prompt_tokens@, course, place));
}

/// A decode that ran to its end gave the runtime the prompt and fewer tokens than its budget:
/// the last token that a decode may generate is never given back. What it keeps is within
/// its budget.
pub proof fn law_the_last_token_is_not_given_back<B, S, D, Z, C, R, L, P>(
    decode: SerialDecode<B, S, D, Z, C>,
    job: WhisperServeBatchJob,
    stop_token_ids: Vec<u32>,
    course: Course<R, L, P>,
    kept: int,
    reason: Seq2SeqGreedyDecodeStopReason,
) where
    B: Fn(&Seq2SeqGreedyDecodeConfig) -> Vec<u32>,
    S: Fn(&Seq2SeqGreedyDecodeConfig, &Vec<u32>, &Vec<u32>, Vec<L>) -> Result<
        GreedyStep<P>,
        String,
    >,
    C: Fn(&Vec<u32>) -> bool,

    requires
        slot::refused_job(job) is None,
        decode.may_take(job.decode_config, stop_token_ids, course),
        decode.ends(job.decode_config, stop_token_ids, course, kept, reason),
    ensures
        job.decode_config.initial_prompt_tokens@.len() <= course.logits.len()
            < job.decode_config.initial_prompt_tokens@.len()
            + job.decode_config.max_generated_tokens,
        0 <= kept <= job.decode_config.max_generated_tokens,
{
}

/// A decode that is canceled from its `last`-th token on fails with the cancel reason behind
/// that token, and does not give it to the runtime, where nothing else fails and no token up
/// to it ends the decode or uses up its budget. One that is canceled throughout gives the
/// runtime the prompt and nothing past it.
pub proof fn law_a_canceled_decode_stops_at_once<B, S, D, Z, C, R, L, P, T, W>(
    decode: SerialDecode<B, S, D, Z, C>,
    before: R,
    after: R,
    job: WhisperServeBatchJob,
    start: T,
    end: T,
    cancel_reason: Seq<char>,
    last: int,
    result: Result<WhisperExecutionOutput<T, W>, WhisperServeBatchError>,
) -> (ran_to: (Vec<u32>, Course<R, L, P>)) where
    B: Fn(&Seq2SeqGreedyDecodeConfig) -> Vec<u32>,
    S: Fn(&Seq2SeqGreedyDecodeConfig, &Vec<u32>, &Vec<u32>, Vec<L>) -> Result<
        GreedyStep<P>,
        String,
    >,
    D: Fn(&Vec<u32>) -> Result<String, String>,
    Z: Fn(&Vec<u32>, &Vec<P>, T, T) -> Result<Vec<W>, String>,
    C: Fn(&Vec<u32>) -> bool,
    R: WhisperStepRuntime<L>,

    requires
        decode.decodes::<R, L, P, T, W>(before, after, job, start, end, cancel_reason, result),
        slot::refused_job(job) is None,
        1 <= last < job.decode_config.max_generated_tokens,
        job.decode_config.initial_prompt_tokens@.len() + last <= usize::MAX,
        forall|tokens: Seq<u32>, canceled: bool|
            tokens.len() > 0 && #[trigger] decode.found(tokens, canceled) ==> canceled == (
            tokens.len() >= last),
        forall|left: R, error: WhisperServeBatchError|
            !(#[trigger] opened::<R, L>(before, job, left, Err(error))),
        forall|held: R, token_id: u32, position: int, left: R, error: WhisperServeBatchError|
            !(#[trigger] stepped::<R, L>(held, token_id, position, left, Err(error))),
        forall|
            stops: Vec<u32>,
            tokens: Seq<u32>,
            logits: Seq<L>,
            reply: Result<GreedyStep<P>, String>,
        |
            tokens.len() < last && #[trigger] slot::picks(
                decode.select,
                job.decode_config,
                stops,
                tokens,
                logits,
                reply,
            ) ==> (reply matches Ok(step) && step is Append),
    ensures
        result matches Err(error) && error::decode_failed(error, cancel_reason),
        decode.may_take(job.decode_config, ran_to.0, ran_to.1),
        ran(before, job, ran_to.1),
        ran_to.1.tokens.len() == last,
        ran_to.1.logits.len() == job.decode_config.initial_prompt_tokens@.len() + last - 1,
        after == ran_to.1.runtimes.last(),
{
    let (stops, course) = choose|stops: Vec<u32>, course: Course<R, L, P>| #[trigger]
        decode.may_take(job.decode_config, stops, course) && ran(before, job, course) && ((after
            == course.runtimes.last() && decode.gives(job, stops, course, start, end, result)) || (
        result matches Err(error) && decode.fails(
            after,
            job,
            stops,
            course,
            cancel_reason,
            error,
        )));
    if course.logits.len() >= job.decode_config.initial_prompt_tokens@.len() + last {
        assert(decode.went_on_behind(course, last));
    }
    (stops, course)
}

/// Gives the prompt to a runtime, token after token.
fn prefill<R: WhisperStepRuntime<L>, L, P>(runtime: R, prompt: &Vec<u32>) -> (outcome: (
    R,
    Result<Vec<L>, WhisperServeBatchError>,
    Ghost<Course<R, L, P>>,
))
    requires
        prompt@.len() > 0,
    ensures
        ({
            let course = outcome.2@;
            &&& course.tokens == Seq::<u32>::empty()
            &&& course.probabilities == Seq::<P>::empty()
            &&& course.runtimes[0] == runtime
            &&& fed(prompt@, course)
            &&& match outcome.1 {
                Ok(last) => {
                    &&& course.logits.len() == prompt@.len()
                    &&& course.logits.last() == last@
                    &&& course.runtimes.last() == outcome.0
                },
                Err(error) => {
                    &&& course.logits.len() < prompt@.len()
                    &&& stepped::<R, L>(
                        course.runtimes.last(),
                        token_at(prompt@, course.tokens, course.logits.len() as int),
                        course.logits.len() as int,
                        outcome.0,
                        Err(error),
                    )
                },
            }
        }),
{
    let ghost mut course: Course<R, L, P> = Course {
        tokens: Seq::empty(),
        probabilities: Seq::empty(),
        logits: Seq::empty(),
        runtimes: seq![runtime],
    };
    let mut current: R = runtime;
    let mut last: Vec<L> = Vec::new();
    let mut position: usize = 0;
    while position < prompt.len()
        invariant
            position <= prompt@.len(),
            course.tokens == Seq::<u32>::empty(),
            course.probabilities == Seq::<P>::empty(),
            course.runtimes[0] == runtime,
            course.runtimes.last() == current,
            course.logits.len() == position,
            position > 0 ==> course.logits.last() == last@,
            fed(prompt@, course),
        decreases prompt@.len() - position,
    {
        let (moved, reply) = step::<R, L>(current, prompt[position], position);
        assert(token_at(prompt@, course.tokens, position as int) == prompt@[position as int]);
        match reply {
            Err(error) => {
                return (moved, Err(error), Ghost(course));
            },
            Ok(logits) => {
                proof {
                    lemma_fed_on(prompt@, course, logits, moved);
                    course = Course {
                        logits: course.logits.push(logits@),
                        runtimes: course.runtimes.push(moved),
                        ..course
                    };
                }
                current = moved;
                last = logits;
            },
        }
        position = position + 1;
    }
    (current, Ok(last), Ghost(course))
}

/// Whether a runtime that was given `token_id` at `position` said `said`.
pub open spec fn is_given<R, L>(
    before: R,
    token_id: u32,
    position: usize,
    after: R,
    said: Seq<L>,
) -> bool where R: WhisperStepRuntime<L> {
    exists|logits: Vec<L>|
        logits@ == said && #[trigger] call_ensures(
            R::compute_reused_step_logits,
            (before, token_id, position),
            (after, Ok(logits)),
        )
}

/// A runtime that ran in the course of a decode forgot every token first and took in the
/// encoder's output of the job; then it was given the prompt, token after token, and behind it
/// what was picked, every token at the position of its place.
pub proof fn law_the_prompt_is_fed_before_what_is_picked<R, L, P>(
    before: R,
    job: WhisperServeBatchJob,
    course: Course<R, L, P>,
) where R: WhisperStepRuntime<L>
    requires
        ran(before, job, course),
        course.logits.len() <= job.decode_config.initial_prompt_tokens@.len()
            + course.tokens.len(),
    ensures
        exists|clean: R| #[trigger]
            call_ensures(R::reset_self_kv_state, (before,), clean) && call_ensures(
                R::populate_cross_attention_cache_slot,
                (clean, 0usize, &job),
                (course.runtimes[0], Ok(())),
            ),
        course.runtimes.len() == course.logits.len() + 1,
        ({
            let prompt = job.decode_config.initial_prompt_tokens@;
            forall|i: int|
                0 <= i < course.logits.len() ==> is_given(
                    course.runtimes[i],
                    if i < prompt.len() {
                        prompt[i]
                    } else {
                        course.tokens[i - prompt.len()]
                    },
                    i as usize,
                    course.runtimes[i + 1],
                    #[trigger] course.logits[i],
                )
        }),
{
    let prompt = job.decode_config.initial_prompt_tokens@;
    let clean = choose|clean: R| #[trigger]
        forgot::<R, L>(before, clean) && took_in::<R, L>(
            clean,
            0,
            job,
            course.runtimes[0],
            Ok(()),
        );
    assert(call_ensures(R::reset_self_kv_state, (before,), clean));
    assert forall|i: int| 0 <= i < course.logits.len() implies is_given(
        course.runtimes[i],
        if i < prompt.len() {
            prompt[i]
        } else {
            course.tokens[i - prompt.len()]
        },
        i as usize,
        course.runtimes[i + 1],
        #[trigger] course.logits[i],
    ) by {
        assert(fed_at(prompt, course, i));
        let token_id = token_at(prompt, course.tokens, i);
        let said = choose|said: Vec<L>|
            said@ == course.logits[i] && #[trigger] stepped(
                course.runtimes[i],
                token_id,
                i,
                course.runtimes[i + 1],
                Ok(said),
            );
        assert(call_ensures(
            R::compute_reused_step_logits,
            (course.runtimes[i], token_id, i as usize),
            (course.runtimes[i + 1], Ok(said)),
        ));
    }
}

/// A decode stays in its budget. Every token is picked behind those before it, with the tokens
/// that end this decode, from what the runtime said last before it; and a picked token is given
/// to the runtime only where the job was not canceled behind it.
pub proof fn law_tokens_are_picked_in_turn<B, S, D, Z, C, R, L, P>(
    decode: SerialDecode<B, S, D, Z, C>,
    config: Seq2SeqGreedyDecodeConfig,
    stops: Vec<u32>,
    course: Course<R, L, P>,
    place: int,
) where
    B: Fn(&Seq2SeqGreedyDecodeConfig) -> Vec<u32>,
    S: Fn(&Seq2SeqGreedyDecodeConfig, &Vec<u32>, &Vec<u32>, Vec<L>) -> Result<
        GreedyStep<P>,
        String,
    >,
    C: Fn(&Vec<u32>) -> bool,

    requires
        decode.may_take(config, stops, course),
        0 <= place < course.tokens.len(),
    ensures
        call_ensures(decode.stop_token_ids, (&config,), stops),
        course.tokens.len() <= config.max_generated_tokens,
        exists|generated: Vec<u32>, scores: Vec<L>| #[trigger]
            call_ensures(
                decode.select,
                (&config, &generated, &stops, scores),
                Ok(
                    GreedyStep::Append {
                        token_id: course.tokens[place],
                        probability: course.probabilities[place],
                    },
                ),
            ) && generated@ == course.tokens.take(place) && scores@
                == course.logits[config.initial_prompt_tokens@.len() + place - 1],
        config.initial_prompt_tokens@.len() + place < course.logits.len() ==> exists|
            picked: Vec<u32>,
        |
            picked@ == course.tokens.take(place + 1) && #[trigger] call_ensures(
                decode.canceled,
                (&picked,),
                false,
            ),
{
    assert(decode.picked_at(config, stops, course, place));
    if config.initial_prompt_tokens@.len() + place < course.logits.len() {
        assert(decode.went_on_behind(course, place + 1));
    }
}

/// A decode that gave an output used up its budget and kept every token, or was ended by a
/// step, which was picked behind all tokens from what the runtime had said last, and kept as
/// many of the first tokens as that step said. The text is that of the tokens that were kept.
pub proof fn law_a_decode_ends_with_its_budget_or_by_a_step<B, S, D, Z, C, R, L, P, T, W>(
    decode: SerialDecode<B, S, D, Z, C>,
    job: WhisperServeBatchJob,
    stops: Vec<u32>,
    course: Course<R, L, P>,
    start: T,
    end: T,
    output: WhisperExecutionOutput<T, W>,
) -> (kept: Vec<u32>) where
    B: Fn(&Seq2SeqGreedyDecodeConfig) -> Vec<u32>,
    S: Fn(&Seq2SeqGreedyDecodeConfig, &Vec<u32>, &Vec<u32>, Vec<L>) -> Result<
        GreedyStep<P>,
        String,
    >,
    D: Fn(&Vec<u32>) -> Result<String, String>,
    Z: Fn(&Vec<u32>, &Vec<P>, T, T) -> Result<Vec<W>, String>,
    C: Fn(&Vec<u32>) -> bool,

    requires
        decode.gives(job, stops, course, start, end, Ok(output)),
    ensures
        kept@.len() <= course.tokens.len(),
        kept@ == course.tokens.take(kept@.len() as int),
        exists|raw: String| #[trigger]
            call_ensures(decode.decode, (&kept,), Ok(raw)) && output.text@ == crate::text::trimmed(
                raw@,
            ),
        course.tokens.len() == job.decode_config.max_generated_tokens ==> kept@.len()
            == course.tokens.len() && output.stop_reason
            == Seq2SeqGreedyDecodeStopReason::BudgetExhausted,
        course.tokens.len() != job.decode_config.max_generated_tokens ==> exists|
            cut: usize,
            generated: Vec<u32>,
            scores: Vec<L>,
        | #[trigger]
            call_ensures(
                decode.select,
                (&job.decode_config, &generated, &stops, scores),
                Ok(GreedyStep::<P>::Finish { kept: cut, reason: output.stop_reason }),
            ) && generated@ == course.tokens && scores@ == course.logits.last() && (if cut
                <= course.tokens.len() {
                kept@.len() == cut
            } else {
                kept@.len() == course.tokens.len()
            }),
{
    let config = job.decode_config;
    let result = Ok::<WhisperExecutionOutput<T, W>, WhisperServeBatchError>(output);
    let (kept, probabilities, reason) = choose|
        tokens: Vec<u32>,
        probabilities: Vec<P>,
        reason: Seq2SeqGreedyDecodeStopReason,
    | #[trigger]
        finish::finishes(
            decode.decode,
            decode.words,
            tokens,
            probabilities,
            job.word_timestamps,
            start,
            end,
            job.carry_prompt_seed_token_ids,
            reason,
            result,
        ) && tokens@.len() <= course.tokens.len() && tokens@ == course.tokens.take(
            tokens@.len() as int,
        ) && probabilities@ == course.probabilities.take(tokens@.len() as int) && decode.ends(
            config,
            stops,
            course,
            tokens@.len() as int,
            reason,
        );
    finish::law_output_holds_text_and_words(
        decode.decode,
        decode.words,
        kept,
        probabilities,
        job.word_timestamps,
        start,
        end,
        job.carry_prompt_seed_token_ids,
        reason,
        output,
    );
    if course.tokens.len() != config.max_generated_tokens {
        let cut = choose|cut: usize|
            kept@.len() == slot::kept_of(cut, course.tokens.len()) && #[trigger] slot::picks(
                decode.select,
                config,
                stops,
                course.tokens,
                course.logits.last(),
                Ok(GreedyStep::<P>::Finish { kept: cut, reason }),
            );
        let (generated, scores) = choose|generated: Vec<u32>, scores: Vec<L>| #[trigger]
            call_ensures(
                decode.select,
                (&config, &generated, &stops, scores),
                Ok(GreedyStep::<P>::Finish { kept: cut, reason }),
            ) && generated@ == course.tokens && scores@ == course.logits.last();
        assert(call_ensures(
            decode.select,
            (&job.decode_config, &generated, &stops, scores),
            Ok(GreedyStep::<P>::Finish { kept: cut, reason: output.stop_reason }),
        ));
    }
    kept
}

} // verus!
