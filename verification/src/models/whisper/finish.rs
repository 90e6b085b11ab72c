//! What a finished decode gives.

use vstd::prelude::*;
use vstd::string::*;

use crate::models::whisper::error;
use crate::models::whisper::error::{failed_decode, WhisperServeBatchError};
use crate::text::trimmed_text;

verus! {

/// Most tokens that a long recording carries from one slice into the prompt of the next.
pub const WHISPER_LONGFORM_PROMPT_TOKEN_TAIL_LIMIT: usize = 32;

/// Why a decode ended.
#[derive(Debug, Clone, Copy, PartialEq, Eq, Structural)]
pub enum Seq2SeqGreedyDecodeStopReason {
    /// The model said that it was done.
    StopToken,
    /// As many tokens were generated as were allowed.
    BudgetExhausted,
    /// A guard cut the decode short.
    GuardTruncated,
}

/// A stretch of transcribed speech.
#[derive(Debug, Clone, PartialEq)]
pub struct Segment<T, W> {
    pub start: T,
    pub end: T,
    pub text: String,
    pub speaker: Option<String>,
    pub speaker_label: Option<String>,
    pub speaker_person_id: Option<String>,
    pub speaker_snapshot_label: Option<String>,
    pub words: Vec<W>,
}

/// What a decode gives.
#[derive(Debug, Clone, PartialEq)]
pub struct WhisperExecutionOutput<T, W> {
    pub text: String,
    pub segments: Vec<Segment<T, W>>,
    pub carry_prompt_token_ids: Option<Vec<u32>>,
    pub detected_language: Option<String>,
    pub stop_reason: Seq2SeqGreedyDecodeStopReason,
}

/// The last tokens of a history, at most `limit` of them.
pub open spec fn tail(history: Seq<u32>, limit: nat) -> Seq<u32> {
    if history.len() <= limit {
        history
    } else {
        history.skip(history.len() - limit)
    }
}

/// What the next slice is prompted with: the tail of what this one was prompted with and
/// what it generated; nothing where there is no history, or none is to be carried.
pub open spec fn carried(
    enabled: bool,
    seed: Seq<u32>,
    generated: Seq<u32>,
    limit: nat,
) -> Option<Seq<u32>> {
    let kept = tail(seed + generated, limit);
    if enabled && kept.len() > 0 {
        Some(kept)
    } else {
        None
    }
}

/// The ids of an optional list.
pub open spec fn optional_ids(ids: Option<Vec<u32>>) -> Option<Seq<u32>> {
    match ids {
        Some(ids) => Some(ids@),
        None => None,
    }
}

pub fn build_longform_token_history_carry(
    enabled: bool,
    seed: Vec<u32>,
    generated: &Vec<u32>,
    limit: usize,
) -> (carry: Option<Vec<u32>>)
    ensures
        optional_ids(carry) == carried(enabled, seed@, generated@, limit as nat),
{
    if !enabled {
        return None;
    }
    let ghost history = seed@ + generated@;
    let mut carry: Vec<u32> = Vec::new();
    // Tokens of the seed that still fit behind the generated ones.
    let from_generated: usize = if generated.len() <= limit {
        generated.len()
    } else {
        limit
    };
    let room: usize = limit - from_generated;
    let mut at: usize = if seed.len() <= room {
        0
    } else {
        seed.len() - room
    };
    let ghost first = at as int;
    while at < seed.len()
        invariant
            0 <= first <= at <= seed.len(),
            carry@ == seed@.subrange(first, at as int),
        decreases seed.len() - at,
    {
        carry.push(seed[at]);
        at = at + 1;
        assert(carry@ =~= seed@.subrange(first, at as int));
    }
    let ghost from_seed = seed@.subrange(first, seed@.len() as int);
    let mut next: usize = generated.len() - from_generated;
    let ghost begin = next as int;
    assert(carry@ =~= from_seed + generated@.subrange(begin, begin));
    while next < generated.len()
        invariant
            0 <= begin <= next <= generated.len(),
            carry@ == from_seed + generated@.subrange(begin, next as int),
        decreases generated.len() - next,
    {
        carry.push(generated[next]);
        next = next + 1;
        assert(carry@ =~= from_seed + generated@.subrange(begin, next as int));
    }
    assert(carry@ =~= tail(history, limit as nat));
    if carry.len() == 0 {
        None
    } else {
        Some(carry)
    }
}

/// What is carried fits the limit, ends as the history ends, and holds all of it where all
/// of it fits.
pub proof fn law_the_carry_is_the_end_of_the_history(
    seed: Seq<u32>,
    generated: Seq<u32>,
    limit: nat,
)
    ensures
        carried(true, seed, generated, limit) matches Some(kept) ==> {
            &&& kept.len() <= limit
            &&& kept.len() <= seed.len() + generated.len()
            &&& kept == (seed + generated).skip(seed.len() + generated.len() - kept.len())
            &&& seed.len() + generated.len() <= limit ==> kept == seed + generated
            &&& seed.len() + generated.len() >= limit ==> kept.len() == limit
        },
        carried(true, seed, generated, limit) is Some <==> seed.len() + generated.len() > 0
            && limit > 0,
        carried(false, seed, generated, limit) is None,
{
    let history = seed + generated;
    assert(history.skip(0) =~= history);
}

// ---------------------------------------------------------------------------
// Output
// ---------------------------------------------------------------------------

/// The words that may be timed: what `words` replies where words are asked for, else none.
pub open spec fn timed<P, T, W, Z: Fn(&Vec<u32>, &Vec<P>, T, T) -> Result<Vec<W>, String>>(
    words: Z,
    word_timestamps: bool,
    tokens: Vec<u32>,
    probabilities: Vec<P>,
    start: T,
    end: T,
    reply: Result<Vec<W>, String>,
) -> bool {
    if word_timestamps {
        call_ensures(words, (&tokens, &probabilities, start, end), reply)
    } else {
        reply matches Ok(none) && none@.len() == 0
    }
}

/// Whether a text may be decoded from tokens.
pub open spec fn decodes<D: Fn(&Vec<u32>) -> Result<String, String>>(
    decode: D,
    tokens: Vec<u32>,
    reply: Result<String, String>,
) -> bool {
    call_ensures(decode, (&tokens,), reply)
}

/// Whether an output puts a text, its words and what is carried together: a text with words
/// is one segment over the whole audio, a text without has none.
pub open spec fn puts_together<T, W>(
    output: WhisperExecutionOutput<T, W>,
    text: Seq<char>,
    spoken: Vec<W>,
    start: T,
    end: T,
    carry: Option<Seq<u32>>,
    stop_reason: Seq2SeqGreedyDecodeStopReason,
) -> bool {
    &&& output.text@ == text
    &&& optional_ids(output.carry_prompt_token_ids) == carry
    &&& output.detected_language is None
    &&& output.stop_reason == stop_reason
    &&& if spoken@.len() == 0 {
        output.segments@.len() == 0
    } else {
        &&& output.segments@.len() == 1
        &&& output.segments@[0].start == start
        &&& output.segments@[0].end == end
        &&& output.segments@[0].text@ == text
        &&& output.segments@[0].speaker is None
        &&& output.segments@[0].speaker_label is None
        &&& output.segments@[0].speaker_person_id is None
        &&& output.segments@[0].speaker_snapshot_label is None
        &&& output.segments@[0].words == spoken
    }
}

/// What the next slice is prompted with, where this one was seeded for that.
pub open spec fn carried_from(seed: Option<Vec<u32>>, generated: Seq<u32>) -> Option<Seq<u32>> {
    match seed {
        Some(seed) => carried(
            true,
            seed@,
            generated,
            WHISPER_LONGFORM_PROMPT_TOKEN_TAIL_LIMIT as nat,
        ),
        None => None,
    }
}

/// What finishing a decode gives: its text without white space round it, or the reason why
/// there is none.
pub open spec fn finishes<P, T, W, D, Z>(
    decode: D,
    words: Z,
    tokens: Vec<u32>,
    probabilities: Vec<P>,
    word_timestamps: bool,
    start: T,
    end: T,
    seed: Option<Vec<u32>>,
    stop_reason: Seq2SeqGreedyDecodeStopReason,
    result: Result<WhisperExecutionOutput<T, W>, WhisperServeBatchError>,
) -> bool where
    D: Fn(&Vec<u32>) -> Result<String, String>,
    Z: Fn(&Vec<u32>, &Vec<P>, T, T) -> Result<Vec<W>, String>,
 {
    match result {
        Ok(output) => exists|raw: String, spoken: Vec<W>|
            #![trigger decodes(decode, tokens, Ok(raw)), timed(
                    words,
                    word_timestamps,
                    tokens,
                    probabilities,
                    start,
                    end,
                    Ok(spoken),
                )]
            decodes(decode, tokens, Ok(raw)) && crate::text::trimmed(raw@).len() > 0 && timed(
                words,
                word_timestamps,
                tokens,
                probabilities,
                start,
                end,
                Ok(spoken),
            ) && puts_together(
                output,
                crate::text::trimmed(raw@),
                spoken,
                start,
                end,
                carried_from(seed, tokens@),
                stop_reason,
            ),
        Err(error) => {
            ||| exists|reason: String| #[trigger]
                decodes(decode, tokens, Err(reason)) && error::decode_failed(error, reason@)
            ||| exists|raw: String| #[trigger]
                decodes(decode, tokens, Ok(raw)) && crate::text::trimmed(raw@).len() == 0
                    && error::decode_failed(error, "tokenizer decode produced empty text"@)
            ||| exists|raw: String, reason: String|
                #![trigger decodes(decode, tokens, Ok(raw)), timed(
                        words,
                        word_timestamps,
                        tokens,
                        probabilities,
                        start,
                        end,
                        Err(reason),
                    )]
                decodes(decode, tokens, Ok(raw)) && crate::text::trimmed(raw@).len() > 0 && timed(
                    words,
                    word_timestamps,
                    tokens,
                    probabilities,
                    start,
                    end,
                    Err(reason),
                ) && error::decode_failed(error, reason@)
        },
    }
}

/// Finishes a decode. `decode` turns tokens into text, and `words` times them over the audio
/// from `start` to `end`.
pub fn finish_whisper_serve_batch_output<P, T: Copy, W, D, Z>(
    decode: &D,
    words: &Z,
    generated_tokens: Vec<u32>,
    generated_probabilities: Vec<P>,
    word_timestamps: bool,
    start: T,
    end: T,
    carry_prompt_seed_token_ids: Option<Vec<u32>>,
    stop_reason: Seq2SeqGreedyDecodeStopReason,
) -> (result: Result<WhisperExecutionOutput<T, W>, WhisperServeBatchError>) where
    D: Fn(&Vec<u32>) -> Result<String, String>,
    Z: Fn(&Vec<u32>, &Vec<P>, T, T) -> Result<Vec<W>, String>,

    requires
        forall|tokens: Vec<u32>| #[trigger] call_requires(*decode, (&tokens,)),
        forall|tokens: Vec<u32>, probabilities: Vec<P>, from: T, to: T| #[trigger]
            call_requires(*words, (&tokens, &probabilities, from, to)),
    ensures
        finishes(
            *decode,
            *words,
            generated_tokens,
            generated_probabilities,
            word_timestamps,
            start,
            end,
            carry_prompt_seed_token_ids,
            stop_reason,
            result,
        ),
{
    let raw: String = match decode(&generated_tokens) {
        Ok(raw) => raw,
        Err(reason) => {
            assert(decodes(*decode, generated_tokens, Err(reason)));
            return Err(failed_decode(reason.as_str()));
        },
    };
    assert(decodes(*decode, generated_tokens, Ok(raw)));
    let text: String = trimmed_text(raw.as_str());
    if text.as_str().unicode_len() == 0 {
        return Err(failed_decode("tokenizer decode produced empty text"));
    }
    let spoken: Vec<W> = if word_timestamps {
        match words(&generated_tokens, &generated_probabilities, start, end) {
            Ok(spoken) => spoken,
            Err(reason) => {
                assert(timed(
                    *words,
                    word_timestamps,
                    generated_tokens,
                    generated_probabilities,
                    start,
                    end,
                    Err(reason),
                ));
                return Err(failed_decode(reason.as_str()));
            },
        }
    } else {
        Vec::new()
    };
    assert(timed(
        *words,
        word_timestamps,
        generated_tokens,
        generated_probabilities,
        start,
        end,
        Ok(spoken),
    ));
    let mut segments: Vec<Segment<T, W>> = Vec::new();
    if spoken.len() > 0 {
        segments.push(
            Segment {
                start,
                end,
                text: text.clone(),
                speaker: None,
                speaker_label: None,
                speaker_person_id: None,
                speaker_snapshot_label: None,
                words: spoken,
            },
        );
    }
    let carry_prompt_token_ids: Option<Vec<u32>> = match carry_prompt_seed_token_ids {
        Some(seed) => build_longform_token_history_carry(
            true,
            seed,
            &generated_tokens,
            WHISPER_LONGFORM_PROMPT_TOKEN_TAIL_LIMIT,
        ),
        None => None,
    };
    let output = WhisperExecutionOutput {
        text,
        segments,
        carry_prompt_token_ids,
        // No language is identified here: an `auto` request is decoded with none set.
        detected_language: None,
        stop_reason,
    };
    assert(puts_together(
        output,
        crate::text::trimmed(raw@),
        spoken,
        start,
        end,
        carried_from(carry_prompt_seed_token_ids, generated_tokens@),
        stop_reason,
    ));
    Ok(output)
}

/// A slice that was seeded carries the last 32 tokens of its seed and what it generated, or
/// all of them where there are fewer; one that was not carries nothing.
pub proof fn law_the_carry_holds_the_last_tokens(seed: Option<Vec<u32>>, generated: Seq<u32>)
    ensures
        seed is None ==> carried_from(seed, generated) is None,
        seed matches Some(ids) ==> {
            let history = ids@ + generated;
            &&& carried_from(seed, generated) is None <==> history.len() == 0
            &&& carried_from(seed, generated) matches Some(kept) ==> {
                &&& history.len() <= 32 ==> kept == history
                &&& history.len() > 32 ==> kept.len() == 32
                &&& forall|i: int|
                    0 <= i < kept.len() ==> kept[i] == history[history.len() - kept.len() + i]
            }
        },
{
    if let Some(ids) = seed {
        law_the_carry_is_the_end_of_the_history(
            ids@,
            generated,
            WHISPER_LONGFORM_PROMPT_TOKEN_TAIL_LIMIT as nat,
        );
    }
}

/// What a finished decode gives. Its text is what the tokens were decoded to, without white
/// space round it, and is not empty. Words are asked for only where they are wanted; where
/// there are any, one segment over the whole audio holds them with the text, and else there
/// is none. It says how the decode ended and what is carried on.
pub proof fn law_output_holds_text_and_words<P, T, W, D, Z>(
    decode: D,
    words: Z,
    tokens: Vec<u32>,
    probabilities: Vec<P>,
    word_timestamps: bool,
    start: T,
    end: T,
    seed: Option<Vec<u32>>,
    stop_reason: Seq2SeqGreedyDecodeStopReason,
    output: WhisperExecutionOutput<T, W>,
) where
    D: Fn(&Vec<u32>) -> Result<String, String>,
    Z: Fn(&Vec<u32>, &Vec<P>, T, T) -> Result<Vec<W>, String>,

    requires
        finishes(
            decode,
            words,
            tokens,
            probabilities,
            word_timestamps,
            start,
            end,
            seed,
            stop_reason,
            Ok(output),
        ),
    ensures
        output.text@.len() > 0,
        exists|raw: String| #[trigger]
            call_ensures(decode, (&tokens,), Ok(raw)) && output.text@ == crate::text::trimmed(raw@),
        output.segments@.len() <= 1,
        !word_timestamps ==> output.segments@.len() == 0,
        output.segments@.len() == 1 ==> {
            &&& output.segments@[0].start == start
            &&& output.segments@[0].end == end
            &&& output.segments@[0].text@ == output.text@
            &&& output.segments@[0].words@.len() > 0
            &&& output.segments@[0].speaker is None
            &&& call_ensures(
                words,
                (&tokens, &probabilities, start, end),
                Ok(output.segments@[0].words),
            )
        },
        word_timestamps && output.segments@.len() == 0 ==> exists|spoken: Vec<W>|
            spoken@.len() == 0 && #[trigger] call_ensures(
                words,
                (&tokens, &probabilities, start, end),
                Ok(spoken),
            ),
        output.stop_reason == stop_reason,
        output.detected_language is None,
        optional_ids(output.carry_prompt_token_ids) == carried_from(seed, tokens@),
{
    let (raw, spoken) = choose|raw: String, spoken: Vec<W>|
        #![trigger decodes(decode, tokens, Ok(raw)), timed(
                words,
                word_timestamps,
                tokens,
                probabilities,
                start,
                end,
                Ok(spoken),
            )]
        decodes(decode, tokens, Ok(raw)) && crate::text::trimmed(raw@).len() > 0 && timed(
            words,
            word_timestamps,
            tokens,
            probabilities,
            start,
            end,
            Ok(spoken),
        ) && puts_together(
            output,
            crate::text::trimmed(raw@),
            spoken,
            start,
            end,
            carried_from(seed, tokens@),
            stop_reason,
        );
    assert(decodes(decode, tokens, Ok(raw)));
    assert(call_ensures(decode, (&tokens,), Ok(raw)));
    assert(timed(
        words,
        word_timestamps,
        tokens,
        probabilities,
        start,
        end,
        Ok(spoken),
    ));
    if word_timestamps {
        assert(call_ensures(words, (&tokens, &probabilities, start, end), Ok(spoken)));
    }
}

/// A decode fails to finish for a reason: its tokens could not be decoded, or gave nothing but
/// white space, or words were wanted of them and could not be timed.
pub proof fn law_a_finish_fails_for_a_reason<P, T, W, D, Z>(
    decode: D,
    words: Z,
    tokens: Vec<u32>,
    probabilities: Vec<P>,
    word_timestamps: bool,
    start: T,
    end: T,
    seed: Option<Vec<u32>>,
    stop_reason: Seq2SeqGreedyDecodeStopReason,
    error: WhisperServeBatchError,
) where
    D: Fn(&Vec<u32>) -> Result<String, String>,
    Z: Fn(&Vec<u32>, &Vec<P>, T, T) -> Result<Vec<W>, String>,

    requires
        finishes::<P, T, W, D, Z>(
            decode,
            words,
            tokens,
            probabilities,
            word_timestamps,
            start,
            end,
            seed,
            stop_reason,
            Err(error),
        ),
    ensures
        error is DecodeFailed,
        ({
            let why = error->DecodeFailed_reason@;
            ||| exists|reason: String| #[trigger]
                call_ensures(decode, (&tokens,), Err(reason)) && reason@ == why
            ||| why == "tokenizer decode produced empty text"@ && exists|raw: String| #[trigger]
                call_ensures(decode, (&tokens,), Ok(raw)) && forall|i: int|
                    0 <= i < raw@.len() ==> crate::text::is_white_space(#[trigger] raw@[i])
            ||| word_timestamps && exists|reason: String| #[trigger]
                call_ensures(words, (&tokens, &probabilities, start, end), Err(reason)) && reason@
                    == why
        }),
{
    if exists|raw: String| #[trigger]
        decodes(decode, tokens, Ok(raw)) && crate::text::trimmed(raw@).len() == 0
            && error::decode_failed(error, "tokenizer decode produced empty text"@) {
        let raw = choose|raw: String| #[trigger]
            decodes(decode, tokens, Ok(raw)) && crate::text::trimmed(raw@).len() == 0
                && error::decode_failed(error, "tokenizer decode produced empty text"@);
        assert(call_ensures(decode, (&tokens,), Ok(raw)));
        let ends = crate::text::law_trimming_takes_white_space_only(raw@);
        assert(ends.0 == ends.1);
    }
}

} // verus!
