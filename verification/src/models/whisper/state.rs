//! The state that a decoder keeps between steps, in positions.

use vstd::prelude::*;
use vstd::string::*;

use crate::models::decoder_state::StateKind;
use crate::text::append_field;

verus! {

/// One kind of attention state: what a job needs, what is held for it, and how much there
/// can ever be.
#[derive(Debug, Clone, Copy, PartialEq, Eq, Hash, Structural)]
pub struct Seq2SeqStateAxis {
    pub logical_positions: usize,
    pub resident_positions: usize,
    pub hard_position_cap: usize,
}

/// The attention state of an encoder-decoder.
#[derive(Debug, Clone, Copy, PartialEq, Eq, Hash, Structural)]
pub struct Seq2SeqDecoderState {
    pub self_attention: Seq2SeqStateAxis,
    pub cross_attention: Seq2SeqStateAxis,
}

/// What is held for a job, for each kind of attention.
#[derive(Debug, Clone, Copy, PartialEq, Eq, Hash, Structural)]
pub struct ResidentCapacity {
    pub self_positions: usize,
    pub cross_positions: usize,
}

impl Seq2SeqStateAxis {
    /// The text of an axis.
    pub open spec fn text(self) -> Seq<char> {
        "Seq2SeqStateAxis { logical_positions: "@ + crate::text::decimal(
            self.logical_positions as nat,
        ) + ", resident_positions: "@ + crate::text::decimal(self.resident_positions as nat)
            + ", hard_position_cap: "@ + crate::text::decimal(self.hard_position_cap as nat) + " }"@
    }

    fn append_to(&self, text: &mut String)
        ensures
            final(text)@ == old(text)@ + self.text(),
    {
        append_field(
            text,
            "Seq2SeqStateAxis { logical_positions: ",
            self.logical_positions as u128,
        );
        append_field(text, ", resident_positions: ", self.resident_positions as u128);
        append_field(text, ", hard_position_cap: ", self.hard_position_cap as u128);
        text.append(" }");
        assert(text@ =~= old(text)@ + self.text());
    }
}

impl Seq2SeqDecoderState {
    /// What is held.
    pub open spec fn resident(self) -> ResidentCapacity {
        ResidentCapacity {
            self_positions: self.self_attention.resident_positions,
            cross_positions: self.cross_attention.resident_positions,
        }
    }

    pub fn resident_capacity(&self) -> (capacity: ResidentCapacity)
        ensures
            capacity == self.resident(),
    {
        ResidentCapacity {
            self_positions: self.self_attention.resident_positions,
            cross_positions: self.cross_attention.resident_positions,
        }
    }

    /// The text of a state.
    pub open spec fn text(self) -> Seq<char> {
        "Seq2SeqDecoderState { self_attention: "@ + self.self_attention.text()
            + ", cross_attention: "@ + self.cross_attention.text() + " }"@
    }

    pub(crate) fn append_to(&self, text: &mut String)
        ensures
            final(text)@ == old(text)@ + self.text(),
    {
        text.append("Seq2SeqDecoderState { self_attention: ");
        self.self_attention.append_to(text);
        text.append(", cross_attention: ");
        self.cross_attention.append_to(text);
        text.append(" }");
        assert(text@ =~= old(text)@ + self.text());
    }
}

/// The rules on attention state that the runtime brings along. Nothing is promised of what
/// they say.
pub trait Seq2SeqStateRules {
    /// Self-attention rows that a greedy decode needs.
    fn greedy_self_kv_positions(
        &self,
        prompt_tokens: usize,
        max_generated_tokens: usize,
    ) -> Result<usize, String>;

    /// Cross-attention rows that are held for so many encoder frames.
    fn cross_attention_stride_frames(&self, encoder_frames: usize) -> usize;

    fn validate(&self, state: &Seq2SeqDecoderState) -> Result<(), String>;

    fn validate_runtime_ceiling(
        &self,
        axis: &Seq2SeqStateAxis,
        kind: StateKind,
        ceiling: usize,
    ) -> Result<(), String>;

    fn validate_exact_shape(
        &self,
        axis: &Seq2SeqStateAxis,
        kind: StateKind,
        positions: usize,
    ) -> Result<(), String>;

    fn validate_resident_shape(
        &self,
        axis: &Seq2SeqStateAxis,
        kind: StateKind,
        positions: usize,
    ) -> Result<(), String>;
}

/// What is held for a state is what its two kinds of attention hold, each for itself; what a
/// job needs of it and how much there can be do not count.
pub proof fn law_only_resident_positions_are_held(a: Seq2SeqDecoderState, b: Seq2SeqDecoderState)
    ensures
        a.resident() == b.resident() <==> a.self_attention.resident_positions
            == b.self_attention.resident_positions && a.cross_attention.resident_positions
            == b.cross_attention.resident_positions,
        a.resident().self_positions == a.self_attention.resident_positions,
        a.resident().cross_positions == a.cross_attention.resident_positions,
{
}

} // verus!
