//! The persistent state of a decoder: what a request is planned for, and whether the
//! state that it carries is the one that its executor promised.

use vstd::prelude::*;
use vstd::set_lib::*;
use vstd::string::*;

use crate::longform::duration;
use crate::longform::duration::executor_window_limit_samples;
use crate::models::backend::GgmlCpuGraphBackend;
use crate::models::options::GgmlAsrExecutionOptions;
use crate::text::{append_decimal, same_text};

verus! {

/// What a stream of persistent state holds.
#[derive(Debug, Clone, Copy, PartialEq, Eq, Structural)]
pub enum StateKind {
    SelfAttentionKv,
    CrossAttentionKv,
}

/// The audio of one invocation.
#[derive(Debug, Clone, Copy, PartialEq, Eq, Structural)]
pub struct InvocationShapeInput {
    pub sample_rate_hz: u32,
    pub samples: usize,
}

/// The largest invocation that resident state is sized for.
#[derive(Debug, Clone, Copy, PartialEq, Eq, Structural)]
pub struct InvocationEnvelope {
    pub sample_rate_hz: u32,
    pub max_samples: usize,
    pub max_prompt_tokens: usize,
}

impl InvocationEnvelope {
    /// The largest invocation inside the envelope.
    pub fn maximum_invocation(&self) -> (invocation: InvocationShapeInput)
        ensures
            invocation == (InvocationShapeInput {
                sample_rate_hz: self.sample_rate_hz,
                samples: self.max_samples,
            }),
    {
        InvocationShapeInput { sample_rate_hz: self.sample_rate_hz, samples: self.max_samples }
    }
}

/// What one stream of persistent state needs.
#[derive(Debug, Clone, Copy, PartialEq, Eq)]
pub struct StateDemand {
    pub id: &'static str,
    pub kind: StateKind,
    pub positions: usize,
}

/// One planned stream: what the invocation needs, and what is held in reserve for it.
#[derive(Debug, Clone, Copy, PartialEq, Eq)]
pub struct StateAllocation {
    pub logical: StateDemand,
    pub reserve: StateDemand,
}

/// The planned streams of a decoder.
#[derive(Debug, Clone, PartialEq, Eq)]
pub struct DecoderStatePlan {
    pub allocations: Vec<StateAllocation>,
}

/// Pure semantic decoder-state plan. It proves token and state geometry only; memory is
/// admitted later, with the allocation that it accounts for.
#[derive(Debug, Clone, PartialEq, Eq)]
pub struct GgmlAsrPlannedDecoderState {
    pub plan: DecoderStatePlan,
    pub envelope: InvocationEnvelope,
}

/// The two legal states carried across execution seams. `NoPersistentState` is an
/// affirmative declaration, not a plan that is still missing.
#[derive(Debug, Clone, PartialEq, Eq)]
pub enum GgmlAsrDecoderState {
    NoPersistentState,
    Planned(GgmlAsrPlannedDecoderState),
}

/// Why decoder state cannot be planned.
#[derive(Debug, Clone, PartialEq, Eq)]
pub enum GgmlAsrDecoderStatePlanningError {
    InvalidSampleRate { sample_rate_hz: u32 },
    InvalidEnvelopeDuration { value: String },
    InvalidShape { source: String },
    MetadataUnavailable { family: &'static str, reason: String },
    PromptTokenCountUnavailable { family: &'static str, reason: String },
    Topology { family: &'static str, source: String },
    ResidentRebind { source: String },
    StateClassChanged,
}

fn joined3(a: &str, b: &str, c: &str) -> (whole: String)
    ensures
        whole@ == a@ + b@ + c@,
{
    let mut whole: String = a.to_owned();
    whole.append(b);
    whole.append(c);
    whole
}

fn joined4(a: &str, b: &str, c: &str, d: &str) -> (whole: String)
    ensures
        whole@ == a@ + b@ + c@ + d@,
{
    let mut whole: String = joined3(a, b, c);
    whole.append(d);
    whole
}

impl GgmlAsrDecoderStatePlanningError {
    /// The text of the error.
    pub open spec fn text(self) -> Seq<char> {
        match self {
            GgmlAsrDecoderStatePlanningError::InvalidSampleRate { sample_rate_hz } =>
                "decoder-state planning received invalid sample rate "@ + crate::text::decimal(
                    sample_rate_hz as nat,
                ) + " Hz"@,
            GgmlAsrDecoderStatePlanningError::InvalidEnvelopeDuration { value } =>
                "decoder-state planning received invalid envelope duration '"@ + value@
                    + "' seconds"@,
            GgmlAsrDecoderStatePlanningError::InvalidShape { source } =>
                "decoder-state planning shape is invalid: "@ + source@,
            GgmlAsrDecoderStatePlanningError::MetadataUnavailable { family, reason } =>
                "model family '"@ + family@ + "' decoder-state metadata is unavailable: "@
                    + reason@,
            GgmlAsrDecoderStatePlanningError::PromptTokenCountUnavailable { family, reason } =>
                "model family '"@ + family@ + "' exact prompt token count is unavailable: "@
                    + reason@,
            GgmlAsrDecoderStatePlanningError::Topology { family, source } => "model family '"@
                + family@ + "' decoder-state topology failed: "@ + source@,
            GgmlAsrDecoderStatePlanningError::ResidentRebind { source } =>
                "streaming decoder-state logical demand no longer fits the admitted resident session envelope: "@
                    + source@,
            GgmlAsrDecoderStatePlanningError::StateClassChanged =>
                "streaming decoder-state family changed persistent-state class within one session"@,
        }
    }

    pub fn message(&self) -> (message: String)
        ensures
            message@ == self.text(),
    {
        match self {
            GgmlAsrDecoderStatePlanningError::InvalidSampleRate { sample_rate_hz } => {
                let mut message: String =
                    "decoder-state planning received invalid sample rate ".to_owned();
                append_decimal(&mut message, *sample_rate_hz as u128);
                message.append(" Hz");
                message
            },
            GgmlAsrDecoderStatePlanningError::InvalidEnvelopeDuration { value } => joined3(
                "decoder-state planning received invalid envelope duration '",
                value.as_str(),
                "' seconds",
            ),
            GgmlAsrDecoderStatePlanningError::InvalidShape { source } => {
                let mut message: String = "decoder-state planning shape is invalid: ".to_owned();
                message.append(source.as_str());
                message
            },
            GgmlAsrDecoderStatePlanningError::MetadataUnavailable { family, reason } => joined4(
                "model family '",
                family,
                "' decoder-state metadata is unavailable: ",
                reason.as_str(),
            ),
            GgmlAsrDecoderStatePlanningError::PromptTokenCountUnavailable { family, reason } =>
                joined4(
                    "model family '",
                    family,
                    "' exact prompt token count is unavailable: ",
                    reason.as_str(),
                ),
            GgmlAsrDecoderStatePlanningError::Topology { family, source } => joined4(
                "model family '",
                family,
                "' decoder-state topology failed: ",
                source.as_str(),
            ),
            GgmlAsrDecoderStatePlanningError::ResidentRebind { source } => {
                let mut message: String =
                    "streaming decoder-state logical demand no longer fits the admitted resident session envelope: ".to_owned();
                message.append(source.as_str());
                message
            },
            GgmlAsrDecoderStatePlanningError::StateClassChanged =>
                "streaming decoder-state family changed persistent-state class within one session".to_owned(),
        }
    }
}

impl DecoderStatePlan {
    /// A copy.
    pub(crate) fn duplicate(&self) -> (copy: Self)
        ensures
            copy.allocations@ == self.allocations@,
    {
        let mut allocations: Vec<StateAllocation> = Vec::new();
        let mut at: usize = 0;
        while at < self.allocations.len()
            invariant
                at <= self.allocations.len(),
                allocations@ == self.allocations@.take(at as int),
            decreases self.allocations.len() - at,
        {
            allocations.push(self.allocations[at]);
            at = at + 1;
            assert(allocations@ =~= self.allocations@.take(at as int));
        }
        assert(allocations@ =~= self.allocations@);
        DecoderStatePlan { allocations }
    }
}

/// The streams and the envelope of a state; none for an affirmative absence of state.
pub open spec fn planned_streams(state: GgmlAsrDecoderState) -> Option<
    (Seq<StateAllocation>, InvocationEnvelope),
> {
    match state {
        GgmlAsrDecoderState::NoPersistentState => None,
        GgmlAsrDecoderState::Planned(planned) => Some(
            (planned.plan.allocations@, planned.envelope),
        ),
    }
}

impl GgmlAsrDecoderState {
    pub fn planned(plan: DecoderStatePlan, envelope: InvocationEnvelope) -> (state: Self)
        ensures
            state == GgmlAsrDecoderState::Planned(GgmlAsrPlannedDecoderState { plan, envelope }),
    {
        GgmlAsrDecoderState::Planned(GgmlAsrPlannedDecoderState { plan, envelope })
    }

    /// The envelope that the state was planned for.
    pub fn invocation_envelope(&self) -> (envelope: Option<InvocationEnvelope>)
        ensures
            envelope == (match planned_streams(*self) {
                Some(planned) => Some(planned.1),
                None => None,
            }),
    {
        match self {
            GgmlAsrDecoderState::NoPersistentState => None,
            GgmlAsrDecoderState::Planned(planned) => Some(planned.envelope),
        }
    }

    /// A copy.
    pub(crate) fn duplicate(&self) -> (copy: Self)
        ensures
            planned_streams(copy) == planned_streams(*self),
    {
        match self {
            GgmlAsrDecoderState::NoPersistentState => GgmlAsrDecoderState::NoPersistentState,
            GgmlAsrDecoderState::Planned(planned) => GgmlAsrDecoderState::planned(
                planned.plan.duplicate(),
                planned.envelope,
            ),
        }
    }

    /// Binds the demands of one invocation to the resident state of a session. A session
    /// keeps its class of state and its envelope; `rebind` joins the two plans.
    pub fn with_resident_demands_from<
        R: FnOnce(&DecoderStatePlan, &DecoderStatePlan) -> Result<DecoderStatePlan, String>,
    >(self, resident_template: &Self, rebind: R) -> (result: Result<
        Self,
        GgmlAsrDecoderStatePlanningError,
    >)
        requires
            forall|logical: DecoderStatePlan, resident: DecoderStatePlan| #[trigger]
                call_requires(rebind, (&logical, &resident)),
        ensures
            match (self, *resident_template) {
                (
                    GgmlAsrDecoderState::NoPersistentState,
                    GgmlAsrDecoderState::NoPersistentState,
                ) => result == Ok::<_, GgmlAsrDecoderStatePlanningError>(
                    GgmlAsrDecoderState::NoPersistentState,
                ),
                (
                    GgmlAsrDecoderState::Planned(logical),
                    GgmlAsrDecoderState::Planned(resident),
                ) => match result {
                    Ok(state) => exists|plan: DecoderStatePlan|
                        #[trigger] call_ensures(
                            rebind,
                            (&logical.plan, &resident.plan),
                            Ok(plan),
                        ) && state == GgmlAsrDecoderState::Planned(
                            GgmlAsrPlannedDecoderState { plan, envelope: resident.envelope },
                        ),
                    Err(error) => exists|source: String|
                        #[trigger] call_ensures(
                            rebind,
                            (&logical.plan, &resident.plan),
                            Err(source),
                        ) && error == (GgmlAsrDecoderStatePlanningError::ResidentRebind {
                            source,
                        }),
                },
                _ => result == Err::<GgmlAsrDecoderState, _>(
                    GgmlAsrDecoderStatePlanningError::StateClassChanged,
                ),
            },
    {
        match (self, resident_template) {
            (GgmlAsrDecoderState::NoPersistentState, GgmlAsrDecoderState::NoPersistentState) => Ok(
                GgmlAsrDecoderState::NoPersistentState,
            ),
            (GgmlAsrDecoderState::Planned(logical), GgmlAsrDecoderState::Planned(resident)) => {
                match rebind(&logical.plan, &resident.plan) {
                    Ok(plan) => Ok(GgmlAsrDecoderState::planned(plan, resident.envelope)),
                    Err(source) => Err(
                        GgmlAsrDecoderStatePlanningError::ResidentRebind { source },
                    ),
                }
            },
            _ => Err(GgmlAsrDecoderStatePlanningError::StateClassChanged),
        }
    }
}

// ---------------------------------------------------------------------------
// What an executor promises
// ---------------------------------------------------------------------------

/// Stable identity and kind of one persistent stream that a family promises.
#[derive(Debug, Clone, Copy, PartialEq, Eq)]
pub struct GgmlAsrDecoderStateStreamContract {
    pub id: &'static str,
    pub kind: StateKind,
}

/// The persistent state that an executor promises: none, or exactly these streams.
#[derive(Debug, Clone, PartialEq, Eq)]
pub enum GgmlAsrDecoderStateContract {
    NoPersistentState,
    Planned { streams: Vec<GgmlAsrDecoderStateStreamContract> },
}

impl GgmlAsrDecoderStateStreamContract {
    pub fn new(id: &'static str, kind: StateKind) -> (stream: Self)
        ensures
            stream.id == id,
            stream.kind == kind,
    {
        GgmlAsrDecoderStateStreamContract { id, kind }
    }
}

/// Whether an allocation is the promised stream, in its demand and in its reserve.
pub open spec fn allocates(
    allocation: StateAllocation,
    stream: GgmlAsrDecoderStateStreamContract,
) -> bool {
    &&& allocation.logical.id@ == stream.id@
    &&& allocation.logical.kind == stream.kind
    &&& allocation.reserve.id@ == stream.id@
    &&& allocation.reserve.kind == stream.kind
}

/// Whether the promised streams are there, as many as are planned, each under an id of
/// its own.
pub open spec fn streams_match(
    streams: Seq<GgmlAsrDecoderStateStreamContract>,
    allocations: Seq<StateAllocation>,
) -> bool {
    &&& streams.len() > 0
    &&& streams.len() == allocations.len()
    &&& forall|i: int, j: int|
        0 <= i < j < streams.len() ==> (#[trigger] streams[i]).id@ != (#[trigger] streams[j]).id@
    &&& forall|i: int|
        0 <= i < streams.len() ==> some_allocates(allocations, #[trigger] streams[i])
}

/// Whether some allocation is the promised stream.
pub open spec fn some_allocates(
    allocations: Seq<StateAllocation>,
    stream: GgmlAsrDecoderStateStreamContract,
) -> bool {
    exists|a: int| 0 <= a < allocations.len() && allocates(#[trigger] allocations[a], stream)
}

/// Whether a state is the one that a contract promises.
pub open spec fn keeps_contract(
    contract: GgmlAsrDecoderStateContract,
    state: GgmlAsrDecoderState,
) -> bool {
    match contract {
        GgmlAsrDecoderStateContract::NoPersistentState => state
            == GgmlAsrDecoderState::NoPersistentState,
        GgmlAsrDecoderStateContract::Planned { streams } => match state {
            GgmlAsrDecoderState::NoPersistentState => false,
            GgmlAsrDecoderState::Planned(planned) => streams_match(
                streams@,
                planned.plan.allocations@,
            ),
        },
    }
}

fn has_allocation(
    allocations: &Vec<StateAllocation>,
    stream: GgmlAsrDecoderStateStreamContract,
) -> (found: bool)
    ensures
        found == some_allocates(allocations@, stream),
{
    let mut at: usize = 0;
    while at < allocations.len()
        invariant
            at <= allocations.len(),
            forall|a: int| 0 <= a < at ==> !allocates(#[trigger] allocations@[a], stream),
        decreases allocations.len() - at,
    {
        let allocation: StateAllocation = allocations[at];
        if allocation.logical.kind == stream.kind && allocation.reserve.kind == stream.kind
            && same_text(allocation.logical.id, stream.id) && same_text(
            allocation.reserve.id,
            stream.id,
        ) {
            assert(allocates(allocations@[at as int], stream));
            return true;
        }
        at = at + 1;
    }
    false
}

fn streams_are_allocated(
    streams: &Vec<GgmlAsrDecoderStateStreamContract>,
    allocations: &Vec<StateAllocation>,
) -> (kept: bool)
    ensures
        kept == streams_match(streams@, allocations@),
{
    if streams.len() == 0 || streams.len() != allocations.len() {
        return false;
    }
    let mut at: usize = 0;
    while at < streams.len()
        invariant
            at <= streams.len(),
            forall|i: int, j: int|
                0 <= i < j < at ==> (#[trigger] streams@[i]).id@ != (#[trigger] streams@[j]).id@,
            forall|i: int| 0 <= i < at ==> some_allocates(allocations@, #[trigger] streams@[i]),
        decreases streams.len() - at,
    {
        let stream: GgmlAsrDecoderStateStreamContract = streams[at];
        let mut earlier: usize = 0;
        while earlier < at
            invariant
                earlier <= at < streams.len(),
                stream == streams@[at as int],
                forall|i: int|
                    0 <= i < earlier ==> (#[trigger] streams@[i]).id@ != streams@[at as int].id@,
            decreases at - earlier,
        {
            if same_text(streams[earlier].id, stream.id) {
                assert(streams@[earlier as int].id@ == streams@[at as int].id@);
                return false;
            }
            earlier = earlier + 1;
        }
        if !has_allocation(allocations, stream) {
            assert(!some_allocates(allocations@, streams@[at as int]));
            return false;
        }
        at = at + 1;
    }
    true
}

impl GgmlAsrDecoderStateContract {
    pub fn planned(streams: Vec<GgmlAsrDecoderStateStreamContract>) -> (contract: Self)
        ensures
            contract == (GgmlAsrDecoderStateContract::Planned { streams }),
    {
        GgmlAsrDecoderStateContract::Planned { streams }
    }

    /// Plans the state of an invocation: nothing where none is promised, else what the
    /// family's planner says, under the input's envelope.
    pub fn plan<
        'a,
        F,
        P: FnOnce(&GgmlAsrDecoderStatePlanningInput<'a, F>) -> Result<
            DecoderStatePlan,
            GgmlAsrDecoderStatePlanningError,
        >,
    >(&self, input: &GgmlAsrDecoderStatePlanningInput<'a, F>, planner: P) -> (result: Result<
        GgmlAsrDecoderState,
        GgmlAsrDecoderStatePlanningError,
    >)
        requires
            call_requires(planner, (input,)),
        ensures
            match *self {
                GgmlAsrDecoderStateContract::NoPersistentState => result == Ok::<
                    _,
                    GgmlAsrDecoderStatePlanningError,
                >(GgmlAsrDecoderState::NoPersistentState),
                GgmlAsrDecoderStateContract::Planned { streams } => match result {
                    Ok(state) => exists|plan: DecoderStatePlan|
                        #[trigger] call_ensures(planner, (input,), Ok(plan)) && state
                            == GgmlAsrDecoderState::Planned(
                            GgmlAsrPlannedDecoderState { plan, envelope: input.envelope },
                        ),
                    Err(error) => call_ensures(planner, (input,), Err(error)),
                },
            },
    {
        match self {
            GgmlAsrDecoderStateContract::NoPersistentState => Ok(
                GgmlAsrDecoderState::NoPersistentState,
            ),
            GgmlAsrDecoderStateContract::Planned { streams: _ } => match planner(input) {
                Ok(plan) => Ok(GgmlAsrDecoderState::planned(plan, input.envelope)),
                Err(error) => Err(error),
            },
        }
    }

    /// Whether a state is the promised one.
    pub fn validates(&self, state: &GgmlAsrDecoderState) -> (valid: bool)
        ensures
            valid == keeps_contract(*self, *state),
    {
        match (self, state) {
            (
                GgmlAsrDecoderStateContract::NoPersistentState,
                GgmlAsrDecoderState::NoPersistentState,
            ) => true,
            (
                GgmlAsrDecoderStateContract::Planned { streams },
                GgmlAsrDecoderState::Planned(planned),
            ) => streams_are_allocated(streams, &planned.plan.allocations),
            _ => false,
        }
    }
}

/// A valid plan holds nothing but what was promised: every planned stream, in demand and
/// in reserve, is one of the promised ones.
pub proof fn law_valid_plans_hold_only_promised_streams(
    streams: Seq<GgmlAsrDecoderStateStreamContract>,
    allocations: Seq<StateAllocation>,
    a: int,
)
    requires
        streams_match(streams, allocations),
        0 <= a < allocations.len(),
    ensures
        exists|i: int| 0 <= i < streams.len() && allocates(allocations[a], #[trigger] streams[i]),
{
    let n = streams.len() as int;
    let place = |i: int|
        choose|b: int| 0 <= b < allocations.len() && allocates(#[trigger] allocations[b], streams[i]);
    let all = set_int_range(0, n);
    lemma_int_range(0, n);
    assert forall|i: int| 0 <= i < n implies 0 <= #[trigger] place(i) < n && allocates(
        allocations[place(i)],
        streams[i],
    ) by {
        assert(some_allocates(allocations, streams[i]));
    }
    assert(vstd::relations::injective_on(place, all)) by {
        assert forall|i: int, j: int|
            all.contains(i) && all.contains(j) && #[trigger] place(i) == #[trigger] place(j) implies i
            == j by {
            if i < j {
                assert(streams[i].id@ != streams[j].id@);
            } else if j < i {
                assert(streams[j].id@ != streams[i].id@);
            }
        }
    }
    let taken = all.map(place);
    lemma_map_size(all, taken, place);
    assert(taken.subset_of(all));
    lemma_subset_equality(taken, all);
    assert(taken.contains(a));
    let i = choose|i: int| all.contains(i) && a == place(i);
    assert(allocates(allocations[a], streams[i]));
}

// ---------------------------------------------------------------------------
// What state is planned for
// ---------------------------------------------------------------------------

/// Inputs of a family's decoder-state planner. The invocation drives masks and decode
/// bounds; only the envelope sizes reusable resident storage.
pub struct GgmlAsrDecoderStatePlanningInput<'a, F> {
    pub preflight: &'a F,
    pub invocation: InvocationShapeInput,
    pub envelope: InvocationEnvelope,
    pub request_options: &'a GgmlAsrExecutionOptions,
    pub backend: GgmlCpuGraphBackend,
}

/// Samples that the envelope of an offline request must hold: the executor ceiling in
/// long-form mode, else the audio itself. Padding counts against the ceiling, so none is
/// added.
pub open spec fn envelope_samples(
    options: GgmlAsrExecutionOptions,
    rate: u32,
    actual: usize,
) -> Option<usize> {
    if options@.longform_on() {
        let bits = options.longform->Some_0.max_chunk_seconds_bits;
        if duration::has_window_limit(bits, rate as int) {
            Some(duration::window_limit(bits, rate as int) as usize)
        } else {
            None
        }
    } else {
        Some(actual)
    }
}

/// Samples that the envelope of an offline request must hold. A ceiling that is no
/// countable duration is refused, with the text that `describe_seconds` gives of it.
pub fn offline_invocation_envelope_samples<S: Fn(u32) -> String>(
    request_options: &GgmlAsrExecutionOptions,
    sample_rate_hz: u32,
    actual_samples: usize,
    describe_seconds: &S,
) -> (result: Result<usize, GgmlAsrDecoderStatePlanningError>)
    requires
        sample_rate_hz > 0,
        forall|bits: u32| #[trigger] call_requires(*describe_seconds, (bits,)),
    ensures
        match result {
            Ok(samples) => envelope_samples(*request_options, sample_rate_hz, actual_samples)
                == Some(samples),
            Err(error) => envelope_samples(*request_options, sample_rate_hz, actual_samples) is None
                && refused_duration(*request_options, *describe_seconds, error),
        },
{
    if !request_options.longform_mode_enabled() {
        return Ok(actual_samples);
    }
    match &request_options.longform {
        Some(options) => match executor_window_limit_samples(
            options.max_chunk_seconds_bits,
            sample_rate_hz,
        ) {
            Ok(samples) => Ok(samples),
            Err(_) => Err(
                GgmlAsrDecoderStatePlanningError::InvalidEnvelopeDuration {
                    value: describe_seconds(options.max_chunk_seconds_bits),
                },
            ),
        },
        None => Ok(actual_samples),
    }
}

/// Whether an error refuses the configured ceiling.
pub open spec fn refused_duration<S: Fn(u32) -> String>(
    options: GgmlAsrExecutionOptions,
    describe_seconds: S,
    error: GgmlAsrDecoderStatePlanningError,
) -> bool {
    error matches GgmlAsrDecoderStatePlanningError::InvalidEnvelopeDuration { value }
        && call_ensures(
        describe_seconds,
        (options.longform->Some_0.max_chunk_seconds_bits,),
        value,
    )
}

/// The fed windows of a plan fit the envelope that state was planned for: both are the
/// same executor ceiling.
pub proof fn law_envelope_is_the_slice_ceiling(
    options: GgmlAsrExecutionOptions,
    rate: u32,
    actual: usize,
)
    requires
        options@.longform_on(),
        options.longform->Some_0.has_ceiling(rate),
    ensures
        envelope_samples(options, rate, actual) matches Some(samples) && samples
            == options.longform->Some_0.ceiling(rate),
{
    duration::law_window_limit_is_the_smallest_cover(
        options.longform->Some_0.max_chunk_seconds_bits,
        rate as int,
        0,
    );
}

/// Whether a result is the planning input of an offline request: the audio as invocation,
/// and the largest slice that the settings allow as envelope. What refuses it is asked in
/// turn: the rate, the invocation, the ceiling, the envelope.
pub open spec fn plans_offline<
    'a,
    F,
    I: Fn(InvocationShapeInput) -> Result<(), String>,
    N: Fn(u32, usize) -> Result<(), String>,
    S: Fn(u32) -> String,
>(
    preflight: &'a F,
    invocation: InvocationShapeInput,
    request_options: &'a GgmlAsrExecutionOptions,
    backend: GgmlCpuGraphBackend,
    accept_invocation: I,
    accept_envelope: N,
    describe_seconds: S,
    result: Result<GgmlAsrDecoderStatePlanningInput<'a, F>, GgmlAsrDecoderStatePlanningError>,
) -> bool {
    let rate = invocation.sample_rate_hz;
    let configured = envelope_samples(*request_options, rate, invocation.samples);
    match result {
        Ok(input) => {
            &&& rate > 0
            &&& call_ensures(accept_invocation, (invocation,), Ok(()))
            &&& configured is Some
            &&& call_ensures(accept_envelope, (rate, configured->Some_0), Ok(()))
            &&& input == (GgmlAsrDecoderStatePlanningInput {
                preflight,
                invocation,
                envelope: InvocationEnvelope {
                    sample_rate_hz: rate,
                    max_samples: configured->Some_0,
                    max_prompt_tokens: request_options@.carried_tokens(),
                },
                request_options,
                backend,
            })
        },
        Err(error) => if rate == 0 {
            error == (GgmlAsrDecoderStatePlanningError::InvalidSampleRate { sample_rate_hz: rate })
        } else {
            ||| error matches GgmlAsrDecoderStatePlanningError::InvalidShape { source }
                && call_ensures(accept_invocation, (invocation,), Err(source))
            ||| {
                &&& call_ensures(accept_invocation, (invocation,), Ok(()))
                &&& configured is None
                &&& refused_duration(*request_options, describe_seconds, error)
            }
            ||| {
                &&& call_ensures(accept_invocation, (invocation,), Ok(()))
                &&& configured is Some
                &&& error matches GgmlAsrDecoderStatePlanningError::InvalidShape { source }
                    && call_ensures(accept_envelope, (rate, configured->Some_0), Err(source))
            }
        },
    }
}

impl<'a, F> GgmlAsrDecoderStatePlanningInput<'a, F> {
    /// The invocation of an offline request, and the largest slice that its settings
    /// allow. `accept_invocation` and `accept_envelope` say whether the state topology
    /// takes so much audio.
    pub fn for_offline_audio_shape<
        I: Fn(InvocationShapeInput) -> Result<(), String>,
        N: Fn(u32, usize) -> Result<(), String>,
        S: Fn(u32) -> String,
    >(
        preflight: &'a F,
        sample_rate_hz: u32,
        sample_count: usize,
        request_options: &'a GgmlAsrExecutionOptions,
        backend: GgmlCpuGraphBackend,
        accept_invocation: &I,
        accept_envelope: &N,
        describe_seconds: &S,
    ) -> (result: Result<Self, GgmlAsrDecoderStatePlanningError>)
        requires
            forall|shape: InvocationShapeInput| #[trigger]
                call_requires(*accept_invocation, (shape,)),
            forall|rate: u32, samples: usize| #[trigger]
                call_requires(*accept_envelope, (rate, samples)),
            forall|bits: u32| #[trigger] call_requires(*describe_seconds, (bits,)),
        ensures
            plans_offline(
                preflight,
                InvocationShapeInput { sample_rate_hz, samples: sample_count },
                request_options,
                backend,
                *accept_invocation,
                *accept_envelope,
                *describe_seconds,
                result,
            ),
    {
        if sample_rate_hz == 0 {
            return Err(GgmlAsrDecoderStatePlanningError::InvalidSampleRate { sample_rate_hz });
        }
        let invocation = InvocationShapeInput { sample_rate_hz, samples: sample_count };
        match accept_invocation(invocation) {
            Err(source) => {
                return Err(GgmlAsrDecoderStatePlanningError::InvalidShape { source });
            },
            Ok(unit) => {
                assert(unit == ());
            },
        }
        let max_samples: usize = match offline_invocation_envelope_samples(
            request_options,
            sample_rate_hz,
            sample_count,
            describe_seconds,
        ) {
            Ok(samples) => samples,
            Err(error) => {
                return Err(error);
            },
        };
        match accept_envelope(sample_rate_hz, max_samples) {
            Err(source) => {
                return Err(GgmlAsrDecoderStatePlanningError::InvalidShape { source });
            },
            Ok(unit) => {
                assert(unit == ());
            },
        }
        Ok(
            GgmlAsrDecoderStatePlanningInput {
                preflight,
                invocation,
                envelope: InvocationEnvelope {
                    sample_rate_hz,
                    max_samples,
                    max_prompt_tokens: request_options.max_longform_prompt_tokens(),
                },
                request_options,
                backend,
            },
        )
    }

    /// The envelope of a streaming session: the shared thirty-second window at 16 kHz,
    /// planned up front for its whole life.
    pub fn for_streaming_session<N: Fn(u32, usize) -> Result<(), String>>(
        preflight: &'a F,
        request_options: &'a GgmlAsrExecutionOptions,
        backend: GgmlCpuGraphBackend,
        accept_envelope: &N,
    ) -> (result: Result<Self, GgmlAsrDecoderStatePlanningError>)
        requires
            forall|rate: u32, samples: usize| #[trigger]
                call_requires(*accept_envelope, (rate, samples)),
        ensures
            match result {
                Ok(input) => call_ensures(
                    *accept_envelope,
                    (STREAMING_SAMPLE_RATE_HZ, STREAMING_WINDOW_SAMPLES),
                    Ok(()),
                ) && input == (GgmlAsrDecoderStatePlanningInput {
                    preflight,
                    invocation: InvocationShapeInput {
                        sample_rate_hz: STREAMING_SAMPLE_RATE_HZ,
                        samples: STREAMING_WINDOW_SAMPLES,
                    },
                    envelope: InvocationEnvelope {
                        sample_rate_hz: STREAMING_SAMPLE_RATE_HZ,
                        max_samples: STREAMING_WINDOW_SAMPLES,
                        max_prompt_tokens: request_options@.carried_tokens(),
                    },
                    request_options,
                    backend,
                }),
                Err(error) => error matches GgmlAsrDecoderStatePlanningError::InvalidShape {
                    source,
                } && call_ensures(
                    *accept_envelope,
                    (STREAMING_SAMPLE_RATE_HZ, STREAMING_WINDOW_SAMPLES),
                    Err(source),
                ),
            },
    {
        match accept_envelope(STREAMING_SAMPLE_RATE_HZ, STREAMING_WINDOW_SAMPLES) {
            Err(source) => {
                return Err(GgmlAsrDecoderStatePlanningError::InvalidShape { source });
            },
            Ok(unit) => {
                assert(unit == ());
            },
        }
        let envelope = InvocationEnvelope {
            sample_rate_hz: STREAMING_SAMPLE_RATE_HZ,
            max_samples: STREAMING_WINDOW_SAMPLES,
            max_prompt_tokens: request_options.max_longform_prompt_tokens(),
        };
        Ok(
            GgmlAsrDecoderStatePlanningInput {
                preflight,
                invocation: envelope.maximum_invocation(),
                envelope,
                request_options,
                backend,
            },
        )
    }

    /// One decode of a streaming session, under the session's envelope.
    pub fn for_streaming_decode_view<I: Fn(InvocationShapeInput) -> Result<(), String>>(
        preflight: &'a F,
        sample_rate_hz: u32,
        sample_count: usize,
        envelope: InvocationEnvelope,
        request_options: &'a GgmlAsrExecutionOptions,
        backend: GgmlCpuGraphBackend,
        accept_invocation: &I,
    ) -> (result: Result<Self, GgmlAsrDecoderStatePlanningError>)
        requires
            forall|shape: InvocationShapeInput| #[trigger]
                call_requires(*accept_invocation, (shape,)),
        ensures
            ({
                let invocation = InvocationShapeInput { sample_rate_hz, samples: sample_count };
                match result {
                    Ok(input) => {
                        &&& sample_rate_hz > 0
                        &&& call_ensures(*accept_invocation, (invocation,), Ok(()))
                        &&& input == (GgmlAsrDecoderStatePlanningInput {
                            preflight,
                            invocation,
                            envelope,
                            request_options,
                            backend,
                        })
                    },
                    Err(error) => {
                        ||| sample_rate_hz == 0 && error
                            == (GgmlAsrDecoderStatePlanningError::InvalidSampleRate {
                            sample_rate_hz,
                        })
                        ||| sample_rate_hz > 0 && (error matches
                            GgmlAsrDecoderStatePlanningError::InvalidShape { source }
                            && call_ensures(*accept_invocation, (invocation,), Err(source)))
                    },
                }
            }),
    {
        if sample_rate_hz == 0 {
            return Err(GgmlAsrDecoderStatePlanningError::InvalidSampleRate { sample_rate_hz });
        }
        let invocation = InvocationShapeInput { sample_rate_hz, samples: sample_count };
        match accept_invocation(invocation) {
            Err(source) => {
                return Err(GgmlAsrDecoderStatePlanningError::InvalidShape { source });
            },
            Ok(unit) => {
                assert(unit == ());
            },
        }
        Ok(
            GgmlAsrDecoderStatePlanningInput {
                preflight,
                invocation,
                envelope,
                request_options,
                backend,
            },
        )
    }
}

/// Sample rate of streaming sessions.
pub const STREAMING_SAMPLE_RATE_HZ: u32 = 16_000;

/// Thirty seconds at the streaming sample rate.
pub const STREAMING_WINDOW_SAMPLES: usize = 480_000;

/// A state is the promised one only where it is of the promised class. Where streams are
/// promised, there are as many planned as promised and at least one, no two promised ones go
/// by the same id, and for each one there is a planned stream whose demand and whose reserve
/// both go by its id and are of its kind.
pub proof fn law_state_must_be_as_promised(
    contract: GgmlAsrDecoderStateContract,
    state: GgmlAsrDecoderState,
)
    ensures
        contract == GgmlAsrDecoderStateContract::NoPersistentState ==> (keeps_contract(
            contract,
            state,
        ) <==> state == GgmlAsrDecoderState::NoPersistentState),
        contract is Planned && state == GgmlAsrDecoderState::NoPersistentState ==> !keeps_contract(
            contract,
            state,
        ),
        contract matches GgmlAsrDecoderStateContract::Planned { streams } ==> state matches
            GgmlAsrDecoderState::Planned(planned) ==> {
            let allocations = planned.plan.allocations@;
            keeps_contract(contract, state) <==> {
                &&& streams@.len() >= 1
                &&& allocations.len() == streams@.len()
                &&& forall|i: int, j: int|
                    0 <= i < streams@.len() && 0 <= j < streams@.len() && i != j ==> (
                    #[trigger] streams@[i]).id@ != (#[trigger] streams@[j]).id@
                &&& forall|i: int|
                    0 <= i < streams@.len() ==> exists|a: int|
                        0 <= a < allocations.len() && (#[trigger] allocations[a]).logical.id@
                            == (#[trigger] streams@[i]).id@ && allocations[a].logical.kind
                            == streams@[i].kind && allocations[a].reserve.id@ == streams@[i].id@
                            && allocations[a].reserve.kind == streams@[i].kind
            }
        },
{
    if let GgmlAsrDecoderStateContract::Planned { streams } = contract {
        if let GgmlAsrDecoderState::Planned(planned) = state {
            let allocations = planned.plan.allocations@;
            if keeps_contract(contract, state) {
                assert forall|i: int, j: int|
                    0 <= i < streams@.len() && 0 <= j < streams@.len() && i != j implies (
                #[trigger] streams@[i]).id@ != (#[trigger] streams@[j]).id@ by {
                    if i < j {
                        assert(streams@[i].id@ != streams@[j].id@);
                    } else {
                        assert(streams@[j].id@ != streams@[i].id@);
                    }
                }
                assert forall|i: int| 0 <= i < streams@.len() implies exists|a: int|
                    0 <= a < allocations.len() && (#[trigger] allocations[a]).logical.id@ == (
                    #[trigger] streams@[i]).id@ && allocations[a].logical.kind == streams@[i].kind
                        && allocations[a].reserve.id@ == streams@[i].id@
                        && allocations[a].reserve.kind == streams@[i].kind by {
                    assert(some_allocates(allocations, streams@[i]));
                    let a = choose|a: int|
                        0 <= a < allocations.len() && allocates(
                            #[trigger] allocations[a],
                            streams@[i],
                        );
                    assert(allocations[a].logical.id@ == streams@[i].id@);
                }
            }
            if streams@.len() >= 1 && allocations.len() == streams@.len() && (forall|
                i: int,
                j: int,
            |
                0 <= i < streams@.len() && 0 <= j < streams@.len() && i != j ==> (
                #[trigger] streams@[i]).id@ != (#[trigger] streams@[j]).id@) && (forall|i: int|
                0 <= i < streams@.len() ==> exists|a: int|
                    0 <= a < allocations.len() && (#[trigger] allocations[a]).logical.id@ == (
                    #[trigger] streams@[i]).id@ && allocations[a].logical.kind == streams@[i].kind
                        && allocations[a].reserve.id@ == streams@[i].id@
                        && allocations[a].reserve.kind == streams@[i].kind) {
                assert forall|i: int| 0 <= i < streams@.len() implies some_allocates(
                    allocations,
                    #[trigger] streams@[i],
                ) by {
                    let a = choose|a: int|
                        0 <= a < allocations.len() && (#[trigger] allocations[a]).logical.id@
                            == streams@[i].id@ && allocations[a].logical.kind == streams@[i].kind
                            && allocations[a].reserve.id@ == streams@[i].id@
                            && allocations[a].reserve.kind == streams@[i].kind;
                    assert(allocates(allocations[a], streams@[i]));
                }
            }
        }
    }
}

/// Without long-form mode the envelope holds just the audio; with it, the executor ceiling,
/// however long the audio is, or nothing where the ceiling is no countable duration.
pub proof fn law_envelope_follows_the_mode(
    options: GgmlAsrExecutionOptions,
    rate: u32,
    actual: usize,
    other: usize,
)
    ensures
        options.longform is None ==> envelope_samples(options, rate, actual) == Some(actual),
        options.longform matches Some(longform) ==> {
            let bits = longform.max_chunk_seconds_bits;
            &&& longform.mode == crate::longform::options::LongFormMode::Off ==> envelope_samples(
                options,
                rate,
                actual,
            ) == Some(actual)
            &&& longform.mode != crate::longform::options::LongFormMode::Off ==> {
                &&& envelope_samples(options, rate, actual) == envelope_samples(
                    options,
                    rate,
                    other,
                )
                &&& envelope_samples(options, rate, actual) is Some <==> duration::has_window_limit(
                    bits,
                    rate as int,
                )
                &&& rate > 0 ==> (envelope_samples(options, rate, actual) matches Some(samples)
                    ==> samples == duration::window_limit(bits, rate as int))
            }
        },
{
    if let Some(longform) = options.longform {
        let bits = longform.max_chunk_seconds_bits;
        if rate > 0 && duration::has_window_limit(bits, rate as int) {
            duration::law_window_limit_is_the_smallest_cover(bits, rate as int, 0);
        }
    }
}

/// The planning input of an offline request carries its audio as it is, an envelope at the
/// same rate that is the audio itself without long-form mode and the executor ceiling with
/// it, and room for the prompt tokens that its slices may inherit. Nothing is planned at a
/// rate of zero.
pub proof fn law_offline_inputs_carry_their_request<
    'a,
    F,
    I: Fn(InvocationShapeInput) -> Result<(), String>,
    N: Fn(u32, usize) -> Result<(), String>,
    S: Fn(u32) -> String,
>(
    preflight: &'a F,
    invocation: InvocationShapeInput,
    request_options: &'a GgmlAsrExecutionOptions,
    backend: GgmlCpuGraphBackend,
    accept_invocation: I,
    accept_envelope: N,
    describe_seconds: S,
    input: GgmlAsrDecoderStatePlanningInput<'a, F>,
)
    requires
        plans_offline(
            preflight,
            invocation,
            request_options,
            backend,
            accept_invocation,
            accept_envelope,
            describe_seconds,
            Ok(input),
        ),
    ensures
        invocation.sample_rate_hz > 0,
        input.invocation == invocation,
        input.preflight == preflight,
        input.backend == backend,
        input.envelope.sample_rate_hz == invocation.sample_rate_hz,
        input.envelope.max_prompt_tokens == request_options@.carried_tokens(),
        call_ensures(accept_invocation, (invocation,), Ok(())),
        call_ensures(
            accept_envelope,
            (invocation.sample_rate_hz, input.envelope.max_samples),
            Ok(()),
        ),
        !request_options@.longform_on() ==> input.envelope.max_samples == invocation.samples,
        request_options@.longform_on() ==> input.envelope.max_samples
            == request_options.longform->Some_0.ceiling(invocation.sample_rate_hz),
{
    if request_options@.longform_on() {
        duration::law_window_limit_is_the_smallest_cover(
            request_options.longform->Some_0.max_chunk_seconds_bits,
            invocation.sample_rate_hz as int,
            0,
        );
    }
}

/// A streaming session is planned for thirty seconds.
pub proof fn law_sessions_hold_thirty_seconds()
    ensures
        STREAMING_WINDOW_SAMPLES == 30 * STREAMING_SAMPLE_RATE_HZ,
        STREAMING_SAMPLE_RATE_HZ == 16000,
{
}

/// What offline planning is refused for. Without a rate that is all there is to say. With one,
/// the duration of the envelope is refused only where long-form slicing is on and the longest
/// chunk cannot be counted, and is told as described; and every other refusal is that of a
/// shape which was not accepted.
pub proof fn law_offline_planning_is_refused_for_a_reason<
    'a,
    F,
    I: Fn(InvocationShapeInput) -> Result<(), String>,
    N: Fn(u32, usize) -> Result<(), String>,
    S: Fn(u32) -> String,
>(
    preflight: &'a F,
    invocation: InvocationShapeInput,
    request_options: &'a GgmlAsrExecutionOptions,
    backend: GgmlCpuGraphBackend,
    accept_invocation: I,
    accept_envelope: N,
    describe_seconds: S,
    error: GgmlAsrDecoderStatePlanningError,
)
    requires
        plans_offline(
            preflight,
            invocation,
            request_options,
            backend,
            accept_invocation,
            accept_envelope,
            describe_seconds,
            Err(error),
        ),
    ensures
        invocation.sample_rate_hz == 0 <==> error is InvalidSampleRate,
        error matches GgmlAsrDecoderStatePlanningError::InvalidSampleRate { sample_rate_hz }
            ==> sample_rate_hz == 0,
        error matches GgmlAsrDecoderStatePlanningError::InvalidEnvelopeDuration { value } ==> {
            &&& request_options.longform is Some
            &&& request_options.longform->Some_0.mode != crate::longform::options::LongFormMode::Off
            &&& !duration::has_window_limit(
                request_options.longform->Some_0.max_chunk_seconds_bits,
                invocation.sample_rate_hz as int,
            )
            &&& call_ensures(
                describe_seconds,
                (request_options.longform->Some_0.max_chunk_seconds_bits,),
                value,
            )
            &&& call_ensures(accept_invocation, (invocation,), Ok(()))
        },
        error matches GgmlAsrDecoderStatePlanningError::InvalidShape { source } ==> {
            ||| call_ensures(accept_invocation, (invocation,), Err(source))
            ||| exists|samples: usize| #[trigger]
                call_ensures(
                    accept_envelope,
                    (invocation.sample_rate_hz, samples),
                    Err(source),
                )
        },
        error is InvalidSampleRate || error is InvalidEnvelopeDuration || error is InvalidShape,
{
}

/// A session keeps its class of state, and its envelope, whatever one invocation of it needs.
pub proof fn law_sessions_keep_their_class_and_envelope<
    R: FnOnce(&DecoderStatePlan, &DecoderStatePlan) -> Result<DecoderStatePlan, String>,
>(
    logical: GgmlAsrDecoderState,
    resident: GgmlAsrDecoderState,
    rebind: R,
    result: Result<GgmlAsrDecoderState, GgmlAsrDecoderStatePlanningError>,
)
    requires
        call_ensures(
            GgmlAsrDecoderState::with_resident_demands_from::<R>,
            (logical, &resident, rebind),
            result,
        ),
    ensures
        logical is Planned != resident is Planned <==> result == Err::<GgmlAsrDecoderState, _>(
            GgmlAsrDecoderStatePlanningError::StateClassChanged,
        ),
        result matches Ok(state) ==> (state is Planned <==> resident is Planned),
        result matches Ok(GgmlAsrDecoderState::Planned(bound)) ==> {
            &&& bound.envelope == resident->Planned_0.envelope
            &&& call_ensures(
                rebind,
                (&logical->Planned_0.plan, &resident->Planned_0.plan),
                Ok(bound.plan),
            )
        },
        result matches Err(GgmlAsrDecoderStatePlanningError::ResidentRebind { source })
            ==> call_ensures(
            rebind,
            (&logical->Planned_0.plan, &resident->Planned_0.plan),
            Err(source),
        ),
{
}

/// A streaming session is planned for the largest window that it may decode, and carries as
/// many prompt tokens as its options let a slice inherit.
pub proof fn law_sessions_are_planned_for_their_largest_window<
    'a,
    F,
    N: Fn(u32, usize) -> Result<(), String>,
>(
    preflight: &'a F,
    request_options: &'a GgmlAsrExecutionOptions,
    backend: GgmlCpuGraphBackend,
    accept_envelope: N,
    input: GgmlAsrDecoderStatePlanningInput<'a, F>,
)
    requires
        call_ensures(
            GgmlAsrDecoderStatePlanningInput::<'a, F>::for_streaming_session::<N>,
            (preflight, request_options, backend, &accept_envelope),
            Ok(input),
        ),
    ensures
        input.invocation.sample_rate_hz == 16000,
        input.invocation.samples == 480000,
        input.envelope.sample_rate_hz == input.invocation.sample_rate_hz,
        input.envelope.max_samples == input.invocation.samples,
        input.envelope.max_prompt_tokens == request_options@.carried_tokens(),
        input.backend == backend,
        call_ensures(accept_envelope, (16000u32, 480000usize), Ok(())),
{
}

/// One decode of a session is planned for the audio that it is given, in the envelope of the
/// session.
pub proof fn law_decodes_stay_in_the_envelope_of_their_session<
    'a,
    F,
    I: Fn(InvocationShapeInput) -> Result<(), String>,
>(
    preflight: &'a F,
    sample_rate_hz: u32,
    sample_count: usize,
    envelope: InvocationEnvelope,
    request_options: &'a GgmlAsrExecutionOptions,
    backend: GgmlCpuGraphBackend,
    accept_invocation: I,
    result: Result<GgmlAsrDecoderStatePlanningInput<'a, F>, GgmlAsrDecoderStatePlanningError>,
)
    requires
        call_ensures(
            GgmlAsrDecoderStatePlanningInput::<'a, F>::for_streaming_decode_view::<I>,
            (
                preflight,
                sample_rate_hz,
                sample_count,
                envelope,
                request_options,
                backend,
                &accept_invocation,
            ),
            result,
        ),
    ensures
        result matches Ok(input) ==> {
            &&& input.envelope == envelope
            &&& input.invocation.sample_rate_hz == sample_rate_hz
            &&& input.invocation.samples == sample_count
            &&& input.backend == backend
            &&& call_ensures(accept_invocation, (input.invocation,), Ok(()))
        },
        sample_rate_hz == 0 ==> result is Err,
{
}

} // verus!
