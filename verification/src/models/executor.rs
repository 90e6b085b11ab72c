//! Executors, and why an execution fails.

use vstd::prelude::*;
use vstd::string::*;

use crate::models::decoder_state::{
    DecoderStatePlan, GgmlAsrDecoderState, GgmlAsrDecoderStateContract,
    GgmlAsrDecoderStatePlanningError, GgmlAsrDecoderStatePlanningInput,
    GgmlAsrPlannedDecoderState, InvocationEnvelope,
};
use crate::models::request::{
    GgmlAdapterBindingStrategy, GgmlAsrExecutionRequest, GgmlAsrExecutionResult,
    GgmlAsrExecutionViewRequest, GgmlAsrStreamingSessionRequest, GgmlFamilyAdapterDescriptor,
};

verus! {

/// A device that could not be had for a request that named it.
#[derive(Debug, Clone, PartialEq, Eq)]
pub struct ExecutionRouteError {
    pub detail: String,
}

/// Why a compute graph could not be built or run.
#[derive(Debug, Clone, PartialEq, Eq)]
pub enum GgmlCpuGraphError {
    ExecutionRoute(ExecutionRouteError),
    CpuBackendUnavailable,
    Failed { reason: String },
}

/// Why an execution fails.
#[derive(Debug, Clone, PartialEq, Eq)]
pub enum GgmlAsrExecutionError {
    UnsupportedCapability { adapter_id: &'static str, backend_preference: &'static str },
    ExecutorUnavailable {
        adapter_id: &'static str,
        model_family: &'static str,
        capability: &'static str,
    },
    VerifiedPackRouteMismatch { model_family: &'static str, model_architecture: &'static str },
    DecoderStatePlanning(GgmlAsrDecoderStatePlanningError),
    DecoderStateContractMismatch { executor_id: &'static str, adapter_id: &'static str },
    PhraseBiasUnsupported { adapter_id: &'static str, model_family: &'static str },
    ExecutorFailed { executor_id: &'static str, adapter_id: &'static str, reason: String },
    /// An adapter is active, but the selected family takes none. An adapter that was asked
    /// for is never silently ignored.
    AdapterUnsupportedForFamily { model_family: &'static str, adapter_path: String },
    AdapterBindingContractMismatch {
        model_family: &'static str,
        declared: &'static str,
        provided: &'static str,
    },
    /// A device failure, kept apart from executor failures.
    ExecutionRoute(ExecutionRouteError),
    /// A transient serve-batch failure: retryable where the queue is full, not where the
    /// owner is gone.
    ServeBatchUnavailable { reason: String, retryable: bool },
}

impl ExecutionRouteError {
    pub fn init_failed(detail: &str) -> (error: Self)
        ensures
            error.detail@ == detail@,
    {
        ExecutionRouteError { detail: detail.to_owned() }
    }
}

impl GgmlCpuGraphError {
    /// The text of the error.
    pub open spec fn text(self) -> Seq<char> {
        match self {
            GgmlCpuGraphError::ExecutionRoute(error) => error.detail@,
            GgmlCpuGraphError::CpuBackendUnavailable => "ggml CPU backend is unavailable"@,
            GgmlCpuGraphError::Failed { reason } => reason@,
        }
    }

    pub fn message(&self) -> (message: String)
        ensures
            message@ == self.text(),
    {
        match self {
            GgmlCpuGraphError::ExecutionRoute(error) => error.detail.clone(),
            GgmlCpuGraphError::CpuBackendUnavailable => {
                "ggml CPU backend is unavailable".to_owned()
            },
            GgmlCpuGraphError::Failed { reason } => reason.clone(),
        }
    }
}

fn sentence(a: &str, b: &str, c: &str, d: &str, e: &str) -> (whole: String)
    ensures
        whole@ == a@ + b@ + c@ + d@ + e@,
{
    let mut whole: String = a.to_owned();
    whole.append(b);
    whole.append(c);
    whole.append(d);
    whole.append(e);
    whole
}

impl GgmlAsrExecutionError {
    /// The text of the error.
    pub open spec fn text(self) -> Seq<char> {
        match self {
            GgmlAsrExecutionError::UnsupportedCapability { adapter_id, backend_preference } =>
                "ggml execution capability is unsupported for adapter '"@ + adapter_id@
                    + "': backend preference '"@ + backend_preference@ + "'"@,
            GgmlAsrExecutionError::ExecutorUnavailable { adapter_id, model_family, capability } =>
                "no ggml executor is registered for adapter '"@ + adapter_id@ + "' (family '"@
                    + model_family@ + "') and capability '"@ + capability@ + "'"@,
            GgmlAsrExecutionError::VerifiedPackRouteMismatch { model_family, model_architecture } =>
                "verified pack route does not match selected family '"@ + model_family@
                    + "' (architecture '"@ + model_architecture@ + "')"@,
            GgmlAsrExecutionError::DecoderStatePlanning(error) => error.text(),
            GgmlAsrExecutionError::DecoderStateContractMismatch { executor_id, adapter_id } =>
                "executor '"@ + executor_id@
                    + "' decoder-state contract does not match the state carried by adapter '"@
                    + adapter_id@ + "'"@,
            GgmlAsrExecutionError::PhraseBiasUnsupported { adapter_id, model_family } =>
                "phrase bias / hotword boosting is unsupported for adapter '"@ + adapter_id@
                    + "' (family '"@ + model_family@ + "')"@,
            GgmlAsrExecutionError::ExecutorFailed { executor_id, adapter_id, reason } =>
                "ggml executor '"@ + executor_id@ + "' failed for adapter '"@ + adapter_id@
                    + "': "@ + reason@,
            GgmlAsrExecutionError::AdapterUnsupportedForFamily { model_family, adapter_path } =>
                "an adapter pack is active ('"@ + adapter_path@ + "') but model family '"@
                    + model_family@
                    + "' does not implement an adapter-binding strategy; fail-closed"@,
            GgmlAsrExecutionError::AdapterBindingContractMismatch {
                model_family,
                declared,
                provided,
            } => "adapter binding contract mismatch for family '"@ + model_family@
                + "': descriptor declares '"@ + declared@ + "', executor provides '"@ + provided@
                + "'"@,
            GgmlAsrExecutionError::ExecutionRoute(error) => error.detail@,
            GgmlAsrExecutionError::ServeBatchUnavailable { reason, retryable } => reason@,
        }
    }

    pub fn message(&self) -> (message: String)
        ensures
            message@ == self.text(),
    {
        match self {
            GgmlAsrExecutionError::UnsupportedCapability { adapter_id, backend_preference } =>
                sentence(
                    "ggml execution capability is unsupported for adapter '",
                    adapter_id,
                    "': backend preference '",
                    backend_preference,
                    "'",
                ),
            GgmlAsrExecutionError::ExecutorUnavailable { adapter_id, model_family, capability } => {
                let mut message: String = sentence(
                    "no ggml executor is registered for adapter '",
                    adapter_id,
                    "' (family '",
                    model_family,
                    "') and capability '",
                );
                message.append(capability);
                message.append("'");
                message
            },
            GgmlAsrExecutionError::VerifiedPackRouteMismatch { model_family, model_architecture } =>
                sentence(
                    "verified pack route does not match selected family '",
                    model_family,
                    "' (architecture '",
                    model_architecture,
                    "')",
                ),
            GgmlAsrExecutionError::DecoderStatePlanning(error) => error.message(),
            GgmlAsrExecutionError::DecoderStateContractMismatch { executor_id, adapter_id } =>
                sentence(
                    "executor '",
                    executor_id,
                    "' decoder-state contract does not match the state carried by adapter '",
                    adapter_id,
                    "'",
                ),
            GgmlAsrExecutionError::PhraseBiasUnsupported { adapter_id, model_family } => sentence(
                "phrase bias / hotword boosting is unsupported for adapter '",
                adapter_id,
                "' (family '",
                model_family,
                "')",
            ),
            GgmlAsrExecutionError::ExecutorFailed { executor_id, adapter_id, reason } => {
                let mut message: String = sentence(
                    "ggml executor '",
                    executor_id,
                    "' failed for adapter '",
                    adapter_id,
                    "': ",
                );
                message.append(reason.as_str());
                message
            },
            GgmlAsrExecutionError::AdapterUnsupportedForFamily { model_family, adapter_path } =>
                sentence(
                    "an adapter pack is active ('",
                    adapter_path.as_str(),
                    "') but model family '",
                    model_family,
                    "' does not implement an adapter-binding strategy; fail-closed",
                ),
            GgmlAsrExecutionError::AdapterBindingContractMismatch {
                model_family,
                declared,
                provided,
            } => {
                let mut message: String = sentence(
                    "adapter binding contract mismatch for family '",
                    model_family,
                    "': descriptor declares '",
                    declared,
                    "', executor provides '",
                );
                message.append(provided);
                message.append("'");
                message
            },
            GgmlAsrExecutionError::ExecutionRoute(error) => error.detail.clone(),
            GgmlAsrExecutionError::ServeBatchUnavailable { reason, retryable: _ } => {
                reason.clone()
            },
        }
    }

    pub fn executor_failed(
        executor_id: &'static str,
        adapter_id: &'static str,
        reason: &str,
    ) -> (error: Self)
        ensures
            error matches GgmlAsrExecutionError::ExecutorFailed {
                executor_id: failed,
                adapter_id: on,
                reason: why,
            } && failed == executor_id && on == adapter_id && why@ == reason@,
    {
        GgmlAsrExecutionError::ExecutorFailed {
            executor_id,
            adapter_id,
            reason: reason.to_owned(),
        }
    }

    /// Keeps a device failure as it is, and reports everything else as a failure of the
    /// executor.
    pub fn from_ggml_cpu_graph_error(
        executor_id: &'static str,
        adapter_id: &'static str,
        error: GgmlCpuGraphError,
    ) -> (mapped: Self)
        ensures
            match error {
                GgmlCpuGraphError::ExecutionRoute(route) => mapped
                    == GgmlAsrExecutionError::ExecutionRoute(route),
                other => mapped matches GgmlAsrExecutionError::ExecutorFailed {
                    executor_id: failed,
                    adapter_id: on,
                    reason: why,
                } && failed == executor_id && on == adapter_id && why@ == other.text(),
            },
    {
        match error {
            GgmlCpuGraphError::ExecutionRoute(route) => GgmlAsrExecutionError::ExecutionRoute(
                route,
            ),
            other => {
                let reason: String = other.message();
                GgmlAsrExecutionError::executor_failed(executor_id, adapter_id, reason.as_str())
            },
        }
    }
}

/// What planning under a contract gives: nothing where no state is promised, else what the
/// family's planner may reply, under the envelope.
pub open spec fn plans_state(
    contract: GgmlAsrDecoderStateContract,
    envelope: InvocationEnvelope,
    may_reply: spec_fn(Result<DecoderStatePlan, GgmlAsrDecoderStatePlanningError>) -> bool,
    result: Result<GgmlAsrDecoderState, GgmlAsrExecutionError>,
) -> bool {
    match contract {
        GgmlAsrDecoderStateContract::NoPersistentState => result == Ok::<_, GgmlAsrExecutionError>(
            GgmlAsrDecoderState::NoPersistentState,
        ),
        GgmlAsrDecoderStateContract::Planned { streams } => match result {
            Ok(state) => exists|plan: DecoderStatePlan|
                #[trigger] may_reply(Ok(plan)) && state == GgmlAsrDecoderState::Planned(
                    GgmlAsrPlannedDecoderState { plan, envelope },
                ),
            Err(error) => error matches GgmlAsrExecutionError::DecoderStatePlanning(source)
                && may_reply(Err(source)),
        },
    }
}

/// What may be planned with some replies may be planned with more.
pub proof fn lemma_plans_alike(
    contract: GgmlAsrDecoderStateContract,
    envelope: InvocationEnvelope,
    some: spec_fn(Result<DecoderStatePlan, GgmlAsrDecoderStatePlanningError>) -> bool,
    more: spec_fn(Result<DecoderStatePlan, GgmlAsrDecoderStatePlanningError>) -> bool,
    result: Result<GgmlAsrDecoderState, GgmlAsrExecutionError>,
)
    requires
        plans_state(contract, envelope, some, result),
        forall|reply: Result<DecoderStatePlan, GgmlAsrDecoderStatePlanningError>|
            #[trigger] some(reply) ==> more(reply),
    ensures
        plans_state(contract, envelope, more, result),
{
    if contract is Planned && result is Ok {
        let plan = choose|plan: DecoderStatePlan|
            #[trigger] some(Ok(plan)) && result->Ok_0 == GgmlAsrDecoderState::Planned(
                GgmlAsrPlannedDecoderState { plan, envelope },
            );
        assert(more(Ok(plan)));
    }
}

/// Plans the state of an invocation under a contract.
pub fn plan_under_contract<
    'a,
    F,
    P: FnOnce(&GgmlAsrDecoderStatePlanningInput<'a, F>) -> Result<
        DecoderStatePlan,
        GgmlAsrDecoderStatePlanningError,
    >,
>(
    contract: &GgmlAsrDecoderStateContract,
    input: &GgmlAsrDecoderStatePlanningInput<'a, F>,
    planner: P,
) -> (result: Result<GgmlAsrDecoderState, GgmlAsrExecutionError>)
    requires
        call_requires(planner, (input,)),
    ensures
        plans_state(
            *contract,
            input.envelope,
            |reply: Result<DecoderStatePlan, GgmlAsrDecoderStatePlanningError>|
                call_ensures(planner, (input,), reply),
            result,
        ),
{
    let ghost may_reply = |reply: Result<DecoderStatePlan, GgmlAsrDecoderStatePlanningError>|
        call_ensures(planner, (input,), reply);
    match contract.plan(input, planner) {
        Ok(state) => {
            proof {
                if *contract is Planned {
                    assert(may_reply(Ok(state->Planned_0.plan)));
                }
            }
            Ok(state)
        },
        Err(error) => Err(GgmlAsrExecutionError::DecoderStatePlanning(error)),
    }
}

/// An executor of offline requests that a caller brings along. Nothing is promised of
/// what it answers.
pub trait GgmlAsrExecutor<T, F, Y> {
    fn executor_id(&self) -> &'static str;

    fn adapter_binding_strategy(&self) -> (strategy: GgmlAdapterBindingStrategy)
        default_ensures
            strategy == GgmlAdapterBindingStrategy::Unsupported,
    {
        GgmlAdapterBindingStrategy::Unsupported
    }

    fn supports_phrase_bias(&self) -> bool;

    /// The persistent state that the executor promises for a family. There is no default:
    /// an executor chooses explicitly.
    fn decoder_state_contract(&self, selected_family: &GgmlFamilyAdapterDescriptor) -> Result<
        GgmlAsrDecoderStateContract,
        GgmlAsrExecutionError,
    >;

    /// The state that an invocation needs, where the contract promises any.
    fn plan_decoder_state_topology(
        &self,
        input: &GgmlAsrDecoderStatePlanningInput<'_, F>,
    ) -> Result<DecoderStatePlan, GgmlAsrDecoderStatePlanningError>;

    /// The state that one decode of a streaming session needs. By default it is planned under
    /// the contract.
    fn replan_streaming_decoder_state(
        &self,
        selected_family: &GgmlFamilyAdapterDescriptor,
        input: &GgmlAsrDecoderStatePlanningInput<'_, F>,
    ) -> (result: Result<GgmlAsrDecoderState, GgmlAsrExecutionError>)
        default_ensures
            ({
                ||| result matches Err(error) && call_ensures(
                    Self::decoder_state_contract,
                    (self, selected_family),
                    Err(error),
                )
                ||| exists|contract: GgmlAsrDecoderStateContract|
                    #[trigger] call_ensures(
                        Self::decoder_state_contract,
                        (self, selected_family),
                        Ok(contract),
                    ) && plans_state(
                        contract,
                        input.envelope,
                        |reply: Result<DecoderStatePlan, GgmlAsrDecoderStatePlanningError>|
                            call_ensures(Self::plan_decoder_state_topology, (self, input), reply),
                        result,
                    )
            }),
    {
        let contract: GgmlAsrDecoderStateContract = match self.decoder_state_contract(
            selected_family,
        ) {
            Ok(contract) => contract,
            Err(error) => {
                return Err(error);
            },
        };
        let planner = |planned: &GgmlAsrDecoderStatePlanningInput<'_, F>| -> (reply: Result<
            DecoderStatePlan,
            GgmlAsrDecoderStatePlanningError,
        >)
            ensures
                call_ensures(Self::plan_decoder_state_topology, (self, planned), reply),
            { self.plan_decoder_state_topology(planned) };
        let result: Result<GgmlAsrDecoderState, GgmlAsrExecutionError> = plan_under_contract(
            &contract,
            input,
            planner,
        );
        proof {
            lemma_plans_alike(
                contract,
                input.envelope,
                |reply: Result<DecoderStatePlan, GgmlAsrDecoderStatePlanningError>|
                    call_ensures(planner, (input,), reply),
                |reply: Result<DecoderStatePlan, GgmlAsrDecoderStatePlanningError>|
                    call_ensures(Self::plan_decoder_state_topology, (self, input), reply),
                result,
            );
        }
        result
    }

    fn execute(&self, request: &GgmlAsrExecutionRequest<T, F>) -> Result<
        GgmlAsrExecutionResult<Y>,
        GgmlAsrExecutionError,
    >;

    /// Drops cached runtime state, if the executor holds any.
    fn unload_idle_state(&self) {
    }
}

/// An executor of the built-in runtime, which reads audio without a copy.
pub trait GgmlAsrViewExecutor<T, F, Y> {
    fn executor_id(&self) -> &'static str;

    fn adapter_binding_strategy(&self) -> (strategy: GgmlAdapterBindingStrategy)
        default_ensures
            strategy == GgmlAdapterBindingStrategy::Unsupported,
    {
        GgmlAdapterBindingStrategy::Unsupported
    }

    /// How adapters are bound for a selected family. An executor composed of several
    /// overrides this and asks the selected one.
    fn adapter_binding_strategy_for(
        &self,
        _selected_family: &GgmlFamilyAdapterDescriptor,
    ) -> (strategy: Result<GgmlAdapterBindingStrategy, GgmlAsrExecutionError>)
        default_ensures
            strategy is Ok && call_ensures(
                Self::adapter_binding_strategy,
                (self,),
                strategy->Ok_0,
            ),
    {
        Ok(self.adapter_binding_strategy())
    }

    fn supports_phrase_bias(&self) -> bool;

    fn decoder_state_contract(&self, selected_family: &GgmlFamilyAdapterDescriptor) -> Result<
        GgmlAsrDecoderStateContract,
        GgmlAsrExecutionError,
    >;

    /// The state that an invocation needs, where the contract promises any.
    fn plan_decoder_state_topology(
        &self,
        input: &GgmlAsrDecoderStatePlanningInput<'_, F>,
    ) -> Result<DecoderStatePlan, GgmlAsrDecoderStatePlanningError>;

    /// The state that one decode of a streaming session needs. By default it is planned under
    /// the contract.
    fn replan_streaming_decoder_state(
        &self,
        selected_family: &GgmlFamilyAdapterDescriptor,
        input: &GgmlAsrDecoderStatePlanningInput<'_, F>,
    ) -> (result: Result<GgmlAsrDecoderState, GgmlAsrExecutionError>)
        default_ensures
            ({
                ||| result matches Err(error) && call_ensures(
                    Self::decoder_state_contract,
                    (self, selected_family),
                    Err(error),
                )
                ||| exists|contract: GgmlAsrDecoderStateContract|
                    #[trigger] call_ensures(
                        Self::decoder_state_contract,
                        (self, selected_family),
                        Ok(contract),
                    ) && plans_state(
                        contract,
                        input.envelope,
                        |reply: Result<DecoderStatePlan, GgmlAsrDecoderStatePlanningError>|
                            call_ensures(Self::plan_decoder_state_topology, (self, input), reply),
                        result,
                    )
            }),
    {
        let contract: GgmlAsrDecoderStateContract = match self.decoder_state_contract(
            selected_family,
        ) {
            Ok(contract) => contract,
            Err(error) => {
                return Err(error);
            },
        };
        let planner = |planned: &GgmlAsrDecoderStatePlanningInput<'_, F>| -> (reply: Result<
            DecoderStatePlan,
            GgmlAsrDecoderStatePlanningError,
        >)
            ensures
                call_ensures(Self::plan_decoder_state_topology, (self, planned), reply),
            { self.plan_decoder_state_topology(planned) };
        let result: Result<GgmlAsrDecoderState, GgmlAsrExecutionError> = plan_under_contract(
            &contract,
            input,
            planner,
        );
        proof {
            lemma_plans_alike(
                contract,
                input.envelope,
                |reply: Result<DecoderStatePlan, GgmlAsrDecoderStatePlanningError>|
                    call_ensures(planner, (input,), reply),
                |reply: Result<DecoderStatePlan, GgmlAsrDecoderStatePlanningError>|
                    call_ensures(Self::plan_decoder_state_topology, (self, input), reply),
                result,
            );
        }
        result
    }

    fn execute_view(&self, request: &GgmlAsrExecutionViewRequest<'_, T, F>) -> Result<
        GgmlAsrExecutionResult<Y>,
        GgmlAsrExecutionError,
    >;

    /// Drops prepared state for exactly one pack.
    fn evict_prepared_runtime_content_id(&self, pack_content_id: &str);

    fn unload_idle_state(&self) {
    }
}

/// An executor of streaming sessions that a caller brings along.
pub trait GgmlAsrStreamingExecutor<F, A, B, C, P, W> {
    fn executor_id(&self) -> &'static str;

    fn adapter_binding_strategy(&self) -> (strategy: GgmlAdapterBindingStrategy)
        default_ensures
            strategy == GgmlAdapterBindingStrategy::Unsupported,
    {
        GgmlAdapterBindingStrategy::Unsupported
    }

    fn start_streaming_session(
        &self,
        request: &GgmlAsrStreamingSessionRequest<F, A, B, C, P>,
    ) -> Result<W, GgmlAsrExecutionError>;

    /// Drops cached runtime state, if the executor holds any.
    fn unload_idle_state(&self) {
    }
}

/// Planned state is what the family's planner said, under the envelope that it was asked for;
/// where no state is promised, there is none and no planner can fail.
pub proof fn law_planned_state_is_the_planners(
    contract: GgmlAsrDecoderStateContract,
    envelope: InvocationEnvelope,
    may_reply: spec_fn(Result<DecoderStatePlan, GgmlAsrDecoderStatePlanningError>) -> bool,
    result: Result<GgmlAsrDecoderState, GgmlAsrExecutionError>,
)
    requires
        plans_state(contract, envelope, may_reply, result),
    ensures
        contract == GgmlAsrDecoderStateContract::NoPersistentState ==> (result matches Ok(state)
            && state == GgmlAsrDecoderState::NoPersistentState),
        contract is Planned && result is Ok ==> {
            &&& result->Ok_0 is Planned
            &&& (result->Ok_0)->Planned_0.envelope == envelope
            &&& may_reply(Ok((result->Ok_0)->Planned_0.plan))
        },
        result matches Err(error) ==> contract is Planned && (error matches
            GgmlAsrExecutionError::DecoderStatePlanning(source) && may_reply(Err(source))),
{
    if contract is Planned && result is Ok {
        let plan = choose|plan: DecoderStatePlan|
            #[trigger] may_reply(Ok(plan)) && result->Ok_0 == GgmlAsrDecoderState::Planned(
                GgmlAsrPlannedDecoderState { plan, envelope },
            );
        assert(may_reply(Ok(plan)));
    }
}

/// A message opens with the executor or the adapter that it is about, and closes with the
/// reason where there is one.
pub proof fn law_messages_name_executor_and_adapter(error: GgmlAsrExecutionError)
    ensures
        error matches GgmlAsrExecutionError::ExecutorFailed { executor_id, adapter_id, reason }
            ==> ("ggml executor '"@ + executor_id@ + "' failed for adapter '"@
            + adapter_id@).is_prefix_of(error.text()) && reason@.is_suffix_of(error.text()),
        error matches GgmlAsrExecutionError::ExecutorUnavailable {
            adapter_id,
            model_family,
            capability,
        } ==> ("no ggml executor is registered for adapter '"@ + adapter_id@ + "' (family '"@
            + model_family@).is_prefix_of(error.text()) && (capability@ + "'"@).is_suffix_of(
            error.text(),
        ),
        error matches GgmlAsrExecutionError::DecoderStateContractMismatch {
            executor_id,
            adapter_id,
        } ==> ("executor '"@ + executor_id@).is_prefix_of(error.text()) && (adapter_id@
            + "'"@).is_suffix_of(error.text()),
        error matches GgmlAsrExecutionError::AdapterUnsupportedForFamily {
            model_family,
            adapter_path,
        } ==> ("an adapter pack is active ('"@ + adapter_path@ + "') but model family '"@
            + model_family@).is_prefix_of(error.text()),
        error matches GgmlAsrExecutionError::AdapterBindingContractMismatch {
            model_family,
            declared,
            provided,
        } ==> ("adapter binding contract mismatch for family '"@ + model_family@
            + "': descriptor declares '"@ + declared@).is_prefix_of(error.text()) && (provided@
            + "'"@).is_suffix_of(error.text()),
{
    match error {
        GgmlAsrExecutionError::ExecutorFailed { executor_id, adapter_id, reason } => {
            let front = "ggml executor '"@ + executor_id@ + "' failed for adapter '"@
                + adapter_id@;
            crate::text::lemma_both_ends(front, "': "@ + reason@);
            crate::text::lemma_both_ends(front + "': "@, reason@);
            assert(error.text() =~= front + ("': "@ + reason@));
        },
        GgmlAsrExecutionError::ExecutorUnavailable { adapter_id, model_family, capability } => {
            let front = "no ggml executor is registered for adapter '"@ + adapter_id@
                + "' (family '"@ + model_family@;
            let back = capability@ + "'"@;
            crate::text::lemma_both_ends(front, "') and capability '"@ + back);
            crate::text::lemma_both_ends(front + "') and capability '"@, back);
            assert(error.text() =~= front + ("') and capability '"@ + back));
            assert(error.text() =~= front + "') and capability '"@ + back);
        },
        GgmlAsrExecutionError::DecoderStateContractMismatch { executor_id, adapter_id } => {
            let front = "executor '"@ + executor_id@;
            let middle =
                "' decoder-state contract does not match the state carried by adapter '"@;
            let back = adapter_id@ + "'"@;
            crate::text::lemma_both_ends(front, middle + back);
            crate::text::lemma_both_ends(front + middle, back);
            assert(error.text() =~= front + (middle + back));
            assert(error.text() =~= front + middle + back);
        },
        GgmlAsrExecutionError::AdapterUnsupportedForFamily { model_family, adapter_path } => {
            crate::text::lemma_both_ends(
                "an adapter pack is active ('"@ + adapter_path@ + "') but model family '"@
                    + model_family@,
                "' does not implement an adapter-binding strategy; fail-closed"@,
            );
        },
        GgmlAsrExecutionError::AdapterBindingContractMismatch {
            model_family,
            declared,
            provided,
        } => {
            let front = "adapter binding contract mismatch for family '"@ + model_family@
                + "': descriptor declares '"@ + declared@;
            let middle = "', executor provides '"@;
            let back = provided@ + "'"@;
            crate::text::lemma_both_ends(front, middle + back);
            crate::text::lemma_both_ends(front + middle, back);
            assert(error.text() =~= front + (middle + back));
            assert(error.text() =~= front + middle + back);
        },
        _ => {},
    }
}

} // verus!
