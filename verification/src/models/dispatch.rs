//! The dispatch of requests to executors.

use vstd::prelude::*;
use vstd::string::*;

use crate::models::decoder_state;
use crate::models::decoder_state::{
    DecoderStatePlan, GgmlAsrDecoderState, GgmlAsrDecoderStateContract,
    GgmlAsrDecoderStatePlanningError, GgmlAsrDecoderStatePlanningInput,
};
use crate::models::executor;
use crate::models::executor::{
    plan_under_contract, GgmlAsrExecutionError, GgmlAsrExecutor, GgmlAsrStreamingExecutor,
    GgmlAsrViewExecutor,
};
use crate::models::registry;
use crate::models::registry::Registry;
use crate::models::request;
use crate::models::request::{
    capability_label, GgmlAdapterBindingStrategy, GgmlAsrExecutionRequest, GgmlAsrExecutionResult,
    GgmlAsrExecutionViewRequest, GgmlAsrStreamingSessionRequest, GgmlExecutionCapability,
    GgmlFamilyAdapterDescriptor, VerifiedPack,
};

verus! {

// ---------------------------------------------------------------------------
// Gates
// ---------------------------------------------------------------------------

/// The refusal of a pack that was proved to hold another family.
pub open spec fn route_mismatch(
    family: GgmlFamilyAdapterDescriptor,
    error: GgmlAsrExecutionError,
) -> bool {
    error == (GgmlAsrExecutionError::VerifiedPackRouteMismatch {
        model_family: family.model_family,
        model_architecture: family.model_architecture,
    })
}

/// A pack is executed only as the family that it was proved to hold.
pub fn ensure_verified_pack_matches_family<F>(
    verified_pack: &VerifiedPack<F>,
    selected_family: &GgmlFamilyAdapterDescriptor,
) -> (result: Result<(), GgmlAsrExecutionError>)
    ensures
        match result {
            Ok(_) => verified_pack.proves(
                selected_family.model_family@,
                selected_family.model_architecture@,
            ),
            Err(error) => !verified_pack.proves(
                selected_family.model_family@,
                selected_family.model_architecture@,
            ) && route_mismatch(*selected_family, error),
        },
{
    if verified_pack.proves_asr_family(
        selected_family.model_family,
        selected_family.model_architecture,
    ) {
        return Ok(());
    }
    Err(
        GgmlAsrExecutionError::VerifiedPackRouteMismatch {
            model_family: selected_family.model_family,
            model_architecture: selected_family.model_architecture,
        },
    )
}

/// The failure of a canceled request.
pub open spec fn canceled_failure(
    executor_id: &'static str,
    adapter_id: &'static str,
    error: GgmlAsrExecutionError,
) -> bool {
    error matches GgmlAsrExecutionError::ExecutorFailed {
        executor_id: failed,
        adapter_id: on,
        reason,
    } && failed == executor_id && on == adapter_id && reason@
        == "transcription canceled at shared execution boundary"@
}

/// Cancellation fence round every executor: what a canceled request is answered.
pub fn ensure_dispatch_not_canceled(
    canceled: bool,
    executor_id: &'static str,
    adapter_id: &'static str,
) -> (result: Result<(), GgmlAsrExecutionError>)
    ensures
        match result {
            Ok(_) => !canceled,
            Err(error) => canceled && canceled_failure(executor_id, adapter_id, error),
        },
{
    if canceled {
        return Err(
            GgmlAsrExecutionError::executor_failed(
                executor_id,
                adapter_id,
                "transcription canceled at shared execution boundary",
            ),
        );
    }
    Ok(())
}

/// Publishes what an executor answered, unless cancellation has won by then.
pub fn publish_unless_canceled<Y>(
    answer: GgmlAsrExecutionResult<Y>,
    canceled: bool,
    executor_id: &'static str,
    adapter_id: &'static str,
) -> (result: Result<GgmlAsrExecutionResult<Y>, GgmlAsrExecutionError>)
    ensures
        match result {
            Ok(kept) => !canceled && kept == answer,
            Err(error) => canceled && canceled_failure(executor_id, adapter_id, error),
        },
{
    match ensure_dispatch_not_canceled(canceled, executor_id, adapter_id) {
        Ok(_) => Ok(answer),
        Err(error) => Err(error),
    }
}

/// The adapter that is active: the request's, else the process-wide one.
pub open spec fn active_adapter(
    request_adapter: Option<Seq<char>>,
    process_adapter: Option<Seq<char>>,
) -> Option<Seq<char>> {
    match request_adapter {
        Some(path) => Some(path),
        None => process_adapter,
    }
}

/// Whether an error is the answer to an executor's way of binding adapters: it is not the
/// declared one, or an adapter is active and it takes none.
pub open spec fn adapter_refused(
    family: GgmlFamilyAdapterDescriptor,
    binding: GgmlAdapterBindingStrategy,
    active: Option<Seq<char>>,
    error: GgmlAsrExecutionError,
) -> bool {
    if family.adapter_binding != binding {
        error matches GgmlAsrExecutionError::AdapterBindingContractMismatch {
            model_family,
            declared,
            provided,
        } && model_family == family.model_family && declared@ == family.adapter_binding.text()
            && provided@ == binding.text()
    } else {
        &&& active is Some
        &&& !binding.supported()
        &&& error matches GgmlAsrExecutionError::AdapterUnsupportedForFamily {
            model_family,
            adapter_path,
        } && model_family == family.model_family && adapter_path@ == active->Some_0
    }
}

/// Whether an executor's way of binding adapters suits a request.
pub open spec fn adapter_accepted(
    family: GgmlFamilyAdapterDescriptor,
    binding: GgmlAdapterBindingStrategy,
    active: Option<Seq<char>>,
) -> bool {
    family.adapter_binding == binding && (active is None || binding.supported())
}

/// Adapter gate: the executor must bind adapters the way that the family declares, and an
/// active adapter needs a binding.
pub fn ensure_adapter_binding_for_executor(
    selected_family: &GgmlFamilyAdapterDescriptor,
    executor_binding: GgmlAdapterBindingStrategy,
    request_adapter_path: Option<&String>,
    process_adapter_path: Option<&String>,
) -> (result: Result<(), GgmlAsrExecutionError>)
    ensures
        ({
            let active = active_adapter(
                match request_adapter_path {
                    Some(path) => Some(path@),
                    None => None,
                },
                match process_adapter_path {
                    Some(path) => Some(path@),
                    None => None,
                },
            );
            match result {
                Ok(_) => adapter_accepted(*selected_family, executor_binding, active),
                Err(error) => adapter_refused(*selected_family, executor_binding, active, error),
            }
        }),
{
    if selected_family.adapter_binding != executor_binding {
        return Err(
            GgmlAsrExecutionError::AdapterBindingContractMismatch {
                model_family: selected_family.model_family,
                declared: selected_family.adapter_binding.label(),
                provided: executor_binding.label(),
            },
        );
    }
    let active: Option<&String> = match request_adapter_path {
        Some(path) => Some(path),
        None => process_adapter_path,
    };
    match active {
        None => Ok(()),
        Some(path) => {
            if executor_binding.is_supported() {
                return Ok(());
            }
            Err(
                GgmlAsrExecutionError::AdapterUnsupportedForFamily {
                    model_family: selected_family.model_family,
                    adapter_path: path.clone(),
                },
            )
        },
    }
}

/// An adapter that was asked for is never silently ignored: a gate that lets a request
/// with an active adapter through has found a binding that takes it.
pub proof fn law_active_adapters_are_bound(
    family: GgmlFamilyAdapterDescriptor,
    binding: GgmlAdapterBindingStrategy,
    active: Option<Seq<char>>,
)
    ensures
        adapter_accepted(family, binding, active) && active is Some ==> binding.supported()
            && family.adapter_binding.supported(),
        forall|error: GgmlAsrExecutionError|
            adapter_accepted(family, binding, active) ==> !#[trigger] adapter_refused(
                family,
                binding,
                active,
                error,
            ),
{
}

// ---------------------------------------------------------------------------
// Slots
// ---------------------------------------------------------------------------

/// A registered executor: one that owns its audio, or one that reads it in place.
pub enum GgmlAsrExecutorSlot<X, V> {
    OwnedCompatibility(X),
    SharedView(V),
}

impl<X, V> GgmlAsrExecutorSlot<X, V> {
    /// Whether the executor may give this name.
    pub open spec fn may_be_named<T, F, Y>(&self, executor_id: &'static str) -> bool where
        X: GgmlAsrExecutor<T, F, Y>,
        V: GgmlAsrViewExecutor<T, F, Y>,
     {
        match self {
            GgmlAsrExecutorSlot::OwnedCompatibility(executor) => call_ensures(
                X::executor_id,
                (executor,),
                executor_id,
            ),
            GgmlAsrExecutorSlot::SharedView(executor) => call_ensures(
                V::executor_id,
                (executor,),
                executor_id,
            ),
        }
    }

    /// Whether the executor may bind adapters so.
    pub open spec fn may_bind<T, F, Y>(
        &self,
        family: &GgmlFamilyAdapterDescriptor,
        reply: Result<GgmlAdapterBindingStrategy, GgmlAsrExecutionError>,
    ) -> bool where X: GgmlAsrExecutor<T, F, Y>, V: GgmlAsrViewExecutor<T, F, Y> {
        match self {
            GgmlAsrExecutorSlot::OwnedCompatibility(executor) => reply is Ok && call_ensures(
                X::adapter_binding_strategy,
                (executor,),
                reply->Ok_0,
            ),
            GgmlAsrExecutorSlot::SharedView(executor) => call_ensures(
                V::adapter_binding_strategy_for,
                (executor, family),
                reply,
            ),
        }
    }

    /// Whether the executor may promise this state.
    pub open spec fn may_promise<T, F, Y>(
        &self,
        family: &GgmlFamilyAdapterDescriptor,
        reply: Result<GgmlAsrDecoderStateContract, GgmlAsrExecutionError>,
    ) -> bool where X: GgmlAsrExecutor<T, F, Y>, V: GgmlAsrViewExecutor<T, F, Y> {
        match self {
            GgmlAsrExecutorSlot::OwnedCompatibility(executor) => call_ensures(
                X::decoder_state_contract,
                (executor, family),
                reply,
            ),
            GgmlAsrExecutorSlot::SharedView(executor) => call_ensures(
                V::decoder_state_contract,
                (executor, family),
                reply,
            ),
        }
    }

    /// Whether the executor may answer an owned request so. One that reads audio in place
    /// is handed the request's own samples.
    pub open spec fn may_answer<T, F, Y>(
        &self,
        request: &GgmlAsrExecutionRequest<T, F>,
        reply: Result<GgmlAsrExecutionResult<Y>, GgmlAsrExecutionError>,
    ) -> bool where X: GgmlAsrExecutor<T, F, Y>, V: GgmlAsrViewExecutor<T, F, Y> {
        match self {
            GgmlAsrExecutorSlot::OwnedCompatibility(executor) => call_ensures(
                X::execute,
                (executor, request),
                reply,
            ),
            GgmlAsrExecutorSlot::SharedView(executor) => call_ensures(
                V::execute_view,
                (executor, &request.viewed()),
                reply,
            ),
        }
    }

    /// Whether the executor may answer a borrowed request so. One that owns its audio is
    /// handed a copy that says the same.
    pub open spec fn may_answer_view<T, F, Y>(
        &self,
        view: &GgmlAsrExecutionViewRequest<'_, T, F>,
        reply: Result<GgmlAsrExecutionResult<Y>, GgmlAsrExecutionError>,
    ) -> bool where X: GgmlAsrExecutor<T, F, Y>, V: GgmlAsrViewExecutor<T, F, Y> {
        match self {
            GgmlAsrExecutorSlot::OwnedCompatibility(executor) => exists|
                owned: GgmlAsrExecutionRequest<T, F>,
            |
                request::owns_view(owned, *view) && #[trigger] call_ensures(
                    X::execute,
                    (executor, &owned),
                    reply,
                ),
            GgmlAsrExecutorSlot::SharedView(executor) => call_ensures(
                V::execute_view,
                (executor, view),
                reply,
            ),
        }
    }

    /// Whether the executor's planner may reply so.
    pub open spec fn may_plan<T, F, Y>(
        &self,
        input: &GgmlAsrDecoderStatePlanningInput<'_, F>,
        reply: Result<DecoderStatePlan, GgmlAsrDecoderStatePlanningError>,
    ) -> bool where X: GgmlAsrExecutor<T, F, Y>, V: GgmlAsrViewExecutor<T, F, Y> {
        match self {
            GgmlAsrExecutorSlot::OwnedCompatibility(executor) => call_ensures(
                X::plan_decoder_state_topology,
                (executor, input),
                reply,
            ),
            GgmlAsrExecutorSlot::SharedView(executor) => call_ensures(
                V::plan_decoder_state_topology,
                (executor, input),
                reply,
            ),
        }
    }

    /// Whether the executor may plan one decode of a streaming session so.
    pub open spec fn may_replan<T, F, Y>(
        &self,
        family: &GgmlFamilyAdapterDescriptor,
        input: &GgmlAsrDecoderStatePlanningInput<'_, F>,
        reply: Result<GgmlAsrDecoderState, GgmlAsrExecutionError>,
    ) -> bool where X: GgmlAsrExecutor<T, F, Y>, V: GgmlAsrViewExecutor<T, F, Y> {
        match self {
            GgmlAsrExecutorSlot::OwnedCompatibility(executor) => call_ensures(
                X::replan_streaming_decoder_state,
                (executor, family, input),
                reply,
            ),
            GgmlAsrExecutorSlot::SharedView(executor) => call_ensures(
                V::replan_streaming_decoder_state,
                (executor, family, input),
                reply,
            ),
        }
    }

    /// Whether the executor was told to drop its idle state.
    pub open spec fn told_to_unload<T, F, Y>(&self) -> bool where
        X: GgmlAsrExecutor<T, F, Y>,
        V: GgmlAsrViewExecutor<T, F, Y>,
     {
        match self {
            GgmlAsrExecutorSlot::OwnedCompatibility(executor) => call_ensures(
                X::unload_idle_state,
                (executor,),
                (),
            ),
            GgmlAsrExecutorSlot::SharedView(executor) => call_ensures(
                V::unload_idle_state,
                (executor,),
                (),
            ),
        }
    }

    /// Whether the executor was told to drop one pack. One that a caller brings along knows
    /// no packs: it drops all its idle state.
    pub open spec fn told_to_evict<T, F, Y>(&self, pack_content_id: &str) -> bool where
        X: GgmlAsrExecutor<T, F, Y>,
        V: GgmlAsrViewExecutor<T, F, Y>,
     {
        match self {
            GgmlAsrExecutorSlot::OwnedCompatibility(executor) => call_ensures(
                X::unload_idle_state,
                (executor,),
                (),
            ),
            GgmlAsrExecutorSlot::SharedView(executor) => call_ensures(
                V::evict_prepared_runtime_content_id,
                (executor, pack_content_id),
                (),
            ),
        }
    }

    pub fn plan_decoder_state_topology<T, F, Y>(
        &self,
        input: &GgmlAsrDecoderStatePlanningInput<'_, F>,
    ) -> (reply: Result<DecoderStatePlan, GgmlAsrDecoderStatePlanningError>) where
        X: GgmlAsrExecutor<T, F, Y>,
        V: GgmlAsrViewExecutor<T, F, Y>,

        ensures
            self.may_plan::<T, F, Y>(input, reply),
    {
        match self {
            GgmlAsrExecutorSlot::OwnedCompatibility(executor) =>
                executor.plan_decoder_state_topology(input),
            GgmlAsrExecutorSlot::SharedView(executor) => executor.plan_decoder_state_topology(
                input,
            ),
        }
    }

    pub fn replan_streaming_decoder_state<T, F, Y>(
        &self,
        selected_family: &GgmlFamilyAdapterDescriptor,
        input: &GgmlAsrDecoderStatePlanningInput<'_, F>,
    ) -> (reply: Result<GgmlAsrDecoderState, GgmlAsrExecutionError>) where
        X: GgmlAsrExecutor<T, F, Y>,
        V: GgmlAsrViewExecutor<T, F, Y>,

        ensures
            self.may_replan::<T, F, Y>(selected_family, input, reply),
    {
        match self {
            GgmlAsrExecutorSlot::OwnedCompatibility(executor) =>
                executor.replan_streaming_decoder_state(selected_family, input),
            GgmlAsrExecutorSlot::SharedView(executor) => executor.replan_streaming_decoder_state(
                selected_family,
                input,
            ),
        }
    }

    pub fn unload_idle_state<T, F, Y>(&self) where
        X: GgmlAsrExecutor<T, F, Y>,
        V: GgmlAsrViewExecutor<T, F, Y>,

        ensures
            self.told_to_unload::<T, F, Y>(),
    {
        let unit: () = match self {
            GgmlAsrExecutorSlot::OwnedCompatibility(executor) => executor.unload_idle_state(),
            GgmlAsrExecutorSlot::SharedView(executor) => executor.unload_idle_state(),
        };
        assert(unit == ());
    }

    pub fn evict_prepared_runtime_content_id<T, F, Y>(&self, pack_content_id: &str) where
        X: GgmlAsrExecutor<T, F, Y>,
        V: GgmlAsrViewExecutor<T, F, Y>,

        ensures
            self.told_to_evict::<T, F, Y>(pack_content_id),
    {
        let unit: () = match self {
            GgmlAsrExecutorSlot::OwnedCompatibility(executor) => executor.unload_idle_state(),
            GgmlAsrExecutorSlot::SharedView(executor) =>
                executor.evict_prepared_runtime_content_id(pack_content_id),
        };
        assert(unit == ());
    }

    pub fn executor_id<T, F, Y>(&self) -> (executor_id: &'static str) where
        X: GgmlAsrExecutor<T, F, Y>,
        V: GgmlAsrViewExecutor<T, F, Y>,

        ensures
            self.may_be_named::<T, F, Y>(executor_id),
    {
        match self {
            GgmlAsrExecutorSlot::OwnedCompatibility(executor) => executor.executor_id(),
            GgmlAsrExecutorSlot::SharedView(executor) => executor.executor_id(),
        }
    }

    pub fn adapter_binding_strategy<T, F, Y>(
        &self,
        selected_family: &GgmlFamilyAdapterDescriptor,
    ) -> (reply: Result<GgmlAdapterBindingStrategy, GgmlAsrExecutionError>) where
        X: GgmlAsrExecutor<T, F, Y>,
        V: GgmlAsrViewExecutor<T, F, Y>,

        ensures
            self.may_bind::<T, F, Y>(selected_family, reply),
    {
        match self {
            GgmlAsrExecutorSlot::OwnedCompatibility(executor) => Ok(
                executor.adapter_binding_strategy(),
            ),
            GgmlAsrExecutorSlot::SharedView(executor) => executor.adapter_binding_strategy_for(
                selected_family,
            ),
        }
    }

    pub fn decoder_state_contract<T, F, Y>(
        &self,
        selected_family: &GgmlFamilyAdapterDescriptor,
    ) -> (reply: Result<GgmlAsrDecoderStateContract, GgmlAsrExecutionError>) where
        X: GgmlAsrExecutor<T, F, Y>,
        V: GgmlAsrViewExecutor<T, F, Y>,

        ensures
            self.may_promise::<T, F, Y>(selected_family, reply),
    {
        match self {
            GgmlAsrExecutorSlot::OwnedCompatibility(executor) => executor.decoder_state_contract(
                selected_family,
            ),
            GgmlAsrExecutorSlot::SharedView(executor) => executor.decoder_state_contract(
                selected_family,
            ),
        }
    }

    pub fn execute_owned<T, F, Y>(&self, request: &GgmlAsrExecutionRequest<T, F>) -> (reply: Result<
        GgmlAsrExecutionResult<Y>,
        GgmlAsrExecutionError,
    >) where X: GgmlAsrExecutor<T, F, Y>, V: GgmlAsrViewExecutor<T, F, Y>
        ensures
            self.may_answer(request, reply),
    {
        match self {
            GgmlAsrExecutorSlot::OwnedCompatibility(executor) => executor.execute(request),
            GgmlAsrExecutorSlot::SharedView(executor) => executor.execute_view(&request.as_view()),
        }
    }

    pub fn execute_view<T: Copy, F: Copy, Y>(
        &self,
        view: &GgmlAsrExecutionViewRequest<'_, T, F>,
    ) -> (reply: Result<GgmlAsrExecutionResult<Y>, GgmlAsrExecutionError>) where
        X: GgmlAsrExecutor<T, F, Y>,
        V: GgmlAsrViewExecutor<T, F, Y>,

        ensures
            self.may_answer_view(view, reply),
    {
        match self {
            GgmlAsrExecutorSlot::OwnedCompatibility(executor) => executor.execute(
                &view.to_owned_request(),
            ),
            GgmlAsrExecutorSlot::SharedView(executor) => executor.execute_view(view),
        }
    }
}

// ---------------------------------------------------------------------------
// Readiness
// ---------------------------------------------------------------------------

/// Whether an executor's way of binding adapters may suit a request.
pub open spec fn binding_accepted<X, V, T, F, Y>(
    slot: &GgmlAsrExecutorSlot<X, V>,
    family: &GgmlFamilyAdapterDescriptor,
    active: Option<Seq<char>>,
) -> bool where X: GgmlAsrExecutor<T, F, Y>, V: GgmlAsrViewExecutor<T, F, Y> {
    exists|binding: GgmlAdapterBindingStrategy|
        #[trigger] slot.may_bind::<T, F, Y>(family, Ok(binding)) && adapter_accepted(
            *family,
            binding,
            active,
        )
}

/// Whether an executor may run a request: adapters are bound as declared, the request was
/// not canceled when that was asked before any answer, and its state is the promised one.
pub open spec fn is_ready<X, V, T, F, Y, C: Fn(Option<&GgmlAsrExecutionResult<Y>>) -> bool>(
    slot: &GgmlAsrExecutorSlot<X, V>,
    family: &GgmlFamilyAdapterDescriptor,
    active: Option<Seq<char>>,
    state: &GgmlAsrDecoderState,
    canceled: &C,
) -> bool where X: GgmlAsrExecutor<T, F, Y>, V: GgmlAsrViewExecutor<T, F, Y> {
    &&& binding_accepted::<X, V, T, F, Y>(slot, family, active)
    &&& call_ensures(*canceled, (None,), false)
    &&& exists|contract: GgmlAsrDecoderStateContract|
        #[trigger] slot.may_promise::<T, F, Y>(family, Ok(contract))
            && decoder_state::keeps_contract(contract, *state)
}

/// Whether an executor may be kept from a request with this error: by its answer on
/// adapters or by what it binds, by cancellation, by its answer on state, or because the
/// state is not the promised one; in this order.
pub open spec fn is_not_ready<X, V, T, F, Y, C: Fn(Option<&GgmlAsrExecutionResult<Y>>) -> bool>(
    slot: &GgmlAsrExecutorSlot<X, V>,
    family: &GgmlFamilyAdapterDescriptor,
    active: Option<Seq<char>>,
    state: &GgmlAsrDecoderState,
    canceled: &C,
    error: GgmlAsrExecutionError,
) -> bool where X: GgmlAsrExecutor<T, F, Y>, V: GgmlAsrViewExecutor<T, F, Y> {
    ||| slot.may_bind::<T, F, Y>(family, Err(error))
    ||| exists|binding: GgmlAdapterBindingStrategy|
        #[trigger] slot.may_bind::<T, F, Y>(family, Ok(binding)) && adapter_refused(
            *family,
            binding,
            active,
            error,
        )
    ||| {
        &&& binding_accepted::<X, V, T, F, Y>(slot, family, active)
        &&& is_canceled_by::<X, V, T, F, Y, C>(slot, family, canceled, None, error)
    }
    ||| {
        &&& binding_accepted::<X, V, T, F, Y>(slot, family, active)
        &&& call_ensures(*canceled, (None,), false)
        &&& {
            ||| slot.may_promise::<T, F, Y>(family, Err(error))
            ||| exists|contract: GgmlAsrDecoderStateContract, executor_id: &'static str|
                #[trigger] slot.may_promise::<T, F, Y>(family, Ok(contract))
                    && !decoder_state::keeps_contract(contract, *state)
                    && #[trigger] slot.may_be_named::<T, F, Y>(executor_id) && error
                    == (GgmlAsrExecutionError::DecoderStateContractMismatch {
                    executor_id,
                    adapter_id: family.adapter_id,
                })
        }
    }
}

/// Whether an error reports that a request was found to be canceled: before its executor was
/// asked, or behind the answer that is given.
pub open spec fn is_canceled_by<X, V, T, F, Y, C: Fn(Option<&GgmlAsrExecutionResult<Y>>) -> bool>(
    slot: &GgmlAsrExecutorSlot<X, V>,
    family: &GgmlFamilyAdapterDescriptor,
    canceled: &C,
    behind: Option<&GgmlAsrExecutionResult<Y>>,
    error: GgmlAsrExecutionError,
) -> bool where X: GgmlAsrExecutor<T, F, Y>, V: GgmlAsrViewExecutor<T, F, Y> {
    &&& call_ensures(*canceled, (behind,), true)
    &&& exists|executor_id: &'static str|
        #[trigger] slot.may_be_named::<T, F, Y>(executor_id) && canceled_failure(
            executor_id,
            family.adapter_id,
            error,
        )
}

fn ensure_ready<X, V, T, F, Y, C: Fn(Option<&GgmlAsrExecutionResult<Y>>) -> bool>(
    slot: &GgmlAsrExecutorSlot<X, V>,
    selected_family: &GgmlFamilyAdapterDescriptor,
    request_adapter_path: Option<&String>,
    process_adapter_path: Option<&String>,
    state: &GgmlAsrDecoderState,
    canceled: &C,
) -> (result: Result<(), GgmlAsrExecutionError>) where
    X: GgmlAsrExecutor<T, F, Y>,
    V: GgmlAsrViewExecutor<T, F, Y>,

    requires
        call_requires(*canceled, (None,)),
    ensures
        ({
            let active = active_adapter(
                match request_adapter_path {
                    Some(path) => Some(path@),
                    None => None,
                },
                match process_adapter_path {
                    Some(path) => Some(path@),
                    None => None,
                },
            );
            match result {
                Ok(_) => is_ready::<X, V, T, F, Y, C>(
                    slot,
                    selected_family,
                    active,
                    state,
                    canceled,
                ),
                Err(error) => is_not_ready::<X, V, T, F, Y, C>(
                    slot,
                    selected_family,
                    active,
                    state,
                    canceled,
                    error,
                ),
            }
        }),
{
    let binding: GgmlAdapterBindingStrategy = match slot.adapter_binding_strategy::<T, F, Y>(
        selected_family,
    ) {
        Ok(binding) => binding,
        Err(error) => {
            return Err(error);
        },
    };
    if let Err(error) = ensure_adapter_binding_for_executor(
        selected_family,
        binding,
        request_adapter_path,
        process_adapter_path,
    ) {
        return Err(error);
    }
    let executor_id: &'static str = slot.executor_id::<T, F, Y>();
    if let Err(error) = ensure_dispatch_not_canceled(
        canceled(None),
        executor_id,
        selected_family.adapter_id,
    ) {
        return Err(error);
    }
    let contract: GgmlAsrDecoderStateContract = match slot.decoder_state_contract::<T, F, Y>(
        selected_family,
    ) {
        Ok(contract) => contract,
        Err(error) => {
            return Err(error);
        },
    };
    if !contract.validates(state) {
        return Err(
            GgmlAsrExecutionError::DecoderStateContractMismatch {
                executor_id,
                adapter_id: selected_family.adapter_id,
            },
        );
    }
    Ok(())
}

/// Whether a request's answer was published or refused: the cancellation was asked behind
/// that very answer.
pub open spec fn is_fenced<X, V, T, F, Y, C: Fn(Option<&GgmlAsrExecutionResult<Y>>) -> bool>(
    slot: &GgmlAsrExecutorSlot<X, V>,
    family: &GgmlFamilyAdapterDescriptor,
    canceled: &C,
    answer: GgmlAsrExecutionResult<Y>,
    result: Result<GgmlAsrExecutionResult<Y>, GgmlAsrExecutionError>,
) -> bool where X: GgmlAsrExecutor<T, F, Y>, V: GgmlAsrViewExecutor<T, F, Y> {
    match result {
        Ok(kept) => kept == answer && call_ensures(*canceled, (Some(&answer),), false),
        Err(error) => is_canceled_by::<X, V, T, F, Y, C>(
            slot,
            family,
            canceled,
            Some(&answer),
            error,
        ),
    }
}

/// Whether a request may be answered so. `proved` says whether its pack was proved to hold
/// the family, `slot` is what is registered for the family, and `may_answer` what that may
/// answer.
pub open spec fn is_answered<X, V, T, F, Y, C: Fn(Option<&GgmlAsrExecutionResult<Y>>) -> bool>(
    slot: Option<GgmlAsrExecutorSlot<X, V>>,
    proved: bool,
    family: GgmlFamilyAdapterDescriptor,
    active: Option<Seq<char>>,
    state: &GgmlAsrDecoderState,
    canceled: &C,
    may_answer: spec_fn(Result<GgmlAsrExecutionResult<Y>, GgmlAsrExecutionError>) -> bool,
    result: Result<GgmlAsrExecutionResult<Y>, GgmlAsrExecutionError>,
) -> bool where X: GgmlAsrExecutor<T, F, Y>, V: GgmlAsrViewExecutor<T, F, Y> {
    match result {
        Ok(answer) => {
            &&& proved
            &&& slot is Some
            &&& is_ready::<X, V, T, F, Y, C>(&slot->Some_0, &family, active, state, canceled)
            &&& may_answer(Ok(answer))
            &&& is_fenced::<X, V, T, F, Y, C>(&slot->Some_0, &family, canceled, answer, result)
        },
        Err(error) => {
            ||| !proved && route_mismatch(family, error)
            ||| proved && slot is None && is_unavailable(family, error)
            ||| proved && slot is Some && is_not_ready::<X, V, T, F, Y, C>(
                &slot->Some_0,
                &family,
                active,
                state,
                canceled,
                error,
            )
            ||| {
                &&& proved
                &&& slot is Some
                &&& is_ready::<X, V, T, F, Y, C>(&slot->Some_0, &family, active, state, canceled)
                &&& {
                    ||| may_answer(Err(error))
                    ||| exists|answer: GgmlAsrExecutionResult<Y>| #[trigger]
                        may_answer(Ok(answer)) && is_fenced::<X, V, T, F, Y, C>(
                            &slot->Some_0,
                            &family,
                            canceled,
                            answer,
                            result,
                        )
                }
            }
        },
    }
}

/// A request that is canceled before its executor is asked is answered with the cancellation,
/// once adapters are bound as declared.
pub proof fn law_a_canceled_request_is_not_executed<X, V, T, F, Y, C>(
    slot: GgmlAsrExecutorSlot<X, V>,
    family: GgmlFamilyAdapterDescriptor,
    active: Option<Seq<char>>,
    state: &GgmlAsrDecoderState,
    canceled: &C,
    may_answer: spec_fn(Result<GgmlAsrExecutionResult<Y>, GgmlAsrExecutionError>) -> bool,
    result: Result<GgmlAsrExecutionResult<Y>, GgmlAsrExecutionError>,
) where
    X: GgmlAsrExecutor<T, F, Y>,
    V: GgmlAsrViewExecutor<T, F, Y>,
    C: Fn(Option<&GgmlAsrExecutionResult<Y>>) -> bool,

    requires
        is_answered::<X, V, T, F, Y, C>(
            Some(slot),
            true,
            family,
            active,
            state,
            canceled,
            may_answer,
            result,
        ),
        binds_as_declared::<X, V, T, F, Y>(slot, family, active),
        !call_ensures(*canceled, (None,), false),
    ensures
        result matches Err(error) && is_canceled_by::<X, V, T, F, Y, C>(
            &slot,
            &family,
            canceled,
            None,
            error,
        ),
{
}

/// A request that becomes canceled while its executor runs is answered with the cancellation,
/// though the executor succeeds.
pub proof fn law_no_answer_outlives_a_cancellation<X, V, T, F, Y, C>(
    slot: GgmlAsrExecutorSlot<X, V>,
    family: GgmlFamilyAdapterDescriptor,
    active: Option<Seq<char>>,
    state: &GgmlAsrDecoderState,
    canceled: &C,
    may_answer: spec_fn(Result<GgmlAsrExecutionResult<Y>, GgmlAsrExecutionError>) -> bool,
    result: Result<GgmlAsrExecutionResult<Y>, GgmlAsrExecutionError>,
) -> (answer: Option<GgmlAsrExecutionResult<Y>>) where
    X: GgmlAsrExecutor<T, F, Y>,
    V: GgmlAsrViewExecutor<T, F, Y>,
    C: Fn(Option<&GgmlAsrExecutionResult<Y>>) -> bool,

    requires
        is_answered::<X, V, T, F, Y, C>(
            Some(slot),
            true,
            family,
            active,
            state,
            canceled,
            may_answer,
            result,
        ),
        binds_as_declared::<X, V, T, F, Y>(slot, family, active),
        promises_state::<X, V, T, F, Y>(slot, family, *state),
        forall|error: GgmlAsrExecutionError| !(#[trigger] may_answer(Err(error))),
        forall|answer: GgmlAsrExecutionResult<Y>|
            !(#[trigger] call_ensures(*canceled, (Some(&answer),), false)),
    ensures
        result matches Err(error) && is_canceled_by::<X, V, T, F, Y, C>(
            &slot,
            &family,
            canceled,
            match answer {
                Some(given) => Some(&given),
                None => None,
            },
            error,
        ),
{
    let error = result->Err_0;
    if is_canceled_by::<X, V, T, F, Y, C>(&slot, &family, canceled, None, error) {
        None
    } else {
        Some(
            choose|answer: GgmlAsrExecutionResult<Y>| #[trigger]
                may_answer(Ok(answer)) && is_fenced::<X, V, T, F, Y, C>(
                    &slot,
                    &family,
                    canceled,
                    answer,
                    result,
                ),
        )
    }
}

/// Whether an executor surely binds adapters so that a request is accepted.
pub open spec fn binds_as_declared<X, V, T, F, Y>(
    slot: GgmlAsrExecutorSlot<X, V>,
    family: GgmlFamilyAdapterDescriptor,
    active: Option<Seq<char>>,
) -> bool where X: GgmlAsrExecutor<T, F, Y>, V: GgmlAsrViewExecutor<T, F, Y> {
    forall|reply: Result<GgmlAdapterBindingStrategy, GgmlAsrExecutionError>|
        #[trigger] slot.may_bind::<T, F, Y>(&family, reply) ==> (reply matches Ok(binding)
            && adapter_accepted(family, binding, active))
}

/// Whether an executor surely promises the state that a request carries.
pub open spec fn promises_state<X, V, T, F, Y>(
    slot: GgmlAsrExecutorSlot<X, V>,
    family: GgmlFamilyAdapterDescriptor,
    state: GgmlAsrDecoderState,
) -> bool where X: GgmlAsrExecutor<T, F, Y>, V: GgmlAsrViewExecutor<T, F, Y> {
    forall|reply: Result<GgmlAsrDecoderStateContract, GgmlAsrExecutionError>|
        #[trigger] slot.may_promise::<T, F, Y>(&family, reply) ==> (reply matches Ok(contract)
            && decoder_state::keeps_contract(contract, state))
}

fn fence_result<X, V, T, F, Y, C: Fn(Option<&GgmlAsrExecutionResult<Y>>) -> bool>(
    slot: &GgmlAsrExecutorSlot<X, V>,
    selected_family: &GgmlFamilyAdapterDescriptor,
    canceled: &C,
    answer: GgmlAsrExecutionResult<Y>,
) -> (result: Result<GgmlAsrExecutionResult<Y>, GgmlAsrExecutionError>) where
    X: GgmlAsrExecutor<T, F, Y>,
    V: GgmlAsrViewExecutor<T, F, Y>,

    requires
        call_requires(*canceled, (Some(&answer),)),
    ensures
        is_fenced::<X, V, T, F, Y, C>(slot, selected_family, canceled, answer, result),
{
    let executor_id: &'static str = slot.executor_id::<T, F, Y>();
    let lost: bool = canceled(Some(&answer));
    publish_unless_canceled(answer, lost, executor_id, selected_family.adapter_id)
}

// ---------------------------------------------------------------------------
// Dispatch
// ---------------------------------------------------------------------------

/// Partial-result granularity of a streaming executor.
#[derive(Debug, Clone, Copy, PartialEq, Eq, Structural)]
pub enum StreamingPartialGranularity {
    FrameSyncAppend,
    RevisableSnapshot,
}

impl StreamingPartialGranularity {
    pub fn is_frame_sync_append(self) -> (yes: bool)
        ensures
            yes == (self == StreamingPartialGranularity::FrameSyncAppend),
    {
        match self {
            StreamingPartialGranularity::FrameSyncAppend => true,
            StreamingPartialGranularity::RevisableSnapshot => false,
        }
    }
}

/// The registered executors, by adapter and by capability.
pub struct GgmlAsrExecutionDispatch<X, V, S> {
    pub executors_by_adapter_id: Registry<GgmlAsrExecutorSlot<X, V>>,
    pub executors_by_capability: Registry<GgmlAsrExecutorSlot<X, V>>,
    pub streaming_executors_by_adapter_id: Registry<S>,
    pub streaming_executors_by_capability: Registry<S>,
    pub streaming_partial_granularity_by_adapter_id: Registry<StreamingPartialGranularity>,
    pub streaming_partial_granularity_by_capability: Registry<StreamingPartialGranularity>,
}

/// What is registered for a family: by its adapter first, then by its capability.
pub open spec fn registered_for<Z>(
    by_adapter: Map<Seq<char>, Z>,
    by_capability: Map<Seq<char>, Z>,
    family: GgmlFamilyAdapterDescriptor,
) -> Option<Z> {
    if by_adapter.contains_key(family.adapter_id@) {
        Some(by_adapter[family.adapter_id@])
    } else if by_capability.contains_key(family.execution_capability.text()) {
        Some(by_capability[family.execution_capability.text()])
    } else {
        None
    }
}

fn find_for<'a, Z>(
    by_adapter: &'a Registry<Z>,
    by_capability: &'a Registry<Z>,
    descriptor: &GgmlFamilyAdapterDescriptor,
) -> (found: Option<&'a Z>)
    ensures
        match found {
            Some(value) => registered_for(by_adapter@, by_capability@, *descriptor) == Some(*value),
            None => registered_for(by_adapter@, by_capability@, *descriptor) is None,
        },
{
    match by_adapter.get(descriptor.adapter_id) {
        Some(value) => Some(value),
        None => by_capability.get(capability_label(descriptor.execution_capability)),
    }
}

/// The refusal of a family that no executor is registered for.
pub open spec fn is_unavailable(
    family: GgmlFamilyAdapterDescriptor,
    error: GgmlAsrExecutionError,
) -> bool {
    error matches GgmlAsrExecutionError::ExecutorUnavailable {
        adapter_id,
        model_family,
        capability,
    } && adapter_id == family.adapter_id && model_family == family.model_family && capability@
        == family.execution_capability.text()
}

fn unavailable(descriptor: &GgmlFamilyAdapterDescriptor) -> (error: GgmlAsrExecutionError)
    ensures
        is_unavailable(*descriptor, error),
{
    GgmlAsrExecutionError::ExecutorUnavailable {
        adapter_id: descriptor.adapter_id,
        model_family: descriptor.model_family,
        capability: capability_label(descriptor.execution_capability),
    }
}

impl<X, V, S> Default for GgmlAsrExecutionDispatch<X, V, S> {
    fn default() -> (dispatch: Self)
        ensures
            dispatch.executors_by_adapter_id@ == Map::<
                Seq<char>,
                GgmlAsrExecutorSlot<X, V>,
            >::empty(),
            dispatch.executors_by_capability@ == Map::<
                Seq<char>,
                GgmlAsrExecutorSlot<X, V>,
            >::empty(),
            dispatch.streaming_executors_by_adapter_id@ == Map::<Seq<char>, S>::empty(),
            dispatch.streaming_executors_by_capability@ == Map::<Seq<char>, S>::empty(),
            dispatch.streaming_partial_granularity_by_adapter_id@ == Map::<
                Seq<char>,
                StreamingPartialGranularity,
            >::empty(),
            dispatch.streaming_partial_granularity_by_capability@ == Map::<
                Seq<char>,
                StreamingPartialGranularity,
            >::empty(),
    {
        GgmlAsrExecutionDispatch {
            executors_by_adapter_id: Registry::empty(),
            executors_by_capability: Registry::empty(),
            streaming_executors_by_adapter_id: Registry::empty(),
            streaming_executors_by_capability: Registry::empty(),
            streaming_partial_granularity_by_adapter_id: Registry::empty(),
            streaming_partial_granularity_by_capability: Registry::empty(),
        }
    }
}

/// Whether a dispatch differs from another at most in its offline executors by adapter.
pub open spec fn same_but_adapters<X, V, S>(
    a: GgmlAsrExecutionDispatch<X, V, S>,
    b: GgmlAsrExecutionDispatch<X, V, S>,
) -> bool {
    &&& a.executors_by_capability == b.executors_by_capability
    &&& same_streaming(a, b)
}

/// Whether two dispatches stream alike.
pub open spec fn same_streaming<X, V, S>(
    a: GgmlAsrExecutionDispatch<X, V, S>,
    b: GgmlAsrExecutionDispatch<X, V, S>,
) -> bool {
    &&& a.streaming_executors_by_adapter_id == b.streaming_executors_by_adapter_id
    &&& a.streaming_executors_by_capability == b.streaming_executors_by_capability
    &&& same_granularity(a, b)
}

/// Whether two dispatches declare the same granularities.
pub open spec fn same_granularity<X, V, S>(
    a: GgmlAsrExecutionDispatch<X, V, S>,
    b: GgmlAsrExecutionDispatch<X, V, S>,
) -> bool {
    &&& a.streaming_partial_granularity_by_adapter_id
        == b.streaming_partial_granularity_by_adapter_id
    &&& a.streaming_partial_granularity_by_capability
        == b.streaming_partial_granularity_by_capability
}

/// Whether two dispatches execute offline alike.
pub open spec fn same_offline<X, V, S>(
    a: GgmlAsrExecutionDispatch<X, V, S>,
    b: GgmlAsrExecutionDispatch<X, V, S>,
) -> bool {
    &&& a.executors_by_adapter_id == b.executors_by_adapter_id
    &&& a.executors_by_capability == b.executors_by_capability
}

impl<X, V, S> GgmlAsrExecutionDispatch<X, V, S> {
    /// The executor that is registered for a family.
    pub open spec fn slot_for(self, family: GgmlFamilyAdapterDescriptor) -> Option<
        GgmlAsrExecutorSlot<X, V>,
    > {
        registered_for(self.executors_by_adapter_id@, self.executors_by_capability@, family)
    }

    /// The streaming executor that is registered for a family.
    pub open spec fn streaming_for(self, family: GgmlFamilyAdapterDescriptor) -> Option<S> {
        registered_for(
            self.streaming_executors_by_adapter_id@,
            self.streaming_executors_by_capability@,
            family,
        )
    }

    /// The granularity that is declared for a family.
    pub open spec fn granularity_for(self, family: GgmlFamilyAdapterDescriptor) -> Option<
        StreamingPartialGranularity,
    > {
        registered_for(
            self.streaming_partial_granularity_by_adapter_id@,
            self.streaming_partial_granularity_by_capability@,
            family,
        )
    }

    pub fn with_executor_for_adapter(self, adapter_id: &'static str, executor: X) -> (dispatch: Self)
        ensures
            dispatch.executors_by_adapter_id@ == self.executors_by_adapter_id@.insert(
                adapter_id@,
                GgmlAsrExecutorSlot::OwnedCompatibility(executor),
            ),
            same_but_adapters(dispatch, self),
    {
        let mut dispatch = self;
        dispatch.executors_by_adapter_id = dispatch.executors_by_adapter_id.with(
            adapter_id,
            GgmlAsrExecutorSlot::OwnedCompatibility(executor),
        );
        dispatch
    }

    pub fn with_view_executor_for_adapter(self, adapter_id: &'static str, executor: V) -> (dispatch:
        Self)
        ensures
            dispatch.executors_by_adapter_id@ == self.executors_by_adapter_id@.insert(
                adapter_id@,
                GgmlAsrExecutorSlot::SharedView(executor),
            ),
            same_but_adapters(dispatch, self),
    {
        let mut dispatch = self;
        dispatch.executors_by_adapter_id = dispatch.executors_by_adapter_id.with(
            adapter_id,
            GgmlAsrExecutorSlot::SharedView(executor),
        );
        dispatch
    }

    pub fn with_executor_for_capability(
        self,
        capability: GgmlExecutionCapability,
        executor: X,
    ) -> (dispatch: Self)
        ensures
            dispatch.executors_by_capability@ == self.executors_by_capability@.insert(
                capability.text(),
                GgmlAsrExecutorSlot::OwnedCompatibility(executor),
            ),
            dispatch.executors_by_adapter_id == self.executors_by_adapter_id,
            same_streaming(dispatch, self),
    {
        let mut dispatch = self;
        dispatch.executors_by_capability = dispatch.executors_by_capability.with(
            capability_label(capability),
            GgmlAsrExecutorSlot::OwnedCompatibility(executor),
        );
        dispatch
    }

    pub fn with_view_executor_for_capability(
        self,
        capability: GgmlExecutionCapability,
        executor: V,
    ) -> (dispatch: Self)
        ensures
            dispatch.executors_by_capability@ == self.executors_by_capability@.insert(
                capability.text(),
                GgmlAsrExecutorSlot::SharedView(executor),
            ),
            dispatch.executors_by_adapter_id == self.executors_by_adapter_id,
            same_streaming(dispatch, self),
    {
        let mut dispatch = self;
        dispatch.executors_by_capability = dispatch.executors_by_capability.with(
            capability_label(capability),
            GgmlAsrExecutorSlot::SharedView(executor),
        );
        dispatch
    }

    pub fn with_streaming_executor_for_adapter(
        self,
        adapter_id: &'static str,
        executor: S,
    ) -> (dispatch: Self)
        ensures
            dispatch.streaming_executors_by_adapter_id@
                == self.streaming_executors_by_adapter_id@.insert(adapter_id@, executor),
            dispatch.streaming_executors_by_capability == self.streaming_executors_by_capability,
            same_offline(dispatch, self),
            same_granularity(dispatch, self),
    {
        let mut dispatch = self;
        dispatch.streaming_executors_by_adapter_id =
        dispatch.streaming_executors_by_adapter_id.with(adapter_id, executor);
        dispatch
    }

    pub fn with_streaming_executor_for_capability(
        self,
        capability: GgmlExecutionCapability,
        executor: S,
    ) -> (dispatch: Self)
        ensures
            dispatch.streaming_executors_by_capability@
                == self.streaming_executors_by_capability@.insert(capability.text(), executor),
            dispatch.streaming_executors_by_adapter_id == self.streaming_executors_by_adapter_id,
            same_offline(dispatch, self),
            same_granularity(dispatch, self),
    {
        let mut dispatch = self;
        dispatch.streaming_executors_by_capability =
        dispatch.streaming_executors_by_capability.with(capability_label(capability), executor);
        dispatch
    }

    /// Declares the granularity of the streaming executor for an adapter. This registers no
    /// executor.
    pub fn with_streaming_partial_granularity_for_adapter(
        self,
        adapter_id: &'static str,
        granularity: StreamingPartialGranularity,
    ) -> (dispatch: Self)
        ensures
            dispatch.streaming_partial_granularity_by_adapter_id@
                == self.streaming_partial_granularity_by_adapter_id@.insert(
                adapter_id@,
                granularity,
            ),
            dispatch.streaming_partial_granularity_by_capability
                == self.streaming_partial_granularity_by_capability,
            dispatch.streaming_executors_by_adapter_id == self.streaming_executors_by_adapter_id,
            dispatch.streaming_executors_by_capability == self.streaming_executors_by_capability,
            same_offline(dispatch, self),
    {
        let mut dispatch = self;
        dispatch.streaming_partial_granularity_by_adapter_id =
        dispatch.streaming_partial_granularity_by_adapter_id.with(adapter_id, granularity);
        dispatch
    }

    pub fn with_streaming_partial_granularity_for_capability(
        self,
        capability: GgmlExecutionCapability,
        granularity: StreamingPartialGranularity,
    ) -> (dispatch: Self)
        ensures
            dispatch.streaming_partial_granularity_by_capability@
                == self.streaming_partial_granularity_by_capability@.insert(
                capability.text(),
                granularity,
            ),
            dispatch.streaming_partial_granularity_by_adapter_id
                == self.streaming_partial_granularity_by_adapter_id,
            dispatch.streaming_executors_by_adapter_id == self.streaming_executors_by_adapter_id,
            dispatch.streaming_executors_by_capability == self.streaming_executors_by_capability,
            same_offline(dispatch, self),
    {
        let mut dispatch = self;
        dispatch.streaming_partial_granularity_by_capability =
        dispatch.streaming_partial_granularity_by_capability.with(
            capability_label(capability),
            granularity,
        );
        dispatch
    }

    pub fn with_native_graph_lowering_v1(self, executor: X) -> (dispatch: Self)
        ensures
            dispatch.executors_by_capability@ == self.executors_by_capability@.insert(
                GgmlExecutionCapability::NativeGraphLoweringV1.text(),
                GgmlAsrExecutorSlot::OwnedCompatibility(executor),
            ),
            dispatch.executors_by_adapter_id == self.executors_by_adapter_id,
            same_streaming(dispatch, self),
    {
        self.with_executor_for_capability(GgmlExecutionCapability::NativeGraphLoweringV1, executor)
    }

    /// The executor that is registered for a family.
    pub fn executor_for(&self, descriptor: &GgmlFamilyAdapterDescriptor) -> (slot: Option<
        &GgmlAsrExecutorSlot<X, V>,
    >)
        ensures
            match slot {
                Some(found) => self.slot_for(*descriptor) == Some(*found),
                None => self.slot_for(*descriptor) is None,
            },
    {
        find_for(&self.executors_by_adapter_id, &self.executors_by_capability, descriptor)
    }

    /// Executes an owned request. A request fails closed: before its executor is looked up
    /// where the pack holds another family, then where none is registered, where adapters
    /// are not bound as declared, where it is canceled, and where its state is not the
    /// promised one. A result is published only if the request is still not canceled once
    /// its executor has answered.
    ///
    /// `canceled` is asked twice: without an answer before the executor runs, and behind the
    /// answer that the executor gave.
    pub fn execute<T, F, Y, C: Fn(Option<&GgmlAsrExecutionResult<Y>>) -> bool>(
        &self,
        request: &GgmlAsrExecutionRequest<T, F>,
        process_adapter_path: Option<&String>,
        canceled: &C,
    ) -> (result: Result<GgmlAsrExecutionResult<Y>, GgmlAsrExecutionError>) where
        X: GgmlAsrExecutor<T, F, Y>,
        V: GgmlAsrViewExecutor<T, F, Y>,

        requires
            forall|behind: Option<&GgmlAsrExecutionResult<Y>>|
                #[trigger] call_requires(*canceled, (behind,)),
        ensures
            ({
                let family = request.selected_family;
                let active = active_adapter(
                    request.request_options@.adapter_path,
                    match process_adapter_path {
                        Some(path) => Some(path@),
                        None => None,
                    },
                );
                is_answered::<X, V, T, F, Y, C>(
                    self.slot_for(family),
                    request.verified_pack.proves(family.model_family@, family.model_architecture@),
                    family,
                    active,
                    &request.decoder_state,
                    canceled,
                    |reply: Result<GgmlAsrExecutionResult<Y>, GgmlAsrExecutionError>|
                        (self.slot_for(family)->Some_0).may_answer(request, reply),
                    result,
                )
            }),
    {
        if let Err(error) = ensure_verified_pack_matches_family(
            &request.verified_pack,
            &request.selected_family,
        ) {
            return Err(error);
        }
        let slot: &GgmlAsrExecutorSlot<X, V> = match self.executor_for(&request.selected_family) {
            Some(slot) => slot,
            None => {
                return Err(unavailable(&request.selected_family));
            },
        };
        if let Err(error) = ensure_ready::<X, V, T, F, Y, C>(
            slot,
            &request.selected_family,
            request.request_options.adapter_path.as_ref(),
            process_adapter_path,
            &request.decoder_state,
            canceled,
        ) {
            return Err(error);
        }
        let answer: GgmlAsrExecutionResult<Y> = match slot.execute_owned(request) {
            Ok(answer) => answer,
            Err(error) => {
                return Err(error);
            },
        };
        let ghost may_answer = |reply: Result<GgmlAsrExecutionResult<Y>, GgmlAsrExecutionError>|
            (self.slot_for(request.selected_family)->Some_0).may_answer(request, reply);
        assert(may_answer(Ok(answer)));
        fence_result::<X, V, T, F, Y, C>(slot, &request.selected_family, canceled, answer)
    }

    /// Executes a borrowed request, as [`Self::execute`] does an owned one.
    pub fn execute_view<T: Copy, F: Copy, Y, C: Fn(Option<&GgmlAsrExecutionResult<Y>>) -> bool>(
        &self,
        view: &GgmlAsrExecutionViewRequest<'_, T, F>,
        process_adapter_path: Option<&String>,
        canceled: &C,
    ) -> (result: Result<GgmlAsrExecutionResult<Y>, GgmlAsrExecutionError>) where
        X: GgmlAsrExecutor<T, F, Y>,
        V: GgmlAsrViewExecutor<T, F, Y>,

        requires
            forall|behind: Option<&GgmlAsrExecutionResult<Y>>|
                #[trigger] call_requires(*canceled, (behind,)),
        ensures
            ({
                let family = view.selected_family;
                let active = active_adapter(
                    view.request_options@.adapter_path,
                    match process_adapter_path {
                        Some(path) => Some(path@),
                        None => None,
                    },
                );
                is_answered::<X, V, T, F, Y, C>(
                    self.slot_for(family),
                    view.verified_pack.proves(family.model_family@, family.model_architecture@),
                    family,
                    active,
                    view.decoder_state,
                    canceled,
                    |reply: Result<GgmlAsrExecutionResult<Y>, GgmlAsrExecutionError>|
                        (self.slot_for(family)->Some_0).may_answer_view(view, reply),
                    result,
                )
            }),
    {
        if let Err(error) = ensure_verified_pack_matches_family(
            view.verified_pack,
            &view.selected_family,
        ) {
            return Err(error);
        }
        let slot: &GgmlAsrExecutorSlot<X, V> = match self.executor_for(&view.selected_family) {
            Some(slot) => slot,
            None => {
                return Err(unavailable(&view.selected_family));
            },
        };
        if let Err(error) = ensure_ready::<X, V, T, F, Y, C>(
            slot,
            &view.selected_family,
            view.request_options.adapter_path.as_ref(),
            process_adapter_path,
            view.decoder_state,
            canceled,
        ) {
            return Err(error);
        }
        let answer: GgmlAsrExecutionResult<Y> = match slot.execute_view(view) {
            Ok(answer) => answer,
            Err(error) => {
                return Err(error);
            },
        };
        let ghost may_answer = |reply: Result<GgmlAsrExecutionResult<Y>, GgmlAsrExecutionError>|
            (self.slot_for(view.selected_family)->Some_0).may_answer_view(view, reply);
        assert(may_answer(Ok(answer)));
        fence_result::<X, V, T, F, Y, C>(slot, &view.selected_family, canceled, answer)
    }

    pub fn has_streaming_executor_for(&self, descriptor: &GgmlFamilyAdapterDescriptor) -> (has:
        bool)
        ensures
            has == (self.streaming_for(*descriptor) is Some),
    {
        find_for(
            &self.streaming_executors_by_adapter_id,
            &self.streaming_executors_by_capability,
            descriptor,
        ).is_some()
    }

    /// The granularity that is declared for a family.
    pub fn streaming_partial_granularity_for(
        &self,
        descriptor: &GgmlFamilyAdapterDescriptor,
    ) -> (granularity: Option<StreamingPartialGranularity>)
        ensures
            granularity == self.granularity_for(*descriptor),
    {
        match find_for(
            &self.streaming_partial_granularity_by_adapter_id,
            &self.streaming_partial_granularity_by_capability,
            descriptor,
        ) {
            Some(granularity) => Some(*granularity),
            None => None,
        }
    }

    /// Whether a family streams frame by frame. An undeclared granularity reads as no.
    pub fn is_frame_sync_for(&self, descriptor: &GgmlFamilyAdapterDescriptor) -> (yes: bool)
        ensures
            yes == (self.granularity_for(*descriptor) == Some(
                StreamingPartialGranularity::FrameSyncAppend,
            )),
    {
        match self.streaming_partial_granularity_for(descriptor) {
            Some(granularity) => granularity.is_frame_sync_append(),
            None => false,
        }
    }

    /// Asks the family's executor what state an invocation needs.
    pub fn plan_decoder_state<T, F, Y>(
        &self,
        descriptor: &GgmlFamilyAdapterDescriptor,
        input: &GgmlAsrDecoderStatePlanningInput<'_, F>,
    ) -> (result: Result<GgmlAsrDecoderState, GgmlAsrExecutionError>) where
        X: GgmlAsrExecutor<T, F, Y>,
        V: GgmlAsrViewExecutor<T, F, Y>,

        ensures
            match self.slot_for(*descriptor) {
                None => result matches Err(error) && is_unavailable(*descriptor, error),
                Some(slot) => plans_by_slot::<X, V, T, F, Y>(&slot, descriptor, input, result),
            },
    {
        let slot: &GgmlAsrExecutorSlot<X, V> = match self.executor_for(descriptor) {
            Some(slot) => slot,
            None => {
                return Err(unavailable(descriptor));
            },
        };
        let contract: GgmlAsrDecoderStateContract = match slot.decoder_state_contract::<T, F, Y>(
            descriptor,
        ) {
            Ok(contract) => contract,
            Err(error) => {
                return Err(error);
            },
        };
        let planner = |planned: &GgmlAsrDecoderStatePlanningInput<'_, F>| -> (reply: Result<
            DecoderStatePlan,
            GgmlAsrDecoderStatePlanningError,
        >)
            ensures
                slot.may_plan::<T, F, Y>(planned, reply),
            { slot.plan_decoder_state_topology::<T, F, Y>(planned) };
        let result: Result<GgmlAsrDecoderState, GgmlAsrExecutionError> = plan_under_contract(
            &contract,
            input,
            planner,
        );
        proof {
            executor::lemma_plans_alike(
                contract,
                input.envelope,
                |reply: Result<DecoderStatePlan, GgmlAsrDecoderStatePlanningError>|
                    call_ensures(planner, (input,), reply),
                |reply: Result<DecoderStatePlan, GgmlAsrDecoderStatePlanningError>|
                    slot.may_plan::<T, F, Y>(input, reply),
                result,
            );
        }
        result
    }

    /// Asks the family's executor what state one decode of a streaming session needs.
    pub fn replan_streaming_decoder_state<T, F, Y>(
        &self,
        descriptor: &GgmlFamilyAdapterDescriptor,
        input: &GgmlAsrDecoderStatePlanningInput<'_, F>,
    ) -> (result: Result<GgmlAsrDecoderState, GgmlAsrExecutionError>) where
        X: GgmlAsrExecutor<T, F, Y>,
        V: GgmlAsrViewExecutor<T, F, Y>,

        ensures
            match self.slot_for(*descriptor) {
                None => result matches Err(error) && is_unavailable(*descriptor, error),
                Some(slot) => slot.may_replan::<T, F, Y>(descriptor, input, result),
            },
    {
        match self.executor_for(descriptor) {
            Some(slot) => slot.replan_streaming_decoder_state::<T, F, Y>(descriptor, input),
            None => Err(unavailable(descriptor)),
        }
    }

    /// Starts a streaming session. It fails closed as an offline request does: where the pack
    /// holds another family, where no streaming executor is registered, and where adapters
    /// are not bound as declared.
    pub fn start_streaming_session<F, A, B, C, P, W>(
        &self,
        request: &GgmlAsrStreamingSessionRequest<F, A, B, C, P>,
        process_adapter_path: Option<&String>,
    ) -> (result: Result<W, GgmlAsrExecutionError>) where
        S: GgmlAsrStreamingExecutor<F, A, B, C, P, W>,

        ensures
            ({
                let family = request.selected_family;
                let proved = request.verified_pack.proves(
                    family.model_family@,
                    family.model_architecture@,
                );
                let active = active_adapter(
                    request.request_options@.adapter_path,
                    match process_adapter_path {
                        Some(path) => Some(path@),
                        None => None,
                    },
                );
                if !proved {
                    result matches Err(error) && route_mismatch(family, error)
                } else {
                    match self.streaming_for(family) {
                        None => result matches Err(error) && is_unavailable(family, error),
                        Some(executor) => starts_session(&executor, request, active, result),
                    }
                }
            }),
    {
        if let Err(error) = ensure_verified_pack_matches_family(
            &request.verified_pack,
            &request.selected_family,
        ) {
            return Err(error);
        }
        match find_for(
            &self.streaming_executors_by_adapter_id,
            &self.streaming_executors_by_capability,
            &request.selected_family,
        ) {
            None => Err(unavailable(&request.selected_family)),
            Some(executor) => {
                let binding: GgmlAdapterBindingStrategy = executor.adapter_binding_strategy();
                assert(may_bind_streaming::<S, F, A, B, C, P, W>(executor, binding));
                if let Err(error) = ensure_adapter_binding_for_executor(
                    &request.selected_family,
                    binding,
                    request.request_options.adapter_path.as_ref(),
                    process_adapter_path,
                ) {
                    return Err(error);
                }
                executor.start_streaming_session(request)
            },
        }
    }

    /// The name of the streaming executor that is registered for a family.
    pub fn streaming_executor_id_for<F, A, B, C, P, W>(
        &self,
        descriptor: &GgmlFamilyAdapterDescriptor,
    ) -> (executor_id: Option<&'static str>) where S: GgmlAsrStreamingExecutor<F, A, B, C, P, W>
        ensures
            match self.streaming_for(*descriptor) {
                Some(executor) => executor_id matches Some(name) && call_ensures(
                    S::executor_id,
                    (&executor,),
                    name,
                ),
                None => executor_id is None,
            },
    {
        match find_for(
            &self.streaming_executors_by_adapter_id,
            &self.streaming_executors_by_capability,
            descriptor,
        ) {
            Some(executor) => Some(executor.executor_id()),
            None => None,
        }
    }

    /// Tells every registered executor, offline and streaming, to drop its idle state: each
    /// registry in the order of its names. The contract says that each is told, and leaves
    /// the order open.
    pub fn unload_all<T, F, Y, A, B, C, P, W>(&self) where
        X: GgmlAsrExecutor<T, F, Y>,
        V: GgmlAsrViewExecutor<T, F, Y>,
        S: GgmlAsrStreamingExecutor<F, A, B, C, P, W>,

        ensures
            forall|name: Seq<char>| #[trigger]
                self.executors_by_adapter_id@.contains_key(name)
                    ==> self.executors_by_adapter_id@[name].told_to_unload::<T, F, Y>(),
            forall|name: Seq<char>| #[trigger]
                self.executors_by_capability@.contains_key(name)
                    ==> self.executors_by_capability@[name].told_to_unload::<T, F, Y>(),
            forall|name: Seq<char>| #[trigger]
                self.streaming_executors_by_adapter_id@.contains_key(name) ==> call_ensures(
                    S::unload_idle_state,
                    (&self.streaming_executors_by_adapter_id@[name],),
                    (),
                ),
            forall|name: Seq<char>| #[trigger]
                self.streaming_executors_by_capability@.contains_key(name) ==> call_ensures(
                    S::unload_idle_state,
                    (&self.streaming_executors_by_capability@[name],),
                    (),
                ),
    {
        unload_slots::<X, V, T, F, Y>(&self.executors_by_adapter_id);
        unload_slots::<X, V, T, F, Y>(&self.executors_by_capability);
        unload_streaming::<S, F, A, B, C, P, W>(&self.streaming_executors_by_adapter_id);
        unload_streaming::<S, F, A, B, C, P, W>(&self.streaming_executors_by_capability);
    }

    /// Tells every registered offline executor to drop one pack, each registry in the order of
    /// its names. The contract says that each is told, and leaves the order open.
    pub fn evict_prepared_runtime_content_id<T, F, Y>(&self, pack_content_id: &str) where
        X: GgmlAsrExecutor<T, F, Y>,
        V: GgmlAsrViewExecutor<T, F, Y>,

        ensures
            forall|name: Seq<char>| #[trigger]
                self.executors_by_adapter_id@.contains_key(name)
                    ==> self.executors_by_adapter_id@[name].told_to_evict::<T, F, Y>(
                    pack_content_id,
                ),
            forall|name: Seq<char>| #[trigger]
                self.executors_by_capability@.contains_key(name)
                    ==> self.executors_by_capability@[name].told_to_evict::<T, F, Y>(
                    pack_content_id,
                ),
    {
        evict_from_slots::<X, V, T, F, Y>(&self.executors_by_adapter_id, pack_content_id);
        evict_from_slots::<X, V, T, F, Y>(&self.executors_by_capability, pack_content_id);
    }
}

/// Whether a streaming executor may be bound as it says.
pub open spec fn may_bind_streaming<S, F, A, B, C, P, W>(
    executor: &S,
    binding: GgmlAdapterBindingStrategy,
) -> bool where S: GgmlAsrStreamingExecutor<F, A, B, C, P, W> {
    call_ensures(S::adapter_binding_strategy, (executor,), binding)
}

/// What a streaming executor makes of a request: it is refused for how it binds adapters,
/// or its own answer is given.
pub open spec fn starts_session<S, F, A, B, C, P, W>(
    executor: &S,
    request: &GgmlAsrStreamingSessionRequest<F, A, B, C, P>,
    active: Option<Seq<char>>,
    result: Result<W, GgmlAsrExecutionError>,
) -> bool where S: GgmlAsrStreamingExecutor<F, A, B, C, P, W> {
    exists|binding: GgmlAdapterBindingStrategy| #[trigger]
        may_bind_streaming::<S, F, A, B, C, P, W>(executor, binding) && if adapter_accepted(
            request.selected_family,
            binding,
            active,
        ) {
            call_ensures(S::start_streaming_session, (executor, request), result)
        } else {
            result matches Err(error) && adapter_refused(
                request.selected_family,
                binding,
                active,
                error,
            )
        }
}

/// What planning through a registered executor gives: its refusal to promise, or a plan
/// under its promise.
pub open spec fn plans_by_slot<X, V, T, F, Y>(
    slot: &GgmlAsrExecutorSlot<X, V>,
    family: &GgmlFamilyAdapterDescriptor,
    input: &GgmlAsrDecoderStatePlanningInput<'_, F>,
    result: Result<GgmlAsrDecoderState, GgmlAsrExecutionError>,
) -> bool where X: GgmlAsrExecutor<T, F, Y>, V: GgmlAsrViewExecutor<T, F, Y> {
    ||| result matches Err(error) && slot.may_promise::<T, F, Y>(family, Err(error))
    ||| exists|contract: GgmlAsrDecoderStateContract|
        #[trigger] slot.may_promise::<T, F, Y>(family, Ok(contract)) && executor::plans_state(
            contract,
            input.envelope,
            |reply: Result<DecoderStatePlan, GgmlAsrDecoderStatePlanningError>|
                slot.may_plan::<T, F, Y>(input, reply),
            result,
        )
}

fn unload_slots<X, V, T, F, Y>(slots: &Registry<GgmlAsrExecutorSlot<X, V>>) where
    X: GgmlAsrExecutor<T, F, Y>,
    V: GgmlAsrViewExecutor<T, F, Y>,

    ensures
        forall|name: Seq<char>| #[trigger]
            slots@.contains_key(name) ==> slots@[name].told_to_unload::<T, F, Y>(),
{
    let mut at: usize = 0;
    while at < slots.len()
        invariant
            at <= slots.size(),
            forall|i: int| 0 <= i < at ==> (#[trigger] slots.at(i)).told_to_unload::<T, F, Y>(),
        decreases slots.size() - at,
    {
        slots.value_at(at).unload_idle_state::<T, F, Y>();
        at = at + 1;
    }
    assert forall|name: Seq<char>| #[trigger]
        slots@.contains_key(name) implies slots@[name].told_to_unload::<T, F, Y>() by {
        let place = registry::lemma_values_have_places(*slots, name);
        assert(slots.at(place).told_to_unload::<T, F, Y>());
    }
}

fn unload_streaming<S, F, A, B, C, P, W>(executors: &Registry<S>) where
    S: GgmlAsrStreamingExecutor<F, A, B, C, P, W>,

    ensures
        forall|name: Seq<char>| #[trigger]
            executors@.contains_key(name) ==> call_ensures(
                S::unload_idle_state,
                (&executors@[name],),
                (),
            ),
{
    let mut at: usize = 0;
    while at < executors.len()
        invariant
            at <= executors.size(),
            forall|i: int|
                0 <= i < at ==> call_ensures(
                    S::unload_idle_state,
                    (&#[trigger] executors.at(i),),
                    (),
                ),
        decreases executors.size() - at,
    {
        let unit: () = executors.value_at(at).unload_idle_state();
        assert(unit == ());
        at = at + 1;
    }
    assert forall|name: Seq<char>| #[trigger] executors@.contains_key(name) implies call_ensures(
        S::unload_idle_state,
        (&executors@[name],),
        (),
    ) by {
        let place = registry::lemma_values_have_places(*executors, name);
        assert(call_ensures(S::unload_idle_state, (&executors.at(place),), ()));
    }
}

fn evict_from_slots<X, V, T, F, Y>(
    slots: &Registry<GgmlAsrExecutorSlot<X, V>>,
    pack_content_id: &str,
) where X: GgmlAsrExecutor<T, F, Y>, V: GgmlAsrViewExecutor<T, F, Y>
    ensures
        forall|name: Seq<char>| #[trigger]
            slots@.contains_key(name) ==> slots@[name].told_to_evict::<T, F, Y>(pack_content_id),
{
    let mut at: usize = 0;
    while at < slots.len()
        invariant
            at <= slots.size(),
            forall|i: int|
                0 <= i < at ==> (#[trigger] slots.at(i)).told_to_evict::<T, F, Y>(pack_content_id),
        decreases slots.size() - at,
    {
        slots.value_at(at).evict_prepared_runtime_content_id::<T, F, Y>(pack_content_id);
        at = at + 1;
    }
    assert forall|name: Seq<char>| #[trigger]
        slots@.contains_key(name) implies slots@[name].told_to_evict::<T, F, Y>(
        pack_content_id,
    ) by {
        let place = registry::lemma_values_have_places(*slots, name);
        assert(slots.at(place).told_to_evict::<T, F, Y>(pack_content_id));
    }
}

/// What is registered for an adapter is found for it, whatever is registered for its
/// capability, and leaves every other adapter as it was.
pub proof fn law_an_adapter_registration_wins<Z>(
    by_adapter: Map<Seq<char>, Z>,
    by_capability: Map<Seq<char>, Z>,
    family: GgmlFamilyAdapterDescriptor,
    other: GgmlFamilyAdapterDescriptor,
    value: Z,
)
    ensures
        registered_for(by_adapter.insert(family.adapter_id@, value), by_capability, family)
            == Some(value),
        other.adapter_id@ != family.adapter_id@ ==> registered_for(
            by_adapter.insert(family.adapter_id@, value),
            by_capability,
            other,
        ) == registered_for(by_adapter, by_capability, other),
{
}

/// What is registered for a capability is found for every family of that capability that
/// nothing is registered for by its adapter.
pub proof fn law_a_capability_registration_is_the_fallback<Z>(
    by_adapter: Map<Seq<char>, Z>,
    by_capability: Map<Seq<char>, Z>,
    family: GgmlFamilyAdapterDescriptor,
    value: Z,
)
    ensures
        registered_for(
            by_adapter,
            by_capability.insert(family.execution_capability.text(), value),
            family,
        ) == Some(
            if by_adapter.contains_key(family.adapter_id@) {
                by_adapter[family.adapter_id@]
            } else {
                value
            },
        ),
{
}

/// The adapter that is active is the request's own where it names one, and else that of the
/// process.
pub proof fn law_the_requests_adapter_wins(
    path: Seq<char>,
    process_adapter: Option<Seq<char>>,
)
    ensures
        active_adapter(Some(path), process_adapter) == Some(path),
        active_adapter(None, process_adapter) == process_adapter,
{
}

/// The adapter gate. A request passes where the executor binds adapters as its family declares
/// and either none is active or the binding takes one. Otherwise it is refused: for the
/// binding where that is not the declared one, and else for the adapter, by its path.
pub proof fn law_the_adapter_gate_is_closed(
    family: GgmlFamilyAdapterDescriptor,
    binding: GgmlAdapterBindingStrategy,
    active: Option<Seq<char>>,
    error: GgmlAsrExecutionError,
)
    ensures
        adapter_accepted(family, binding, active) <==> family.adapter_binding == binding && (
        active is None || binding != GgmlAdapterBindingStrategy::Unsupported),
        adapter_refused(family, binding, active, error) ==> !adapter_accepted(
            family,
            binding,
            active,
        ),
        adapter_refused(family, binding, active, error) && family.adapter_binding != binding
            ==> error is AdapterBindingContractMismatch,
        adapter_refused(family, binding, active, error) && family.adapter_binding == binding ==> (
        error matches GgmlAsrExecutionError::AdapterUnsupportedForFamily {
            model_family,
            adapter_path,
        } && model_family == family.model_family && active == Some(adapter_path@)),
{
}

/// An answer has passed every gate: the pack was proved to hold the family, an executor is
/// registered for it, adapters are bound as declared and an active one is taken, the state is
/// the one that the executor promises, the executor gave that very answer, and the request was
/// found not to be canceled both before it was asked and behind the answer.
pub proof fn law_answers_have_passed_every_gate<X, V, T, F, Y, C>(
    slot: Option<GgmlAsrExecutorSlot<X, V>>,
    proved: bool,
    family: GgmlFamilyAdapterDescriptor,
    active: Option<Seq<char>>,
    state: &GgmlAsrDecoderState,
    canceled: &C,
    may_answer: spec_fn(Result<GgmlAsrExecutionResult<Y>, GgmlAsrExecutionError>) -> bool,
    answer: GgmlAsrExecutionResult<Y>,
) where
    X: GgmlAsrExecutor<T, F, Y>,
    V: GgmlAsrViewExecutor<T, F, Y>,
    C: Fn(Option<&GgmlAsrExecutionResult<Y>>) -> bool,

    requires
        is_answered::<X, V, T, F, Y, C>(
            slot,
            proved,
            family,
            active,
            state,
            canceled,
            may_answer,
            Ok(answer),
        ),
    ensures
        proved,
        slot is Some,
        exists|binding: GgmlAdapterBindingStrategy|
            #[trigger] (slot->Some_0).may_bind::<T, F, Y>(&family, Ok(binding))
                && family.adapter_binding == binding && (active is None || binding
                != GgmlAdapterBindingStrategy::Unsupported),
        exists|contract: GgmlAsrDecoderStateContract|
            #[trigger] (slot->Some_0).may_promise::<T, F, Y>(&family, Ok(contract))
                && decoder_state::keeps_contract(contract, *state),
        may_answer(Ok(answer)),
        call_ensures(*canceled, (None,), false),
        call_ensures(*canceled, (Some(&answer),), false),
{
    let binding = choose|binding: GgmlAdapterBindingStrategy|
        #[trigger] (slot->Some_0).may_bind::<T, F, Y>(&family, Ok(binding)) && adapter_accepted(
            family,
            binding,
            active,
        );
    assert((slot->Some_0).may_bind::<T, F, Y>(&family, Ok(binding)));
}

/// A request whose pack was not proved to hold the family is answered with that, whatever is
/// registered; and one that nothing is registered for is told so.
pub proof fn law_unproved_packs_are_refused<X, V, T, F, Y, C>(
    slot: Option<GgmlAsrExecutorSlot<X, V>>,
    proved: bool,
    family: GgmlFamilyAdapterDescriptor,
    active: Option<Seq<char>>,
    state: &GgmlAsrDecoderState,
    canceled: &C,
    may_answer: spec_fn(Result<GgmlAsrExecutionResult<Y>, GgmlAsrExecutionError>) -> bool,
    result: Result<GgmlAsrExecutionResult<Y>, GgmlAsrExecutionError>,
) where
    X: GgmlAsrExecutor<T, F, Y>,
    V: GgmlAsrViewExecutor<T, F, Y>,
    C: Fn(Option<&GgmlAsrExecutionResult<Y>>) -> bool,

    requires
        is_answered::<X, V, T, F, Y, C>(
            slot,
            proved,
            family,
            active,
            state,
            canceled,
            may_answer,
            result,
        ),
    ensures
        !proved ==> result == Err::<GgmlAsrExecutionResult<Y>, _>(
            GgmlAsrExecutionError::VerifiedPackRouteMismatch {
                model_family: family.model_family,
                model_architecture: family.model_architecture,
            },
        ),
        proved && slot is None ==> (result matches Err(
            GgmlAsrExecutionError::ExecutorUnavailable { adapter_id, model_family, capability },
        ) && adapter_id == family.adapter_id && model_family == family.model_family && capability@
            == family.execution_capability.text()),
{
}

/// Nothing is found for a family that nothing is registered for, by its adapter or by its
/// capability; and what is registered for another capability is not found for it.
pub proof fn law_nothing_else_is_found<Z>(
    by_adapter: Map<Seq<char>, Z>,
    by_capability: Map<Seq<char>, Z>,
    family: GgmlFamilyAdapterDescriptor,
    other: GgmlExecutionCapability,
    value: Z,
)
    ensures
        registered_for(by_adapter, by_capability, family) is None <==> !by_adapter.contains_key(
            family.adapter_id@,
        ) && !by_capability.contains_key(family.execution_capability.text()),
        other != family.execution_capability ==> registered_for(
            by_adapter,
            by_capability.insert(other.text(), value),
            family,
        ) == registered_for(by_adapter, by_capability, family),
{
    request::law_capabilities_have_names_of_their_own(other, family.execution_capability);
}

/// A slot answers for the executor in it. One that reads audio in place is handed the very
/// samples of an owned request, and is told of one pack to drop it; one that owns its audio is
/// handed the request, and drops its idle state.
pub proof fn law_slots_speak_for_their_executor<X, V, T, F, Y>(
    owning: X,
    reading: V,
    request: &GgmlAsrExecutionRequest<T, F>,
    view: &GgmlAsrExecutionViewRequest<'_, T, F>,
    reply: Result<GgmlAsrExecutionResult<Y>, GgmlAsrExecutionError>,
    pack_content_id: &str,
) where X: GgmlAsrExecutor<T, F, Y>, V: GgmlAsrViewExecutor<T, F, Y>
    ensures
        GgmlAsrExecutorSlot::<X, V>::OwnedCompatibility(owning).may_answer(request, reply)
            ==> call_ensures(X::execute, (&owning, request), reply),
        GgmlAsrExecutorSlot::<X, V>::SharedView(reading).may_answer(request, reply) ==> exists|
            seen: GgmlAsrExecutionViewRequest<'_, T, F>,
        |
            #[trigger] call_ensures(V::execute_view, (&reading, &seen), reply)
                && seen.prepared_audio.samples.samples() == request.prepared_audio.samples@
                && seen.prepared_audio.sample_rate_hz == request.prepared_audio.sample_rate_hz
                && *seen.decoder_state == request.decoder_state && *seen.request_options
                == request.request_options && seen.selected_family == request.selected_family,
        GgmlAsrExecutorSlot::<X, V>::SharedView(reading).may_answer_view(view, reply)
            ==> call_ensures(V::execute_view, (&reading, view), reply),
        GgmlAsrExecutorSlot::<X, V>::OwnedCompatibility(owning).may_answer_view(view, reply)
            ==> exists|owned: GgmlAsrExecutionRequest<T, F>|
            #[trigger] call_ensures(X::execute, (&owning, &owned), reply)
                && owned.prepared_audio.samples@ == view.prepared_audio.samples.samples()
                && owned.selected_family == view.selected_family && owned.request_options@
                == view.request_options@,
        GgmlAsrExecutorSlot::<X, V>::SharedView(reading).told_to_evict::<T, F, Y>(pack_content_id)
            ==> call_ensures(
            V::evict_prepared_runtime_content_id,
            (&reading, pack_content_id),
            (),
        ),
        GgmlAsrExecutorSlot::<X, V>::OwnedCompatibility(owning).told_to_evict::<T, F, Y>(
            pack_content_id,
        ) ==> call_ensures(X::unload_idle_state, (&owning,), ()),
        GgmlAsrExecutorSlot::<X, V>::SharedView(reading).told_to_unload::<T, F, Y>()
            ==> call_ensures(V::unload_idle_state, (&reading,), ()),
        GgmlAsrExecutorSlot::<X, V>::OwnedCompatibility(owning).told_to_unload::<T, F, Y>()
            ==> call_ensures(X::unload_idle_state, (&owning,), ()),
{
    let owned_slot = GgmlAsrExecutorSlot::<X, V>::OwnedCompatibility(owning);
    let view_slot = GgmlAsrExecutorSlot::<X, V>::SharedView(reading);
    if view_slot.may_answer(request, reply) {
        let seen = request.viewed();
        assert(call_ensures(V::execute_view, (&reading, &seen), reply));
    }
    if owned_slot.may_answer_view(view, reply) {
        let owned = choose|owned: GgmlAsrExecutionRequest<T, F>|
            request::owns_view(owned, *view) && #[trigger] call_ensures(
                X::execute,
                (&owning, &owned),
                reply,
            );
        assert(call_ensures(X::execute, (&owning, &owned), reply));
    }
}

/// A streaming session is started only by an executor that binds adapters as the family
/// declares and takes an active one, and what that executor answers is the answer.
pub proof fn law_sessions_start_behind_the_gate<S, F, A, B, C, P, W>(
    executor: &S,
    request: &GgmlAsrStreamingSessionRequest<F, A, B, C, P>,
    active: Option<Seq<char>>,
    result: Result<W, GgmlAsrExecutionError>,
) where S: GgmlAsrStreamingExecutor<F, A, B, C, P, W>
    requires
        starts_session(executor, request, active, result),
    ensures
        result is Ok ==> call_ensures(S::start_streaming_session, (executor, request), result)
            && exists|binding: GgmlAdapterBindingStrategy| #[trigger]
            may_bind_streaming::<S, F, A, B, C, P, W>(executor, binding)
                && request.selected_family.adapter_binding == binding && (active is None || binding
                != GgmlAdapterBindingStrategy::Unsupported),
{
    let binding = choose|binding: GgmlAdapterBindingStrategy| #[trigger]
        may_bind_streaming::<S, F, A, B, C, P, W>(executor, binding) && if adapter_accepted(
            request.selected_family,
            binding,
            active,
        ) {
            call_ensures(S::start_streaming_session, (executor, request), result)
        } else {
            result matches Err(error) && adapter_refused(
                request.selected_family,
                binding,
                active,
                error,
            )
        };
    assert(may_bind_streaming::<S, F, A, B, C, P, W>(executor, binding));
    law_active_adapters_are_bound(request.selected_family, binding, active);
}

/// A family whose executor binds adapters otherwise than it declares is told what it declares
/// and what the executor provides, whether an adapter is active or not.
pub proof fn law_mismatched_bindings_are_told(
    family: GgmlFamilyAdapterDescriptor,
    binding: GgmlAdapterBindingStrategy,
    active: Option<Seq<char>>,
    error: GgmlAsrExecutionError,
)
    requires
        family.adapter_binding != binding,
    ensures
        !adapter_accepted(family, binding, active),
        adapter_refused(family, binding, active, error) <==> (error matches
            GgmlAsrExecutionError::AdapterBindingContractMismatch {
            model_family,
            declared,
            provided,
        } && model_family == family.model_family && declared@ == family.adapter_binding.text()
            && provided@ == binding.text()),
{
}

/// What a cancellation is reported with: the executor and the adapter that it stopped.
pub proof fn law_cancellations_name_what_they_stopped(
    executor_id: &'static str,
    adapter_id: &'static str,
    error: GgmlAsrExecutionError,
)
    requires
        canceled_failure(executor_id, adapter_id, error),
    ensures
        error is ExecutorFailed,
        error->ExecutorFailed_executor_id == executor_id,
        error->ExecutorFailed_adapter_id == adapter_id,
        error->ExecutorFailed_reason@ == "transcription canceled at shared execution boundary"@,
{
}

/// State that is not as promised is refused in the name of the executor that promised it, for
/// the adapter of the family.
pub proof fn law_broken_promises_are_told<
    X,
    V,
    T,
    F,
    Y,
    C: Fn(Option<&GgmlAsrExecutionResult<Y>>) -> bool,
>(
    slot: &GgmlAsrExecutorSlot<X, V>,
    family: &GgmlFamilyAdapterDescriptor,
    active: Option<Seq<char>>,
    state: &GgmlAsrDecoderState,
    canceled: &C,
    error: GgmlAsrExecutionError,
) where X: GgmlAsrExecutor<T, F, Y>, V: GgmlAsrViewExecutor<T, F, Y>
    requires
        is_not_ready::<X, V, T, F, Y, C>(slot, family, active, state, canceled, error),
        error is DecoderStateContractMismatch,
        !slot.may_bind::<T, F, Y>(family, Err(error)),
        !slot.may_promise::<T, F, Y>(family, Err(error)),
    ensures
        error->DecoderStateContractMismatch_adapter_id == family.adapter_id,
        slot.may_be_named::<T, F, Y>(error->DecoderStateContractMismatch_executor_id),
        exists|contract: GgmlAsrDecoderStateContract| #[trigger]
            slot.may_promise::<T, F, Y>(family, Ok(contract)) && !decoder_state::keeps_contract(
                contract,
                *state,
            ),
        call_ensures(*canceled, (None,), false),
{
}

/// Offline executors, streaming executors and granularities are each looked up in tables of
/// their own, by adapter first and then by capability.
pub proof fn law_each_kind_has_tables_of_its_own<X, V, S>(
    dispatch: GgmlAsrExecutionDispatch<X, V, S>,
    family: GgmlFamilyAdapterDescriptor,
)
    ensures
        ({
            let id = family.adapter_id@;
            let capability = family.execution_capability.text();
            &&& dispatch.executors_by_adapter_id@.contains_key(id) ==> dispatch.slot_for(family)
                == Some(dispatch.executors_by_adapter_id@[id])
            &&& !dispatch.executors_by_adapter_id@.contains_key(id)
                && dispatch.executors_by_capability@.contains_key(capability) ==> dispatch.slot_for(
                family,
            ) == Some(dispatch.executors_by_capability@[capability])
            &&& dispatch.streaming_executors_by_adapter_id@.contains_key(id)
                ==> dispatch.streaming_for(family) == Some(
                dispatch.streaming_executors_by_adapter_id@[id],
            )
            &&& !dispatch.streaming_executors_by_adapter_id@.contains_key(id)
                && dispatch.streaming_executors_by_capability@.contains_key(capability)
                ==> dispatch.streaming_for(family) == Some(
                dispatch.streaming_executors_by_capability@[capability],
            )
            &&& dispatch.streaming_partial_granularity_by_adapter_id@.contains_key(id)
                ==> dispatch.granularity_for(family) == Some(
                dispatch.streaming_partial_granularity_by_adapter_id@[id],
            )
            &&& !dispatch.streaming_partial_granularity_by_adapter_id@.contains_key(id)
                && dispatch.streaming_partial_granularity_by_capability@.contains_key(capability)
                ==> dispatch.granularity_for(family) == Some(
                dispatch.streaming_partial_granularity_by_capability@[capability],
            )
        }),
{
}

/// Whether two dispatches find the same for a family.
pub open spec fn find_alike<X, V, S>(
    a: GgmlAsrExecutionDispatch<X, V, S>,
    b: GgmlAsrExecutionDispatch<X, V, S>,
    family: GgmlFamilyAdapterDescriptor,
) -> bool {
    a.slot_for(family) == b.slot_for(family) && a.streaming_for(family) == b.streaming_for(family)
        && a.granularity_for(family) == b.granularity_for(family)
}

/// An offline executor that is registered for an adapter is found for the families of that
/// adapter, in the way that it takes its audio. Streaming is left alone, and so is every other
/// adapter.
pub proof fn law_executors_are_found_by_their_adapter<X, V, S>(
    before: GgmlAsrExecutionDispatch<X, V, S>,
    after: GgmlAsrExecutionDispatch<X, V, S>,
    adapter_id: &'static str,
    owning: X,
    reading: V,
    family: GgmlFamilyAdapterDescriptor,
)
    ensures
        call_ensures(
            GgmlAsrExecutionDispatch::<X, V, S>::with_executor_for_adapter,
            (before, adapter_id, owning),
            after,
        ) ==> {
            &&& family.adapter_id@ == adapter_id@ ==> after.slot_for(family) == Some(
                GgmlAsrExecutorSlot::<X, V>::OwnedCompatibility(owning),
            )
            &&& family.adapter_id@ != adapter_id@ ==> find_alike(after, before, family)
            &&& after.streaming_for(family) == before.streaming_for(family)
            &&& after.granularity_for(family) == before.granularity_for(family)
        },
        call_ensures(
            GgmlAsrExecutionDispatch::<X, V, S>::with_view_executor_for_adapter,
            (before, adapter_id, reading),
            after,
        ) ==> {
            &&& family.adapter_id@ == adapter_id@ ==> after.slot_for(family) == Some(
                GgmlAsrExecutorSlot::<X, V>::SharedView(reading),
            )
            &&& family.adapter_id@ != adapter_id@ ==> find_alike(after, before, family)
            &&& after.streaming_for(family) == before.streaming_for(family)
            &&& after.granularity_for(family) == before.granularity_for(family)
        },
{
}

/// An offline executor that is registered for a capability is found for the families of that
/// capability whose adapter has none of its own. Streaming is left alone, and so is every other
/// capability.
pub proof fn law_executors_are_found_by_their_capability<X, V, S>(
    before: GgmlAsrExecutionDispatch<X, V, S>,
    after: GgmlAsrExecutionDispatch<X, V, S>,
    capability: GgmlExecutionCapability,
    owning: X,
    reading: V,
    family: GgmlFamilyAdapterDescriptor,
)
    ensures
        ({
            let free = family.execution_capability == capability
                && !before.executors_by_adapter_id@.contains_key(family.adapter_id@);
            &&& call_ensures(
                GgmlAsrExecutionDispatch::<X, V, S>::with_executor_for_capability,
                (before, capability, owning),
                after,
            ) ==> {
                &&& free ==> after.slot_for(family) == Some(
                    GgmlAsrExecutorSlot::<X, V>::OwnedCompatibility(owning),
                )
                &&& !free ==> find_alike(after, before, family)
                &&& after.streaming_for(family) == before.streaming_for(family)
                &&& after.granularity_for(family) == before.granularity_for(family)
            }
            &&& call_ensures(
                GgmlAsrExecutionDispatch::<X, V, S>::with_view_executor_for_capability,
                (before, capability, reading),
                after,
            ) ==> {
                &&& free ==> after.slot_for(family) == Some(
                    GgmlAsrExecutorSlot::<X, V>::SharedView(reading),
                )
                &&& !free ==> find_alike(after, before, family)
                &&& after.streaming_for(family) == before.streaming_for(family)
                &&& after.granularity_for(family) == before.granularity_for(family)
            }
            &&& call_ensures(
                GgmlAsrExecutionDispatch::<X, V, S>::with_native_graph_lowering_v1,
                (before, owning),
                after,
            ) && capability == GgmlExecutionCapability::NativeGraphLoweringV1 ==> {
                &&& free ==> after.slot_for(family) == Some(
                    GgmlAsrExecutorSlot::<X, V>::OwnedCompatibility(owning),
                )
                &&& !free ==> find_alike(after, before, family)
            }
        }),
{
    request::law_capabilities_have_names_of_their_own(capability, family.execution_capability);
}

/// Streaming executors and granularities are registered in the same two ways, each without
/// touching the other or what is registered offline.
pub proof fn law_streaming_is_registered_apart<X, V, S>(
    before: GgmlAsrExecutionDispatch<X, V, S>,
    after: GgmlAsrExecutionDispatch<X, V, S>,
    adapter_id: &'static str,
    capability: GgmlExecutionCapability,
    streaming: S,
    granularity: StreamingPartialGranularity,
    family: GgmlFamilyAdapterDescriptor,
)
    ensures
        call_ensures(
            GgmlAsrExecutionDispatch::<X, V, S>::with_streaming_executor_for_adapter,
            (before, adapter_id, streaming),
            after,
        ) ==> {
            &&& family.adapter_id@ == adapter_id@ ==> after.streaming_for(family) == Some(streaming)
            &&& family.adapter_id@ != adapter_id@ ==> find_alike(after, before, family)
            &&& after.slot_for(family) == before.slot_for(family)
            &&& after.granularity_for(family) == before.granularity_for(family)
        },
        call_ensures(
            GgmlAsrExecutionDispatch::<X, V, S>::with_streaming_executor_for_capability,
            (before, capability, streaming),
            after,
        ) ==> {
            let free = family.execution_capability == capability
                && !before.streaming_executors_by_adapter_id@.contains_key(family.adapter_id@);
            &&& free ==> after.streaming_for(family) == Some(streaming)
            &&& !free ==> find_alike(after, before, family)
            &&& after.slot_for(family) == before.slot_for(family)
            &&& after.granularity_for(family) == before.granularity_for(family)
        },
        call_ensures(
            GgmlAsrExecutionDispatch::<X, V, S>::with_streaming_partial_granularity_for_adapter,
            (before, adapter_id, granularity),
            after,
        ) ==> {
            &&& family.adapter_id@ == adapter_id@ ==> after.granularity_for(family) == Some(
                granularity,
            )
            &&& family.adapter_id@ != adapter_id@ ==> find_alike(after, before, family)
            &&& after.slot_for(family) == before.slot_for(family)
            &&& after.streaming_for(family) == before.streaming_for(family)
        },
        call_ensures(
            GgmlAsrExecutionDispatch::<X, V, S>::with_streaming_partial_granularity_for_capability,
            (before, capability, granularity),
            after,
        ) ==> {
            let free = family.execution_capability == capability
                && !before.streaming_partial_granularity_by_adapter_id@.contains_key(
                family.adapter_id@,
            );
            &&& free ==> after.granularity_for(family) == Some(granularity)
            &&& !free ==> find_alike(after, before, family)
            &&& after.slot_for(family) == before.slot_for(family)
            &&& after.streaming_for(family) == before.streaming_for(family)
        },
{
    request::law_capabilities_have_names_of_their_own(capability, family.execution_capability);
}

/// A family streams frame by frame exactly where that is declared for it.
pub proof fn law_frame_sync_must_be_declared<X, V, S>(
    dispatch: GgmlAsrExecutionDispatch<X, V, S>,
    family: GgmlFamilyAdapterDescriptor,
    yes: bool,
)
    requires
        call_ensures(
            GgmlAsrExecutionDispatch::<X, V, S>::is_frame_sync_for,
            (&dispatch, &family),
            yes,
        ),
    ensures
        yes <==> dispatch.granularity_for(family) == Some(
            StreamingPartialGranularity::FrameSyncAppend,
        ),
{
}

/// Whatever a slot is asked, the executor in it is asked: for its name, for how it binds
/// adapters, for the state that it promises, for a plan of it, and to plan it anew. One that
/// owns its audio binds adapters alike for every family.
pub proof fn law_slots_ask_their_executor<X, V, T, F, Y>(
    owning: X,
    reading: V,
    family: &GgmlFamilyAdapterDescriptor,
    input: &GgmlAsrDecoderStatePlanningInput<'_, F>,
    executor_id: &'static str,
    binding: Result<GgmlAdapterBindingStrategy, GgmlAsrExecutionError>,
    promise: Result<GgmlAsrDecoderStateContract, GgmlAsrExecutionError>,
    plan: Result<DecoderStatePlan, GgmlAsrDecoderStatePlanningError>,
    replan: Result<GgmlAsrDecoderState, GgmlAsrExecutionError>,
) where X: GgmlAsrExecutor<T, F, Y>, V: GgmlAsrViewExecutor<T, F, Y>
    ensures
        ({
            let slot = GgmlAsrExecutorSlot::<X, V>::OwnedCompatibility(owning);
            &&& slot.may_be_named::<T, F, Y>(executor_id) <==> call_ensures(
                X::executor_id,
                (&owning,),
                executor_id,
            )
            &&& slot.may_bind::<T, F, Y>(family, binding) <==> (binding matches Ok(strategy)
                && call_ensures(X::adapter_binding_strategy, (&owning,), strategy))
            &&& slot.may_promise::<T, F, Y>(family, promise) <==> call_ensures(
                X::decoder_state_contract,
                (&owning, family),
                promise,
            )
            &&& slot.may_plan::<T, F, Y>(input, plan) <==> call_ensures(
                X::plan_decoder_state_topology,
                (&owning, input),
                plan,
            )
            &&& slot.may_replan::<T, F, Y>(family, input, replan) <==> call_ensures(
                X::replan_streaming_decoder_state,
                (&owning, family, input),
                replan,
            )
            &&& slot.told_to_unload::<T, F, Y>() <==> call_ensures(
                X::unload_idle_state,
                (&owning,),
                (),
            )
        }),
        ({
            let slot = GgmlAsrExecutorSlot::<X, V>::SharedView(reading);
            &&& slot.may_be_named::<T, F, Y>(executor_id) <==> call_ensures(
                V::executor_id,
                (&reading,),
                executor_id,
            )
            &&& slot.may_bind::<T, F, Y>(family, binding) <==> call_ensures(
                V::adapter_binding_strategy_for,
                (&reading, family),
                binding,
            )
            &&& slot.may_promise::<T, F, Y>(family, promise) <==> call_ensures(
                V::decoder_state_contract,
                (&reading, family),
                promise,
            )
            &&& slot.may_plan::<T, F, Y>(input, plan) <==> call_ensures(
                V::plan_decoder_state_topology,
                (&reading, input),
                plan,
            )
            &&& slot.may_replan::<T, F, Y>(family, input, replan) <==> call_ensures(
                V::replan_streaming_decoder_state,
                (&reading, family, input),
                replan,
            )
            &&& slot.told_to_unload::<T, F, Y>() <==> call_ensures(
                V::unload_idle_state,
                (&reading,),
                (),
            )
        }),
{
}

/// State that is planned is what the executor of the slot planned for the input, in the
/// envelope of the input; there is none exactly where the executor promises none.
pub proof fn law_state_is_planned_by_its_executor<X, V, T, F, Y>(
    slot: &GgmlAsrExecutorSlot<X, V>,
    family: &GgmlFamilyAdapterDescriptor,
    input: &GgmlAsrDecoderStatePlanningInput<'_, F>,
    state: GgmlAsrDecoderState,
) where X: GgmlAsrExecutor<T, F, Y>, V: GgmlAsrViewExecutor<T, F, Y>
    requires
        plans_by_slot::<X, V, T, F, Y>(slot, family, input, Ok(state)),
    ensures
        state matches GgmlAsrDecoderState::Planned(planned) ==> slot.may_plan::<T, F, Y>(
            input,
            Ok(planned.plan),
        ) && planned.envelope == input.envelope,
        state is NoPersistentState ==> slot.may_promise::<T, F, Y>(
            family,
            Ok(GgmlAsrDecoderStateContract::NoPersistentState),
        ),
{
    let may_reply = |reply: Result<DecoderStatePlan, GgmlAsrDecoderStatePlanningError>|
        slot.may_plan::<T, F, Y>(input, reply);
    let contract = choose|contract: GgmlAsrDecoderStateContract| #[trigger]
        slot.may_promise::<T, F, Y>(family, Ok(contract)) && executor::plans_state(
            contract,
            input.envelope,
            may_reply,
            Ok(state),
        );
    if contract is Planned {
        let plan = choose|plan: DecoderStatePlan| #[trigger]
            may_reply(Ok(plan)) && state == GgmlAsrDecoderState::Planned(
                decoder_state::GgmlAsrPlannedDecoderState { plan, envelope: input.envelope },
            );
        assert(may_reply(Ok(plan)));
    }
}

} // verus!
