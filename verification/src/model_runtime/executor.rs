//! Executors: how a model-runtime descriptor becomes active.
use super::engine::{
    bind_host, bind_host_from_health_endpoint, endpoint_refusal, fake_smoke_refusal,
    fake_start_refusal, loopback_host, EngineHandle, EngineStartRequest, FakeInferenceEngine,
    HandleModel, InferenceEngineProcess, StartModel,
};
use super::weights::WeightCache;
use super::{descriptor_refusal, DescriptorModel, ModelRuntimeDescriptor};
use crate::crypto::prefixed_digest;
use crate::error::{first_refusal, refusal, refuse_unless, Error};
use crate::manifest::ModelHealthSection;
use crate::text::{opt_str, opt_text, same, trimmed, trimmed_end, trimmed_start, white_space};
use vstd::prelude::*;

verus! {

/// A pluggable adapter of an inference engine.
pub trait ModelRuntimeExecutor: Send + Sync {
    /// Activate a descriptor, and return its content identity.
    fn apply(&self, descriptor: &ModelRuntimeDescriptor) -> Result<String, Error>;

    /// Remove the active model runtime.
    fn remove(&self) -> Result<(), Error>;

    /// The content identity of the active descriptor.
    fn observe(&self) -> Result<Option<String>, Error>;
}

/// What an optional descriptor says.
pub open spec fn opt_descriptor(stored: Option<ModelRuntimeDescriptor>) -> Option<DescriptorModel> {
    match stored {
        Some(descriptor) => Some(descriptor@),
        None => None,
    }
}

/// The content identity of a stored descriptor, from its encoded form. A
/// descriptor that is not valid is refused.
pub fn observed_identity(stored: Option<&ModelRuntimeDescriptor>, encoded: &[u8]) -> (result: Result<
    Option<String>,
    Error,
>)
    ensures
        refusal(result) == (match stored {
            Some(descriptor) => descriptor_refusal(descriptor@),
            None => None,
        }),
        result matches Ok(identity) ==> opt_text(identity) == (match stored {
            Some(_) => Some(prefixed_digest(encoded@)),
            None => None,
        }),
{
    match stored {
        None => Ok(None),
        Some(descriptor) => match descriptor.validate() {
            Err(error) => Err(error),
            Ok(_) => Ok(Some(ModelRuntimeDescriptor::digest(encoded))),
        },
    }
}

/// Check a descriptor that was read back after it was written.
pub fn check_written(observed: &ModelRuntimeDescriptor, encoded: &[u8], expected: &str) -> (result:
    Result<(), Error>)
    ensures
        refusal(result) == first_refusal(
            descriptor_refusal(observed@),
            refuse_unless(
                prefixed_digest(encoded@) == expected@,
                "model_runtime post-mutation verification failed"@,
            ),
        ),
{
    match observed.validate() {
        Err(error) => return Err(error),
        Ok(_) => {},
    }
    if !same(ModelRuntimeDescriptor::digest(encoded).as_str(), expected) {
        return Err(Error::fixed("model_runtime post-mutation verification failed"));
    }
    Ok(())
}

/// An executor that stages descriptors and starts no engine.
#[derive(Debug, PartialEq, Eq)]
pub struct LocalModelRuntimeExecutor {
    state_path: String,
    weight_cache: Option<WeightCache>,
}

impl LocalModelRuntimeExecutor {
    /// Where the active descriptor is kept.
    pub closed spec fn state(self) -> Seq<char> {
        self.state_path@
    }

    /// Its cache of weights.
    pub closed spec fn weights(self) -> Option<WeightCache> {
        self.weight_cache
    }

    /// An executor without a cache of weights.
    pub fn new(state_path: &str) -> (executor: LocalModelRuntimeExecutor)
        ensures
            executor.state() == state_path@,
            executor.weights() is None,
    {
        LocalModelRuntimeExecutor { state_path: state_path.to_owned(), weight_cache: None }
    }

    /// The executor with a cache of weights.
    pub fn with_weight_cache(self, cache: WeightCache) -> (executor: LocalModelRuntimeExecutor)
        ensures
            executor.state() == self.state(),
            executor.weights() == Some(cache),
    {
        LocalModelRuntimeExecutor { state_path: self.state_path, weight_cache: Some(cache) }
    }

    /// Where the active descriptor is kept.
    pub fn state_path(&self) -> (path: &str)
        ensures
            path@ == self.state(),
    {
        self.state_path.as_str()
    }

    /// Its cache of weights.
    pub fn weight_cache(&self) -> (cache: Option<&WeightCache>)
        ensures
            cache is Some == self.weights() is Some,
            cache matches Some(held) ==> *held == self.weights()->0,
    {
        self.weight_cache.as_ref()
    }

    /// Check that what is observed after a change is what was requested.
    pub fn check_observed(observed: Option<&str>, expected: &str) -> (result: Result<(), Error>)
        ensures
            refusal(result) == refuse_unless(
                opt_str(observed) == Some(expected@),
                "model_runtime post-mutation observation differs from requested descriptor"@,
            ),
    {
        if !observes(observed, expected) {
            return Err(
                Error::fixed(
                    "model_runtime post-mutation observation differs from requested descriptor",
                ),
            );
        }
        Ok(())
    }
}

fn observes(observed: Option<&str>, expected: &str) -> (answer: bool)
    ensures
        answer == (opt_str(observed) == Some(expected@)),
{
    match observed {
        None => false,
        Some(identity) => same(identity, expected),
    }
}

/// What an activation changes: the descriptor that is retained for a
/// rollback, the engine that becomes active, and the one to stop.
#[derive(Debug, PartialEq, Eq)]
pub struct Activation {
    pub previous: Option<ModelRuntimeDescriptor>,
    pub candidate: EngineHandle,
    pub retired: Option<EngineHandle>,
}

/// Why a descriptor is not handed to the reference engine.
pub open spec fn engine_refusal(d: DescriptorModel) -> Option<Seq<char>> {
    first_refusal(
        descriptor_refusal(d),
        refuse_unless(
            d.engine == "llama.cpp"@,
            "ReferenceLlamaCppExecutor requires runtime.engine=llama.cpp, got "@ + d.engine,
        ),
    )
}

/// Check a descriptor for the reference engine.
pub fn check_engine(descriptor: &ModelRuntimeDescriptor) -> (result: Result<(), Error>)
    ensures
        refusal(result) == engine_refusal(descriptor@),
{
    match descriptor.validate() {
        Err(error) => return Err(error),
        Ok(_) => {},
    }
    if !same(&descriptor.runtime.engine, "llama.cpp") {
        let mut message =
            "ReferenceLlamaCppExecutor requires runtime.engine=llama.cpp, got ".to_owned();
        message.append(descriptor.runtime.engine.as_str());
        return Err(Error::new(message));
    }
    Ok(())
}

/// The request to start a candidate for a descriptor.
pub open spec fn start_of(
    d: DescriptorModel,
    generation_id: Seq<char>,
    weights_path: Option<Seq<char>>,
) -> StartModel {
    StartModel {
        product_name: d.product_name,
        product_version: d.product_version,
        weights_path,
        port: d.port,
        bind_host: bind_host(d.endpoint),
        engine: d.engine,
        health_endpoint: d.endpoint,
        generation_id,
    }
}

/// The request to start a candidate for a descriptor.
pub fn start_request(
    descriptor: &ModelRuntimeDescriptor,
    generation_id: &str,
    weights_path: Option<String>,
) -> (result: Result<EngineStartRequest, Error>)
    ensures
        refusal(result) == endpoint_refusal(descriptor@.endpoint),
        result matches Ok(request) ==> request@ == start_of(
            descriptor@,
            generation_id@,
            opt_text(weights_path),
        ),
{
    match bind_host_from_health_endpoint(&descriptor.health.endpoint) {
        Err(error) => Err(error),
        Ok(host) => Ok(
            EngineStartRequest {
                product_name: descriptor.product_name.clone(),
                product_version: descriptor.product_version.clone(),
                weights_path,
                port: descriptor.runtime.port,
                bind_host: host,
                engine: descriptor.runtime.engine.clone(),
                health_endpoint: descriptor.health.endpoint.clone(),
                generation_id: generation_id.to_owned(),
            },
        ),
    }
}

/// The engine to stop once a candidate is active: the one before, unless it is
/// of the same generation.
pub open spec fn retired_engine(
    before: Option<HandleModel>,
    candidate: HandleModel,
) -> Option<HandleModel> {
    if before is Some && before->0.generation_id != candidate.generation_id {
        before
    } else {
        None
    }
}

/// What an optional handle says.
pub open spec fn opt_handle(handle: Option<EngineHandle>) -> Option<HandleModel> {
    match handle {
        Some(held) => Some(held@),
        None => None,
    }
}

/// Settle an activation by what the probe of the candidate brought. A failed
/// probe leaves the active generation as it is.
pub fn settle_smoke(
    smoke: Result<(), Error>,
    candidate: EngineHandle,
    active: &Option<ModelRuntimeDescriptor>,
    handle: &Option<EngineHandle>,
) -> (result: Result<Activation, Error>)
    ensures
        refusal(result) == refuse_unless(
            smoke is Ok,
            "model_runtime smoke failed; candidate stopped and previous generation retained for rollback"@,
        ),
        result matches Ok(activation) ==> {
            &&& opt_descriptor(activation.previous) == opt_descriptor(*active)
            &&& activation.candidate@ == candidate@
            &&& opt_handle(activation.retired) == retired_engine(
                opt_handle(*handle),
                candidate@,
            )
        },
{
    if smoke.is_err() {
        return Err(
            Error::fixed(
                "model_runtime smoke failed; candidate stopped and previous generation retained for rollback",
            ),
        );
    }
    let previous = match active {
        Some(descriptor) => Some(descriptor.copy()),
        None => None,
    };
    let retired = match handle {
        None => None,
        Some(before) => {
            if same(&before.generation_id, &candidate.generation_id) {
                None
            } else {
                Some(before.copy())
            }
        },
    };
    Ok(Activation { previous, candidate, retired })
}

/// The reference executor: a candidate is started and probed before it becomes
/// active, and the generation before it is retained for a rollback.
#[derive(Debug, PartialEq, Eq)]
pub struct ReferenceLlamaCppExecutor<E> {
    state_path: String,
    weight_cache: Option<WeightCache>,
    engine: E,
}

/// Why an activation does not reach the engine.
pub open spec fn activation_refusal(
    d: DescriptorModel,
    active: Option<DescriptorModel>,
) -> Option<Seq<char>> {
    first_refusal(
        engine_refusal(d),
        first_refusal(
            match active {
                Some(stored) => descriptor_refusal(stored),
                None => None,
            },
            endpoint_refusal(d.endpoint),
        ),
    )
}

impl ReferenceLlamaCppExecutor<FakeInferenceEngine> {
    /// An executor with the fake engine.
    pub fn with_fake(state_path: &str) -> (executor: ReferenceLlamaCppExecutor<FakeInferenceEngine>)
        ensures
            executor.state() == state_path@,
            executor.weights() is None,
            executor.engine_held() == (FakeInferenceEngine {
                fail_smoke: false,
                fail_start: false,
            }),
    {
        ReferenceLlamaCppExecutor::new(state_path, FakeInferenceEngine::default())
    }
}

impl<E> ReferenceLlamaCppExecutor<E> {
    /// Where the active descriptor is kept.
    pub closed spec fn state(self) -> Seq<char> {
        self.state_path@
    }

    /// Its cache of weights.
    pub closed spec fn weights(self) -> Option<WeightCache> {
        self.weight_cache
    }

    /// Its engine.
    pub closed spec fn engine_held(self) -> E {
        self.engine
    }

    /// An executor of an engine, without a cache of weights.
    pub fn new(state_path: &str, engine: E) -> (executor: ReferenceLlamaCppExecutor<E>)
        ensures
            executor.state() == state_path@,
            executor.weights() is None,
            executor.engine_held() == engine,
    {
        ReferenceLlamaCppExecutor { state_path: state_path.to_owned(), weight_cache: None, engine }
    }

    /// The executor with a cache of weights.
    pub fn with_weight_cache(self, cache: WeightCache) -> (executor: ReferenceLlamaCppExecutor<E>)
        ensures
            executor.state() == self.state(),
            executor.weights() == Some(cache),
            executor.engine_held() == self.engine_held(),
    {
        ReferenceLlamaCppExecutor {
            state_path: self.state_path,
            weight_cache: Some(cache),
            engine: self.engine,
        }
    }

    /// Where the active descriptor is kept.
    pub fn state_path(&self) -> (path: &str)
        ensures
            path@ == self.state(),
    {
        self.state_path.as_str()
    }

    /// Its cache of weights.
    pub fn weight_cache(&self) -> (cache: Option<&WeightCache>)
        ensures
            cache is Some == self.weights() is Some,
            cache matches Some(held) ==> *held == self.weights()->0,
    {
        self.weight_cache.as_ref()
    }

    /// Its engine.
    pub fn engine(&self) -> (engine: &E)
        ensures
            *engine == self.engine_held(),
    {
        &self.engine
    }

    /// Check that what is observed after an activation is what was requested.
    pub fn check_observed(observed: Option<&str>, expected: &str) -> (result: Result<(), Error>)
        ensures
            refusal(result) == refuse_unless(
                opt_str(observed) == Some(expected@),
                "model_runtime post-activation observation differs from requested descriptor"@,
            ),
    {
        if !observes(observed, expected) {
            return Err(
                Error::fixed(
                    "model_runtime post-activation observation differs from requested descriptor",
                ),
            );
        }
        Ok(())
    }
}

/// What an engine is asked of a candidate, and what it answers.
pub struct CandidateAnswers {
    pub request: EngineStartRequest,
    pub started: Result<EngineHandle, Error>,
    pub smoked: Result<(), Error>,
    pub stopped: Result<(), Error>,
}

/// An engine can give these answers. It is asked to start a candidate, then to
/// probe the one it started, and to stop it where the probe failed.
pub open spec fn answers<E: InferenceEngineProcess>(
    engine: E,
    health: ModelHealthSection,
    given: CandidateAnswers,
) -> bool {
    &&& call_ensures(E::start_candidate, (&engine, &given.request), given.started)
    &&& given.started matches Ok(candidate) ==> {
        &&& call_ensures(E::smoke, (&engine, &candidate, &health), given.smoked)
        &&& given.smoked is Err ==> call_ensures(E::stop, (&engine, &candidate), given.stopped)
    }
}

/// Why a candidate does not become active, by what the engine answered.
pub open spec fn candidate_refusal(given: CandidateAnswers) -> Option<Seq<char>> {
    first_refusal(
        refuse_unless(
            given.started is Ok,
            "model_runtime candidate start failed; active generation retained"@,
        ),
        refuse_unless(
            given.smoked is Ok,
            "model_runtime smoke failed; candidate stopped and previous generation retained for rollback"@,
        ),
    )
}

impl<E: InferenceEngineProcess> ReferenceLlamaCppExecutor<E> {
    /// Start and probe a candidate for a descriptor. What the engine answers
    /// decides; until it has answered twice, nothing that is active changes.
    pub fn activate(
        &self,
        descriptor: &ModelRuntimeDescriptor,
        active: &Option<ModelRuntimeDescriptor>,
        handle: &Option<EngineHandle>,
        generation_id: &str,
        weights_path: Option<String>,
    ) -> (result: Result<Activation, Error>)
        ensures
            ({
                let refused = activation_refusal(descriptor@, opt_descriptor(*active));
                &&& refused is Some ==> refusal(result) == refused
                &&& refused is None ==> exists|given: CandidateAnswers| #[trigger]
                    answers(self.engine_held(), descriptor.health, given) && given.request@
                        == start_of(descriptor@, generation_id@, opt_text(weights_path))
                        && refusal(result) == candidate_refusal(given) && (
                    result matches Ok(activation) ==> {
                        &&& activation.candidate@ == given.started->Ok_0@
                        &&& opt_descriptor(activation.previous) == opt_descriptor(*active)
                        &&& opt_handle(activation.retired) == retired_engine(
                            opt_handle(*handle),
                            activation.candidate@,
                        )
                    })
            }),
    {
        match check_engine(descriptor) {
            Err(error) => return Err(error),
            Ok(_) => {},
        }
        match active {
            None => {},
            Some(stored) => match stored.validate() {
                Err(error) => return Err(error),
                Ok(_) => {},
            },
        }
        let request = match start_request(descriptor, generation_id, weights_path) {
            Err(error) => return Err(error),
            Ok(start) => start,
        };
        let started = self.engine.start_candidate(&request);
        let ghost mut given = CandidateAnswers {
            request,
            started,
            smoked: Ok(()),
            stopped: Ok(()),
        };
        let candidate = match started {
            Err(_) => {
                assert(answers(self.engine_held(), descriptor.health, given));
                return Err(
                    Error::fixed("model_runtime candidate start failed; active generation retained"),
                );
            },
            Ok(answer) => answer,
        };
        let smoke = self.engine.smoke(&candidate, &descriptor.health);
        proof {
            given = CandidateAnswers { smoked: smoke, ..given };
        }
        if smoke.is_err() {
            let stopped = self.engine.stop(&candidate);
            proof {
                given = CandidateAnswers { stopped, ..given };
            }
        }
        assert(answers(self.engine_held(), descriptor.health, given));
        settle_smoke(smoke, candidate, active, handle)
    }
}

proof fn lemma_trimmed_host(endpoint: Seq<char>)
    ensures
        loopback_host(trimmed(bind_host(endpoint))),
{
    reveal_strlit("::1");
    reveal_strlit("127.0.0.1");
    let host = bind_host(endpoint);
    assert(!white_space(host[0]));
    assert(!white_space(host.last()));
    assert(trimmed_start(host) == host);
    assert(trimmed_end(host) == host);
}

/// What the checks before the engine let through, an engine that does not fail
/// starts and finds up, on loopback.
pub proof fn checked_descriptor_comes_up(
    d: DescriptorModel,
    active: Option<DescriptorModel>,
    generation_id: Seq<char>,
    weights_path: Option<Seq<char>>,
)
    requires
        activation_refusal(d, active) is None,
    ensures
        ({
            let engine = FakeInferenceEngine { fail_smoke: false, fail_start: false };
            &&& fake_start_refusal(engine, start_of(d, generation_id, weights_path)) is None
            &&& fake_smoke_refusal(engine, generation_id, d.endpoint) is None
            &&& loopback_host(start_of(d, generation_id, weights_path).bind_host)
        }),
{
    lemma_trimmed_host(d.endpoint);
}

/// A stored descriptor is observed by the digest of its encoded form, where it
/// is valid; nothing stored is nothing observed.
pub proof fn stored_descriptor_is_observed(
    stored: Option<&ModelRuntimeDescriptor>,
    encoded: &[u8],
    checked: Result<(), Error>,
    digest: String,
    result: Result<Option<String>, Error>,
)
    requires
        call_ensures(observed_identity, (stored, encoded), result),
        stored is Some ==> call_ensures(ModelRuntimeDescriptor::validate, (stored->0,), checked),
        call_ensures(ModelRuntimeDescriptor::digest, (encoded,), digest),
    ensures
        stored is None ==> result is Ok && result->Ok_0 is None,
        stored is Some ==> {
            &&& result is Ok <==> checked is Ok
            &&& result is Ok ==> result->Ok_0 is Some && result->Ok_0->0@ == digest@
        },
{
}

/// What was read back after a write passes exactly where it is valid and has
/// the expected identity.
pub proof fn written_descriptor_has_its_identity(
    observed: &ModelRuntimeDescriptor,
    encoded: &[u8],
    expected: &str,
    checked: Result<(), Error>,
    digest: String,
    result: Result<(), Error>,
)
    requires
        call_ensures(check_written, (observed, encoded, expected), result),
        call_ensures(ModelRuntimeDescriptor::validate, (observed,), checked),
        call_ensures(ModelRuntimeDescriptor::digest, (encoded,), digest),
    ensures
        result is Ok <==> checked is Ok && digest@ == expected@,
{
}

/// Only what was requested passes as observed.
pub proof fn requested_identity_is_observed(
    observed: Option<&str>,
    expected: &str,
    local: Result<(), Error>,
    reference: Result<(), Error>,
)
    requires
        call_ensures(LocalModelRuntimeExecutor::check_observed, (observed, expected), local),
        call_ensures(
            ReferenceLlamaCppExecutor::<FakeInferenceEngine>::check_observed,
            (observed, expected),
            reference,
        ),
    ensures
        local is Ok <==> observed is Some && observed->0@ == expected@,
        reference is Ok <==> observed is Some && observed->0@ == expected@,
{
}

/// The reference engine takes valid descriptors of its own engine.
pub proof fn reference_engine_takes_its_own(
    descriptor: &ModelRuntimeDescriptor,
    checked: Result<(), Error>,
    result: Result<(), Error>,
)
    requires
        call_ensures(check_engine, (descriptor,), result),
        call_ensures(ModelRuntimeDescriptor::validate, (descriptor,), checked),
    ensures
        result is Ok <==> checked is Ok && descriptor.runtime.engine@ == "llama.cpp"@,
{
}

/// A candidate is asked for under its generation, with its weights, on the
/// port of its descriptor and on the host of its health endpoint.
pub proof fn candidate_is_asked_for_as_described(
    descriptor: &ModelRuntimeDescriptor,
    endpoint: &str,
    generation: &str,
    weights: Option<String>,
    host: Result<String, Error>,
    result: Result<EngineStartRequest, Error>,
)
    requires
        call_ensures(start_request, (descriptor, generation, weights), result),
        endpoint@ == descriptor.health.endpoint@,
        call_ensures(bind_host_from_health_endpoint, (endpoint,), host),
    ensures
        result is Ok <==> host is Ok,
        result matches Ok(request) ==> {
            &&& request.product_name@ == descriptor.product_name@
            &&& request.product_version@ == descriptor.product_version@
            &&& request.port == descriptor.runtime.port
            &&& request.engine@ == descriptor.runtime.engine@
            &&& request.health_endpoint@ == descriptor.health.endpoint@
            &&& request.bind_host@ == host->Ok_0@
            &&& request.generation_id@ == generation@
            &&& opt_text(request.weights_path) == opt_text(weights)
        },
{
}

/// A failed probe activates nothing. Where the probe succeeded, the candidate
/// becomes active, what was active is retained, and its engine is stopped
/// unless it is of the same generation.
pub proof fn probe_decides_the_activation(
    smoke: Result<(), Error>,
    candidate: EngineHandle,
    active: &Option<ModelRuntimeDescriptor>,
    handle: &Option<EngineHandle>,
    result: Result<Activation, Error>,
)
    requires
        call_ensures(settle_smoke, (smoke, candidate, active, handle), result),
    ensures
        result is Ok <==> smoke is Ok,
        result matches Ok(activation) ==> {
            &&& activation.candidate@ == candidate@
            &&& activation.previous is Some <==> active is Some
            &&& active is Some ==> activation.previous->0@ == active->0@
            &&& activation.retired is Some <==> handle is Some && handle->0.generation_id@
                != candidate.generation_id@
            &&& activation.retired is Some ==> activation.retired->0@ == handle->0@
        },
{
}

/// With an engine that does not fail, an activation succeeds exactly where the
/// descriptor fits the engine, what is active is valid and the endpoint is on
/// loopback; the candidate is of the given generation and runs on the port and
/// host of the descriptor.
pub proof fn sound_engine_activates(
    executor: &ReferenceLlamaCppExecutor<FakeInferenceEngine>,
    descriptor: &ModelRuntimeDescriptor,
    active: &Option<ModelRuntimeDescriptor>,
    handle: &Option<EngineHandle>,
    generation: &str,
    weights: Option<String>,
    fits: Result<(), Error>,
    kept: Result<(), Error>,
    asked: Result<EngineStartRequest, Error>,
    result: Result<Activation, Error>,
)
    requires
        call_ensures(
            ReferenceLlamaCppExecutor::<FakeInferenceEngine>::activate,
            (executor, descriptor, active, handle, generation, weights),
            result,
        ),
        !executor.engine_held().fail_start,
        !executor.engine_held().fail_smoke,
        call_ensures(check_engine, (descriptor,), fits),
        active is Some ==> call_ensures(ModelRuntimeDescriptor::validate, (&active->0,), kept),
        call_ensures(start_request, (descriptor, generation, weights), asked),
    ensures
        result is Ok <==> fits is Ok && (active is Some ==> kept is Ok) && asked is Ok,
        result matches Ok(activation) ==> {
            &&& activation.candidate.generation_id@ == generation@
            &&& activation.candidate.port == descriptor.runtime.port
            &&& activation.candidate.bind_host@ == asked->Ok_0.bind_host@
            &&& activation.previous is Some <==> active is Some
            &&& active is Some ==> activation.previous->0@ == active->0@
            &&& activation.retired is Some <==> handle is Some && handle->0.generation_id@
                != generation@
        },
{
    let d = descriptor@;
    let refused = activation_refusal(d, opt_descriptor(*active));
    if refused is None {
        let given = choose|given: CandidateAnswers| #[trigger]
            answers(executor.engine_held(), descriptor.health, given) && given.request@
                == start_of(d, generation@, opt_text(weights)) && refusal(result)
                == candidate_refusal(given) && (result matches Ok(activation) ==> {
                &&& activation.candidate@ == given.started->Ok_0@
                &&& opt_descriptor(activation.previous) == opt_descriptor(*active)
                &&& opt_handle(activation.retired) == retired_engine(
                    opt_handle(*handle),
                    activation.candidate@,
                )
            });
        assert(answers(executor.engine_held(), descriptor.health, given));
        checked_descriptor_comes_up(d, opt_descriptor(*active), generation@, opt_text(weights));
        let engine = FakeInferenceEngine { fail_smoke: false, fail_start: false };
        assert(executor.engine_held() == engine);
        assert(given.started is Ok);
        assert(given.smoked is Ok);
    }
}

/// An engine that does not start, or that is not found up, activates nothing.
pub proof fn failing_engine_activates_nothing(
    executor: &ReferenceLlamaCppExecutor<FakeInferenceEngine>,
    descriptor: &ModelRuntimeDescriptor,
    active: &Option<ModelRuntimeDescriptor>,
    handle: &Option<EngineHandle>,
    generation: &str,
    weights: Option<String>,
    result: Result<Activation, Error>,
)
    requires
        call_ensures(
            ReferenceLlamaCppExecutor::<FakeInferenceEngine>::activate,
            (executor, descriptor, active, handle, generation, weights),
            result,
        ),
        executor.engine_held().fail_start || executor.engine_held().fail_smoke,
    ensures
        result is Err,
{
    let d = descriptor@;
    let refused = activation_refusal(d, opt_descriptor(*active));
    if refused is None {
        let given = choose|given: CandidateAnswers| #[trigger]
            answers(executor.engine_held(), descriptor.health, given) && given.request@
                == start_of(d, generation@, opt_text(weights)) && refusal(result)
                == candidate_refusal(given) && (result matches Ok(activation) ==> {
                &&& activation.candidate@ == given.started->Ok_0@
                &&& opt_descriptor(activation.previous) == opt_descriptor(*active)
                &&& opt_handle(activation.retired) == retired_engine(
                    opt_handle(*handle),
                    activation.candidate@,
                )
            });
        assert(answers(executor.engine_held(), descriptor.health, given));
    }
}

} // verus!
