//! Advisory priors: what past deployments say about a plan.
//!
//! Priors annotate plans. They never block planning, bypass an approval or
//! change the releases that are selected.
use crate::environment::EnvironmentInspectReport;
use crate::error::{first_refusal, refusal, refuse_unless, Error};
use crate::plan::{Plan, Step};
use crate::text::{
    blank, contains, contains_text, decimal, decimal_text, opt_str, opt_text, same, texts,
};
use crate::text_map::{ascending, text_values, TextMap};
use vstd::prelude::*;

verus! {

/// The schema of prior sets.
pub const PRIOR_SET_SCHEMA: &'static str = "tenkai.plan-priors.v1";

/// The schema of payloads that become priors.
pub const OUTCOME_PRIOR_SCHEMA: &'static str = "tenkai.outcome_prior.v1";

/// A pattern of past failures.
#[derive(Debug, PartialEq, Eq)]
pub struct DeploymentOutcomePrior {
    pub product: String,
    /// The environment fact that went with the failures.
    pub fact_key: String,
    pub fact_value: String,
    /// What operators are told.
    pub note: String,
    /// How many failures were seen, for display.
    pub failure_count: u32,
}

/// What a prior says.
pub struct PriorModel {
    pub product: Seq<char>,
    pub fact_key: Seq<char>,
    pub fact_value: Seq<char>,
    pub note: Seq<char>,
    pub failure_count: u32,
}

impl View for DeploymentOutcomePrior {
    type V = PriorModel;

    open spec fn view(&self) -> PriorModel {
        PriorModel {
            product: self.product@,
            fact_key: self.fact_key@,
            fact_value: self.fact_value@,
            note: self.note@,
            failure_count: self.failure_count,
        }
    }
}

/// What priors say.
pub open spec fn prior_models(list: Seq<DeploymentOutcomePrior>) -> Seq<PriorModel> {
    list.map_values(|prior: DeploymentOutcomePrior| prior@)
}

impl DeploymentOutcomePrior {
    /// A copy of the prior.
    pub fn copy(&self) -> (copy: DeploymentOutcomePrior)
        ensures
            copy@ == self@,
    {
        DeploymentOutcomePrior {
            product: self.product.clone(),
            fact_key: self.fact_key.clone(),
            fact_value: self.fact_value.clone(),
            note: self.note.clone(),
            failure_count: self.failure_count,
        }
    }
}

/// A set of priors as it is kept in a file.
#[derive(Debug, PartialEq, Eq)]
pub struct PriorSet {
    pub schema: String,
    pub priors: Vec<DeploymentOutcomePrior>,
}

/// A payload of a provider that can become a prior.
#[derive(Debug, PartialEq, Eq)]
pub struct OutcomePriorPayload {
    pub schema: String,
    pub product: String,
    pub fact_key: String,
    pub fact_value: String,
    pub note: String,
    pub failure_count: u32,
}

/// An event of a provider: why its evidence is not bound, if it is not, and
/// its payload, where it reads as one.
#[derive(Debug, PartialEq, Eq)]
pub struct OutcomeEvent {
    pub binding_fault: Option<String>,
    pub payload: Option<OutcomePriorPayload>,
}

/// What a payload says as a prior.
pub open spec fn payload_prior(payload: OutcomePriorPayload) -> PriorModel {
    PriorModel {
        product: payload.product@,
        fact_key: payload.fact_key@,
        fact_value: payload.fact_value@,
        note: payload.note@,
        failure_count: payload.failure_count,
    }
}

/// A source of priors from past outcomes.
pub trait OutcomePriorSource: Send + Sync {
    /// Load the priors of past outcomes.
    fn load_outcome_priors(&self) -> Result<Vec<DeploymentOutcomePrior>, Error>;
}

/// What a text is in lower case.
pub uninterp spec fn lowered(text: Seq<char>) -> Seq<char>;

/// Trusted: `str::to_lowercase` maps a text to its lower case by the Unicode
/// tables, without regard to a locale: the result depends on the text alone.
#[verifier::external_body]
fn lower(text: &str) -> (result: String)
    ensures
        result@ == lowered(text@),
{
    text.to_lowercase()
}

/// A text in lower case looks as if it held a credential.
pub open spec fn secret_like(lower: Seq<char>) -> bool {
    contains_text(lower, "bearer "@) || contains_text(lower, "token="@) || contains_text(
        lower,
        "password"@,
    ) || contains_text(lower, "private_key"@)
}

/// Tell whether a text in lower case looks as if it held a credential.
pub fn looks_secret(lower: &str) -> (answer: bool)
    ensures
        answer == secret_like(lower@),
{
    contains(lower, "bearer ") || contains(lower, "token=") || contains(lower, "password")
        || contains(lower, "private_key")
}

/// Why a prior is refused.
pub open spec fn prior_refusal(prior: PriorModel) -> Option<Seq<char>> {
    first_refusal(
        refuse_unless(
            !blank(prior.product) && !blank(prior.fact_key) && !blank(prior.note),
            "prior entries require non-empty product, fact_key, and note"@,
        ),
        refuse_unless(
            !secret_like(lowered(prior.note)),
            "prior note must not contain secret-like material"@,
        ),
    )
}

/// Check a prior.
pub fn validate_prior(prior: &DeploymentOutcomePrior) -> (result: Result<(), Error>)
    ensures
        refusal(result) == prior_refusal(prior@),
{
    if prior.product.as_str().trim().unicode_len() == 0
        || prior.fact_key.as_str().trim().unicode_len() == 0
        || prior.note.as_str().trim().unicode_len() == 0 {
        return Err(Error::fixed("prior entries require non-empty product, fact_key, and note"));
    }
    if looks_secret(lower(&prior.note).as_str()) {
        return Err(Error::fixed("prior note must not contain secret-like material"));
    }
    Ok(())
}

/// Why priors are refused: for the first of them that is.
pub open spec fn priors_refusal(list: Seq<PriorModel>) -> Option<Seq<char>>
    decreases list.len(),
{
    if list.len() == 0 {
        None
    } else {
        first_refusal(priors_refusal(list.drop_last()), prior_refusal(list.last()))
    }
}

proof fn lemma_priors_stop(list: Seq<PriorModel>, count: int)
    requires
        0 <= count <= list.len(),
        priors_refusal(list.take(count)) is Some,
    ensures
        priors_refusal(list) == priors_refusal(list.take(count)),
    decreases list.len(),
{
    if count < list.len() {
        assert(list.drop_last().take(count) =~= list.take(count));
        lemma_priors_stop(list.drop_last(), count);
    } else {
        assert(list.take(count) =~= list);
    }
}

/// Check priors.
pub fn validate_priors(priors: &Vec<DeploymentOutcomePrior>) -> (result: Result<(), Error>)
    ensures
        refusal(result) == priors_refusal(prior_models(priors@)),
{
    let ghost models = prior_models(priors@);
    let mut i: usize = 0;
    while i < priors.len()
        invariant
            i <= priors.len(),
            models == prior_models(priors@),
            priors_refusal(models.take(i as int)) is None,
        decreases priors.len() - i,
    {
        assert(models.take(i + 1).drop_last() =~= models.take(i as int));
        assert(models.take(i + 1).last() == priors@[i as int]@);
        match validate_prior(&priors[i]) {
            Err(error) => {
                proof {
                    lemma_priors_stop(models, i + 1);
                }
                return Err(error);
            },
            Ok(_) => {},
        }
        i = i + 1;
    }
    assert(models.take(models.len() as int) =~= models);
    Ok(())
}

/// The priors of a set that was read from a file.
pub fn file_priors(set: PriorSet) -> (result: Result<Vec<DeploymentOutcomePrior>, Error>)
    ensures
        refusal(result) == priors_refusal(prior_models(set.priors@)),
        result matches Ok(priors) ==> priors == set.priors,
{
    match validate_priors(&set.priors) {
        Err(error) => Err(error),
        Ok(_) => Ok(set.priors),
    }
}

/// An event holds a payload of the schema of priors.
pub open spec fn is_prior_event(event: OutcomeEvent) -> bool {
    event.payload is Some && event.payload->0.schema@ == OUTCOME_PRIOR_SCHEMA@
}

/// Why an event is refused: its evidence is not bound, or what it says is no
/// valid prior. Other payloads are passed over.
pub open spec fn event_refusal(event: OutcomeEvent) -> Option<Seq<char>> {
    first_refusal(
        opt_text(event.binding_fault),
        if is_prior_event(event) {
            prior_refusal(payload_prior(event.payload->0))
        } else {
            None
        },
    )
}

/// Why events are refused: for the first of them that is.
pub open spec fn events_refusal(events: Seq<OutcomeEvent>) -> Option<Seq<char>>
    decreases events.len(),
{
    if events.len() == 0 {
        None
    } else {
        first_refusal(events_refusal(events.drop_last()), event_refusal(events.last()))
    }
}

/// The priors that events say.
pub open spec fn events_priors(events: Seq<OutcomeEvent>) -> Seq<PriorModel>
    decreases events.len(),
{
    if events.len() == 0 {
        Seq::<PriorModel>::empty()
    } else {
        let before = events_priors(events.drop_last());
        if is_prior_event(events.last()) {
            before.push(payload_prior(events.last().payload->0))
        } else {
            before
        }
    }
}

proof fn lemma_events_stop(events: Seq<OutcomeEvent>, count: int)
    requires
        0 <= count <= events.len(),
        events_refusal(events.take(count)) is Some,
    ensures
        events_refusal(events) == events_refusal(events.take(count)),
    decreases events.len(),
{
    if count < events.len() {
        assert(events.drop_last().take(count) =~= events.take(count));
        lemma_events_stop(events.drop_last(), count);
    } else {
        assert(events.take(count) =~= events);
    }
}

fn event_prior(event: &OutcomeEvent) -> (result: Result<Option<DeploymentOutcomePrior>, Error>)
    ensures
        refusal(result) == event_refusal(*event),
        result matches Ok(found) ==> match found {
            Some(prior) => is_prior_event(*event) && prior@ == payload_prior(event.payload->0),
            None => !is_prior_event(*event),
        },
{
    match &event.binding_fault {
        Some(fault) => return Err(Error::new(fault.clone())),
        None => {},
    }
    match &event.payload {
        None => Ok(None),
        Some(payload) => {
            if !same(&payload.schema, OUTCOME_PRIOR_SCHEMA) {
                return Ok(None);
            }
            let prior = DeploymentOutcomePrior {
                product: payload.product.clone(),
                fact_key: payload.fact_key.clone(),
                fact_value: payload.fact_value.clone(),
                note: payload.note.clone(),
                failure_count: payload.failure_count,
            };
            match validate_prior(&prior) {
                Err(error) => Err(error),
                Ok(_) => Ok(Some(prior)),
            }
        },
    }
}

/// The priors that events of a provider say.
pub fn project_priors_from_outcome_events(events: &Vec<OutcomeEvent>) -> (result: Result<
    Vec<DeploymentOutcomePrior>,
    Error,
>)
    ensures
        refusal(result) == events_refusal(events@),
        result matches Ok(priors) ==> prior_models(priors@) == events_priors(events@),
{
    let mut priors: Vec<DeploymentOutcomePrior> = Vec::new();
    let mut i: usize = 0;
    assert(prior_models(priors@) =~= events_priors(events@.take(0)));
    while i < events.len()
        invariant
            i <= events.len(),
            events_refusal(events@.take(i as int)) is None,
            prior_models(priors@) == events_priors(events@.take(i as int)),
        decreases events.len() - i,
    {
        assert(events@.take(i + 1).drop_last() =~= events@.take(i as int));
        assert(events@.take(i + 1).last() == events@[i as int]);
        match event_prior(&events[i]) {
            Err(error) => {
                proof {
                    lemma_events_stop(events@, i + 1);
                }
                return Err(error);
            },
            Ok(None) => {},
            Ok(Some(prior)) => {
                let ghost before = priors@;
                priors.push(prior);
                assert(prior_models(priors@) =~= prior_models(before).push(prior@));
            },
        }
        i = i + 1;
    }
    assert(events@.take(events@.len() as int) =~= events@);
    Ok(priors)
}

/// A source over events that were received in this process.
#[derive(Debug, PartialEq, Eq)]
pub struct LocalEventSinkPriorSource {
    pub events: Vec<OutcomeEvent>,
}

impl OutcomePriorSource for LocalEventSinkPriorSource {
    fn load_outcome_priors(&self) -> (result: Result<Vec<DeploymentOutcomePrior>, Error>)
        ensures
            refusal(result) == events_refusal(self.events@),
            result matches Ok(priors) ==> prior_models(priors@) == events_priors(self.events@),
    {
        project_priors_from_outcome_events(&self.events)
    }
}

/// How a host consults priors.
#[derive(Debug, PartialEq, Eq)]
pub struct PriorConfig {
    pub enabled: bool,
    /// A file with a prior set.
    pub source_path: Option<String>,
    /// Past outcomes are consulted too.
    pub outcome_enabled: bool,
    /// A file with events of providers.
    pub outcome_path: Option<String>,
    /// Past outcomes that cannot be loaded fail the annotation.
    pub outcome_required: bool,
}

impl Default for PriorConfig {
    /// No priors are consulted.
    fn default() -> (config: PriorConfig)
        ensures
            !config.enabled,
            config.source_path is None,
            !config.outcome_enabled,
            config.outcome_path is None,
            !config.outcome_required,
    {
        PriorConfig {
            enabled: false,
            source_path: None,
            outcome_enabled: false,
            outcome_path: None,
            outcome_required: false,
        }
    }
}

/// A setting is on.
pub open spec fn setting_on(value: Option<Seq<char>>) -> bool {
    value is Some && (value->0 == "1"@ || value->0 == "true"@ || value->0 == "TRUE"@ || value->0
        == "yes"@ || value->0 == "on"@)
}

/// Tell whether a setting is on.
pub fn is_on(value: Option<&str>) -> (answer: bool)
    ensures
        answer == setting_on(opt_str(value)),
{
    match value {
        None => false,
        Some(text) => same(text, "1") || same(text, "true") || same(text, "TRUE") || same(
            text,
            "yes",
        ) || same(text, "on"),
    }
}

/// What optional priors, or why there are none, say.
pub open spec fn loaded_model(
    loaded: Option<Result<Vec<DeploymentOutcomePrior>, Error>>,
) -> Option<Result<Seq<PriorModel>, Seq<char>>> {
    match loaded {
        None => None,
        Some(Ok(priors)) => Some(Ok(prior_models(priors@))),
        Some(Err(error)) => Some(Err(error@)),
    }
}

/// What optional priors hold.
pub open spec fn held(loaded: Option<Result<Seq<PriorModel>, Seq<char>>>) -> Seq<PriorModel> {
    match loaded {
        Some(Ok(priors)) => priors,
        _ => Seq::<PriorModel>::empty(),
    }
}

/// Why optional priors could not be loaded.
pub open spec fn fault_of(loaded: Option<Result<Seq<PriorModel>, Seq<char>>>) -> Option<Seq<char>> {
    match loaded {
        Some(Err(fault)) => Some(fault),
        _ => None,
    }
}

/// What was read from the files of a configuration: nothing where a file does
/// not exist.
#[derive(Debug, PartialEq, Eq)]
pub struct PriorFiles {
    pub source: Option<Result<Vec<DeploymentOutcomePrior>, Error>>,
    pub outcome: Option<Result<Vec<DeploymentOutcomePrior>, Error>>,
}

/// The priors that were loaded, and why past outcomes are missing among them,
/// if they are.
#[derive(Debug, PartialEq, Eq)]
pub struct LoadedPriors {
    pub priors: Vec<DeploymentOutcomePrior>,
    pub degraded: Option<Error>,
}

/// Why past outcomes cannot be loaded.
pub open spec fn outcome_refusal(
    config: PriorConfig,
    supplied: Option<Result<Seq<PriorModel>, Seq<char>>>,
    file: Option<Result<Seq<PriorModel>, Seq<char>>>,
) -> Option<Seq<char>> {
    first_refusal(
        fault_of(supplied),
        if config.outcome_path is Some {
            if file is None {
                refuse_unless(
                    !config.outcome_required,
                    "outcome prior file "@ + config.outcome_path->0@
                        + " is missing (TENKAI_PLAN_PRIORS_OUTCOME_REQUIRED)"@,
                )
            } else {
                fault_of(file)
            }
        } else {
            refuse_unless(
                supplied is Some || !config.outcome_required,
                "outcome priors required but no OutcomePriorSource or TENKAI_PLAN_PRIORS_OUTCOME_FILE configured"@,
            )
        },
    )
}

/// The priors of past outcomes: those of the source, and those of the file
/// that is configured.
pub open spec fn outcome_priors(
    config: PriorConfig,
    supplied: Option<Result<Seq<PriorModel>, Seq<char>>>,
    file: Option<Result<Seq<PriorModel>, Seq<char>>>,
) -> Seq<PriorModel> {
    held(supplied) + (if config.outcome_path is Some {
        held(file)
    } else {
        Seq::<PriorModel>::empty()
    })
}

fn extend(priors: &mut Vec<DeploymentOutcomePrior>, more: &Vec<DeploymentOutcomePrior>)
    ensures
        prior_models(final(priors)@) == prior_models(old(priors)@) + prior_models(more@),
{
    let ghost start = prior_models(priors@);
    let ghost models = prior_models(more@);
    let mut i: usize = 0;
    assert(prior_models(priors@) =~= start + models.take(0));
    while i < more.len()
        invariant
            i <= more.len(),
            models == prior_models(more@),
            prior_models(priors@) == start + models.take(i as int),
        decreases more.len() - i,
    {
        let ghost before = priors@;
        priors.push(more[i].copy());
        assert(prior_models(priors@) =~= prior_models(before).push(models[i as int]));
        assert(prior_models(priors@) =~= start + models.take(i + 1));
        i = i + 1;
    }
    assert(models.take(models.len() as int) =~= models);
}

impl PriorConfig {
    /// The configuration that settings spell: three flags and two files.
    pub fn from_settings(
        enabled: Option<&str>,
        source_path: Option<String>,
        outcome_enabled: Option<&str>,
        outcome_path: Option<String>,
        outcome_required: Option<&str>,
    ) -> (config: PriorConfig)
        ensures
            config.enabled == setting_on(opt_str(enabled)),
            config.source_path == source_path,
            config.outcome_enabled == setting_on(opt_str(outcome_enabled)),
            config.outcome_path == outcome_path,
            config.outcome_required == setting_on(opt_str(outcome_required)),
    {
        PriorConfig {
            enabled: is_on(enabled),
            source_path,
            outcome_enabled: is_on(outcome_enabled),
            outcome_path,
            outcome_required: is_on(outcome_required),
        }
    }

    fn load_outcome(
        &self,
        supplied: &Option<Result<Vec<DeploymentOutcomePrior>, Error>>,
        file: &Option<Result<Vec<DeploymentOutcomePrior>, Error>>,
    ) -> (result: Result<Vec<DeploymentOutcomePrior>, Error>)
        ensures
            refusal(result) == outcome_refusal(
                *self,
                loaded_model(*supplied),
                loaded_model(*file),
            ),
            result matches Ok(priors) ==> prior_models(priors@) == outcome_priors(
                *self,
                loaded_model(*supplied),
                loaded_model(*file),
            ),
    {
        let mut priors: Vec<DeploymentOutcomePrior> = Vec::new();
        assert(prior_models(priors@) =~= Seq::<PriorModel>::empty());
        match supplied {
            None => {},
            Some(Err(error)) => return Err(Error::new(error.to_string())),
            Some(Ok(more)) => extend(&mut priors, more),
        }
        assert(prior_models(priors@) =~= held(loaded_model(*supplied)));
        let ghost first = prior_models(priors@);
        match &self.outcome_path {
            None => {
                if supplied.is_none() && self.outcome_required {
                    return Err(
                        Error::fixed(
                            "outcome priors required but no OutcomePriorSource or TENKAI_PLAN_PRIORS_OUTCOME_FILE configured",
                        ),
                    );
                }
            },
            Some(path) => match file {
                None => {
                    if self.outcome_required {
                        let mut message = "outcome prior file ".to_owned();
                        message.append(path.as_str());
                        message.append(" is missing (TENKAI_PLAN_PRIORS_OUTCOME_REQUIRED)");
                        return Err(Error::new(message));
                    }
                },
                Some(Err(error)) => return Err(Error::new(error.to_string())),
                Some(Ok(more)) => extend(&mut priors, more),
            },
        }
        assert(prior_models(priors@) =~= outcome_priors(
            *self,
            loaded_model(*supplied),
            loaded_model(*file),
        ));
        Ok(priors)
    }

    /// The priors of a configuration, by what its files and the source of past
    /// outcomes gave. Past outcomes that fail without being required degrade
    /// the result, which says so.
    pub fn settle_priors(
        &self,
        files: &PriorFiles,
        supplied: &Option<Result<Vec<DeploymentOutcomePrior>, Error>>,
    ) -> (result: Result<LoadedPriors, Error>)
        ensures
            refusal(result) == load_refusal(
                *self,
                loaded_model(files.source),
                loaded_model(*supplied),
                loaded_model(files.outcome),
            ),
            result matches Ok(loaded) ==> {
                &&& prior_models(loaded.priors@) == loaded_priors(
                    *self,
                    loaded_model(files.source),
                    loaded_model(*supplied),
                    loaded_model(files.outcome),
                )
                &&& refusal_text(loaded.degraded) == degradation(
                    *self,
                    loaded_model(*supplied),
                    loaded_model(files.outcome),
                )
            },
    {
        let mut priors: Vec<DeploymentOutcomePrior> = Vec::new();
        assert(prior_models(priors@) =~= Seq::<PriorModel>::empty());
        if !self.enabled {
            return Ok(LoadedPriors { priors, degraded: None });
        }
        if self.source_path.is_some() {
            match &files.source {
                None => {},
                Some(Err(error)) => return Err(Error::new(error.to_string())),
                Some(Ok(more)) => extend(&mut priors, more),
            }
        }
        assert(prior_models(priors@) =~= source_priors(*self, loaded_model(files.source)));
        let mut degraded: Option<Error> = None;
        if self.outcome_enabled {
            match self.load_outcome(supplied, &files.outcome) {
                Ok(more) => extend(&mut priors, &more),
                Err(error) => {
                    if self.outcome_required {
                        return Err(error);
                    }
                    degraded = Some(error);
                },
            }
        }
        assert(prior_models(priors@) =~= loaded_priors(
            *self,
            loaded_model(files.source),
            loaded_model(*supplied),
            loaded_model(files.outcome),
        ));
        Ok(LoadedPriors { priors, degraded })
    }

    /// The priors of a configuration without a source of past outcomes.
    pub fn load_priors(&self, files: &PriorFiles) -> (result: Result<LoadedPriors, Error>)
        ensures
            refusal(result) == load_refusal(
                *self,
                loaded_model(files.source),
                None,
                loaded_model(files.outcome),
            ),
            result matches Ok(loaded) ==> prior_models(loaded.priors@) == loaded_priors(
                *self,
                loaded_model(files.source),
                None,
                loaded_model(files.outcome),
            ) && refusal_text(loaded.degraded) == degradation(
                *self,
                None,
                loaded_model(files.outcome),
            ),
    {
        self.settle_priors(files, &None)
    }

    /// The priors of a configuration with a source of past outcomes. The source
    /// is asked where past outcomes are consulted; what it answers decides as
    /// past outcomes do.
    pub fn load_priors_with_outcome<S: OutcomePriorSource>(
        &self,
        files: &PriorFiles,
        outcome: Option<&S>,
    ) -> (result: Result<LoadedPriors, Error>)
        ensures
            exists|given: Option<Result<Vec<DeploymentOutcomePrior>, Error>>| #[trigger]
                supplies(*self, *files, outcome, given) && refusal(result) == load_refusal(
                    *self,
                    loaded_model(files.source),
                    loaded_model(given),
                    loaded_model(files.outcome),
                ) && (result matches Ok(loaded) ==> {
                    &&& prior_models(loaded.priors@) == loaded_priors(
                        *self,
                        loaded_model(files.source),
                        loaded_model(given),
                        loaded_model(files.outcome),
                    )
                    &&& refusal_text(loaded.degraded) == degradation(
                        *self,
                        loaded_model(given),
                        loaded_model(files.outcome),
                    )
                }),
    {
        let readable = self.source_path.is_none() || !matches!(files.source, Some(Err(_)));
        let given = match outcome {
            None => None,
            Some(source) => {
                if self.enabled && self.outcome_enabled && readable {
                    Some(source.load_outcome_priors())
                } else {
                    None
                }
            },
        };
        assert(supplies(*self, *files, outcome, given));
        self.settle_priors(files, &given)
    }
}

/// What an optional error says.
pub open spec fn refusal_text(error: Option<Error>) -> Option<Seq<char>> {
    match error {
        Some(fault) => Some(fault@),
        None => None,
    }
}

/// Why the file of a configuration cannot be consulted.
pub open spec fn source_refusal(
    config: PriorConfig,
    source: Option<Result<Seq<PriorModel>, Seq<char>>>,
) -> Option<Seq<char>> {
    if config.enabled && config.source_path is Some {
        fault_of(source)
    } else {
        None
    }
}

/// The priors of the file of a configuration.
pub open spec fn source_priors(
    config: PriorConfig,
    source: Option<Result<Seq<PriorModel>, Seq<char>>>,
) -> Seq<PriorModel> {
    if config.source_path is Some {
        held(source)
    } else {
        Seq::<PriorModel>::empty()
    }
}

/// Why the priors of a configuration cannot be loaded.
pub open spec fn load_refusal(
    config: PriorConfig,
    source: Option<Result<Seq<PriorModel>, Seq<char>>>,
    supplied: Option<Result<Seq<PriorModel>, Seq<char>>>,
    file: Option<Result<Seq<PriorModel>, Seq<char>>>,
) -> Option<Seq<char>> {
    first_refusal(
        source_refusal(config, source),
        if config.enabled && config.outcome_enabled && config.outcome_required {
            outcome_refusal(config, supplied, file)
        } else {
            None
        },
    )
}

/// The priors of a configuration.
pub open spec fn loaded_priors(
    config: PriorConfig,
    source: Option<Result<Seq<PriorModel>, Seq<char>>>,
    supplied: Option<Result<Seq<PriorModel>, Seq<char>>>,
    file: Option<Result<Seq<PriorModel>, Seq<char>>>,
) -> Seq<PriorModel> {
    if !config.enabled {
        Seq::<PriorModel>::empty()
    } else {
        source_priors(config, source) + (if config.outcome_enabled && outcome_refusal(
            config,
            supplied,
            file,
        ) is None {
            outcome_priors(config, supplied, file)
        } else {
            Seq::<PriorModel>::empty()
        })
    }
}

/// Why past outcomes are missing among the priors of a configuration.
pub open spec fn degradation(
    config: PriorConfig,
    supplied: Option<Result<Seq<PriorModel>, Seq<char>>>,
    file: Option<Result<Seq<PriorModel>, Seq<char>>>,
) -> Option<Seq<char>> {
    if config.enabled && config.outcome_enabled {
        outcome_refusal(config, supplied, file)
    } else {
        None
    }
}

/// A source of past outcomes can give an answer. It is asked where past outcomes
/// are consulted and the file of priors could be read, and else gives none.
pub open spec fn supplies<S: OutcomePriorSource>(
    config: PriorConfig,
    files: PriorFiles,
    outcome: Option<&S>,
    given: Option<Result<Vec<DeploymentOutcomePrior>, Error>>,
) -> bool {
    if outcome is Some && config.enabled && config.outcome_enabled && source_refusal(
        config,
        loaded_model(files.source),
    ) is None {
        given is Some && call_ensures(S::load_outcome_priors, (outcome->0,), given->0)
    } else {
        given is None
    }
}

/// A prior speaks of a product in an environment with given facts.
pub open spec fn applies(
    product: Seq<char>,
    facts: Map<Seq<char>, Seq<char>>,
    prior: PriorModel,
) -> bool {
    prior.product == product && facts.contains_key(prior.fact_key) && facts[prior.fact_key]
        == prior.fact_value
}

/// What is said of a prior.
pub open spec fn warning_text(prior: PriorModel) -> Seq<char> {
    "advisory prior for "@ + prior.product + " when "@ + prior.fact_key + "="@ + prior.fact_value
        + ": "@ + prior.note + (if prior.failure_count > 0 {
        " (observed_failures="@ + decimal(prior.failure_count as nat) + ")"@
    } else {
        Seq::<char>::empty()
    })
}

/// A prior speaks of a product of the steps.
pub open spec fn prior_applies(
    products: Seq<Seq<char>>,
    facts: Map<Seq<char>, Seq<char>>,
    prior: PriorModel,
) -> bool {
    exists|i: int| 0 <= i < products.len() && applies(#[trigger] products[i], facts, prior)
}

/// A warning is said of one of the priors that speak of the steps.
pub open spec fn warned(
    products: Seq<Seq<char>>,
    facts: Map<Seq<char>, Seq<char>>,
    priors: Seq<PriorModel>,
    warning: Seq<char>,
) -> bool {
    exists|j: int|
        0 <= j < priors.len() && prior_applies(products, facts, #[trigger] priors[j])
            && warning_text(priors[j]) == warning
}

/// The products of steps.
pub open spec fn step_products(steps: Seq<Step>) -> Seq<Seq<char>> {
    steps.map_values(|step: Step| step.product@)
}

fn warning(prior: &DeploymentOutcomePrior) -> (text: String)
    ensures
        text@ == warning_text(prior@),
{
    let mut text = "advisory prior for ".to_owned();
    text.append(prior.product.as_str());
    text.append(" when ");
    text.append(prior.fact_key.as_str());
    text.append("=");
    text.append(prior.fact_value.as_str());
    text.append(": ");
    text.append(prior.note.as_str());
    if prior.failure_count > 0 {
        let ghost head = text@;
        text.append(" (observed_failures=");
        text.append(decimal_text(prior.failure_count as u64).as_str());
        text.append(")");
        assert(text@ =~= head + (" (observed_failures="@ + decimal(prior.failure_count as nat)
            + ")"@));
    }
    assert(text@ =~= warning_text(prior@));
    text
}

fn speaks_of(steps: &Vec<Step>, facts: &TextMap<String>, prior: &DeploymentOutcomePrior) -> (answer:
    bool)
    ensures
        answer == prior_applies(step_products(steps@), text_values(facts@), prior@),
{
    let ghost products = step_products(steps@);
    let ghost values = text_values(facts@);
    let matched = match facts.get(prior.fact_key.as_str()) {
        None => false,
        Some(value) => same(value, &prior.fact_value),
    };
    if !matched {
        return false;
    }
    let mut i: usize = 0;
    while i < steps.len()
        invariant
            i <= steps.len(),
            products == step_products(steps@),
            values == text_values(facts@),
            values.contains_key(prior@.fact_key),
            values[prior@.fact_key] == prior@.fact_value,
            forall|k: int| 0 <= k < i ==> !applies(#[trigger] products[k], values, prior@),
        decreases steps.len() - i,
    {
        assert(products[i as int] == steps@[i as int].product@);
        if same(&prior.product, &steps[i].product) {
            assert(applies(products[i as int], values, prior@));
            return true;
        }
        i = i + 1;
    }
    false
}

/// The warnings of the priors that speak of the steps of a plan in an
/// environment, in order and once each.
pub fn matching_prior_warnings(
    steps: &Vec<Step>,
    env_facts: &TextMap<String>,
    priors: &Vec<DeploymentOutcomePrior>,
) -> (warnings: Vec<String>)
    ensures
        ascending(texts(warnings@)),
        forall|text: Seq<char>| #[trigger]
            texts(warnings@).contains(text) <==> warned(
                step_products(steps@),
                text_values(env_facts@),
                prior_models(priors@),
                text,
            ),
{
    let ghost products = step_products(steps@);
    let ghost facts = text_values(env_facts@);
    let ghost models = prior_models(priors@);
    let mut found: TextMap<bool> = TextMap::new();
    let mut j: usize = 0;
    while j < priors.len()
        invariant
            j <= priors.len(),
            products == step_products(steps@),
            facts == text_values(env_facts@),
            models == prior_models(priors@),
            forall|text: Seq<char>| #[trigger]
                found.keys().contains(text) <==> warned(
                    products,
                    facts,
                    models.take(j as int),
                    text,
                ),
        decreases priors.len() - j,
    {
        let ghost before = found.keys();
        let ghost earlier = models.take(j as int);
        let ghost later = models.take(j + 1);
        assert(later =~= earlier.push(models[j as int]));
        if speaks_of(steps, env_facts, &priors[j]) {
            let text = warning(&priors[j]);
            found.insert(text, true);
        }
        proof {
            assert forall|text: Seq<char>| #[trigger] found.keys().contains(text) <==> warned(
                products,
                facts,
                later,
                text,
            ) by {
                if warned(products, facts, earlier, text) {
                    let k = choose|k: int|
                        0 <= k < earlier.len() && prior_applies(
                            products,
                            facts,
                            #[trigger] earlier[k],
                        ) && warning_text(earlier[k]) == text;
                    assert(later[k] == earlier[k]);
                    assert(warned(products, facts, later, text));
                }
                if warned(products, facts, later, text) {
                    let k = choose|k: int|
                        0 <= k < later.len() && prior_applies(products, facts, #[trigger] later[k])
                            && warning_text(later[k]) == text;
                    if k < earlier.len() {
                        assert(earlier[k] == later[k]);
                        assert(warned(products, facts, earlier, text));
                    }
                }
                if prior_applies(products, facts, models[j as int]) && warning_text(
                    models[j as int],
                ) == text {
                    assert(later[j as int] == models[j as int]);
                    assert(warned(products, facts, later, text));
                }
                assert(before.contains(text) <==> warned(products, facts, earlier, text));
            }
        }
        j = j + 1;
    }
    assert(models.take(models.len() as int) =~= models);
    let count = found.len();
    let ghost keys = found.keys();
    let mut warnings: Vec<String> = Vec::new();
    let mut i: usize = 0;
    assert(texts(warnings@) =~= keys.take(0));
    while i < count
        invariant
            i <= count,
            count == keys.len(),
            keys == found.keys(),
            texts(warnings@) == keys.take(i as int),
        decreases count - i,
    {
        let ghost before = warnings@;
        warnings.push(found.key_at(i).clone());
        assert(texts(warnings@) =~= texts(before).push(keys[i as int]));
        assert(texts(warnings@) =~= keys.take(i + 1));
        i = i + 1;
    }
    assert(keys.take(keys.len() as int) =~= keys);
    warnings
}

/// The detail of a plan with a number of warnings.
pub open spec fn annotated_detail(detail: Seq<char>, count: nat) -> Seq<char> {
    if detail.len() == 0 {
        "advisory prior warnings: "@ + decimal(count)
    } else if !contains_text(detail, "advisory prior"@) {
        detail + "; advisory prior warnings: "@ + decimal(count)
    } else {
        detail
    }
}

/// A plan after it was annotated with the warnings of priors: they are those of
/// the priors that speak of it, in order, and its detail tells their number.
/// Where there are none, the plan is as before, and nothing else of it changes
/// in any case.
pub open spec fn annotates(
    before: Plan,
    after: Plan,
    facts: Map<Seq<char>, Seq<char>>,
    priors: Seq<PriorModel>,
) -> bool {
    let products = step_products(before.steps@);
    let silent = forall|text: Seq<char>| !#[trigger] warned(products, facts, priors, text);
    &&& after == (Plan {
        prior_warnings: after.prior_warnings,
        status_detail: after.status_detail,
        ..before
    })
    &&& silent ==> after == before
    &&& !silent ==> {
        &&& ascending(texts(after.prior_warnings@))
        &&& forall|text: Seq<char>| #[trigger]
            texts(after.prior_warnings@).contains(text) <==> warned(products, facts, priors, text)
        &&& after.status_detail@ == annotated_detail(
            before.status_detail@,
            after.prior_warnings@.len(),
        )
    }
}

/// Annotate a plan with the warnings of priors. Where there are none, the plan
/// stays as it is; nothing else of it changes in any case.
pub fn annotate(plan: &mut Plan, facts: &TextMap<String>, priors: &Vec<DeploymentOutcomePrior>)
    ensures
        annotates(*old(plan), *final(plan), text_values(facts@), prior_models(priors@)),
{
    let warnings = matching_prior_warnings(&plan.steps, facts, priors);
    let ghost products = step_products(plan.steps@);
    let ghost values = text_values(facts@);
    let ghost models = prior_models(priors@);
    if warnings.len() == 0 {
        assert forall|text: Seq<char>| !#[trigger] warned(products, values, models, text) by {
            if warned(products, values, models, text) {
                assert(texts(warnings@).contains(text));
            }
        }
        return;
    }
    proof {
        let first = texts(warnings@)[0];
        assert(texts(warnings@).contains(first));
        assert(warned(products, values, models, first));
    }
    let count = decimal_text(warnings.len() as u64);
    plan.prior_warnings = warnings;
    if plan.status_detail.as_str().unicode_len() == 0 {
        let mut detail = "advisory prior warnings: ".to_owned();
        detail.append(count.as_str());
        plan.status_detail = detail;
    } else if !contains(&plan.status_detail, "advisory prior") {
        let mut detail = plan.status_detail.clone();
        detail.append("; advisory prior warnings: ");
        detail.append(count.as_str());
        plan.status_detail = detail;
    }
}

/// Annotate a plan with the priors of a configuration, without a source of
/// past outcomes.
pub fn annotate_plan_with_priors(
    plan: &mut Plan,
    env: &EnvironmentInspectReport,
    config: &PriorConfig,
    files: &PriorFiles,
) -> (result: Result<(), Error>)
    ensures
        refusal(result) == load_refusal(
            *config,
            loaded_model(files.source),
            None,
            loaded_model(files.outcome),
        ),
        result is Err || !config.enabled ==> *final(plan) == *old(plan),
        result is Ok && config.enabled ==> annotates(
            *old(plan),
            *final(plan),
            text_values(env.facts@),
            loaded_priors(
                *config,
                loaded_model(files.source),
                None,
                loaded_model(files.outcome),
            ),
        ),
{
    if !config.enabled {
        return Ok(());
    }
    match config.load_priors(files) {
        Err(error) => Err(error),
        Ok(loaded) => {
            annotate(plan, &env.facts, &loaded.priors);
            Ok(())
        },
    }
}

/// Annotate a plan with the priors of a configuration and a source of past
/// outcomes. Whatever the source gives, nothing of the plan changes but its
/// warnings and its detail.
pub fn annotate_plan_with_priors_and_outcome<S: OutcomePriorSource>(
    plan: &mut Plan,
    env: &EnvironmentInspectReport,
    config: &PriorConfig,
    files: &PriorFiles,
    outcome: Option<&S>,
) -> (result: Result<(), Error>)
    ensures
        result is Err || !config.enabled ==> *final(plan) == *old(plan),
        *final(plan) == (Plan {
            prior_warnings: final(plan).prior_warnings,
            status_detail: final(plan).status_detail,
            ..*old(plan)
        }),
        exists|given: Option<Result<Vec<DeploymentOutcomePrior>, Error>>| #[trigger]
            supplies(*config, *files, outcome, given) && refusal(result) == load_refusal(
                *config,
                loaded_model(files.source),
                loaded_model(given),
                loaded_model(files.outcome),
            ) && (result is Ok && config.enabled ==> annotates(
                *old(plan),
                *final(plan),
                text_values(env.facts@),
                loaded_priors(
                    *config,
                    loaded_model(files.source),
                    loaded_model(given),
                    loaded_model(files.outcome),
                ),
            )),
{
    if !config.enabled {
        assert(supplies(*config, *files, outcome, None));
        return Ok(());
    }
    match config.load_priors_with_outcome(files, outcome) {
        Err(error) => Err(error),
        Ok(loaded) => {
            annotate(plan, &env.facts, &loaded.priors);
            Ok(())
        },
    }
}

/// A prior whose note looks as if it held a credential becomes none of the
/// priors of a file, and no event brings it in.
pub proof fn secret_notes_are_refused(list: Seq<PriorModel>, at: int)
    requires
        0 <= at < list.len(),
        secret_like(lowered(list[at].note)),
    ensures
        priors_refusal(list) is Some,
    decreases list.len(),
{
    if at < list.len() - 1 {
        secret_notes_are_refused(list.drop_last(), at);
    }
}

/// Each prior that events bring in is valid.
pub proof fn projected_priors_are_valid(events: Seq<OutcomeEvent>, at: int)
    requires
        events_refusal(events) is None,
        0 <= at < events_priors(events).len(),
    ensures
        prior_refusal(events_priors(events)[at]) is None,
    decreases events.len(),
{
    if events.len() > 0 {
        let before = events_priors(events.drop_last());
        if at < before.len() {
            projected_priors_are_valid(events.drop_last(), at);
        }
    }
}

/// A prior is valid if and only if it says of which product and fact it speaks
/// and why, and its note holds nothing that looks like a credential.
pub proof fn valid_priors(prior: &DeploymentOutcomePrior, result: Result<(), Error>)
    requires
        call_ensures(validate_prior, (prior,), result),
    ensures
        result is Ok <==> {
            let note = lowered(prior.note@);
            &&& !blank(prior.product@)
            &&& !blank(prior.fact_key@)
            &&& !blank(prior.note@)
            &&& !contains_text(note, "bearer "@)
            &&& !contains_text(note, "token="@)
            &&& !contains_text(note, "password"@)
            &&& !contains_text(note, "private_key"@)
        },
{
}

proof fn lemma_priors_each(list: Seq<PriorModel>)
    ensures
        priors_refusal(list) is None <==> forall|i: int|
            0 <= i < list.len() ==> prior_refusal(#[trigger] list[i]) is None,
    decreases list.len(),
{
    if list.len() > 0 {
        let front = list.drop_last();
        lemma_priors_each(front);
        assert(forall|i: int| 0 <= i < front.len() ==> front[i] == list[i]);
        if priors_refusal(list) is None {
            assert forall|i: int| 0 <= i < list.len() implies prior_refusal(
                #[trigger] list[i],
            ) is None by {
                if i < front.len() {
                    assert(prior_refusal(front[i]) is None);
                }
            }
        }
    }
}

/// The priors of a file are taken as they are if each of them is valid, and none
/// is taken otherwise.
pub proof fn priors_of_files(set: PriorSet, result: Result<Vec<DeploymentOutcomePrior>, Error>)
    requires
        call_ensures(file_priors, (set,), result),
    ensures
        result is Ok <==> forall|i: int|
            0 <= i < set.priors@.len() ==> prior_refusal((#[trigger] set.priors@[i])@) is None,
        result matches Ok(priors) ==> priors@ == set.priors@,
{
    let models = prior_models(set.priors@);
    lemma_priors_each(models);
    assert(forall|i: int| 0 <= i < models.len() ==> models[i] == set.priors@[i]@);
    if result is Ok {
        assert forall|i: int| 0 <= i < set.priors@.len() implies prior_refusal(
            (#[trigger] set.priors@[i])@,
        ) is None by {
            assert(prior_refusal(models[i]) is None);
        }
    }
}

proof fn lemma_events_each(events: Seq<OutcomeEvent>)
    ensures
        events_refusal(events) is None <==> forall|i: int|
            0 <= i < events.len() ==> event_refusal(#[trigger] events[i]) is None,
    decreases events.len(),
{
    if events.len() > 0 {
        let front = events.drop_last();
        lemma_events_each(front);
        assert(forall|i: int| 0 <= i < front.len() ==> front[i] == events[i]);
        if events_refusal(events) is None {
            assert forall|i: int| 0 <= i < events.len() implies event_refusal(
                #[trigger] events[i],
            ) is None by {
                if i < front.len() {
                    assert(event_refusal(front[i]) is None);
                }
            }
        }
    }
}

proof fn lemma_event_projected(events: Seq<OutcomeEvent>, i: int)
    requires
        0 <= i < events.len(),
        is_prior_event(events[i]),
    ensures
        events_priors(events).contains(payload_prior(events[i].payload->0)),
    decreases events.len(),
{
    let before = events_priors(events.drop_last());
    let list = events_priors(events);
    let wanted = payload_prior(events[i].payload->0);
    if i == events.len() - 1 {
        assert(list[list.len() - 1] == wanted);
    } else {
        lemma_event_projected(events.drop_last(), i);
        let k = choose|k: int| 0 <= k < before.len() && before[k] == wanted;
        assert(list[k] == wanted);
    }
}

proof fn lemma_projected_backed(events: Seq<OutcomeEvent>, k: int)
    requires
        0 <= k < events_priors(events).len(),
    ensures
        exists|i: int|
            0 <= i < events.len() && is_prior_event(#[trigger] events[i]) && payload_prior(
                events[i].payload->0,
            ) == events_priors(events)[k],
    decreases events.len(),
{
    if events.len() > 0 {
        let front = events.drop_last();
        let before = events_priors(front);
        if k < before.len() {
            lemma_projected_backed(front, k);
            let i = choose|i: int|
                0 <= i < front.len() && is_prior_event(#[trigger] front[i]) && payload_prior(
                    front[i].payload->0,
                ) == before[k];
            assert(events[i] == front[i]);
        } else {
            assert(is_prior_event(events[events.len() - 1]));
        }
    }
}

/// A payload of the schema of priors says a prior.
pub open spec fn said_by(events: Seq<OutcomeEvent>, prior: PriorModel) -> bool {
    exists|i: int|
        0 <= i < events.len() && (#[trigger] events[i]).payload is Some
            && events[i].payload->0.schema@ == "tenkai.outcome_prior.v1"@ && payload_prior(
            events[i].payload->0,
        ) == prior
}

/// Events become priors if and only if the evidence of each is bound and what
/// each says as a prior is valid. Each payload of the schema becomes one, and
/// nothing else does.
pub proof fn events_become_priors(
    events: &Vec<OutcomeEvent>,
    result: Result<Vec<DeploymentOutcomePrior>, Error>,
)
    requires
        call_ensures(project_priors_from_outcome_events, (events,), result),
    ensures
        result is Ok <==> forall|i: int|
            0 <= i < events@.len() ==> {
                let event = #[trigger] events@[i];
                let prior = event.payload->0;
                &&& event.binding_fault is None
                &&& event.payload is Some && prior.schema@ == "tenkai.outcome_prior.v1"@ ==> !blank(
                    prior.product@,
                ) && !blank(prior.fact_key@) && !blank(prior.note@) && !secret_like(
                    lowered(prior.note@),
                )
            },
        result matches Ok(priors) ==> forall|i: int|
            0 <= i < events@.len() && (#[trigger] events@[i]).payload is Some
                && events@[i].payload->0.schema@ == "tenkai.outcome_prior.v1"@ ==> exists|k: int|
                0 <= k < priors@.len() && (#[trigger] priors@[k])@ == payload_prior(
                    events@[i].payload->0,
                ),
        result matches Ok(priors) ==> forall|k: int|
            0 <= k < priors@.len() ==> said_by(events@, (#[trigger] priors@[k])@),
{
    lemma_events_each(events@);
    assert forall|i: int| 0 <= i < events@.len() implies (event_refusal(
        #[trigger] events@[i],
    ) is None <==> {
        let event = events@[i];
        let prior = event.payload->0;
        &&& event.binding_fault is None
        &&& event.payload is Some && prior.schema@ == "tenkai.outcome_prior.v1"@ ==> !blank(
            prior.product@,
        ) && !blank(prior.fact_key@) && !blank(prior.note@) && !secret_like(lowered(prior.note@))
    }) by {};
    if result is Ok {
        let priors = result->Ok_0@;
        let models = prior_models(priors);
        assert(models.len() == priors.len());
        assert(forall|k: int| 0 <= k < priors.len() ==> models[k] == priors[k]@);
        assert forall|i: int|
            0 <= i < events@.len() && (#[trigger] events@[i]).payload is Some
                && events@[i].payload->0.schema@ == "tenkai.outcome_prior.v1"@ implies exists|k: int|
            0 <= k < priors.len() && (#[trigger] priors[k])@ == payload_prior(
                events@[i].payload->0,
            ) by {
            lemma_event_projected(events@, i);
            let k = choose|k: int|
                0 <= k < models.len() && models[k] == payload_prior(events@[i].payload->0);
            assert(priors[k]@ == models[k]);
        }
        assert forall|k: int| 0 <= k < priors.len() implies said_by(
            events@,
            (#[trigger] priors[k])@,
        ) by {
            lemma_projected_backed(events@, k);
            assert(models[k] == priors[k]@);
        }
    }
}

/// Settings configure priors: a flag is on where it says so.
pub proof fn settings_are_read(
    enabled: Option<&str>,
    source_path: Option<String>,
    outcome_enabled: Option<&str>,
    outcome_path: Option<String>,
    outcome_required: Option<&str>,
    config: PriorConfig,
)
    requires
        call_ensures(
            PriorConfig::from_settings,
            (enabled, source_path, outcome_enabled, outcome_path, outcome_required),
            config,
        ),
    ensures
        enabled is None ==> !config.enabled,
        outcome_enabled is None ==> !config.outcome_enabled,
        outcome_required is None ==> !config.outcome_required,
        enabled matches Some(word) ==> (config.enabled <==> word@ == "1"@ || word@ == "true"@
            || word@ == "TRUE"@ || word@ == "yes"@ || word@ == "on"@),
        outcome_enabled matches Some(word) ==> (config.outcome_enabled <==> word@ == "1"@ || word@
            == "true"@ || word@ == "TRUE"@ || word@ == "yes"@ || word@ == "on"@),
        outcome_required matches Some(word) ==> (config.outcome_required <==> word@ == "1"@ || word@
            == "true"@ || word@ == "TRUE"@ || word@ == "yes"@ || word@ == "on"@),
        config.source_path == source_path,
        config.outcome_path == outcome_path,
{
}

/// A configuration that is off loads nothing, and refuses nothing.
pub proof fn disabled_priors_load_nothing(
    config: &PriorConfig,
    files: &PriorFiles,
    supplied: &Option<Result<Vec<DeploymentOutcomePrior>, Error>>,
    result: Result<LoadedPriors, Error>,
)
    requires
        call_ensures(PriorConfig::settle_priors, (config, files, supplied), result),
        !config.enabled,
    ensures
        result matches Ok(loaded) && loaded.priors@.len() == 0 && loaded.degraded is None,
{
    assert(prior_models(result->Ok_0.priors@).len() == result->Ok_0.priors@.len());
}

/// Past outcomes that cannot be loaded fail a configuration only where it
/// requires them; else the priors of the file are loaded without them, and the
/// result says why they are missing.
pub proof fn missing_outcomes_degrade(
    config: &PriorConfig,
    files: &PriorFiles,
    supplied: &Option<Result<Vec<DeploymentOutcomePrior>, Error>>,
    fault: Error,
    result: Result<LoadedPriors, Error>,
)
    requires
        call_ensures(PriorConfig::settle_priors, (config, files, supplied), result),
        config.enabled,
        config.outcome_enabled,
        *supplied == Some(Err::<Vec<DeploymentOutcomePrior>, Error>(fault)),
        files.source is None,
    ensures
        config.outcome_required ==> (result matches Err(error) && error@ == fault@),
        !config.outcome_required ==> (result matches Ok(loaded) && loaded.priors@.len() == 0 && (
        loaded.degraded matches Some(error) && error@ == fault@)),
{
    if !config.outcome_required {
        assert(prior_models(result->Ok_0.priors@).len() == result->Ok_0.priors@.len());
    }
}

/// A file of priors that cannot be read fails a configuration that names it.
pub proof fn broken_prior_files_fail(
    config: &PriorConfig,
    files: &PriorFiles,
    supplied: &Option<Result<Vec<DeploymentOutcomePrior>, Error>>,
    fault: Error,
    result: Result<LoadedPriors, Error>,
)
    requires
        call_ensures(PriorConfig::settle_priors, (config, files, supplied), result),
        config.enabled,
        config.source_path is Some,
        files.source == Some(Err::<Vec<DeploymentOutcomePrior>, Error>(fault)),
    ensures
        result matches Err(error) && error@ == fault@,
{
}

/// The priors of a configuration are those of its file, of the source of past
/// outcomes and of the file of past outcomes, in this order.
pub proof fn loaded_priors_are_all_of_them(
    config: &PriorConfig,
    files: &PriorFiles,
    supplied: &Option<Result<Vec<DeploymentOutcomePrior>, Error>>,
    first: Vec<DeploymentOutcomePrior>,
    second: Vec<DeploymentOutcomePrior>,
    third: Vec<DeploymentOutcomePrior>,
    result: Result<LoadedPriors, Error>,
)
    requires
        call_ensures(PriorConfig::settle_priors, (config, files, supplied), result),
        config.enabled,
        config.outcome_enabled,
        config.source_path is Some,
        config.outcome_path is Some,
        files.source == Some(Ok::<Vec<DeploymentOutcomePrior>, Error>(first)),
        *supplied == Some(Ok::<Vec<DeploymentOutcomePrior>, Error>(second)),
        files.outcome == Some(Ok::<Vec<DeploymentOutcomePrior>, Error>(third)),
    ensures
        result matches Ok(loaded) && loaded.degraded is None && prior_models(loaded.priors@)
            == prior_models(first@) + prior_models(second@) + prior_models(third@),
{
    assert(prior_models(first@) + (prior_models(second@) + prior_models(third@)) =~= prior_models(
        first@,
    ) + prior_models(second@) + prior_models(third@));
}

/// A plan is warned by a prior if and only if the prior is of a product of one
/// of its steps and the environment has the fact with that value. The warning
/// tells the product, the fact and the note.
pub proof fn warnings_are_of_matching_priors(
    steps: &Vec<Step>,
    facts: &TextMap<String>,
    priors: &Vec<DeploymentOutcomePrior>,
    warnings: Vec<String>,
    i: int,
    j: int,
)
    requires
        call_ensures(matching_prior_warnings, (steps, facts, priors), warnings),
        0 <= i < steps@.len(),
        0 <= j < priors@.len(),
        priors@[j].product@ == steps@[i].product@,
        facts@.contains_key(priors@[j].fact_key@),
        facts@[priors@[j].fact_key@]@ == priors@[j].fact_value@,
    ensures
        exists|k: int|
            0 <= k < warnings@.len() && contains_text(
                (#[trigger] warnings@[k])@,
                priors@[j].note@,
            ) && contains_text(warnings@[k]@, priors@[j].product@),
{
    let products = step_products(steps@);
    let known = text_values(facts@);
    let models = prior_models(priors@);
    let text = warning_text(models[j]);
    assert(products[i] == steps@[i].product@);
    assert(models[j] == priors@[j]@);
    assert(applies(products[i], known, models[j]));
    assert(prior_applies(products, known, models[j]));
    assert(warned(products, known, models, text));
    assert(texts(warnings@).contains(text));
    let k = choose|k: int| 0 <= k < texts(warnings@).len() && texts(warnings@)[k] == text;
    assert(warnings@[k]@ == text);
    lemma_warning_tells(models[j]);
}

proof fn lemma_warning_tells(prior: PriorModel)
    ensures
        contains_text(warning_text(prior), prior.note),
        contains_text(warning_text(prior), prior.product),
{
    let text = warning_text(prior);
    let start = "advisory prior for "@;
    let head = start + prior.product + " when "@ + prior.fact_key + "="@ + prior.fact_value
        + ": "@;
    assert(text.subrange(start.len() as int, (start.len() + prior.product.len()) as int)
        =~= prior.product);
    assert(crate::text::stands_at(text, prior.product, start.len() as int));
    assert(text.subrange(head.len() as int, (head.len() + prior.note.len()) as int)
        =~= prior.note);
    assert(crate::text::stands_at(text, prior.note, head.len() as int));
}

/// A plan that no prior speaks of is not warned.
pub proof fn no_warning_without_a_match(
    steps: &Vec<Step>,
    facts: &TextMap<String>,
    priors: &Vec<DeploymentOutcomePrior>,
    warnings: Vec<String>,
)
    requires
        call_ensures(matching_prior_warnings, (steps, facts, priors), warnings),
        forall|i: int, j: int|
            0 <= i < steps@.len() && 0 <= j < priors@.len() ==> (#[trigger] priors@[j]).product@
                != (#[trigger] steps@[i]).product@ || !facts@.contains_key(priors@[j].fact_key@)
                || facts@[priors@[j].fact_key@]@ != priors@[j].fact_value@,
    ensures
        warnings@.len() == 0,
{
    let products = step_products(steps@);
    let known = text_values(facts@);
    let models = prior_models(priors@);
    if warnings@.len() > 0 {
        let text = texts(warnings@)[0];
        assert(texts(warnings@).contains(text));
        assert(warned(products, known, models, text));
        let j = choose|j: int|
            0 <= j < models.len() && prior_applies(products, known, #[trigger] models[j])
                && warning_text(models[j]) == text;
        let i = choose|i: int|
            0 <= i < products.len() && applies(#[trigger] products[i], known, models[j]);
        assert(models[j] == priors@[j]@);
        assert(products[i] == steps@[i].product@);
    }
}

/// Priors never change what a plan does: its identity, inputs, steps and state
/// stay as they are, and it stays so altogether where priors are off or cannot
/// be loaded.
pub proof fn priors_only_annotate(
    plan: &mut Plan,
    env: &EnvironmentInspectReport,
    config: &PriorConfig,
    files: &PriorFiles,
    result: Result<(), Error>,
)
    requires
        call_ensures(annotate_plan_with_priors, (plan, env, config, files), result),
    ensures
        final(plan).id == old(plan).id,
        final(plan).content_id == old(plan).content_id,
        final(plan).environment == old(plan).environment,
        final(plan).inputs == old(plan).inputs,
        final(plan).steps == old(plan).steps,
        final(plan).state == old(plan).state,
        final(plan).gates_skipped == old(plan).gates_skipped,
        final(plan).maintenance_blocked == old(plan).maintenance_blocked,
        final(plan).recalled_recovery_reason == old(plan).recalled_recovery_reason,
        !config.enabled ==> result is Ok && *final(plan) == *old(plan),
        result is Err ==> *final(plan) == *old(plan),
{
}

proof fn lemma_all_priors(list: Seq<PriorModel>)
    ensures
        priors_refusal(list) is None <==> forall|i: int|
            0 <= i < list.len() ==> prior_refusal(#[trigger] list[i]) is None,
    decreases list.len(),
{
    if list.len() > 0 {
        let front = list.drop_last();
        lemma_all_priors(front);
        if priors_refusal(list) is None {
            assert forall|i: int| 0 <= i < list.len() implies prior_refusal(
                #[trigger] list[i],
            ) is None by {
                if i < front.len() {
                    assert(front[i] == list[i]);
                }
            }
        } else if forall|i: int| 0 <= i < list.len() ==> prior_refusal(#[trigger] list[i]) is None {
            assert forall|i: int| 0 <= i < front.len() implies prior_refusal(
                #[trigger] front[i],
            ) is None by {
                assert(front[i] == list[i]);
            }
            assert(prior_refusal(list[list.len() - 1]) is None);
        }
    }
}

/// A list of priors passes where each prior in it does.
pub proof fn lists_of_valid_priors(
    priors: &Vec<DeploymentOutcomePrior>,
    result: Result<(), Error>,
)
    requires
        call_ensures(validate_priors, (priors,), result),
    ensures
        result is Ok <==> forall|i: int|
            0 <= i < priors@.len() ==> prior_refusal((#[trigger] priors@[i])@) is None,
{
    let list = prior_models(priors@);
    lemma_all_priors(list);
    if priors_refusal(list) is None {
        assert forall|i: int| 0 <= i < priors@.len() implies prior_refusal(
            (#[trigger] priors@[i])@,
        ) is None by {
            assert(list[i] == priors@[i]@);
        }
    } else {
        let i = choose|i: int| 0 <= i < list.len() && prior_refusal(#[trigger] list[i]) is Some;
        assert(list[i] == priors@[i]@);
    }
}

/// A text with a bearer token, a token, a password or a private key in it looks
/// like a secret, wherever in the text it stands.
pub proof fn secrets_are_noticed(
    text: &str,
    word: Seq<char>,
    before: Seq<char>,
    behind: Seq<char>,
    answer: bool,
)
    requires
        call_ensures(looks_secret, (text,), answer),
        word == "bearer "@ || word == "token="@ || word == "password"@ || word == "private_key"@,
        text@ == before + word + behind,
    ensures
        answer,
{
    let at = before.len() as int;
    assert(text@.subrange(at, at + word.len()) =~= word);
    assert(crate::text::stands_at(text@, word, at));
}

/// A setting is on by one of a few words, and off without one.
pub proof fn settings_are_switched_on(value: Option<&str>, answer: bool)
    requires
        call_ensures(is_on, (value,), answer),
    ensures
        value is None ==> !answer,
        answer ==> value->0@ == "1"@ || value->0@ == "true"@ || value->0@ == "TRUE"@ || value->0@
            == "yes"@ || value->0@ == "on"@,
        value is Some && (value->0@ == "1"@ || value->0@ == "true"@ || value->0@ == "TRUE"@
            || value->0@ == "yes"@ || value->0@ == "on"@) ==> answer,
{
}

/// Loading without a source of past outcomes settles what the files hold, and
/// nothing else.
pub proof fn loading_settles_the_files(
    config: &PriorConfig,
    files: &PriorFiles,
    settled: Result<LoadedPriors, Error>,
    loaded: Result<LoadedPriors, Error>,
)
    requires
        call_ensures(
            PriorConfig::settle_priors,
            (config, files, &None::<Result<Vec<DeploymentOutcomePrior>, Error>>),
            settled,
        ),
        call_ensures(PriorConfig::load_priors, (config, files), loaded),
    ensures
        settled is Ok <==> loaded is Ok,
        settled is Err ==> settled->Err_0@ == loaded->Err_0@,
        settled is Ok ==> {
            &&& prior_models(settled->Ok_0.priors@) == prior_models(loaded->Ok_0.priors@)
            &&& refusal_text(settled->Ok_0.degraded) == refusal_text(loaded->Ok_0.degraded)
        },
{
}

/// A plan that priors speak of gets their warnings and a detail that says so;
/// one that they do not speak of stays as it is.
pub proof fn annotated_plans_carry_their_warnings(
    plan: &mut Plan,
    facts: &TextMap<String>,
    priors: &Vec<DeploymentOutcomePrior>,
    warnings: Vec<String>,
)
    requires
        call_ensures(annotate, (plan, facts, priors), ()),
        call_ensures(matching_prior_warnings, (&old(plan).steps, facts, priors), warnings),
    ensures
        warnings@.len() == 0 ==> *final(plan) == *old(plan),
        warnings@.len() > 0 ==> forall|text: Seq<char>| #[trigger]
            texts(final(plan).prior_warnings@).contains(text) <==> texts(warnings@).contains(text),
        final(plan).steps == old(plan).steps,
        final(plan).state == old(plan).state,
        final(plan).id == old(plan).id,
{
    let products = step_products(old(plan).steps@);
    let known = text_values(facts@);
    let models = prior_models(priors@);
    if warnings@.len() == 0 {
        assert forall|text: Seq<char>| !#[trigger] warned(products, known, models, text) by {
            if warned(products, known, models, text) {
                assert(texts(warnings@).contains(text));
            }
        }
    } else {
        let first = texts(warnings@)[0];
        assert(texts(warnings@).contains(first));
        assert(warned(products, known, models, first));
    }
}

/// Where past outcomes are off, nothing that is said of them counts: the priors
/// are those of the file, and none of them is missing.
pub proof fn outcomes_that_are_off_do_not_count(
    config: &PriorConfig,
    files: &PriorFiles,
    supplied: &Option<Result<Vec<DeploymentOutcomePrior>, Error>>,
    result: Result<LoadedPriors, Error>,
)
    requires
        call_ensures(PriorConfig::settle_priors, (config, files, supplied), result),
        config.enabled,
        !config.outcome_enabled,
    ensures
        config.source_path is None ==> result is Ok && result->Ok_0.priors@.len() == 0,
        config.source_path is Some && !(files.source matches Some(Err(_))) ==> result is Ok,
        result is Ok ==> result->Ok_0.degraded is None,
        result is Ok && config.source_path is Some ==> (files.source matches Some(Ok(first))
            ==> prior_models(result->Ok_0.priors@) == prior_models(first@)),
{
    if result is Ok {
        let none = Seq::<PriorModel>::empty();
        assert(prior_models(result->Ok_0.priors@).len() == result->Ok_0.priors@.len());
        if config.source_path is Some {
            if let Some(Ok(first)) = files.source {
                assert(prior_models(first@) + none =~= prior_models(first@));
            }
        }
    }
}

/// Past outcomes that are required must come from somewhere: without a source
/// and without a file of them the load fails, and only then where neither is
/// broken.
pub proof fn required_outcomes_must_be_there(
    config: &PriorConfig,
    files: &PriorFiles,
    supplied: &Option<Result<Vec<DeploymentOutcomePrior>, Error>>,
    result: Result<LoadedPriors, Error>,
)
    requires
        call_ensures(PriorConfig::settle_priors, (config, files, supplied), result),
        config.enabled,
        config.outcome_enabled,
        config.source_path is None,
        !(*supplied matches Some(Err(_))),
        !(files.outcome matches Some(Err(_))),
    ensures
        !config.outcome_required ==> result is Ok,
        config.outcome_required && config.outcome_path is Some ==> (result is Ok
            <==> files.outcome is Some),
        config.outcome_required && config.outcome_path is None ==> (result is Ok
            <==> *supplied is Some),
{
}

} // verus!
