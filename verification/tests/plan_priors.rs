use tenkai::environment::{EnvironmentInspectReport, EnvironmentLeaseInspect};
use tenkai::error::Error;
use tenkai::plan::{Action, Plan, PlanState, Step, PLAN_FORMAT_VERSION};
use tenkai::plan_priors::{
    annotate_plan_with_priors, annotate_plan_with_priors_and_outcome, file_priors, is_on,
    looks_secret, matching_prior_warnings, project_priors_from_outcome_events, validate_prior,
    DeploymentOutcomePrior, LocalEventSinkPriorSource, OutcomeEvent, OutcomePriorPayload,
    OutcomePriorSource, PriorConfig, PriorFiles, PriorSet, OUTCOME_PRIOR_SCHEMA,
    PRIOR_SET_SCHEMA,
};
use tenkai::text_map::TextMap;

fn step(product: &str) -> Step {
    Step {
        id: "s0".into(),
        order: 0,
        product: product.into(),
        action: Action::Upgrade,
        from: Some("1.0.0".into()),
        to: "1.1.0".into(),
        release_id: format!("tenkai:release:{product}@1.1.0"),
        release_digest: "d".into(),
        artifact_digest: "a".into(),
        workdir: ".".into(),
        restore: None,
    }
}

fn plan() -> Plan {
    Plan {
        format_version: PLAN_FORMAT_VERSION,
        id: "p".into(),
        content_id: "c".into(),
        environment: "local".into(),
        created_at: 1,
        inputs: Vec::new(),
        steps: vec![step("api")],
        state: PlanState::Computed,
        gates_skipped: None,
        status_detail: String::new(),
        maintenance_blocked: false,
        prior_warnings: Vec::new(),
        recalled_recovery_reason: None,
    }
}

fn facts() -> TextMap<String> {
    let mut facts = TextMap::new();
    facts.insert("architecture".to_string(), "x86_64".to_string());
    facts
}

fn environment() -> EnvironmentInspectReport {
    EnvironmentInspectReport {
        name: "local".into(),
        id: "tenkai:env:local".into(),
        description: String::new(),
        subscriptions: Vec::new(),
        facts: facts(),
        lease: EnvironmentLeaseInspect {
            held: false,
            owner: None,
            generation: None,
            expires_at_ms: None,
            status: "absent".into(),
        },
        latest_plan: None,
        execution_note: String::new(),
    }
}

fn no_files() -> PriorFiles {
    PriorFiles { source: None, outcome: None }
}

fn prior(note: &str, failure_count: u32) -> DeploymentOutcomePrior {
    DeploymentOutcomePrior {
        product: "api".into(),
        fact_key: "architecture".into(),
        fact_value: "x86_64".into(),
        note: note.into(),
        failure_count,
    }
}

#[test]
fn disabled_priors_leave_plan_unchanged() {
    let mut plan = plan();
    annotate_plan_with_priors(
        &mut plan,
        &environment(),
        &PriorConfig { enabled: false, ..PriorConfig::default() },
        &no_files(),
    )
    .unwrap();
    assert!(plan.prior_warnings.is_empty());
    assert!(plan.status_detail.is_empty());
}

#[test]
fn matching_prior_adds_advisory_warning() {
    let priors = vec![prior("historical install failures on this architecture", 3)];
    let warnings = matching_prior_warnings(&vec![step("api")], &facts(), &priors);
    assert_eq!(warnings.len(), 1);
    assert!(warnings[0].contains("advisory prior"));
    assert!(warnings[0].contains("api"));
    assert!(!warnings[0].contains("Bearer"));
    assert_eq!(
        warnings[0],
        "advisory prior for api when architecture=x86_64: historical install failures on this architecture (observed_failures=3)"
    );
    assert!(matching_prior_warnings(&vec![step("db")], &facts(), &priors).is_empty());
}

#[test]
fn prior_file_round_trip_rejects_secret_notes() {
    let set = |note: &str| PriorSet {
        schema: PRIOR_SET_SCHEMA.into(),
        priors: vec![DeploymentOutcomePrior {
            product: "api".into(),
            fact_key: "architecture".into(),
            fact_value: "arm64".into(),
            note: note.into(),
            failure_count: 1,
        }],
    };
    let loaded = file_priors(set("ok note")).unwrap();
    assert_eq!(loaded.len(), 1);
    assert!(file_priors(set("token=supersecret")).is_err());
}

fn event(note: &str, failure_count: u32) -> OutcomeEvent {
    OutcomeEvent {
        binding_fault: None,
        payload: Some(OutcomePriorPayload {
            schema: OUTCOME_PRIOR_SCHEMA.into(),
            product: "api".into(),
            fact_key: "architecture".into(),
            fact_value: "x86_64".into(),
            note: note.into(),
            failure_count,
        }),
    }
}

struct FixedSource(Vec<DeploymentOutcomePrior>);

impl OutcomePriorSource for FixedSource {
    fn load_outcome_priors(&self) -> Result<Vec<DeploymentOutcomePrior>, Error> {
        Ok(self.0.iter().map(|prior| prior.copy()).collect())
    }
}

fn outcome_config() -> PriorConfig {
    PriorConfig { enabled: true, outcome_enabled: true, ..PriorConfig::default() }
}

#[test]
fn project_priors_from_outcome_events_and_annotate() {
    let events = vec![event("provider-projected install failures", 2)];
    let priors = project_priors_from_outcome_events(&events).unwrap();
    assert_eq!(priors.len(), 1);
    assert_eq!(priors[0].product, "api");
    let source = FixedSource(priors);
    let mut plan = plan();
    annotate_plan_with_priors_and_outcome(
        &mut plan,
        &environment(),
        &outcome_config(),
        &no_files(),
        Some(&source),
    )
    .unwrap();
    assert_eq!(plan.prior_warnings.len(), 1);
    assert!(plan.prior_warnings[0].contains("provider-projected"));
    let sink = LocalEventSinkPriorSource { events };
    assert_eq!(sink.load_outcome_priors().unwrap().len(), 1);
}

struct Boom;

impl OutcomePriorSource for Boom {
    fn load_outcome_priors(&self) -> Result<Vec<DeploymentOutcomePrior>, Error> {
        Err(Error::fixed("provider unavailable"))
    }
}

#[test]
fn outcome_required_fails_closed_when_source_errors() {
    let mut config = outcome_config();
    config.outcome_required = true;
    let err = config
        .load_priors_with_outcome(&no_files(), Some(&Boom))
        .unwrap_err()
        .to_string();
    assert!(err.contains("provider unavailable"));
    config.outcome_required = false;
    let loaded = config.load_priors_with_outcome(&no_files(), Some(&Boom)).unwrap();
    assert!(loaded.priors.is_empty());
    assert!(loaded.degraded.unwrap().to_string().contains("provider unavailable"));
}

#[test]
fn outcome_payload_rejects_secret_notes() {
    assert!(project_priors_from_outcome_events(&vec![event("token=secret", 1)]).is_err());
    let mut unbound = event("fine", 1);
    unbound.binding_fault = Some("binding has no plan digest".into());
    assert!(project_priors_from_outcome_events(&vec![unbound]).is_err());
}

#[test]
fn secrets_are_found_whatever_their_case() {
    assert!(looks_secret("my password=1"));
    assert!(!looks_secret("failed to install"));
    assert!(validate_prior(&prior("Authorization: BEARER abc", 1)).is_err());
    assert!(validate_prior(&prior("PASSWORD=hunter2", 1)).is_err());
    assert!(validate_prior(&prior("install failed twice", 1)).is_ok());
    let mut blank = prior("note", 1);
    blank.product = " ".into();
    assert!(validate_prior(&blank).is_err());
}

#[test]
fn settings_turn_priors_on() {
    assert!(is_on(Some("1")));
    assert!(is_on(Some("true")));
    assert!(!is_on(Some("0")));
    assert!(!is_on(None));
    let config =
        PriorConfig::from_settings(Some("1"), Some("/p.json".into()), None, None, Some("true"));
    assert!(config.enabled && !config.outcome_enabled && config.outcome_required);
    let files = PriorFiles { source: Some(Ok(vec![prior("seen", 0)])), outcome: None };
    let loaded = config.load_priors(&files).unwrap();
    assert_eq!(loaded.priors, vec![prior("seen", 0)]);
    let broken = PriorFiles { source: Some(Err(Error::fixed("unreadable"))), outcome: None };
    assert_eq!(config.load_priors(&broken).unwrap_err().to_string(), "unreadable");
}

#[test]
fn annotation_tells_the_warnings_and_their_number() {
    let priors = || {
        project_priors_from_outcome_events(&vec![event("slow", 0), event("fails", 2)]).unwrap()
    };
    let warnings = matching_prior_warnings(&plan().steps, &environment().facts, &priors());
    assert_eq!(warnings.len(), 2);
    for (before, after) in [
        ("", "advisory prior warnings: 2"),
        ("held", "held; advisory prior warnings: 2"),
        ("advisory prior warnings: 7", "advisory prior warnings: 7"),
    ] {
        let mut annotated = plan();
        annotated.status_detail = before.into();
        annotate_plan_with_priors_and_outcome(
            &mut annotated,
            &environment(),
            &outcome_config(),
            &no_files(),
            Some(&FixedSource(priors())),
        )
        .unwrap();
        assert_eq!(annotated.prior_warnings, warnings);
        assert_eq!(annotated.status_detail, after);
    }
    let mut silent = plan();
    annotate_plan_with_priors_and_outcome(
        &mut silent,
        &environment(),
        &outcome_config(),
        &no_files(),
        Some(&FixedSource(Vec::new())),
    )
    .unwrap();
    assert_eq!(silent, plan());
}
