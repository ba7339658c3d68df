use tenkai::error::Error;
use tenkai::graph::{Decision, Object, ObjectChange};
use tenkai::maintenance::configuration::{
    after_execution, already_created, check_preview, check_repair, config_id, configure_params,
    confirm_update, correlation_change, decisions_since, decode_configuration,
    decode_governed_configuration, deferred_update, has_governed_evidence,
    initial_configuration, initial_step, missing_configuration, remove_window, require_empty,
    revision, set_window, settle_lease, CreationStatus, InitialStep, UpdateStep,
    WINDOWS_PROPERTY,
};
use tenkai::maintenance::{evaluate, weekday_values, Eligibility, Window};
use tenkai::ontology::{ACTION_CONFIGURE_MAINTENANCE, KIND_MAINTENANCE_CONFIG};
use tenkai::text_map::TextMap;

fn at(value: &str) -> i64 {
    let instant: chrono::DateTime<chrono::Utc> = value.parse().unwrap();
    instant.timestamp_millis()
}

fn window(identity: &str, timezone: &str, weekday: u32, start: &str, minutes: u32) -> Window {
    Window::new(identity, timezone, vec![weekday], start, minutes).unwrap()
}

#[test]
fn evaluates_recurring_window_in_its_timezone() {
    let windows = [window("weekday", "Europe/Berlin", 1, "09:00", 120)];
    assert!(matches!(
        evaluate(&windows, at("2026-07-20T08:30:00Z")),
        Eligibility::Open { ref window, .. } if window == "weekday"
    ));
    assert!(matches!(
        evaluate(&windows, at("2026-07-20T06:30:00Z")),
        Eligibility::Closed { .. }
    ));
}

#[test]
fn supports_windows_crossing_midnight() {
    let windows = [window("overnight", "UTC", 5, "23:00", 180)];
    assert!(matches!(
        evaluate(&windows, at("2026-07-18T01:00:00Z")),
        Eligibility::Open { .. }
    ));
}

#[test]
fn ambiguous_dst_boundary_fails_closed() {
    let windows = [window("dst", "Europe/Berlin", 7, "02:30", 30)];
    assert!(matches!(
        evaluate(&windows, at("2026-10-25T01:00:00Z")),
        Eligibility::Invalid { ref detail } if detail.contains("ambiguous")
    ));
}

#[test]
fn future_invalid_recurrence_fails_closed_when_no_window_is_open() {
    let windows = [window("dst", "Europe/Berlin", 7, "02:30", 30)];
    assert!(matches!(
        evaluate(&windows, at("2026-03-23T00:00:00Z")),
        Eligibility::Invalid { ref detail } if detail.contains("does not exist")
    ));
}

#[test]
fn future_dst_ambiguity_does_not_close_current_valid_occurrence() {
    let windows = [window("dst", "Europe/Berlin", 7, "02:30", 60)];
    assert!(matches!(
        evaluate(&windows, at("2026-10-18T00:45:00Z")),
        Eligibility::Open { .. }
    ));
}

#[test]
fn active_dst_ambiguity_overrides_another_open_window() {
    let windows = [
        window("always-open", "UTC", 7, "00:00", 24 * 60),
        window("dst", "Europe/Berlin", 7, "02:30", 60),
    ];
    assert!(matches!(
        evaluate(&windows, at("2026-10-25T00:45:00Z")),
        Eligibility::Invalid { ref detail } if detail.contains("ambiguous")
    ));
}

#[test]
fn active_skipped_dst_start_overrides_another_open_window() {
    let windows = [
        window("always-open", "UTC", 7, "00:00", 24 * 60),
        window("dst", "Europe/Berlin", 7, "02:30", 60),
    ];
    assert!(matches!(
        evaluate(&windows, at("2026-03-29T01:15:00Z")),
        Eligibility::Invalid { ref detail } if detail.contains("does not exist")
    ));
}

#[test]
fn duration_is_elapsed_time_across_dst_changes() {
    let windows = [window("spring", "Europe/Berlin", 7, "01:00", 120)];
    assert!(matches!(
        evaluate(&windows, at("2026-03-29T01:30:00Z")),
        Eligibility::Open { closes_at, .. } if closes_at == at("2026-03-29T02:00:00Z")
    ));
}

#[test]
fn the_next_opening_is_told() {
    let windows = [window("weekday", "UTC", 1, "09:00", 60)];
    assert_eq!(
        evaluate(&windows, at("2026-07-19T12:00:00Z")),
        Eligibility::Closed { next_opens_at: Some(at("2026-07-20T09:00:00Z")) }
    );
    assert_eq!(
        evaluate(&windows, at("2026-07-20T10:00:00Z")),
        Eligibility::Closed { next_opens_at: Some(at("2026-07-27T09:00:00Z")) }
    );
}

#[test]
fn rejects_invalid_rules() {
    assert!(Window::new("bad", "Mars/Olympus", vec![1], "09:00", 60).is_err());
    assert!(Window::new("bad", "UTC", vec![1, 1], "09:00", 60).is_err());
    assert!(weekday_values("mon,funday").is_err());
}

#[test]
fn rules_are_bounded() {
    assert_eq!(weekday_values("mon, SUN"), Ok(vec![1, 7]));
    assert!(Window::new("bad", "UTC", vec![8], "09:00", 60).is_err());
    assert!(Window::new("bad", "UTC", vec![], "09:00", 60).is_err());
    assert!(Window::new("bad", "UTC", vec![1], "24:00", 60).is_err());
    assert!(Window::new("bad", "UTC", vec![1], "9am", 60).is_err());
    assert!(Window::new("bad", "UTC", vec![1], "09:00", 0).is_err());
    assert!(Window::new("ok", "UTC", vec![1], "09:00", 10_080).is_ok());
    assert!(Window::new("bad", "UTC", vec![1], "09:00", 10_081).is_err());
    let mut invalid = window("later", "UTC", 1, "09:00", 60);
    invalid.timezone = "Mars/Olympus".into();
    assert!(matches!(
        evaluate(&[invalid], at("2026-07-20T09:30:00Z")),
        Eligibility::Invalid { .. }
    ));
}

fn configuration(properties: &[(&str, &str)]) -> Object {
    let mut map = TextMap::new();
    for (key, value) in properties {
        map.insert(key.to_string(), value.to_string());
    }
    Object {
        id: config_id("prod"),
        kind: KIND_MAINTENANCE_CONFIG.into(),
        name: String::new(),
        namespace: String::new(),
        external_id: String::new(),
        properties: map,
        created: 0,
        updated: 0,
    }
}

fn empty_configuration() -> Object {
    configuration(&[
        ("environment", "prod"),
        (WINDOWS_PROPERTY, "[]"),
        ("revision", &revision("[]")),
    ])
}

#[test]
fn maintenance_configuration_decodes() {
    assert_eq!(
        decode_configuration(&empty_configuration(), "prod", Some(Vec::new())).unwrap(),
        Vec::new()
    );
    assert!(decode_configuration(&empty_configuration(), "other", Some(Vec::new())).is_err());
    assert!(decode_configuration(&empty_configuration(), "prod", None).is_err());
    let stale = configuration(&[
        ("environment", "prod"),
        (WINDOWS_PROPERTY, "[]"),
        ("revision", "old"),
    ]);
    assert!(decode_configuration(&stale, "prod", Some(Vec::new())).is_err());
}

fn change(field: &str, value: &str, timestamp: i64) -> ObjectChange {
    ObjectChange {
        field: field.into(),
        new_value: value.into(),
        changed_by: "operator".into(),
        timestamp,
    }
}

#[test]
fn initial_unrestricted_configuration_requires_governed_bootstrap() {
    let configuration = empty_configuration();
    assert!(!has_governed_evidence(&configuration, &[], &[]));
    assert!(!has_governed_evidence(
        &configuration,
        &[],
        &[change("properties.windows", "[]", 0)]
    ));
}

const ENCODED: &str = "[{\"identity\":\"weekday\"}]";

fn governed() -> Object {
    configuration(&[
        ("environment", "prod"),
        (WINDOWS_PROPERTY, ENCODED),
        ("revision", &revision(ENCODED)),
        ("last_update_correlation", "update-1"),
    ])
}

fn decision() -> Decision {
    let mut evidence = TextMap::new();
    evidence.insert("decision".to_string(), "allow".to_string());
    evidence.insert("correlation".to_string(), "update-1".to_string());
    evidence.insert("environment".to_string(), "prod".to_string());
    evidence.insert(WINDOWS_PROPERTY.to_string(), ENCODED.to_string());
    evidence.insert("revision".to_string(), revision(ENCODED));
    Decision {
        actor: "operator".into(),
        action: ACTION_CONFIGURE_MAINTENANCE.into(),
        reason: "execute_action".into(),
        evidence,
        target_id: governed().id,
        timestamp: 100,
    }
}

#[test]
fn governed_configuration_rejects_later_direct_mutation() {
    let action_change = || change("properties.last_update_correlation", "update-1", 90);
    let older_change = || change("properties.last_update_correlation", "update-0", 50);
    assert!(has_governed_evidence(
        &governed(),
        &[decision()],
        &[older_change(), action_change()]
    ));
    let windows = || vec![window("weekday", "UTC", 1, "09:00", 60)];
    assert_eq!(
        decode_governed_configuration(
            &governed(),
            "prod",
            Some(windows()),
            &[decision()],
            &[action_change()]
        ),
        Ok(windows())
    );

    let mut direct_change = change("properties.windows", "", 101);
    direct_change.changed_by = "operator".into();
    assert!(!has_governed_evidence(
        &governed(),
        &[decision()],
        &[older_change(), direct_change, action_change()]
    ));
    let mut denied = decision();
    denied.evidence.insert("decision".to_string(), "deny".to_string());
    assert!(!has_governed_evidence(&governed(), &[denied], &[action_change()]));
}

#[test]
fn windows_are_set_and_removed_by_identity() {
    let windows = vec![window("a", "UTC", 1, "09:00", 60), window("b", "UTC", 2, "09:00", 60)];
    let changed = window("a", "UTC", 3, "10:00", 30);
    let (set, _) = set_window("prod", &windows, &changed);
    assert_eq!(set.len(), 2);
    assert_eq!(set.iter().find(|w| w.identity == "a"), Some(&changed));
    let (left, _) = remove_window("prod", &set, "a").unwrap();
    assert_eq!(left, vec![window("b", "UTC", 2, "09:00", 60)]);
    assert!(remove_window("prod", &left, "a").is_err());
}

#[test]
fn updates_are_confirmed_against_what_is_stored() {
    check_preview("allow").unwrap();
    assert!(check_preview("deny").is_err());
    assert_eq!(after_execution("allow"), UpdateStep::Confirm);
    assert!(matches!(after_execution("deny"), UpdateStep::Refuse { .. }));
    let windows = || vec![window("weekday", "UTC", 1, "09:00", 60)];
    let confirmed = |stored: Result<Vec<Window>, Error>| {
        confirm_update(&governed(), ENCODED, "update-1", stored, &windows(), false)
    };
    confirmed(Ok(windows())).unwrap();
    assert!(confirmed(Ok(Vec::new())).is_err());
    assert!(confirm_update(&governed(), ENCODED, "update-2", Ok(windows()), &windows(), false)
        .is_err());
}

#[test]
fn initial_configurations_are_empty() {
    let initial = initial_configuration("prod", 7);
    assert_eq!(initial.id, config_id("prod"));
    assert_eq!(initial.properties.text(WINDOWS_PROPERTY), Some("[]"));
    assert_eq!(initial_step(None), InitialStep::Create);
    assert_eq!(initial_step(Some(&governed())), InitialStep::CheckEvidence);
    require_empty("id", &[]).unwrap();
    assert!(require_empty("id", &[window("a", "UTC", 1, "09:00", 60)]).is_err());
    assert!(already_created(CreationStatus::AlreadyExists, ""));
    assert!(!already_created(CreationStatus::Other, "already exists"));
    assert!(check_repair("prod", false, false).is_err());
}

#[test]
fn a_lease_that_is_not_released_is_told() {
    let fault = |text: &str| Error::fixed(text);
    assert_eq!(settle_lease("l", Ok("done".to_string()), Ok(())), Ok("done".to_string()));
    assert_eq!(
        settle_lease("l", Err(fault("boom")), Ok(())).unwrap_err().to_string(),
        "boom"
    );
    assert!(settle_lease("l", Ok("done".to_string()), Err(fault("stuck")))
        .unwrap_err()
        .to_string()
        .contains("l"));
}

#[test]
fn evidence_is_looked_up_from_the_change_of_the_correlation() {
    let changes = [
        change("properties.windows", ENCODED, 90),
        change("properties.last_update_correlation", "update-1", 100),
    ];
    assert_eq!(correlation_change(&governed(), &changes), Some(1));
    assert_eq!(correlation_change(&governed(), &changes[..1]), None);
    assert_eq!(correlation_change(&empty_configuration(), &changes), None);
    assert_eq!(decisions_since(&changes[1]), 99);
    assert_eq!(decisions_since(&change("f", "v", i64::MIN)), i64::MIN);
}

#[test]
fn updates_carry_their_revision_and_correlation() {
    let params = configure_params("prod", ENCODED, "update-1");
    assert_eq!(params.len(), 5);
    assert_eq!(params.text("id"), Some(config_id("prod").as_str()));
    assert_eq!(params.text("environment"), Some("prod"));
    assert_eq!(params.text(WINDOWS_PROPERTY), Some(ENCODED));
    assert_eq!(params.text("revision"), Some(revision(ENCODED).as_str()));
    assert_eq!(params.text("correlation"), Some("update-1"));
}

#[test]
fn operators_are_told_what_to_do_about_an_update() {
    assert_eq!(
        deferred_update("a-1", true).to_string(),
        "maintenance-window update requires approval a-1; the pending update was cancelled"
    );
    assert_eq!(
        deferred_update("a-1", false).to_string(),
        "maintenance-window update requires approval a-1, and cancelling the stale update failed; do not approve it"
    );
    assert_eq!(
        missing_configuration("prod", true).to_string(),
        "maintenance configuration for prod is not initialized; rerun `tenkaictl env add prod`"
    );
    assert_eq!(
        missing_configuration("prod", false).to_string(),
        "maintenance configuration for prod is missing; run `tenkaictl env add prod` to initialize it"
    );
}

#[test]
fn covering_windows_open_until_the_last_of_them_closes() {
    let windows = [
        window("short", "UTC", 1, "09:00", 60),
        window("long", "UTC", 1, "08:00", 240),
        window("later", "UTC", 3, "08:00", 60),
    ];
    match evaluate(&windows, at("2026-07-13T09:30:00Z")) {
        Eligibility::Open { window, closes_at } => {
            assert_eq!(window, "long");
            assert_eq!(closes_at, at("2026-07-13T12:00:00Z"));
        }
        other => panic!("{other:?}"),
    }
    match evaluate(&windows, at("2026-07-13T13:00:00Z")) {
        Eligibility::Closed { next_opens_at } => {
            assert_eq!(next_opens_at, Some(at("2026-07-15T08:00:00Z")));
        }
        other => panic!("{other:?}"),
    }
}

#[test]
fn windows_that_need_no_local_day_are_evaluated_at_any_instant() {
    assert!(matches!(evaluate(&[], i64::MAX), Eligibility::Open { .. }));
    let nowhere = Window {
        timezone: "Nowhere/Else".into(),
        ..window("a", "UTC", 1, "09:00", 60)
    };
    assert!(matches!(evaluate(&[nowhere], i64::MIN), Eligibility::Invalid { .. }));
}
