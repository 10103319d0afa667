use podman_lens::{
    AcquisitionAction, AcquisitionEvent, AcquisitionOptions, AcquisitionState, Diagnostic, DiagnosticCode, LibpodHeader,
    LibpodHeaders, LibpodResponse,
};

fn response(status: u16, headers: Vec<(&str, &str)>, body: &str) -> LibpodResponse {
    let headers = headers.into_iter().map(|(name, value)| LibpodHeader::new(name, value).unwrap()).collect();
    LibpodResponse::new(status, LibpodHeaders::new(headers), body.as_bytes().to_vec())
}

fn get_path(action: &AcquisitionAction) -> String {
    match action {
        AcquisitionAction::Get(path) => path.clone(),
        other => panic!("expected a request, got {other:?}"),
    }
}

fn probed_state() -> (AcquisitionState, AcquisitionAction) {
    let (mut state, action) = AcquisitionState::start(AcquisitionOptions::default());
    assert_eq!(get_path(&action), "/libpod/_ping");
    let action = state.step(AcquisitionEvent::Response(response(200, vec![("Libpod-API-Version", "5.4.0")], "OK")));
    assert_eq!(get_path(&action), "/v4.0.0/libpod/version");
    let body = r#"{"Components":[{"Name":"Podman Engine","Version":"5.4.0"}]}"#;
    let action = state.step(AcquisitionEvent::Response(response(200, vec![("Content-Type", "application/json")], body)));
    (state, action)
}

#[test]
fn acquisition_requests_probe_lists_then_inspects_in_order() {
    let (mut state, action) = probed_state();
    assert!(state.is_probed());
    let mut requests = vec![get_path(&action)];
    let json = vec![("Content-Type", "application/json")];
    let lists = [
        r#"[{"Id":"c1","Names":["web"]}]"#,
        "[]",
        "[]",
        "[]",
        "[]",
        "[]",
    ];
    let mut action = action;
    for body in lists {
        action = state.step(AcquisitionEvent::Response(response(200, json.clone(), body)));
        if let AcquisitionAction::Get(path) = &action {
            requests.push(path.clone());
        }
    }
    assert_eq!(
        requests,
        vec![
            "/v5.4.0/libpod/containers/json?all=true&sync=true",
            "/v5.4.0/libpod/pods/json",
            "/v5.4.0/libpod/networks/json",
            "/v5.4.0/libpod/volumes/json",
            "/v5.4.0/libpod/images/json?all=true",
            "/v5.4.0/libpod/secrets/json",
            "/v5.4.0/libpod/containers/c1/json",
        ]
    );
    // The inspect request fails in transport: a partial record, and the acquisition finishes.
    let action = state.step(AcquisitionEvent::TransportFailed(Diagnostic::new(DiagnosticCode::ResourceUnavailable)));
    assert!(matches!(action, AcquisitionAction::Finish));
    assert!(matches!(state.step(AcquisitionEvent::TransportFailed(Diagnostic::new(DiagnosticCode::ResourceUnavailable))), AcquisitionAction::Finish));
    let inventory = state.into_inventory().expect("a finished acquisition holds its inventory");
    assert_eq!(inventory.sections().len(), 6);
    let service = inventory.service().expect("an acquired inventory names its service");
    assert_eq!(service.engine_version().original(), "5.4.0");
    assert_eq!(service.api_version().original(), "5.4.0");
}

#[test]
fn a_probe_failure_stops_the_acquisition_without_retry() {
    let (mut state, _) = AcquisitionState::start(AcquisitionOptions::default());
    let action = state.step(AcquisitionEvent::Response(response(500, vec![], "")));
    match action {
        AcquisitionAction::Fail(diagnostic) => assert_eq!(diagnostic.code(), DiagnosticCode::ProbeHttpStatus),
        other => panic!("expected a failure, got {other:?}"),
    }
    let again = state.step(AcquisitionEvent::Response(response(200, vec![], "")));
    assert!(matches!(again, AcquisitionAction::Fail(_)));
    assert!(!state.is_probed());
    assert!(state.into_inventory().is_none());
}

#[test]
fn a_failed_list_request_still_lists_every_later_kind() {
    let (mut state, action) = probed_state();
    assert_eq!(get_path(&action), "/v5.4.0/libpod/containers/json?all=true&sync=true");
    let action = state.step(AcquisitionEvent::TransportFailed(Diagnostic::new(DiagnosticCode::ResourceUnavailable)));
    assert_eq!(get_path(&action), "/v5.4.0/libpod/pods/json");
}

fn probe_failure(action: AcquisitionAction) -> DiagnosticCode {
    match action {
        AcquisitionAction::Fail(diagnostic) => diagnostic.code(),
        other => panic!("expected a failure, got {other:?}"),
    }
}

#[test]
fn the_probe_path_follows_the_ping_header_and_each_rejection_has_its_rule() {
    let (mut legacy, _) = AcquisitionState::start(AcquisitionOptions::default());
    let action = legacy.step(AcquisitionEvent::Response(response(200, vec![("Libpod-API-Version", "3.4.4")], "OK")));
    assert_eq!(get_path(&action), "/v3.4.4/libpod/version");
    assert_eq!(legacy.api_version().map(|v| v.original().to_string()), Some("3.4.4".to_string()));

    let (mut headerless, _) = AcquisitionState::start(AcquisitionOptions::default());
    let action = headerless.step(AcquisitionEvent::Response(response(200, vec![], "OK")));
    assert_eq!(probe_failure(action), DiagnosticCode::ProbeHeader);

    let (mut unreachable, _) = AcquisitionState::start(AcquisitionOptions::default());
    let action = unreachable.step(AcquisitionEvent::TransportFailed(Diagnostic::new(DiagnosticCode::ResourceUnavailable)));
    assert_eq!(probe_failure(action), DiagnosticCode::ResourceUnavailable);
}

#[test]
fn the_version_probe_accepts_parameterised_json_and_bounds_its_body() {
    let (mut state, _) = AcquisitionState::start(AcquisitionOptions::default());
    state.step(AcquisitionEvent::Response(response(200, vec![("Libpod-API-Version", "4.9.4")], "OK")));
    let body = r#"{"Components":[{"Name":"Podman Engine","Version":"4.9.4"}]}"#;
    let action = state.step(AcquisitionEvent::Response(response(200, vec![("Content-Type", "Application/Json; charset=utf-8")], body)));
    assert_eq!(get_path(&action), "/v4.9.4/libpod/containers/json?all=true&sync=true");
    assert_eq!(state.engine_version().map(|v| v.original().to_string()), Some("4.9.4".to_string()));

    let (mut spaces, _) = AcquisitionState::start(AcquisitionOptions::default());
    spaces.step(AcquisitionEvent::Response(response(200, vec![("Libpod-API-Version", "4.9.4")], "OK")));
    let padded = " ".repeat(65_537);
    let action = spaces.step(AcquisitionEvent::Response(response(200, vec![("Content-Type", "application/json")], &padded)));
    assert_eq!(probe_failure(action), DiagnosticCode::ProbeJson);

    let (mut text, _) = AcquisitionState::start(AcquisitionOptions::default());
    text.step(AcquisitionEvent::Response(response(200, vec![("Libpod-API-Version", "4.9.4")], "OK")));
    let action = text.step(AcquisitionEvent::Response(response(200, vec![("Content-Type", "text/plain")], body)));
    assert_eq!(probe_failure(action), DiagnosticCode::ProbeHeader);
}

#[test]
fn a_failed_listing_makes_only_its_section_unavailable() {
    let (mut state, _) = probed_state();
    let json = vec![("Content-Type", "application/json")];
    let mut action = state.step(AcquisitionEvent::TransportFailed(Diagnostic::new(DiagnosticCode::ResourceUnavailable)));
    for _ in 0..5 {
        assert!(matches!(action, AcquisitionAction::Get(_)));
        action = state.step(AcquisitionEvent::Response(response(200, json.clone(), "[]")));
    }
    assert!(matches!(action, AcquisitionAction::Finish));
    let inventory = state.into_inventory().expect("a finished acquisition holds its inventory");
    let sections = inventory.sections();
    assert_eq!(sections.len(), 6);
    assert!(!sections[0].is_available());
    assert!(sections[0].observations().is_empty());
    assert!(sections[1..].iter().all(|section| section.is_available()));
}

#[test]
fn the_service_observation_offers_a_target_only_for_a_reviewed_runtime() {
    let (state, _) = probed_state();
    let service = state.service().expect("a probed service");
    assert_eq!(service.engine_version().original(), "5.4.0");
    assert_eq!(service.api_version().original(), "5.4.0");
    assert!(service.output_target_profile().is_some());

    let (mut legacy, _) = AcquisitionState::start(AcquisitionOptions::default());
    assert!(legacy.service().is_none());
    legacy.step(AcquisitionEvent::Response(response(200, vec![("Libpod-API-Version", "3.4.4")], "OK")));
    let body = r#"{"Components":[{"Name":"Podman Engine","Version":"3.4.4"}]}"#;
    legacy.step(AcquisitionEvent::Response(response(200, vec![("Content-Type", "application/json")], body)));
    let service = legacy.service().expect("a probed service");
    assert_eq!(service.engine_version().original(), "3.4.4");
    assert!(service.output_target_profile().is_none());
}
