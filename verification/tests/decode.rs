use podman_lens::{
    decode_list, decode_observation, inspect_observation, AcquisitionOptions, DiagnosticCode, InventoryFinding,
    JsonValueKind, LibpodHeader, LibpodHeaders, LibpodResponse, ObservationField, ObservationOrigin, ProtectedEnvironmentValue,
    ResourceIdentity, ResourceKind, ResourceObservationState, UnmodelledCompleteness, UnmodelledFieldId,
    VolumeOwnerIdWireValue,
};

fn json_response(status: u16, body: &str) -> LibpodResponse {
    let headers = LibpodHeaders::new(vec![LibpodHeader::new("Content-Type", "application/json").unwrap()]);
    LibpodResponse::new(status, headers, body.as_bytes().to_vec())
}

fn listed(kind: ResourceKind, id: &str, name: Option<&str>) -> ResourceIdentity {
    ResourceIdentity::new(kind, id.to_string(), name.map(|n| n.to_string()))
}

fn summary(findings: &[InventoryFinding]) -> Vec<(DiagnosticCode, String, Option<usize>)> {
    findings
        .iter()
        .map(|f| (f.code(), f.field_path().unwrap_or("").to_string(), f.occurrence()))
        .collect()
}

fn relationship_summary(field: &ObservationField<Vec<podman_lens::NativeRelationship>>) -> Vec<(ResourceKind, Vec<String>, Vec<String>)> {
    field
        .observed()
        .unwrap()
        .value()
        .iter()
        .map(|r| (r.kind(), r.references().to_vec(), r.field_paths().to_vec()))
        .collect()
}

#[test]
fn a_container_list_is_ordered_by_id_and_reports_repeated_and_malformed_entries() {
    let body = r#"[{"Id":"b","Names":["web"]},{"Id":"a","Names":[1,"db"]},{"Id":"a"},{"Names":["x"]},"junk"]"#;
    let section = decode_list(ResourceKind::Container, &json_response(200, body)).unwrap();
    let ids: Vec<(String, Option<String>)> = section
        .identities()
        .iter()
        .map(|i| (i.id().to_string(), i.name().map(|n| n.to_string())))
        .collect();
    assert_eq!(ids, vec![("a".to_string(), Some("db".to_string())), ("b".to_string(), Some("web".to_string()))]);
    let findings = section.findings();
    assert_eq!(findings.len(), 3);
    assert_eq!(findings[0].code(), DiagnosticCode::ResourceMalformed);
    assert_eq!(findings[0].resource().unwrap().id(), "a");
    assert!(findings[1].resource().is_none());
    assert!(findings[2].resource().is_none());
}

#[test]
fn a_volume_list_reads_the_volumes_member() {
    let section = decode_list(ResourceKind::Volume, &json_response(200, r#"{"Volumes":[{"Name":"data"}]}"#)).unwrap();
    assert_eq!(section.identities()[0].id(), "data");
    assert!(decode_list(ResourceKind::Volume, &json_response(200, r#"{"Volumes":null}"#)).unwrap().identities().is_empty());
    assert!(decode_list(ResourceKind::Volume, &json_response(200, r#"[]"#)).unwrap().identities().is_empty());
    let error = decode_list(ResourceKind::Volume, &json_response(200, r#"{"Volumes":3}"#)).err().unwrap();
    assert_eq!(error.code(), DiagnosticCode::InventoryShape);
    let error = decode_list(ResourceKind::Pod, &json_response(200, r#"{}"#)).err().unwrap();
    assert_eq!(error.code(), DiagnosticCode::InventoryShape);
}

#[test]
fn list_responses_are_checked_before_decoding() {
    let error = decode_list(ResourceKind::Pod, &json_response(500, "[]")).err().unwrap();
    assert_eq!(error.code(), DiagnosticCode::InventoryHttpStatus);
    let plain = LibpodHeaders::new(vec![LibpodHeader::new("Content-Type", "text/plain").unwrap()]);
    let error = decode_list(ResourceKind::Pod, &LibpodResponse::new(200, plain, b"[]".to_vec())).err().unwrap();
    assert_eq!(error.code(), DiagnosticCode::InventoryShape);
    let error = decode_list(ResourceKind::Pod, &json_response(200, "[")).err().unwrap();
    assert_eq!(error.code(), DiagnosticCode::InventoryJson);
}

const CONTAINER: &str = r#"{
    "Id": "c1",
    "Name": "web",
    "Image": "sha-local",
    "ImageName": "docker.io/library/nginx:latest",
    "Pod": "p1",
    "NetworkSettings": {"Networks": {"front": {}, "back": null}},
    "Mounts": [{"Type": "volume", "Name": "data"}, {"Type": "bind"}],
    "Dependencies": ["c2"],
    "Config": {"Labels": {"app": "web"}, "Env": ["A=1", "B=x=y"], "Secrets": [{"ID": "s1", "Name": "token"}]},
    "HostConfig": {"MemorySwappiness": null},
    "IsInfra": false,
    "Zeta": 1
}"#;

#[test]
fn a_container_document_decodes_every_relationship_in_source_order() {
    let identity = listed(ResourceKind::Container, "c1", Some("web"));
    let observation =
        decode_observation(&identity, &json_response(200, CONTAINER), AcquisitionOptions::redacted(), "5.4.0", 8).unwrap();
    assert_eq!(observation.state(), ResourceObservationState::Complete);
    let record = observation.record().unwrap();
    let rels = relationship_summary(record.relationships.as_ref().unwrap());
    let s = |v: &[&str]| v.iter().map(|x| x.to_string()).collect::<Vec<_>>();
    assert_eq!(
        rels,
        vec![
            (ResourceKind::Image, s(&["docker.io/library/nginx:latest"]), s(&["$.ImageName"])),
            (ResourceKind::Pod, s(&["p1"]), s(&["$.Pod"])),
            (ResourceKind::Network, s(&["back"]), s(&["$.NetworkSettings.Networks.back"])),
            (ResourceKind::Network, s(&["front"]), s(&["$.NetworkSettings.Networks.front"])),
            (ResourceKind::Volume, s(&["data"]), s(&["$.Mounts[0].Name"])),
            (ResourceKind::Container, s(&["c2"]), s(&["$.Dependencies[0]"])),
            (ResourceKind::Secret, s(&["s1", "token"]), s(&["$.Config.Secrets[0].ID", "$.Config.Secrets[0].Name"])),
        ]
    );
    assert_eq!(record.labels.observed().unwrap().value().get("app").unwrap(), "web");
    assert_eq!(record.local_image_id.as_ref().unwrap().observed().unwrap().origin(), ObservationOrigin::LocalResolution);
    assert!(matches!(record.memory_swappiness, Some(ObservationField::VersionInapplicable)));
    assert_eq!(*record.infra.as_ref().unwrap().observed().unwrap().value(), false);
    let env = record.environment.as_ref().unwrap().observed().unwrap().value();
    assert_eq!(env.entries().len(), 2);
    assert_eq!(env.entries()[1].name(), "B");
    assert!(matches!(env.entries()[1].value(), ProtectedEnvironmentValue::Redacted));
    assert_eq!(
        summary(observation.findings()),
        vec![
            (DiagnosticCode::VersionInapplicableField, "$.HostConfig.MemorySwappiness".to_string(), None),
            (DiagnosticCode::NativeFieldUnsupported, "$.Zeta".to_string(), None),
        ]
    );
    assert_eq!(observation.unmodelled_fields().len(), 1);
    assert_eq!(observation.unmodelled_fields()[0].json_kind(), JsonValueKind::Number);
    assert_eq!(*observation.unmodelled_fields()[0].id(), UnmodelledFieldId::ContainerTopLevel);
    assert_eq!(observation.unmodelled_completeness(), UnmodelledCompleteness::Complete);
}

#[test]
fn included_environment_values_stay_opaque_until_exposed() {
    let identity = listed(ResourceKind::Container, "c1", None);
    let observation = decode_observation(
        &identity,
        &json_response(200, CONTAINER),
        AcquisitionOptions::include_environment_values(),
        "5.5.0",
        8,
    )
    .unwrap();
    let record = observation.record().unwrap();
    assert!(matches!(record.memory_swappiness, Some(ObservationField::Absent)));
    let env = record.environment.as_ref().unwrap().observed().unwrap().value();
    match env.entries()[1].value() {
        ProtectedEnvironmentValue::AuthorizedOpaque(v) => assert_eq!(v.expose(|s| s.to_string()), "x=y"),
        _ => panic!("the value was authorized"),
    }
    assert_eq!(record.identity.name(), Some("web"));
}

#[test]
fn malformed_fields_are_reported_without_hiding_the_others() {
    let body = r#"{"Id":"c1","Config":{"Env":["=1",3]},"Mounts":[{"Name":"x"},{"Type":"volume"}],
        "NetworkSettings":{"Networks":{"n":[1]}},"HostConfig":{"MemorySwappiness":-1},"IsInfra":"no","Pod":""}"#;
    let identity = listed(ResourceKind::Container, "c1", None);
    let observation = decode_observation(&identity, &json_response(200, body), AcquisitionOptions::redacted(), "5.5.0", 0).unwrap();
    let record = observation.record().unwrap();
    assert!(record.relationships.as_ref().unwrap().is_malformed());
    assert!(record.environment.as_ref().unwrap().is_malformed());
    assert!(record.infra.as_ref().unwrap().is_malformed());
    assert!(record.memory_swappiness.as_ref().unwrap().is_malformed());
    assert!(record.configured_image.as_ref().map(|f| matches!(f, ObservationField::Absent)).unwrap());
    assert_eq!(
        summary(observation.findings()),
        vec![
            (DiagnosticCode::EnvironmentMalformed, "$.Config.Env".to_string(), Some(0)),
            (DiagnosticCode::EnvironmentMalformed, "$.Config.Env".to_string(), Some(1)),
            (DiagnosticCode::ResourceMalformed, "$.Pod".to_string(), None),
            (DiagnosticCode::ResourceMalformed, "$.NetworkSettings.Networks.n".to_string(), None),
            (DiagnosticCode::ResourceMalformed, "$.Mounts".to_string(), Some(0)),
            (DiagnosticCode::ResourceMalformed, "$.Mounts".to_string(), Some(1)),
            (DiagnosticCode::ResourceMalformed, "$.HostConfig.MemorySwappiness".to_string(), None),
            (DiagnosticCode::ResourceMalformed, "$.IsInfra".to_string(), None),
        ]
    );
}

#[test]
fn an_inspect_document_must_confirm_the_listed_identity() {
    let identity = listed(ResourceKind::Pod, "p1", None);
    let options = AcquisitionOptions::redacted();
    let error = decode_observation(&identity, &json_response(200, r#"{"Id":"p2"}"#), options, "5.5.0", 8).err().unwrap();
    assert_eq!(error.code(), DiagnosticCode::ResourceMalformed);
    let error = decode_observation(&identity, &json_response(200, r#"{"Name":"x"}"#), options, "5.5.0", 8).err().unwrap();
    assert_eq!(error.code(), DiagnosticCode::InventoryShape);
    let error = decode_observation(&identity, &json_response(200, r#"[]"#), options, "5.5.0", 8).err().unwrap();
    assert_eq!(error.code(), DiagnosticCode::InventoryShape);
}

#[test]
fn a_pod_lists_its_containers_and_networks() {
    let body = r#"{"Id":"p1","Name":"web-pod","Labels":{"tier":"front"},"Containers":[{"Id":"c1","Name":"x"},{"Name":"y"}],"Networks":["frontend"]}"#;
    let identity = listed(ResourceKind::Pod, "p1", None);
    let observation = decode_observation(&identity, &json_response(200, body), AcquisitionOptions::redacted(), "5.5.0", 8).unwrap();
    let record = observation.record().unwrap();
    assert_eq!(record.identity.name(), Some("web-pod"));
    assert!(record.relationships.as_ref().unwrap().is_malformed());
    assert_eq!(
        summary(observation.findings()),
        vec![
            (DiagnosticCode::ResourceMalformed, "$.Containers".to_string(), Some(1)),
            (DiagnosticCode::NativeFieldUnsupported, "$.Containers[0].Name".to_string(), None),
            (DiagnosticCode::NativeFieldUnsupported, "$.Containers[1].Name".to_string(), None),
        ]
    );
    assert_eq!(*observation.unmodelled_fields()[0].id(), UnmodelledFieldId::PodMember);
}

#[test]
fn volume_owner_ids_keep_their_wire_shape() {
    let identity = listed(ResourceKind::Volume, "data", None);
    let observation =
        decode_observation(&identity, &json_response(200, r#"{"Name":"data","GID":1000}"#), AcquisitionOptions::redacted(), "5.5.0", 8)
            .unwrap();
    let record = observation.record().unwrap();
    assert_eq!(
        *record.volume_owner_user.as_ref().unwrap().observed().unwrap().value(),
        VolumeOwnerIdWireValue::WireAbsentMayMeanZero
    );
    match record.volume_owner_group.as_ref().unwrap().observed().unwrap().value() {
        VolumeOwnerIdWireValue::Explicit(id) => assert_eq!(id.get(), 1000),
        VolumeOwnerIdWireValue::WireAbsentMayMeanZero => panic!("the group was present"),
    }
    assert_eq!(summary(observation.findings()), vec![(DiagnosticCode::VolumeOwnerDefaultAmbiguous, "$.UID".to_string(), None)]);
    let observation = decode_observation(
        &identity,
        &json_response(200, r#"{"Name":"data","UID":-1,"GID":4294967296}"#),
        AcquisitionOptions::redacted(),
        "5.5.0",
        8,
    )
    .unwrap();
    let record = observation.record().unwrap();
    assert!(record.volume_owner_user.as_ref().unwrap().is_malformed());
    assert!(record.volume_owner_group.as_ref().unwrap().is_malformed());
}

#[test]
fn a_secret_payload_is_discarded_and_reported() {
    let identity = listed(ResourceKind::Secret, "s1", None);
    let body = r#"{"ID":"s1","Spec":{"Name":"token","Driver":"file","SecretData":"c2VjcmV0"}}"#;
    let observation = decode_observation(&identity, &json_response(200, body), AcquisitionOptions::redacted(), "5.5.0", 8).unwrap();
    let record = observation.record().unwrap();
    assert_eq!(record.identity.name(), Some("token"));
    assert_eq!(record.secret_driver.as_ref().unwrap().observed().unwrap().value(), "file");
    assert_eq!(observation.findings()[0].code(), DiagnosticCode::SecretPayloadDiscarded);
    assert_eq!(observation.findings().len(), 1);
    let error = decode_observation(&identity, &json_response(200, r#"{"ID":"s1"}"#), AcquisitionOptions::redacted(), "5.5.0", 8)
        .err()
        .unwrap();
    assert_eq!(error.code(), DiagnosticCode::ResourceMalformed);
}

#[test]
fn unknown_fields_beyond_the_limit_mark_the_observation_incomplete() {
    let identity = listed(ResourceKind::Network, "n1", None);
    let body = r#"{"id":"n1","name":"front","driver":"bridge","dns_enabled":true,"internal":true,"options":{"mtu":"1500"},"subnets":[{"subnet":"10.0.0.0/24","gateway":"10.0.0.1"}]}"#;
    let observation = decode_observation(&identity, &json_response(200, body), AcquisitionOptions::redacted(), "5.5.0", 2).unwrap();
    assert_eq!(observation.unmodelled_completeness(), UnmodelledCompleteness::Incomplete);
    assert_eq!(
        summary(observation.findings()),
        vec![
            (DiagnosticCode::UnknownFieldOverflow, "$".to_string(), None),
            (DiagnosticCode::NativeFieldUnsupported, "$.dns_enabled".to_string(), None),
            (DiagnosticCode::NativeFieldUnsupported, "$.driver".to_string(), None),
        ]
    );
    let record = observation.record().unwrap();
    assert_eq!(record.network_options.as_ref().unwrap().observed().unwrap().value().keys(), &["mtu".to_string()]);
    assert_eq!(record.network_subnets.as_ref().unwrap().observed().unwrap().value(), &vec!["10.0.0.0/24".to_string()]);
    assert_eq!(*record.network_internal.as_ref().unwrap().observed().unwrap().value(), true);
}

#[test]
fn an_image_keeps_its_aliases_and_the_listed_name() {
    let identity = listed(ResourceKind::Image, "sha1", Some("nginx"));
    let body = r#"{"Id":"sha1","Names":["docker.io/library/nginx:latest",""],"Config":{"Env":["PATH=/bin"]}}"#;
    let observation = decode_observation(&identity, &json_response(200, body), AcquisitionOptions::redacted(), "5.5.0", 8).unwrap();
    let record = observation.record().unwrap();
    assert_eq!(record.identity.name(), Some("nginx"));
    assert!(record.image_aliases.as_ref().unwrap().is_malformed());
    assert_eq!(summary(observation.findings()), vec![(DiagnosticCode::ResourceMalformed, "$.Names".to_string(), Some(1))]);
}

#[test]
fn failed_or_missing_inspections_become_partial_observations() {
    let identity = listed(ResourceKind::Container, "c1", None);
    let options = AcquisitionOptions::redacted();
    let missing = inspect_observation(&identity, None, options, "5.5.0", 8);
    assert_eq!(missing.state(), ResourceObservationState::Unavailable);
    assert_eq!(missing.findings()[0].code(), DiagnosticCode::ResourceUnavailable);
    assert!(matches!(missing.record().unwrap().relationships, Some(ObservationField::Unavailable)));
    assert!(matches!(missing.record().unwrap().labels, ObservationField::Unavailable));
    let gone = inspect_observation(&identity, Some(&json_response(404, "{}")), options, "5.5.0", 8);
    assert_eq!(gone.state(), ResourceObservationState::Unavailable);
    let wrong = inspect_observation(&identity, Some(&json_response(200, r#"{"Id":"c9"}"#)), options, "5.5.0", 8);
    assert_eq!(wrong.state(), ResourceObservationState::Malformed);
    assert_eq!(wrong.findings()[0].code(), DiagnosticCode::ResourceMalformed);
    assert_eq!(wrong.unmodelled_completeness(), UnmodelledCompleteness::Incomplete);
    assert!(wrong.record().unwrap().relationships.as_ref().unwrap().is_malformed());
    let fine = inspect_observation(&identity, Some(&json_response(200, r#"{"Id":"c1"}"#)), options, "5.5.0", 8);
    assert_eq!(fine.state(), ResourceObservationState::Complete);
    assert!(fine.findings().is_empty());
}
