use podman_lens::{
    decode_list, discover, inspect_observation, DiscoveryRequest, inspect_path, list_path, AcquisitionOptions, DiagnosticCode, InventorySection,
    InventorySectionAvailability, LibpodHeader, LibpodHeaders, LibpodResponse, ObservedApiVersion, ResourceIdentity,
    ResourceInventory, ResourceKind, UnknownFieldBudget, MAX_UNKNOWN_FIELDS_PER_RECORD,
};

fn json_response(status: u16, body: &str) -> LibpodResponse {
    let headers = LibpodHeaders::new(vec![LibpodHeader::new("Content-Type", "application/json").unwrap()]);
    LibpodResponse::new(status, headers, body.as_bytes().to_vec())
}

#[test]
fn request_paths_name_the_api_version_and_collection() {
    let api = ObservedApiVersion::parse_reported("5.4.0").unwrap();
    assert_eq!(list_path(&api, ResourceKind::Container), "/v5.4.0/libpod/containers/json?all=true&sync=true");
    assert_eq!(list_path(&api, ResourceKind::Image), "/v5.4.0/libpod/images/json?all=true");
    assert_eq!(list_path(&api, ResourceKind::Volume), "/v5.4.0/libpod/volumes/json");
    let identity = ResourceIdentity::new(ResourceKind::Secret, "abc".to_string(), None);
    assert_eq!(inspect_path(&api, &identity), "/v5.4.0/libpod/secrets/abc/json");
}

#[test]
fn the_unknown_field_budget_is_shared_and_capped_per_record() {
    let mut budget = UnknownFieldBudget::new();
    assert_eq!(budget.record_limit(), MAX_UNKNOWN_FIELDS_PER_RECORD);
    let identity = ResourceIdentity::new(ResourceKind::Volume, "v".to_string(), None);
    let body = r#"{"Name":"v","UID":0,"GID":0,"A":1,"B":2,"C":3}"#;
    let observation = inspect_observation(&identity, Some(&json_response(200, body)), AcquisitionOptions::redacted(), "5.5.0", 2);
    budget.spend(&observation);
    assert_eq!(observation.unmodelled_fields().len(), 2);
    assert_eq!(budget.record_limit(), MAX_UNKNOWN_FIELDS_PER_RECORD);
}

#[test]
fn a_failed_listing_makes_its_section_unavailable_or_malformed() {
    let malformed = InventorySection::unavailable(ResourceKind::Pod, DiagnosticCode::InventoryJson);
    assert_eq!(malformed.availability(), InventorySectionAvailability::Malformed);
    assert_eq!(malformed.findings()[0].code(), DiagnosticCode::InventoryJson);
    assert!(malformed.observations().is_empty());
    let unavailable = InventorySection::unavailable(ResourceKind::Pod, DiagnosticCode::InventoryHttpStatus);
    assert_eq!(unavailable.availability(), InventorySectionAvailability::Unavailable);
    assert!(!unavailable.is_available());
}

#[test]
fn assembling_an_inventory_reconciles_relationships_across_sections() {
    let options = AcquisitionOptions::redacted();
    let listing = decode_list(ResourceKind::Container, &json_response(200, r#"[{"Id":"c1","Names":["web"]}]"#)).unwrap();
    let identity = listing.identities()[0].clone();
    let container = inspect_observation(
        &identity,
        Some(&json_response(200, r#"{"Id":"c1","Pod":"p9","Mounts":[{"Type":"volume","Name":"data"}]}"#)),
        options,
        "5.5.0",
        8,
    );
    assert!(container.findings().is_empty());
    let containers = InventorySection::available(ResourceKind::Container, listing, vec![container]);
    let pods = decode_list(ResourceKind::Pod, &json_response(200, "[]")).unwrap();
    let pods = InventorySection::available(ResourceKind::Pod, pods, Vec::new());
    let volumes = InventorySection::unavailable(ResourceKind::Volume, DiagnosticCode::InventoryHttpStatus);
    let inventory = ResourceInventory::assemble(vec![containers, pods, volumes]);
    assert_eq!(inventory.sections().len(), 3);
    let observation = inventory.observation(&identity).unwrap();
    let codes: Vec<(DiagnosticCode, String)> = observation
        .findings()
        .iter()
        .map(|f| (f.code(), f.field_path().unwrap().to_string()))
        .collect();
    assert_eq!(codes, vec![(DiagnosticCode::UnresolvedRelationship, "$.Pod".to_string())]);
    assert!(observation.record().is_some());
    assert_eq!(inventory.observations().len(), 1);
    assert_eq!(inventory.section(ResourceKind::Volume).unwrap().availability(), InventorySectionAvailability::Unavailable);
    assert!(inventory.section(ResourceKind::Image).is_none());
    let records = inventory.into_records();
    assert_eq!(records.len(), 1);
    assert_eq!(records[0].identity.id(), "c1");
    let mut request = DiscoveryRequest::new();
    request.select_all();
    assert!(discover(&records, &request).is_ok());
}
