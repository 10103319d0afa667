use podman_lens::{
    reconcile_relationships, DiagnosticCode, InventoryFinding, NativeRelationship, ObservationField, ObservationOrigin,
    ObservationRecord, ObservedValue, ResourceIdentity, ResourceKind,
};

const ALL_KINDS: [ResourceKind; 6] = [
    ResourceKind::Container,
    ResourceKind::Pod,
    ResourceKind::Network,
    ResourceKind::Volume,
    ResourceKind::Image,
    ResourceKind::Secret,
];

fn observed<T>(value: T) -> ObservationField<T> {
    ObservationField::Observed(ObservedValue::new(value, ObservationOrigin::Configured))
}

fn record(kind: ResourceKind, id: &str, name: &str, relationships: Vec<NativeRelationship>) -> ObservationRecord {
    let mut r = ObservationRecord::new(ResourceIdentity::new(kind, id.to_string(), Some(name.to_string())));
    if kind == ResourceKind::Container || kind == ResourceKind::Pod {
        r.relationships = Some(observed(relationships));
    }
    r
}

fn relation(kind: ResourceKind, target: &str, path: &str) -> NativeRelationship {
    NativeRelationship::new(kind, target.to_string(), path.to_string())
}

fn summary(findings: &[InventoryFinding]) -> Vec<(DiagnosticCode, String, String)> {
    findings
        .iter()
        .map(|f| {
            (
                f.code(),
                f.resource().map(|r| r.id().to_string()).unwrap_or_default(),
                f.field_path().unwrap_or("").to_string(),
            )
        })
        .collect()
}

#[test]
fn consistent_relationships_produce_no_findings() {
    let records = vec![
        record(ResourceKind::Pod, "p1", "web-pod", vec![relation(ResourceKind::Container, "c1", "$.Containers[0].Id")]),
        record(
            ResourceKind::Container,
            "c1",
            "web",
            vec![relation(ResourceKind::Pod, "web-pod", "$.Pod"), relation(ResourceKind::Network, "frontend", "$.Networks")],
        ),
        record(ResourceKind::Network, "n1", "frontend", vec![]),
    ];
    let findings = reconcile_relationships(&records, &ALL_KINDS);
    assert_eq!(findings.len(), 3);
    assert!(findings.iter().all(|f| f.is_empty()));
}

#[test]
fn an_unresolved_relationship_is_reported_on_each_of_its_paths() {
    let records = vec![record(
        ResourceKind::Container,
        "c1",
        "web",
        vec![NativeRelationship::coalesced(
            ResourceKind::Network,
            vec![("missing".to_string(), "$.Networks.a".to_string()), ("missing".to_string(), "$.Networks.b".to_string())],
        )
        .unwrap()],
    )];
    let findings = reconcile_relationships(&records, &ALL_KINDS);
    assert_eq!(
        summary(&findings[0]),
        vec![
            (DiagnosticCode::UnresolvedRelationship, "c1".to_string(), "$.Networks.a".to_string()),
            (DiagnosticCode::UnresolvedRelationship, "c1".to_string(), "$.Networks.b".to_string()),
        ]
    );
    assert_eq!(findings[0][0].occurrence(), None);
}

#[test]
fn relationships_to_unavailable_sections_are_not_reported() {
    let records = vec![record(ResourceKind::Container, "c1", "web", vec![relation(ResourceKind::Network, "missing", "$.Networks")])];
    let findings = reconcile_relationships(&records, &[ResourceKind::Container, ResourceKind::Pod]);
    assert!(findings[0].is_empty());
}

#[test]
fn a_name_shared_by_two_resources_is_ambiguous() {
    let records = vec![
        record(ResourceKind::Container, "c1", "web", vec![relation(ResourceKind::Volume, "data", "$.Mounts[0].Name")]),
        record(ResourceKind::Volume, "v1", "data", vec![]),
        record(ResourceKind::Volume, "data", "other", vec![]),
    ];
    let findings = reconcile_relationships(&records, &ALL_KINDS);
    assert_eq!(
        summary(&findings[0]),
        vec![(DiagnosticCode::RelationshipAmbiguous, "c1".to_string(), "$.Mounts[0].Name".to_string())]
    );
}

#[test]
fn references_naming_different_resources_conflict() {
    let rel = NativeRelationship::coalesced(
        ResourceKind::Network,
        vec![("n1".to_string(), "$.NetworkMode".to_string()), ("n2".to_string(), "$.Networks".to_string())],
    )
    .unwrap();
    let records = vec![
        record(ResourceKind::Container, "c1", "web", vec![rel]),
        record(ResourceKind::Network, "n1", "front", vec![]),
        record(ResourceKind::Network, "n2", "back", vec![]),
    ];
    let findings = reconcile_relationships(&records, &ALL_KINDS);
    assert_eq!(
        summary(&findings[0]),
        vec![
            (DiagnosticCode::RelationshipConflict, "c1".to_string(), "$.NetworkMode".to_string()),
            (DiagnosticCode::RelationshipConflict, "c1".to_string(), "$.Networks".to_string()),
        ]
    );
}

#[test]
fn a_pod_listing_an_unknown_container_reports_its_membership() {
    let records = vec![record(ResourceKind::Pod, "p1", "web-pod", vec![relation(ResourceKind::Container, "gone", "$.Containers[0].Id")])];
    let findings = reconcile_relationships(&records, &ALL_KINDS);
    assert_eq!(
        summary(&findings[0]),
        vec![
            (DiagnosticCode::UnresolvedRelationship, "p1".to_string(), "$.Containers[0].Id".to_string()),
            (DiagnosticCode::PodMembershipConflict, "p1".to_string(), "$.Containers".to_string()),
        ]
    );
}

#[test]
fn one_sided_pod_membership_is_reported_on_both_sides() {
    let records = vec![
        record(ResourceKind::Pod, "p1", "one", vec![relation(ResourceKind::Container, "c1", "$.Containers[0].Id")]),
        record(ResourceKind::Pod, "p2", "two", vec![]),
        record(ResourceKind::Container, "c1", "web", vec![relation(ResourceKind::Pod, "p2", "$.Pod")]),
    ];
    let findings = reconcile_relationships(&records, &ALL_KINDS);
    assert_eq!(
        summary(&findings[0]),
        vec![(DiagnosticCode::PodMembershipConflict, "p1".to_string(), "$.PodMembership".to_string())]
    );
    assert!(findings[1].is_empty());
    assert_eq!(
        summary(&findings[2]),
        vec![(DiagnosticCode::PodMembershipConflict, "c1".to_string(), "$.PodMembership".to_string())]
    );
}

#[test]
fn membership_asserted_by_an_unavailable_section_is_not_compared() {
    let records = vec![
        record(ResourceKind::Pod, "p1", "one", vec![relation(ResourceKind::Container, "c1", "$.Containers[0].Id")]),
        record(ResourceKind::Container, "c1", "web", vec![]),
    ];
    let findings = reconcile_relationships(&records, &[ResourceKind::Container]);
    assert!(findings[0].is_empty());
    assert!(findings[1].is_empty());
}

fn image(id: &str, name: &str, aliases: &[&str]) -> ObservationRecord {
    let mut r = record(ResourceKind::Image, id, name, vec![]);
    r.image_aliases = Some(observed(aliases.iter().map(|a| a.to_string()).collect()));
    r
}

fn container_with_images(configured: &str, local: &str) -> ObservationRecord {
    let mut c = record(ResourceKind::Container, "c1", "web", vec![]);
    c.configured_image = Some(observed(configured.to_string()));
    c.local_image_id = Some(observed(local.to_string()));
    c
}

#[test]
fn a_container_whose_configured_and_local_images_differ_conflicts() {
    let records = vec![
        container_with_images("docker.io/library/nginx:latest", "sha-old"),
        image("sha-new", "nginx", &["docker.io/library/nginx:latest"]),
        image("sha-old", "nginx-old", &[]),
    ];
    let findings = reconcile_relationships(&records, &ALL_KINDS);
    assert_eq!(
        summary(&findings[0]),
        vec![(DiagnosticCode::RelationshipConflict, "c1".to_string(), "$.ImageName".to_string())]
    );
}

#[test]
fn a_container_running_its_configured_image_is_consistent() {
    let records = vec![
        container_with_images("docker.io/library/nginx:latest", "sha-new"),
        image("sha-new", "nginx", &["docker.io/library/nginx:latest"]),
    ];
    let findings = reconcile_relationships(&records, &ALL_KINDS);
    assert!(findings[0].is_empty());
    let unresolved = vec![container_with_images("unknown:tag", "sha-new"), image("sha-new", "nginx", &[])];
    assert!(reconcile_relationships(&unresolved, &ALL_KINDS)[0].is_empty());
}
