use podman_lens::{
    discover, DiagnosticCode, DiscoveryExplanationKind, ObservationRecord, DiscoveryRequest, DiscoveryRootOrigin,
    GroupingEvidence, LabelSelector, Labels, NativeRelationship, ObservationField, ObservationOrigin, ObservedValue,
    ResourceIdentity, ResourceKind, ResourceSelector,
};

fn identity(kind: ResourceKind, id: &str, name: &str) -> ResourceIdentity {
    ResourceIdentity::new(kind, id.to_string(), Some(name.to_string()))
}

fn relation(kind: ResourceKind, target: &str, path: &str) -> NativeRelationship {
    NativeRelationship::new(kind, target.to_string(), path.to_string())
}

fn record(kind: ResourceKind, id: &str, name: &str, relationships: Vec<NativeRelationship>) -> ObservationRecord {
    let mut r = ObservationRecord::new(identity(kind, id, name));
    if kind == ResourceKind::Container || kind == ResourceKind::Pod {
        r.relationships = Some(ObservationField::Observed(ObservedValue::new(relationships, ObservationOrigin::Configured)));
    }
    r
}

fn labelled(mut r: ObservationRecord, pairs: &[(&str, &str)]) -> ObservationRecord {
    let mut labels = Labels::new();
    for (k, v) in pairs {
        labels.insert(k.to_string(), v.to_string());
    }
    r.labels = ObservationField::Observed(ObservedValue::new(labels, ObservationOrigin::Configured));
    r
}

fn ids(list: &[ResourceIdentity]) -> Vec<String> {
    list.iter().map(|i| i.id().to_string()).collect()
}

fn pod_inventory() -> Vec<ObservationRecord> {
    vec![
        record(ResourceKind::Pod, "p1", "web-pod", vec![relation(ResourceKind::Container, "c1", "$.Containers[0].Id")]),
        record(
            ResourceKind::Container,
            "c1",
            "web",
            vec![relation(ResourceKind::Pod, "p1", "$.Pod"), relation(ResourceKind::Network, "n1", "$.NetworkSettings.Networks")],
        ),
        record(ResourceKind::Network, "n1", "frontend", vec![]),
    ]
}

#[test]
fn a_request_without_roots_is_rejected() {
    let request = DiscoveryRequest::new();
    let error = discover(&pod_inventory(), &request).err().unwrap();
    assert_eq!(error.code(), DiagnosticCode::InvalidDiscoveryRequest);
}

#[test]
fn wildcard_selectors_are_rejected() {
    assert_eq!(
        ResourceSelector::exact(ResourceKind::Container, "web*".to_string()).err().unwrap().code(),
        DiagnosticCode::InvalidDiscoveryRequest
    );
    assert!(ResourceSelector::exact(ResourceKind::Container, "".to_string()).is_err());
    assert!(ResourceSelector::exact(ResourceKind::Container, "a b".to_string()).is_err());
    assert!(LabelSelector::presence("app[1]".to_string()).is_err());
    let mut request = DiscoveryRequest::new();
    assert!(request.add_network_boundary_override("net?".to_string()).is_err());
    assert!(request.network_boundary_overrides().is_empty());
}

#[test]
fn pod_membership_groups_a_pod_with_its_container() {
    let mut request = DiscoveryRequest::new();
    request.select_all();
    let graph = discover(&pod_inventory(), &request).unwrap();
    assert_eq!(ids(graph.resolved_roots()), vec!["p1"]);
    assert_eq!(graph.groups().len(), 1);
    let group = &graph.groups()[0];
    assert_eq!(group.id().id(), "c1");
    assert_eq!(ids(group.members()), vec!["c1", "p1"]);
    assert_eq!(ids(group.prerequisites()), vec!["n1"]);
    let membership: Vec<_> = graph
        .grouping_edges()
        .iter()
        .filter(|e| matches!(e.evidence(), GroupingEvidence::PodMembership))
        .collect();
    assert_eq!(membership.len(), 1);
    assert_eq!(membership[0].left().id(), "c1");
    assert_eq!(membership[0].right().id(), "p1");
    assert_eq!(membership[0].field_paths(), &["$.Containers[0].Id".to_string(), "$.Pod".to_string()]);
    let deps: Vec<(String, String)> = graph
        .dependencies()
        .iter()
        .map(|d| (d.dependent().id().to_string(), d.prerequisite().id().to_string()))
        .collect();
    assert_eq!(deps, vec![("c1".to_string(), "p1".to_string()), ("c1".to_string(), "n1".to_string())]);
    assert!(graph.findings().is_empty());
    assert!(graph.all_requested());
}

fn shared_network_inventory() -> Vec<ObservationRecord> {
    vec![
        record(ResourceKind::Container, "a", "api", vec![relation(ResourceKind::Network, "net", "$.Networks.backend")]),
        record(ResourceKind::Container, "b", "batch", vec![relation(ResourceKind::Network, "backend", "$.Networks.backend")]),
        record(ResourceKind::Network, "net", "backend", vec![]),
    ]
}

#[test]
fn a_shared_network_is_a_boundary_not_a_merge() {
    let mut request = DiscoveryRequest::new();
    request.add_root(ResourceSelector::exact(ResourceKind::Container, "api".to_string()).unwrap());
    let graph = discover(&shared_network_inventory(), &request).unwrap();
    assert_eq!(graph.groups().len(), 1);
    assert_eq!(ids(graph.groups()[0].members()), vec!["a"]);
    assert_eq!(ids(graph.groups()[0].prerequisites()), vec!["net"]);
    assert!(graph
        .explanations()
        .iter()
        .any(|x| x.kind() == DiscoveryExplanationKind::StoppedSharedBoundary && x.resource().id() == "net"));
    assert!(graph.grouping_edges().is_empty());
}

#[test]
fn an_exact_network_override_crosses_to_its_consumers() {
    let mut request = DiscoveryRequest::new();
    request.add_root(ResourceSelector::exact(ResourceKind::Container, "api".to_string()).unwrap());
    request.add_network_boundary_override("backend".to_string()).unwrap();
    let graph = discover(&shared_network_inventory(), &request).unwrap();
    assert_eq!(graph.groups().len(), 2);
    assert_eq!(ids(graph.groups()[0].members()), vec!["a"]);
    assert_eq!(ids(graph.groups()[1].members()), vec!["b"]);
    assert_eq!(ids(graph.shared_prerequisites()), vec!["net"]);
    assert!(graph
        .explanations()
        .iter()
        .any(|x| x.kind() == DiscoveryExplanationKind::AuthorizedNetworkCrossing && x.resource().id() == "net"));
    assert!(graph.findings().is_empty());
}

#[test]
fn an_unused_override_is_reported() {
    let mut request = DiscoveryRequest::new();
    request.add_root(ResourceSelector::exact(ResourceKind::Network, "backend".to_string()).unwrap());
    request.add_network_boundary_override("net".to_string()).unwrap();
    let records = vec![record(ResourceKind::Network, "net", "backend", vec![])];
    let graph = discover(&records, &request).unwrap();
    assert_eq!(graph.groups().len(), 1);
    assert_eq!(ids(graph.groups()[0].members()), vec!["net"]);
    assert_eq!(graph.findings().len(), 1);
    assert_eq!(graph.findings()[0].code(), DiagnosticCode::BoundaryOverrideUnused);
    assert_eq!(graph.findings()[0].selector().unwrap().reference(), "net");
}

#[test]
fn a_selected_shared_resource_crosses_to_its_consumers() {
    let mut request = DiscoveryRequest::new();
    request.add_root(ResourceSelector::exact(ResourceKind::Network, "net".to_string()).unwrap());
    let graph = discover(&shared_network_inventory(), &request).unwrap();
    assert_eq!(graph.groups().len(), 2);
    assert!(graph
        .explanations()
        .iter()
        .any(|x| x.kind() == DiscoveryExplanationKind::AuthorizedSharedCrossing && x.resource().id() == "net"));
}

#[test]
fn unresolved_and_ambiguous_selectors_are_findings() {
    let records = vec![
        record(ResourceKind::Container, "x1", "dup", vec![]),
        record(ResourceKind::Container, "x2", "dup", vec![]),
    ];
    let mut request = DiscoveryRequest::new();
    request.add_root(ResourceSelector::exact(ResourceKind::Container, "dup".to_string()).unwrap());
    request.add_root(ResourceSelector::exact(ResourceKind::Container, "missing".to_string()).unwrap());
    let graph = discover(&records, &request).unwrap();
    assert!(graph.groups().is_empty());
    let codes: Vec<DiagnosticCode> = graph.findings().iter().map(|f| f.code()).collect();
    assert_eq!(codes, vec![DiagnosticCode::SelectorUnresolved, DiagnosticCode::SelectorAmbiguous]);
}

#[test]
fn compose_labels_group_and_conflicts_are_reported() {
    let compose = [
        ("com.docker.compose.project", "shop"),
        ("com.docker.compose.service", "web"),
        ("io.podman.compose.project", "shop"),
        ("io.podman.compose.service", "web"),
    ];
    let compose_db = [
        ("com.docker.compose.project", "shop"),
        ("com.docker.compose.service", "db"),
        ("io.podman.compose.project", "shop"),
        ("io.podman.compose.service", "db"),
    ];
    let records = vec![
        labelled(record(ResourceKind::Container, "w", "web", vec![]), &compose),
        labelled(record(ResourceKind::Container, "d", "db", vec![]), &compose_db),
        labelled(record(ResourceKind::Container, "z", "odd", vec![]), &[("com.docker.compose.project", "shop")]),
    ];
    let mut request = DiscoveryRequest::new();
    request.add_root(ResourceSelector::exact(ResourceKind::Container, "web".to_string()).unwrap());
    let graph = discover(&records, &request).unwrap();
    assert_eq!(graph.groups().len(), 1);
    assert_eq!(ids(graph.groups()[0].members()), vec!["d", "w"]);
    assert!(matches!(graph.grouping_edges()[0].evidence(), GroupingEvidence::ComposeOwnership { .. }));
    assert_eq!(graph.findings().len(), 1);
    assert_eq!(graph.findings()[0].code(), DiagnosticCode::AdvisoryLabelIncomplete);
    assert_eq!(graph.findings()[0].resource_identity().unwrap().id(), "z");
}

#[test]
fn label_roots_select_by_presence_and_by_value() {
    let records = vec![
        labelled(record(ResourceKind::Container, "a", "one", vec![]), &[("tier", "front")]),
        labelled(record(ResourceKind::Container, "b", "two", vec![]), &[("tier", "")]),
    ];
    let mut request = DiscoveryRequest::new();
    request.add_label_root(LabelSelector::exact("tier".to_string(), "".to_string()).unwrap());
    let graph = discover(&records, &request).unwrap();
    assert_eq!(ids(graph.resolved_roots()), vec!["b"]);
    let mut presence = DiscoveryRequest::new();
    presence.add_label_root(LabelSelector::presence("tier".to_string()).unwrap());
    let graph = discover(&records, &presence).unwrap();
    assert_eq!(ids(graph.resolved_roots()), vec!["a", "b"]);
    let origins: Vec<_> = graph.explanations().iter().filter_map(|x| x.root_origin()).collect();
    assert_eq!(origins, vec![DiscoveryRootOrigin::LabelSelector { position: 0 }, DiscoveryRootOrigin::LabelSelector { position: 0 }]);
    let mut missing = DiscoveryRequest::new();
    missing.add_label_root(LabelSelector::presence("owner".to_string()).unwrap());
    let graph = discover(&records, &missing).unwrap();
    assert_eq!(graph.findings()[0].code(), DiagnosticCode::SelectorUnresolved);
    assert!(graph.findings()[0].label_selector().is_some());
}

#[test]
fn an_unresolved_relationship_is_a_finding_with_its_path() {
    let records = vec![record(ResourceKind::Container, "c", "web", vec![relation(ResourceKind::Image, "nginx:1", "$.ImageName")])];
    let mut request = DiscoveryRequest::new();
    request.select_all();
    let graph = discover(&records, &request).unwrap();
    assert_eq!(graph.findings().len(), 1);
    assert_eq!(graph.findings()[0].code(), DiagnosticCode::UnresolvedRelationship);
    assert_eq!(graph.findings()[0].field_path(), Some("$.ImageName"));
    assert!(graph.dependencies().is_empty());
}

#[test]
fn the_last_record_of_an_identity_is_read() {
    let first = record(ResourceKind::Container, "c", "web", vec![relation(ResourceKind::Network, "n", "$.Networks.a")]);
    let second = record(ResourceKind::Container, "c", "web", vec![]);
    let net = record(ResourceKind::Network, "n", "net", vec![]);
    let mut request = DiscoveryRequest::new();
    request.add_root(ResourceSelector::exact(ResourceKind::Container, "web".to_string()).unwrap());
    let graph = discover(&[first, second, net], &request).unwrap();
    assert!(graph.dependencies().is_empty());
    assert!(graph.groups()[0].prerequisites().is_empty());
}

#[test]
fn labels_replace_values_by_key() {
    let mut labels = Labels::new();
    labels.insert("a".to_string(), "1".to_string());
    labels.insert("a".to_string(), "2".to_string());
    assert_eq!(labels.get("a").map(String::as_str), Some("2"));
    assert!(labels.get("b").is_none());
}

#[test]
fn coalesced_relationships_keep_distinct_references_and_every_path() {
    let rel = NativeRelationship::coalesced(
        ResourceKind::Secret,
        vec![("s1".to_string(), "$.Secrets[0].ID".to_string()), ("s1".to_string(), "$.Secrets[0].Name".to_string())],
    )
    .unwrap();
    assert_eq!(rel.references(), &["s1".to_string()]);
    assert_eq!(rel.field_paths().len(), 2);
    assert!(NativeRelationship::coalesced(ResourceKind::Secret, vec![]).is_none());
}
