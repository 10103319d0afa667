use podman_lens::{
    plan_deployment, ContainerIntent, DeploymentIntent, DeploymentResource, DeploymentResourceId, DiagnosticCode,
    ExternalPrecondition, ImageIntent, ImagePullPolicy, ObservedApiVersion, ObservedPodmanVersion, PodIntent,
    ResourceKind, SemanticOperationAction, StartupDependency, TargetProfile,
};

fn target() -> TargetProfile {
    TargetProfile::new(ObservedPodmanVersion::parse("6.1.0").unwrap(), ObservedApiVersion::parse("6.1.0").unwrap()).unwrap()
}

fn id(kind: ResourceKind, name: &str) -> DeploymentResourceId {
    DeploymentResourceId::new(kind, name).unwrap()
}

fn image(name: &str) -> DeploymentResource {
    DeploymentResource::Image(ImageIntent::new(id(ResourceKind::Image, name), "registry.example.invalid/team/application:1").unwrap())
}

fn container(name: &str, image: &str) -> ContainerIntent {
    ContainerIntent::new(id(ResourceKind::Container, name), id(ResourceKind::Image, image)).unwrap()
}

fn steps(intent: &DeploymentIntent) -> Vec<(SemanticOperationAction, String)> {
    let outcome = plan_deployment(intent);
    let plan = outcome.plan().expect("plan");
    plan.operations().iter().map(|op| (op.id().action(), op.id().resource().name().to_string())).collect()
}

#[test]
fn single_image_intent_produces_one_operation() {
    let mut intent = DeploymentIntent::new(target());
    intent.add_resource(image("application-image"));
    let outcome = plan_deployment(&intent);
    assert!(outcome.is_success());
    let plan = outcome.plan().unwrap();
    assert_eq!(plan.operations().len(), 1);
    assert_eq!(plan.operations()[0].id().action(), SemanticOperationAction::EnsureImage);
    assert_eq!(plan.operations()[0].image_pull_policy(), Some(ImagePullPolicy::Missing));
    assert!(plan.operations()[0].depends_on().is_empty());
}

#[test]
fn external_network_is_a_precondition_and_not_an_operation() {
    let network = id(ResourceKind::Network, "existing-network");
    let mut app = container("application", "application-image");
    app.add_network(network.clone()).unwrap();
    let mut intent = DeploymentIntent::new(target());
    intent.add_resource(DeploymentResource::ExternalPrecondition(ExternalPrecondition::new(network).unwrap()));
    intent.add_resource(image("application-image"));
    intent.add_resource(DeploymentResource::Container(app));
    let outcome = plan_deployment(&intent);
    let plan = outcome.plan().unwrap();
    assert_eq!(plan.external_preconditions().len(), 1);
    assert_eq!(plan.external_preconditions()[0].identity().name(), "existing-network");
    assert_eq!(
        steps(&intent),
        vec![
            (SemanticOperationAction::EnsureImage, "application-image".to_string()),
            (SemanticOperationAction::Create, "application".to_string()),
            (SemanticOperationAction::StartContainer, "application".to_string()),
        ]
    );
    let create = &plan.operations()[1];
    assert_eq!(create.depends_on().len(), 1);
    assert_eq!(create.depends_on()[0].action(), SemanticOperationAction::EnsureImage);
    assert_eq!(create.image_pull_policy(), None);
}

#[test]
fn every_operation_follows_its_prerequisites() {
    let pod = id(ResourceKind::Pod, "pod");
    let mut p = PodIntent::new(pod.clone()).unwrap();
    p.add_member(id(ResourceKind::Container, "web")).unwrap();
    let mut web = container("web", "img");
    web.set_pod(pod).unwrap();
    let mut intent = DeploymentIntent::new(target());
    intent.add_resource(DeploymentResource::Container(web));
    intent.add_resource(DeploymentResource::Pod(p));
    intent.add_resource(image("img"));
    let outcome = plan_deployment(&intent);
    let plan = outcome.plan().unwrap();
    let ops = plan.operations();
    for (i, op) in ops.iter().enumerate() {
        for dep in op.depends_on() {
            assert!(ops[..i].iter().any(|earlier| earlier.id() == dep));
        }
    }
    assert_eq!(
        steps(&intent),
        vec![
            (SemanticOperationAction::EnsureImage, "img".to_string()),
            (SemanticOperationAction::Create, "pod".to_string()),
            (SemanticOperationAction::Create, "web".to_string()),
            (SemanticOperationAction::StartPod, "pod".to_string()),
        ]
    );
}

#[test]
fn repeated_identical_declaration_is_a_duplicate_with_its_count() {
    let mut intent = DeploymentIntent::new(target());
    intent.add_resource(image("img"));
    intent.add_resource(image("img"));
    let outcome = plan_deployment(&intent);
    assert!(outcome.plan().is_none());
    assert_eq!(outcome.findings().len(), 1);
    let f = &outcome.findings()[0];
    assert_eq!(f.code(), DiagnosticCode::DeploymentDuplicateResource);
    assert_eq!(f.count(), Some(2));
    assert_eq!(f.field(), Some("resources"));
}

#[test]
fn differing_declarations_of_one_identity_conflict() {
    let mut intent = DeploymentIntent::new(target());
    intent.add_resource(image("img"));
    intent.add_resource(DeploymentResource::Image(
        ImageIntent::new(id(ResourceKind::Image, "img"), "registry.example.invalid/team/other:2").unwrap(),
    ));
    intent.add_resource(image("img"));
    let outcome = plan_deployment(&intent);
    assert_eq!(outcome.findings().len(), 1);
    assert_eq!(outcome.findings()[0].code(), DiagnosticCode::DeploymentConflictingResource);
    assert_eq!(outcome.findings()[0].count(), Some(3));
}

#[test]
fn missing_image_is_an_unresolved_prerequisite() {
    let mut intent = DeploymentIntent::new(target());
    intent.add_resource(DeploymentResource::Container(container("app", "absent")));
    let outcome = plan_deployment(&intent);
    assert!(!outcome.is_success());
    assert_eq!(outcome.findings().len(), 1);
    let f = &outcome.findings()[0];
    assert_eq!(f.code(), DiagnosticCode::DeploymentUnresolvedPrerequisite);
    assert_eq!(f.subject().unwrap().name(), "app");
    assert_eq!(f.related()[0].name(), "absent");
    assert_eq!(f.field(), Some("image"));
}

#[test]
fn unportable_image_reference_is_rejected_at_declaration() {
    let err = ImageIntent::new(id(ResourceKind::Image, "img"), "application:1").unwrap_err();
    assert_eq!(err.code(), DiagnosticCode::InvalidImageReference);
    assert!(ImageIntent::new(id(ResourceKind::Image, "img"), "registry.example.invalid/team/app@sha256:0123456789abcdef0123456789abcdef0123456789abcdef0123456789abcdef").is_ok());
}

#[test]
fn startup_cycle_is_reported_with_every_operation_on_it() {
    let mut intent = DeploymentIntent::new(target());
    intent.add_resource(image("img"));
    intent.add_resource(DeploymentResource::Container(container("a", "img")));
    intent.add_resource(DeploymentResource::Container(container("b", "img")));
    let a = id(ResourceKind::Container, "a");
    let b = id(ResourceKind::Container, "b");
    intent.add_startup_dependency(StartupDependency::new(a.clone(), b.clone()).unwrap());
    intent.add_startup_dependency(StartupDependency::new(b.clone(), a.clone()).unwrap());
    let outcome = plan_deployment(&intent);
    assert!(outcome.plan().is_none());
    assert_eq!(outcome.findings().len(), 1);
    let f = &outcome.findings()[0];
    assert_eq!(f.code(), DiagnosticCode::DeploymentCycle);
    assert_eq!(f.subject().unwrap().name(), "a");
    let names: Vec<&str> = f.related().iter().map(|r| r.name()).collect();
    assert_eq!(names, vec!["a", "b"]);
    assert_eq!(f.field(), Some("startup_dependencies"));
}

#[test]
fn startup_order_between_containers_is_respected() {
    let mut intent = DeploymentIntent::new(target());
    intent.add_resource(image("img"));
    intent.add_resource(DeploymentResource::Container(container("db", "img")));
    intent.add_resource(DeploymentResource::Container(container("api", "img")));
    intent.add_startup_dependency(
        StartupDependency::new(id(ResourceKind::Container, "db"), id(ResourceKind::Container, "api")).unwrap(),
    );
    assert_eq!(
        steps(&intent),
        vec![
            (SemanticOperationAction::EnsureImage, "img".to_string()),
            (SemanticOperationAction::Create, "api".to_string()),
            (SemanticOperationAction::Create, "db".to_string()),
            (SemanticOperationAction::StartContainer, "db".to_string()),
            (SemanticOperationAction::StartContainer, "api".to_string()),
        ]
    );
}

#[test]
fn repeated_startup_edge_is_a_duplicate_at_its_position() {
    let mut intent = DeploymentIntent::new(target());
    intent.add_resource(image("img"));
    intent.add_resource(DeploymentResource::Container(container("db", "img")));
    intent.add_resource(DeploymentResource::Container(container("api", "img")));
    let edge = || StartupDependency::new(id(ResourceKind::Container, "db"), id(ResourceKind::Container, "api")).unwrap();
    intent.add_startup_dependency(edge());
    intent.add_startup_dependency(edge());
    let outcome = plan_deployment(&intent);
    assert_eq!(outcome.findings().len(), 1);
    assert_eq!(outcome.findings()[0].code(), DiagnosticCode::DeploymentDuplicateResource);
    assert_eq!(outcome.findings()[0].occurrence(), Some(2));
}

#[test]
fn ordering_two_containers_of_one_pod_is_rejected() {
    let pod = id(ResourceKind::Pod, "pod");
    let mut p = PodIntent::new(pod.clone()).unwrap();
    p.add_member(id(ResourceKind::Container, "a")).unwrap();
    p.add_member(id(ResourceKind::Container, "b")).unwrap();
    let mut a = container("a", "img");
    a.set_pod(pod.clone()).unwrap();
    let mut b = container("b", "img");
    b.set_pod(pod).unwrap();
    let mut intent = DeploymentIntent::new(target());
    intent.add_resource(image("img"));
    intent.add_resource(DeploymentResource::Pod(p));
    intent.add_resource(DeploymentResource::Container(a));
    intent.add_resource(DeploymentResource::Container(b));
    intent.add_startup_dependency(
        StartupDependency::new(id(ResourceKind::Container, "a"), id(ResourceKind::Container, "b")).unwrap(),
    );
    let outcome = plan_deployment(&intent);
    assert_eq!(outcome.findings().len(), 1);
    assert_eq!(outcome.findings()[0].code(), DiagnosticCode::SamePodStartupDependency);
}

#[test]
fn findings_are_sorted_and_free_of_repeats() {
    let mut c = container("app", "absent");
    c.add_network(id(ResourceKind::Network, "n")).unwrap();
    c.add_network(id(ResourceKind::Network, "n")).unwrap();
    let mut intent = DeploymentIntent::new(target());
    intent.add_resource(DeploymentResource::Container(c));
    let outcome = plan_deployment(&intent);
    let codes: Vec<DiagnosticCode> = outcome.findings().iter().map(|f| f.code()).collect();
    assert_eq!(
        codes,
        vec![DiagnosticCode::DeploymentDuplicateResource, DiagnosticCode::DeploymentUnresolvedPrerequisite, DiagnosticCode::DeploymentUnresolvedPrerequisite]
    );
    // the two unresolved network references produce one finding, ordered before the image by kind
    assert_eq!(outcome.findings()[1].field(), Some("networks"));
    assert_eq!(outcome.findings()[2].field(), Some("image"));
}

#[test]
fn pod_member_that_does_not_name_the_pod_is_reported() {
    let pod = id(ResourceKind::Pod, "pod");
    let mut p = PodIntent::new(pod).unwrap();
    p.add_member(id(ResourceKind::Container, "web")).unwrap();
    let mut intent = DeploymentIntent::new(target());
    intent.add_resource(image("img"));
    intent.add_resource(DeploymentResource::Pod(p));
    intent.add_resource(DeploymentResource::Container(container("web", "img")));
    let outcome = plan_deployment(&intent);
    assert_eq!(outcome.findings().len(), 1);
    assert_eq!(outcome.findings()[0].code(), DiagnosticCode::DeploymentPodMembership);
    assert_eq!(outcome.findings()[0].field(), Some("members"));
}
