use podman_lens::{
    ArgumentArray, percent_encode, plan_deployment, render_deployment, shell_quote, ContainerIntent, DeploymentIntent,
    DeploymentResource, DeploymentResourceId, DiagnosticCode, ImageIntent, ObservedApiVersion, ObservedPodmanVersion,
    RenderStatus, RenderedHttpBody, RenderedHttpMethod, ResourceKind, SecretIntent, SensitiveInputReference, TargetProfile,
};

fn target(version: &str) -> TargetProfile {
    TargetProfile::new(ObservedPodmanVersion::parse(version).unwrap(), ObservedApiVersion::parse(version).unwrap()).unwrap()
}

fn id(kind: ResourceKind, name: &str) -> DeploymentResourceId {
    DeploymentResourceId::new(kind, name).unwrap()
}

fn reviewed() -> Vec<String> {
    vec!["5.4.0".to_string(), "6.1.0".to_string()]
}

fn application(version: &str) -> DeploymentIntent {
    let mut intent = DeploymentIntent::new(target(version));
    intent.add_resource(DeploymentResource::Image(
        ImageIntent::new(id(ResourceKind::Image, "application-image"), "registry.example.invalid/team/application:1").unwrap(),
    ));
    intent.add_resource(DeploymentResource::Container(
        ContainerIntent::new(id(ResourceKind::Container, "web"), id(ResourceKind::Image, "application-image")).unwrap(),
    ));
    intent
}

fn argv(values: &[String]) -> Vec<&str> {
    values.iter().map(String::as_str).collect()
}

#[test]
fn percent_encoding_keeps_unreserved_bytes_and_encodes_utf8() {
    assert_eq!(percent_encode("a-b_c.d~e"), "a-b_c.d~e");
    assert_eq!(percent_encode("a b/c:1"), "a%20b%2Fc%3A1");
    assert_eq!(percent_encode("ü"), "%C3%BC");
}

#[test]
fn shell_quoting_escapes_single_quotes() {
    assert_eq!(shell_quote("plain"), "'plain'");
    assert_eq!(shell_quote("it's"), "'it'\"'\"'s'");
}

#[test]
fn a_reviewed_target_renders_cli_and_libpod_forms_in_plan_order() {
    let outcome = plan_deployment(&application("6.1.0"));
    let plan = outcome.plan().expect("plan");
    let rendered = render_deployment(plan, &reviewed());
    assert!(rendered.is_success());
    assert!(rendered.findings().is_empty());
    let rendering = rendered.rendering().unwrap();
    assert_eq!(rendering.status(), RenderStatus::Exact);
    let operations = rendering.operations();
    assert_eq!(operations.len(), 3);
    assert_eq!(argv(operations[0].cli().argv()), vec!["image", "pull", "--policy=missing", "registry.example.invalid/team/application:1"]);
    assert_eq!(
        operations[0].libpod().path_and_query(),
        "/v6.1.0/libpod/images/pull?reference=registry.example.invalid%2Fteam%2Fapplication%3A1&policy=missing"
    );
    assert!(matches!(operations[0].libpod().body(), RenderedHttpBody::Empty));
    assert_eq!(operations[0].libpod().method(), RenderedHttpMethod::Post);
    assert_eq!(
        argv(operations[1].cli().argv()),
        vec!["container", "create", "--name", "web", "--pull=never", "registry.example.invalid/team/application:1"]
    );
    assert_eq!(operations[1].libpod().path_and_query(), "/v6.1.0/libpod/containers/create?name=web");
    assert!(matches!(operations[1].libpod().body(), RenderedHttpBody::Json(_)));
    assert_eq!(argv(operations[2].cli().argv()), vec!["container", "start", "web"]);
    assert_eq!(operations[2].libpod().path_and_query(), "/v6.1.0/libpod/containers/web/start");
    let script = rendering.shell_script();
    assert!(script.starts_with("#!/bin/sh\n"));
    assert!(script.contains("podman 'container' 'start' 'web'\n"));
}

#[test]
fn an_unreviewed_target_is_refused_with_one_finding() {
    let outcome = plan_deployment(&application("5.5.0"));
    let plan = outcome.plan().expect("plan");
    let rendered = render_deployment(plan, &reviewed());
    assert!(!rendered.is_success());
    assert_eq!(rendered.findings().len(), 1);
    assert_eq!(rendered.findings()[0].code(), DiagnosticCode::RenderingTargetMismatch);
    assert_eq!(rendered.findings()[0].field(), Some("target"));
}

#[test]
fn a_secret_is_deferred_and_read_from_a_numbered_script_input() {
    let mut intent = DeploymentIntent::new(target("6.1.0"));
    intent.add_resource(DeploymentResource::Secret(
        SecretIntent::new(id(ResourceKind::Secret, "db password"), SensitiveInputReference::new("vault://db").unwrap()).unwrap(),
    ));
    let outcome = plan_deployment(&intent);
    let plan = outcome.plan().expect("plan");
    let rendered = render_deployment(plan, &reviewed());
    let rendering = rendered.rendering().expect("rendering");
    assert_eq!(rendering.status(), RenderStatus::DeferredSensitiveInput);
    let operation = &rendering.operations()[0];
    assert_eq!(argv(operation.cli().argv()), vec!["secret", "create", "db password", "-"]);
    assert_eq!(operation.libpod().path_and_query(), "/v6.1.0/libpod/secrets/create?name=db%20password");
    assert!(operation.cli().external_input().is_some());
    let script = rendering.shell_script();
    assert!(script.contains(": \"${PODMAN_LENS_SECRET_INPUT_1:?set to a readable secret file path}\"\n"));
    assert!(script.contains("podman 'secret' 'create' 'db password' '-' < \"${PODMAN_LENS_SECRET_INPUT_1}\"\n"));
    assert!(!script.contains("vault://db"));
}

#[test]
fn a_container_with_secret_grants_is_blocked_with_a_field_finding() {
    let mut intent = application("6.1.0");
    let mut web = ContainerIntent::new(id(ResourceKind::Container, "api"), id(ResourceKind::Image, "application-image")).unwrap();
    web.add_secret(id(ResourceKind::Secret, "token")).unwrap();
    intent.add_resource(DeploymentResource::Container(web));
    intent.add_resource(DeploymentResource::Secret(
        SecretIntent::new(id(ResourceKind::Secret, "token"), SensitiveInputReference::new("vault://token").unwrap()).unwrap(),
    ));
    let outcome = plan_deployment(&intent);
    let plan = outcome.plan().expect("plan");
    let rendered = render_deployment(plan, &reviewed());
    assert!(!rendered.is_success());
    let findings = rendered.findings();
    assert_eq!(findings.len(), 1);
    assert_eq!(findings[0].code(), DiagnosticCode::RenderingUnsupported);
    assert_eq!(findings[0].field(), Some("secrets"));
    assert_eq!(findings[0].subject().unwrap().name(), "api");
}

#[test]
fn an_entrypoint_renders_as_a_compact_json_array_with_escaped_quotes() {
    let mut intent = DeploymentIntent::new(target("6.1.0"));
    intent.add_resource(DeploymentResource::Image(
        ImageIntent::new(id(ResourceKind::Image, "application-image"), "registry.example.invalid/team/application:1").unwrap(),
    ));
    let mut container =
        ContainerIntent::new(id(ResourceKind::Container, "web"), id(ResourceKind::Image, "application-image")).unwrap();
    let entrypoint = ArgumentArray::new(vec!["/bin/sh".to_string(), "-c".to_string(), "echo \"a\\b\"".to_string()]).unwrap();
    container.settings_mut().set_entrypoint(entrypoint).unwrap();
    intent.add_resource(DeploymentResource::Container(container));
    let outcome = plan_deployment(&intent);
    let plan = outcome.plan().expect("plan");
    let rendered = render_deployment(plan, &reviewed());
    let rendering = rendered.rendering().expect("rendering");
    let create = &rendering.operations()[1];
    let args = argv(create.cli().argv());
    let at = args.iter().position(|a| *a == "--entrypoint").expect("entrypoint flag");
    assert_eq!(args[at + 1], r#"["/bin/sh","-c","echo \"a\\b\""]"#);
}

#[test]
fn deployment_artifacts_record_each_rendered_operation() {
    let outcome = plan_deployment(&application("6.1.0"));
    let plan = outcome.plan().expect("plan");
    let rendered = render_deployment(plan, &reviewed());
    let rendering = rendered.rendering().expect("rendering");

    let first = podman_lens::artifact::deployment_v1::deployment(rendering);
    assert_eq!(first.schema_version(), 1);
    assert_eq!(first.status(), "exact");
    let data = first.data();
    assert!(data.connection.is_none());
    assert!(data.external_preconditions.is_empty());
    assert_eq!(data.operations.len(), 3);
    let pull = &data.operations[0];
    assert_eq!((pull.status, pull.action, pull.method), ("exact", "ensure_image", "POST"));
    assert_eq!((pull.resource.kind, pull.resource.name.as_str()), ("image", "application-image"));
    assert_eq!(pull.program, "podman");
    assert!(!pull.external_sensitive_input_required);
    assert!(matches!(pull.body, podman_lens::artifact::BodyArtifact::Empty));
    let create = &data.operations[1];
    assert_eq!((create.action, create.resource.kind, create.resource.name.as_str()), ("create", "container", "web"));
    assert_eq!(create.path_and_query, "/v6.1.0/libpod/containers/create?name=web");
    assert!(matches!(create.body, podman_lens::artifact::BodyArtifact::Json(_)));
    assert_eq!(data.operations[2].action, "start_container");

    let second = podman_lens::artifact::deployment_v2::deployment(rendering);
    assert_eq!(second.schema_version(), 2);
    assert!(!second.contains_protected_inline_environment());
    assert_eq!(second.data().operations.len(), 3);
}
