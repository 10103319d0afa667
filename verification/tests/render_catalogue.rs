use podman_lens::{
    validate_renderer_catalogue, CapabilityCatalogueEntry, EvidenceReference, ModulePin, ReviewedFieldEvidence,
    ReviewedRenderingLine, ReviewedRenderingOperation, SourceReference,
};

#[derive(Clone, Copy)]
enum Src {
    Podman(&'static str),
    Common,
}

struct Claim {
    field: &'static str,
    operation: &'static str,
    flag: Option<&'static str>,
    shape: &'static str,
    member: &'static str,
    cli: Src,
    models: &'static [Src],
    handler: Src,
}

const CLAIMS: &[Claim] = &[
    Claim { field: "container-command", operation: "container-create", flag: None, shape: "argument-array", member: "command", cli: Src::Podman("cmd/podman/containers/create.go"), models: &[Src::Podman("pkg/specgen/specgen.go")], handler: Src::Podman("pkg/api/handlers/libpod/containers_create.go") },
    Claim { field: "container-entrypoint", operation: "container-create", flag: Some("--entrypoint"), shape: "argument-array", member: "entrypoint", cli: Src::Podman("cmd/podman/common/create.go"), models: &[Src::Podman("pkg/specgen/specgen.go")], handler: Src::Podman("pkg/api/handlers/libpod/containers_create.go") },
    Claim { field: "container-user", operation: "container-create", flag: Some("--user"), shape: "container-user", member: "user", cli: Src::Podman("cmd/podman/common/create.go"), models: &[Src::Podman("pkg/specgen/specgen.go")], handler: Src::Podman("pkg/api/handlers/libpod/containers_create.go") },
    Claim { field: "container-workdir", operation: "container-create", flag: Some("--workdir"), shape: "absolute-container-path", member: "work_dir", cli: Src::Podman("cmd/podman/common/create.go"), models: &[Src::Podman("pkg/specgen/specgen.go")], handler: Src::Podman("pkg/api/handlers/libpod/containers_create.go") },
    Claim { field: "container-hostname", operation: "container-create", flag: Some("--hostname"), shape: "hostname", member: "hostname", cli: Src::Podman("cmd/podman/common/create.go"), models: &[Src::Podman("pkg/specgen/specgen.go")], handler: Src::Podman("pkg/api/handlers/libpod/containers_create.go") },
    Claim { field: "container-label", operation: "container-create", flag: Some("--label"), shape: "label-assignment", member: "labels", cli: Src::Podman("cmd/podman/common/create.go"), models: &[Src::Podman("pkg/specgen/specgen.go")], handler: Src::Podman("pkg/api/handlers/libpod/containers_create.go") },
    Claim { field: "container-environment", operation: "container-create", flag: Some("--env"), shape: "environment-assignment", member: "env", cli: Src::Podman("cmd/podman/common/create.go"), models: &[Src::Podman("pkg/specgen/specgen.go")], handler: Src::Podman("pkg/api/handlers/libpod/containers_create.go") },
    Claim { field: "container-restart-policy", operation: "container-create", flag: Some("--restart"), shape: "restart-policy", member: "restart_policy", cli: Src::Podman("cmd/podman/common/create.go"), models: &[Src::Podman("pkg/specgen/specgen.go")], handler: Src::Podman("pkg/api/handlers/libpod/containers_create.go") },
    Claim { field: "container-named-volume-mount", operation: "container-create", flag: Some("--volume"), shape: "named-volume-mount", member: "volumes", cli: Src::Podman("cmd/podman/common/create.go"), models: &[Src::Podman("pkg/specgen/specgen.go"), Src::Podman("pkg/specgen/volumes.go")], handler: Src::Podman("pkg/api/handlers/libpod/containers_create.go") },
    Claim { field: "pod-infra-named-volume-mount", operation: "pod-create", flag: Some("--volume"), shape: "named-volume-mount", member: "volumes", cli: Src::Podman("cmd/podman/pods/create.go"), models: &[Src::Podman("pkg/specgen/podspecgen.go"), Src::Podman("pkg/specgen/volumes.go")], handler: Src::Podman("pkg/api/handlers/libpod/pods.go") },
    Claim { field: "container-network-attachment", operation: "container-create", flag: Some("--network"), shape: "network-attachment", member: "Networks", cli: Src::Podman("cmd/podman/common/netflags.go"), models: &[Src::Podman("pkg/specgen/specgen.go"), Src::Common], handler: Src::Podman("pkg/api/handlers/libpod/containers_create.go") },
    Claim { field: "pod-network-attachment", operation: "pod-create", flag: Some("--network"), shape: "network-attachment", member: "Networks", cli: Src::Podman("cmd/podman/pods/create.go"), models: &[Src::Podman("pkg/specgen/podspecgen.go"), Src::Common], handler: Src::Podman("pkg/api/handlers/libpod/pods.go") },
    Claim { field: "container-network-alias", operation: "container-create", flag: Some("--network"), shape: "network-alias", member: "Networks", cli: Src::Podman("cmd/podman/common/netflags.go"), models: &[Src::Podman("pkg/specgen/specgen.go"), Src::Common], handler: Src::Podman("pkg/api/handlers/libpod/containers_create.go") },
    Claim { field: "pod-network-alias", operation: "pod-create", flag: Some("--network"), shape: "network-alias", member: "Networks", cli: Src::Podman("cmd/podman/pods/create.go"), models: &[Src::Podman("pkg/specgen/podspecgen.go"), Src::Common], handler: Src::Podman("pkg/api/handlers/libpod/pods.go") },
    Claim { field: "container-network-static-ipv4", operation: "container-create", flag: Some("--network"), shape: "static-ip", member: "Networks", cli: Src::Podman("cmd/podman/common/netflags.go"), models: &[Src::Podman("pkg/specgen/specgen.go"), Src::Common], handler: Src::Podman("pkg/api/handlers/libpod/containers_create.go") },
    Claim { field: "pod-network-static-ipv4", operation: "pod-create", flag: Some("--network"), shape: "static-ip", member: "Networks", cli: Src::Podman("cmd/podman/pods/create.go"), models: &[Src::Podman("pkg/specgen/podspecgen.go"), Src::Common], handler: Src::Podman("pkg/api/handlers/libpod/pods.go") },
    Claim { field: "container-network-static-ipv6", operation: "container-create", flag: Some("--network"), shape: "static-ip", member: "Networks", cli: Src::Podman("cmd/podman/common/netflags.go"), models: &[Src::Podman("pkg/specgen/specgen.go"), Src::Common], handler: Src::Podman("pkg/api/handlers/libpod/containers_create.go") },
    Claim { field: "pod-network-static-ipv6", operation: "pod-create", flag: Some("--network"), shape: "static-ip", member: "Networks", cli: Src::Podman("cmd/podman/pods/create.go"), models: &[Src::Podman("pkg/specgen/podspecgen.go"), Src::Common], handler: Src::Podman("pkg/api/handlers/libpod/pods.go") },
    Claim { field: "container-network-static-mac", operation: "container-create", flag: Some("--network"), shape: "static-mac", member: "Networks", cli: Src::Podman("cmd/podman/common/netflags.go"), models: &[Src::Podman("pkg/specgen/specgen.go"), Src::Common], handler: Src::Podman("pkg/api/handlers/libpod/containers_create.go") },
    Claim { field: "pod-network-static-mac", operation: "pod-create", flag: Some("--network"), shape: "static-mac", member: "Networks", cli: Src::Podman("cmd/podman/pods/create.go"), models: &[Src::Podman("pkg/specgen/podspecgen.go"), Src::Common], handler: Src::Podman("pkg/api/handlers/libpod/pods.go") },
    Claim { field: "container-port-mapping", operation: "container-create", flag: Some("--publish"), shape: "port-mapping", member: "portmappings", cli: Src::Podman("cmd/podman/common/netflags.go"), models: &[Src::Podman("pkg/specgen/specgen.go"), Src::Common], handler: Src::Podman("pkg/api/handlers/libpod/containers_create.go") },
    Claim { field: "pod-port-mapping", operation: "pod-create", flag: Some("--publish"), shape: "port-mapping", member: "portmappings", cli: Src::Podman("cmd/podman/pods/create.go"), models: &[Src::Podman("pkg/specgen/podspecgen.go"), Src::Common], handler: Src::Podman("pkg/api/handlers/libpod/pods.go") },
    Claim { field: "container-dns-servers", operation: "container-create", flag: Some("--dns"), shape: "dns-server", member: "dns_server", cli: Src::Podman("cmd/podman/common/netflags.go"), models: &[Src::Podman("pkg/specgen/specgen.go")], handler: Src::Podman("pkg/api/handlers/libpod/containers_create.go") },
    Claim { field: "container-dns-search", operation: "container-create", flag: Some("--dns-search"), shape: "dns-search", member: "dns_search", cli: Src::Podman("cmd/podman/common/netflags.go"), models: &[Src::Podman("pkg/specgen/specgen.go")], handler: Src::Podman("pkg/api/handlers/libpod/containers_create.go") },
    Claim { field: "container-dns-options", operation: "container-create", flag: Some("--dns-option"), shape: "dns-option", member: "dns_option", cli: Src::Podman("cmd/podman/common/netflags.go"), models: &[Src::Podman("pkg/specgen/specgen.go")], handler: Src::Podman("pkg/api/handlers/libpod/containers_create.go") },
    Claim { field: "pod-dns-servers", operation: "pod-create", flag: Some("--dns"), shape: "dns-server", member: "dns_server", cli: Src::Podman("cmd/podman/pods/create.go"), models: &[Src::Podman("pkg/specgen/podspecgen.go")], handler: Src::Podman("pkg/api/handlers/libpod/pods.go") },
    Claim { field: "pod-dns-search", operation: "pod-create", flag: Some("--dns-search"), shape: "dns-search", member: "dns_search", cli: Src::Podman("cmd/podman/pods/create.go"), models: &[Src::Podman("pkg/specgen/podspecgen.go")], handler: Src::Podman("pkg/api/handlers/libpod/pods.go") },
    Claim { field: "pod-dns-options", operation: "pod-create", flag: Some("--dns-option"), shape: "dns-option", member: "dns_option", cli: Src::Podman("cmd/podman/pods/create.go"), models: &[Src::Podman("pkg/specgen/podspecgen.go")], handler: Src::Podman("pkg/api/handlers/libpod/pods.go") },
    Claim { field: "container-host-alias", operation: "container-create", flag: Some("--add-host"), shape: "host-alias", member: "hostadd", cli: Src::Podman("cmd/podman/common/netflags.go"), models: &[Src::Podman("pkg/specgen/specgen.go")], handler: Src::Podman("pkg/api/handlers/libpod/containers_create.go") },
    Claim { field: "pod-host-alias", operation: "pod-create", flag: Some("--add-host"), shape: "host-alias", member: "hostadd", cli: Src::Podman("cmd/podman/pods/create.go"), models: &[Src::Podman("pkg/specgen/podspecgen.go")], handler: Src::Podman("pkg/api/handlers/libpod/pods.go") },
    Claim { field: "container-network-order", operation: "container-create", flag: Some("--network"), shape: "network-order", member: "networkOrder", cli: Src::Podman("cmd/podman/common/netflags.go"), models: &[Src::Podman("pkg/specgen/specgen.go"), Src::Podman("pkg/specgen/namespaces.go")], handler: Src::Podman("pkg/api/handlers/libpod/containers_create.go") },
    Claim { field: "network-ipam-subnet", operation: "network-create", flag: Some("--subnet"), shape: "network-subnet", member: "subnets", cli: Src::Podman("cmd/podman/networks/create.go"), models: &[Src::Common], handler: Src::Podman("pkg/api/handlers/libpod/networks.go") },
    Claim { field: "network-ipam-gateway", operation: "network-create", flag: Some("--gateway"), shape: "network-gateway", member: "subnets", cli: Src::Podman("cmd/podman/networks/create.go"), models: &[Src::Common], handler: Src::Podman("pkg/api/handlers/libpod/networks.go") },
    Claim { field: "network-ipam-range", operation: "network-create", flag: Some("--ip-range"), shape: "network-ip-range", member: "subnets", cli: Src::Podman("cmd/podman/networks/create.go"), models: &[Src::Common], handler: Src::Podman("pkg/api/handlers/libpod/networks.go") },
    Claim { field: "network-route-destination", operation: "network-create", flag: Some("--route"), shape: "network-route", member: "routes", cli: Src::Podman("cmd/podman/networks/create.go"), models: &[Src::Common], handler: Src::Podman("pkg/api/handlers/libpod/networks.go") },
    Claim { field: "network-route-gateway", operation: "network-create", flag: Some("--route"), shape: "network-route", member: "routes", cli: Src::Podman("cmd/podman/networks/create.go"), models: &[Src::Common], handler: Src::Podman("pkg/api/handlers/libpod/networks.go") },
    Claim { field: "network-route-metric", operation: "network-create", flag: Some("--route"), shape: "network-route", member: "routes", cli: Src::Podman("cmd/podman/networks/create.go"), models: &[Src::Common], handler: Src::Podman("pkg/api/handlers/libpod/networks.go") },
    Claim { field: "network-route-type-unicast", operation: "network-create", flag: Some("--route"), shape: "network-route", member: "routes", cli: Src::Podman("cmd/podman/networks/create.go"), models: &[Src::Common], handler: Src::Podman("pkg/api/handlers/libpod/networks.go") },
    Claim { field: "network-route-type-blackhole", operation: "network-create", flag: Some("--route"), shape: "network-route", member: "routes", cli: Src::Podman("cmd/podman/networks/create.go"), models: &[Src::Common], handler: Src::Podman("pkg/api/handlers/libpod/networks.go") },
    Claim { field: "network-route-type-unreachable", operation: "network-create", flag: Some("--route"), shape: "network-route", member: "routes", cli: Src::Podman("cmd/podman/networks/create.go"), models: &[Src::Common], handler: Src::Podman("pkg/api/handlers/libpod/networks.go") },
    Claim { field: "network-route-type-prohibit", operation: "network-create", flag: Some("--route"), shape: "network-route", member: "routes", cli: Src::Podman("cmd/podman/networks/create.go"), models: &[Src::Common], handler: Src::Podman("pkg/api/handlers/libpod/networks.go") },
];


const OPERATIONS: &[(&str, &str, &str, Option<&str>)] = &[
    ("network-create", "cmd/podman/networks/create.go", "pkg/api/server/register_networks.go", Some("pkg/api/handlers/libpod/networks.go")),
    ("volume-create", "cmd/podman/volumes/create.go", "pkg/api/server/register_volumes.go", Some("pkg/api/handlers/libpod/volumes.go")),
    ("secret-create", "cmd/podman/secrets/create.go", "pkg/api/server/register_secrets.go", Some("pkg/api/handlers/libpod/secrets.go")),
    ("image-pull", "cmd/podman/images/pull.go", "pkg/api/server/register_images.go", None),
    ("pod-create", "cmd/podman/pods/create.go", "pkg/api/server/register_pods.go", Some("pkg/api/handlers/libpod/pods.go")),
    (
        "container-create",
        "cmd/podman/containers/create.go",
        "pkg/api/server/register_containers.go",
        Some("pkg/api/handlers/libpod/containers_create.go"),
    ),
    ("pod-start", "cmd/podman/pods/start.go", "pkg/api/server/register_pods.go", None),
    ("container-start", "cmd/podman/containers/start.go", "pkg/api/server/register_containers.go", None),
];

/// The reviewed lines: version, Podman revision, and the pinned common module.
const LINES: &[(&str, &str, (&str, &str, &str, &str))] = &[
    ("5.4.0", "f9f7d48b24b1ca4403f189caaeab1cb8ff4a9aa2", ("containers-common", "github.com/containers/common", "v0.62.0", "cde1afdf623bdb9595d1fdc7acffa6e2f03a06b2")),
    ("5.5.0", "0a1b2c3d4e5f60718293a4b5c6d7e8f901234567", ("containers-common", "github.com/containers/common", "v0.63.0", "92927328862e4837d87bcbc0725b713387399984")),
    ("5.6.0", "1b2c3d4e5f60718293a4b5c6d7e8f90123456789", ("containers-common", "github.com/containers/common", "v0.64.1", "c007f37a6c55a53a7d41419d094c815bf2e46ca3")),
    ("5.7.0", "2c3d4e5f60718293a4b5c6d7e8f9012345678901", ("containers-container-libs", "go.podman.io/common", "v0.66.0", "8163ca799c317e3dea886be7228406ec8cf06abc")),
    ("5.8.6", "3d4e5f60718293a4b5c6d7e8f901234567890123", ("containers-container-libs", "go.podman.io/common", "v0.67.1", "c8b7f74383aa8bac5a84118db1a6fa870602af63")),
    ("6.0.0", "4e5f60718293a4b5c6d7e8f90123456789012345", ("containers-container-libs", "go.podman.io/common", "v0.68.0", "bb6a37c8946a977f24a8eed4d97b2dc3608cd05e")),
    ("6.1.0", "5f60718293a4b5c6d7e8f9012345678901234567", ("podman-container-tools-container-libs", "go.podman.io/common", "v0.69.1", "e47c7ccf66a1b89b0807e053dd426ff26eedd7a7")),
];

const FIRST_B2_FIELD: usize = 10;
const NETWORK_ORDER_FIELD: usize = 30;
const ROUTE_TYPE_BLACKHOLE_FIELD: usize = 38;

#[derive(Clone)]
struct Module {
    repository: String,
    path: String,
    version: String,
    revision: String,
}

#[derive(Clone)]
struct Source {
    repository: String,
    revision: String,
    path: String,
    module: Option<Module>,
}

#[derive(Clone)]
struct Operation {
    category: String,
    cli: Source,
    route: Source,
    body: Option<Source>,
}

#[derive(Clone)]
struct Field {
    field: String,
    availability: String,
    operation: String,
    flag: Option<String>,
    shape: String,
    member: String,
    cli: Source,
    models: Vec<Source>,
    handler: Source,
}

#[derive(Clone)]
struct Line {
    version: String,
    revision: String,
    tag: String,
    module: Module,
    operations: Vec<Operation>,
    fields: Vec<Field>,
}

/// A renderer catalogue as its JSON document holds it, before validation.
#[derive(Clone)]
struct Catalogue {
    schema_version: u8,
    provenance: String,
    lines: Vec<Line>,
    capabilities: Vec<(String, String, String)>,
}

fn podman(path: &str, revision: &str) -> Source {
    Source { repository: "containers-podman".to_string(), revision: revision.to_string(), path: path.to_string(), module: None }
}

fn common(version: &str, module: &Module) -> Source {
    let path = if version.starts_with("5.4") || version.starts_with("5.5") || version.starts_with("5.6") {
        "libnetwork/types/network.go"
    } else {
        "common/libnetwork/types/network.go"
    };
    Source { repository: module.repository.clone(), revision: module.revision.clone(), path: path.to_string(), module: Some(module.clone()) }
}

fn gated(field: &str) -> bool {
    matches!(
        field,
        "container-network-order" | "network-route-type-blackhole" | "network-route-type-unreachable" | "network-route-type-prohibit"
    )
}

fn reviewed_line(version: &str, revision: &str, pin: (&str, &str, &str, &str)) -> Line {
    let module = Module {
        repository: pin.0.to_string(),
        path: pin.1.to_string(),
        version: pin.2.to_string(),
        revision: pin.3.to_string(),
    };
    let source = |s: Src| match s {
        Src::Podman(path) => podman(path, revision),
        Src::Common => common(version, &module),
    };
    let operations = OPERATIONS
        .iter()
        .map(|(category, cli, route, body)| Operation {
            category: category.to_string(),
            cli: podman(cli, revision),
            route: podman(route, revision),
            body: body.map(|b| podman(b, revision)),
        })
        .collect();
    let pre_six = version.starts_with('5');
    let fields = CLAIMS
        .iter()
        .map(|claim| Field {
            field: claim.field.to_string(),
            availability: if pre_six && gated(claim.field) { "unsupported" } else { "exact" }.to_string(),
            operation: claim.operation.to_string(),
            flag: claim.flag.map(str::to_string),
            shape: claim.shape.to_string(),
            member: claim.member.to_string(),
            cli: source(claim.cli),
            models: claim.models.iter().map(|m| source(*m)).collect(),
            handler: source(claim.handler),
        })
        .collect();
    Line {
        version: version.to_string(),
        revision: revision.to_string(),
        tag: format!("v{version}"),
        module,
        operations,
        fields,
    }
}

fn catalogue() -> Catalogue {
    let lines: Vec<Line> = LINES.iter().map(|(version, revision, pin)| reviewed_line(version, revision, *pin)).collect();
    let capabilities = lines.iter().map(|l| (l.version.clone(), l.revision.clone(), l.tag.clone())).collect();
    Catalogue { schema_version: 5, provenance: "reviewed upstream sources".to_string(), lines, capabilities }
}

fn pin(m: &Module) -> ModulePin {
    ModulePin::new(m.repository.clone(), m.path.clone(), m.version.clone(), m.revision.clone())
}

fn reference(s: &Source) -> SourceReference {
    SourceReference::new(s.repository.clone(), s.revision.clone(), s.path.clone(), s.module.as_ref().map(pin))
}

fn validated(c: &Catalogue) -> Option<Vec<String>> {
    let lines: Vec<ReviewedRenderingLine> = c
        .lines
        .iter()
        .map(|l| {
            let operations = l
                .operations
                .iter()
                .map(|o| ReviewedRenderingOperation::new(o.category.clone(), reference(&o.cli), reference(&o.route), o.body.as_ref().map(reference)))
                .collect();
            let fields = l
                .fields
                .iter()
                .map(|f| {
                    ReviewedFieldEvidence::new(
                        f.field.clone(),
                        f.availability.clone(),
                        f.operation.clone(),
                        f.flag.clone(),
                        f.shape.clone(),
                        f.member.clone(),
                        reference(&f.cli),
                        f.models.iter().map(reference).collect(),
                        reference(&f.handler),
                    )
                })
                .collect();
            ReviewedRenderingLine::new(l.version.clone(), l.revision.clone(), l.tag.clone(), pin(&l.module), operations, fields)
        })
        .collect();
    let capabilities: Vec<CapabilityCatalogueEntry> = c
        .capabilities
        .iter()
        .map(|(version, revision, tag)| {
            let minor = version.rsplit_once('.').map(|(m, _)| m.to_string()).unwrap_or_default();
            CapabilityCatalogueEntry::new(
                minor,
                version.clone(),
                version.clone(),
                version.clone(),
                version.clone(),
                version.clone(),
                true,
                Vec::new(),
                EvidenceReference::new(
                    format!("https://github.com/containers/podman/blob/{revision}/version/rawversion/rawversion.go"),
                    revision.clone(),
                    tag.clone(),
                ),
            )
        })
        .collect();
    validate_renderer_catalogue(c.schema_version, &c.provenance, &lines, &capabilities)
}

fn rejected(c: &Catalogue) -> bool {
    validated(c).is_none()
}

#[test]
fn a_complete_reviewed_matrix_yields_its_renderer_versions() {
    let versions = validated(&catalogue());
    assert_eq!(
        versions,
        Some(LINES.iter().map(|(version, _, _)| version.to_string()).collect::<Vec<_>>())
    );
}

#[test]
fn renderer_catalogue_requires_its_schema_provenance_and_capability_lines() {
    let mut old_schema = catalogue();
    old_schema.schema_version = 4;
    assert!(rejected(&old_schema));
    let mut blank = catalogue();
    blank.provenance = "   ".to_string();
    assert!(rejected(&blank));
    let mut no_capabilities = catalogue();
    no_capabilities.capabilities.clear();
    assert!(rejected(&no_capabilities));
}

#[test]
fn renderer_catalogue_rejects_invalid_operation_evidence_revisions_and_noncanonical_versions() {
    let mut missing_category = catalogue();
    let start = missing_category.lines[0].operations.iter_mut().find(|o| o.category == "container-start").expect("container-start");
    start.category = "container-run".to_string();
    assert!(rejected(&missing_category));

    let mut invalid_source = catalogue();
    invalid_source.lines[0].operations[0].route.path = "pkg/api/server/register_unknown.go".to_string();
    assert!(rejected(&invalid_source));

    let mut invalid_revision = catalogue();
    invalid_revision.lines[0].revision = "F9f7d48b24b1ca4403f189caaeab1cb8ff4a9aa2".to_string();
    assert!(rejected(&invalid_revision));

    let mut build_metadata = catalogue();
    build_metadata.lines[0].version = "5.4.0+build".to_string();
    assert!(rejected(&build_metadata));
}

#[test]
fn renderer_catalogue_requires_the_complete_strict_field_matrix() {
    let mut missing = catalogue();
    missing.lines[0].fields.pop();
    assert!(rejected(&missing));

    let mut duplicate = catalogue();
    let first = duplicate.lines[0].fields[0].clone();
    duplicate.lines[0].fields.push(first);
    assert!(rejected(&duplicate));

    let mut wrong_operation = catalogue();
    wrong_operation.lines[0].fields[0].operation = "pod-create".to_string();
    assert!(rejected(&wrong_operation));

    let mut wrong_claim = catalogue();
    wrong_claim.lines[0].fields[1].flag = Some("--label".to_string());
    assert!(rejected(&wrong_claim));

    let mut wrong_shape = catalogue();
    wrong_shape.lines[0].fields[1].shape = "hostname".to_string();
    assert!(rejected(&wrong_shape));

    let mut wrong_member = catalogue();
    wrong_member.lines[0].fields[1].member = "hostname".to_string();
    assert!(rejected(&wrong_member));
}

#[test]
fn renderer_catalogue_rejects_nonimmutable_field_evidence_and_capability_substitutions() {
    let mut legacy_source_shape = catalogue();
    legacy_source_shape.lines[0].fields[0].cli.path =
        "https://github.com/containers/podman/blob/main/cmd/podman/containers/create.go".to_string();
    assert!(rejected(&legacy_source_shape));

    let mut wrong_module_version = catalogue();
    wrong_module_version.lines[0].module.version = "v0.0.0".to_string();
    assert!(rejected(&wrong_module_version));

    let mut wrong_module_revision = catalogue();
    wrong_module_revision.lines[0].module.revision = "0000000000000000000000000000000000000000".to_string();
    assert!(rejected(&wrong_module_revision));

    let mut wrong_module_repository = catalogue();
    wrong_module_repository.lines[0].module.repository = "podman-container-tools-container-libs".to_string();
    assert!(rejected(&wrong_module_repository));

    let mut wrong_module_path = catalogue();
    wrong_module_path.lines[0].module.path = "go.podman.io/common".to_string();
    assert!(rejected(&wrong_module_path));

    let mut mutable_field_source = catalogue();
    mutable_field_source.lines[0].fields[0].cli.revision = "main".to_string();
    assert!(rejected(&mutable_field_source));

    let mut wrong_field_repository = catalogue();
    wrong_field_repository.lines[0].fields[0].cli.repository = "containers-common".to_string();
    assert!(rejected(&wrong_field_repository));

    let mut wrong_field_path = catalogue();
    wrong_field_path.lines[0].fields[0].cli.path = "cmd/podman/unknown.go".to_string();
    assert!(rejected(&wrong_field_path));

    let mut wrong_model = catalogue();
    wrong_model.lines[0].fields[8].models[1].repository = "containers-common".to_string();
    assert!(rejected(&wrong_model));

    let mut mutable_model = catalogue();
    mutable_model.lines[0].fields[8].models[1].revision = "main".to_string();
    assert!(rejected(&mutable_model));

    let mut wrong_model_path = catalogue();
    wrong_model_path.lines[0].fields[8].models[1].path = "pkg/specgen/not-volumes.go".to_string();
    assert!(rejected(&wrong_model_path));

    let mut wrong_handler = catalogue();
    wrong_handler.lines[0].fields[9].handler.repository = "containers-common".to_string();
    assert!(rejected(&wrong_handler));

    let mut mutable_handler = catalogue();
    mutable_handler.lines[0].fields[9].handler.revision = "main".to_string();
    assert!(rejected(&mutable_handler));

    let mut wrong_handler_path = catalogue();
    wrong_handler_path.lines[0].fields[9].handler.path = "pkg/api/handlers/libpod/not-containers.go".to_string();
    assert!(rejected(&wrong_handler_path));

    let mut missing_line = catalogue();
    missing_line.lines.remove(0);
    assert!(rejected(&missing_line));

    let mut substituted_line = catalogue();
    substituted_line.lines[0] = substituted_line.lines[1].clone();
    assert!(rejected(&substituted_line));
}

#[test]
fn renderer_catalogue_rejects_b2_field_mutations_and_fabricated_pre_six_support() {
    let mut missing = catalogue();
    missing.lines[0].fields.remove(FIRST_B2_FIELD);
    assert!(rejected(&missing));

    let mut duplicate = catalogue();
    let field = duplicate.lines[0].fields[FIRST_B2_FIELD].clone();
    duplicate.lines[0].fields.push(field);
    assert!(rejected(&duplicate));

    let field_mutations: [fn(&mut Field); 4] = [
        |f| f.operation = "pod-create".to_string(),
        |f| f.flag = Some("--publish".to_string()),
        |f| f.shape = "port-mapping".to_string(),
        |f| f.member = "portmappings".to_string(),
    ];
    for mutate in field_mutations {
        let mut mutated = catalogue();
        mutate(&mut mutated.lines[0].fields[FIRST_B2_FIELD]);
        assert!(rejected(&mutated));
    }

    let source_mutations: [fn(&mut Source); 4] = [
        |s| s.repository = "containers-podman".to_string(),
        |s| s.revision = "main".to_string(),
        |s| s.path = "libnetwork/types/fabricated.go".to_string(),
        |s| {
            if let Some(m) = s.module.as_mut() {
                m.revision = "0000000000000000000000000000000000000000".to_string();
            }
        },
    ];
    for mutate in source_mutations {
        let mut mutated = catalogue();
        mutate(&mut mutated.lines[0].fields[FIRST_B2_FIELD].models[1]);
        assert!(rejected(&mutated));
    }

    let mut fabricated_pre_six_support = catalogue();
    fabricated_pre_six_support.lines[0].fields[NETWORK_ORDER_FIELD].availability = "exact".to_string();
    assert!(rejected(&fabricated_pre_six_support));

    let mut fabricated_pre_six_route_type = catalogue();
    fabricated_pre_six_route_type.lines[0].fields[ROUTE_TYPE_BLACKHOLE_FIELD].availability = "exact".to_string();
    assert!(rejected(&fabricated_pre_six_route_type));

    for line_index in [3, 4, 5] {
        let mut substituted_repository = catalogue();
        substituted_repository.lines[line_index].fields[FIRST_B2_FIELD].models[1].repository = "containers-common".to_string();
        assert!(rejected(&substituted_repository));
    }

    for line_index in [3, 4, 5, 6] {
        let mut wrong_common_path = catalogue();
        wrong_common_path.lines[line_index].fields[FIRST_B2_FIELD].models[1].path = "libnetwork/types/network.go".to_string();
        assert!(rejected(&wrong_common_path));
    }

    let mut missing_network_order_wire_model = catalogue();
    missing_network_order_wire_model.lines[5].fields[NETWORK_ORDER_FIELD].models[0].path = "pkg/specgen/namespaces.go".to_string();
    assert!(rejected(&missing_network_order_wire_model));
}
