//! The reviewed renderer catalogue: for every renderer version, immutable source evidence for
//! each rendered operation and each rendered field, held to a fixed field matrix.

use vstd::prelude::*;

use crate::evidence::{is_lowercase_sha40, lowercase_sha40, version_text, version_text_of, CapabilityCatalogueEntry, EntryView};
use crate::once::views;
use crate::text::{str_eq, string_from_chars, to_chars, trim, trimmed};
use crate::version::{semver_fields, semver_version};

verus! {

// ---------------------------------------------------------------------------------------------
// Catalogue documents.
// ---------------------------------------------------------------------------------------------
/// The content of a module pin.
pub struct ModulePinView {
    pub repository: Seq<char>,
    pub path: Seq<char>,
    pub version: Seq<char>,
    pub revision: Seq<char>,
}

/// A pinned Go module: its repository, module path, version and revision.
pub struct ModulePin {
    repository: String,
    path: String,
    version: String,
    revision: String,
}

impl View for ModulePin {
    type V = ModulePinView;

    closed spec fn view(&self) -> ModulePinView {
        ModulePinView { repository: self.repository@, path: self.path@, version: self.version@, revision: self.revision@ }
    }
}

impl ModulePin {
    /// A module pin as a document states it.
    pub fn new(repository: String, path: String, version: String, revision: String) -> (r: Self)
        ensures
            r@ == (ModulePinView { repository: repository@, path: path@, version: version@, revision: revision@ }),
    {
        ModulePin { repository, path, version, revision }
    }
}

/// The content of a source reference.
pub struct SourceView {
    pub repository: Seq<char>,
    pub revision: Seq<char>,
    pub path: Seq<char>,
    pub module: Option<ModulePinView>,
}

/// One immutable source location backing a rendering claim: repository, revision, path, and
/// the module pin when the source lies in a pinned module.
pub struct SourceReference {
    repository: String,
    revision: String,
    path: String,
    module: Option<ModulePin>,
}

impl View for SourceReference {
    type V = SourceView;

    closed spec fn view(&self) -> SourceView {
        SourceView {
            repository: self.repository@,
            revision: self.revision@,
            path: self.path@,
            module: match self.module {
                Some(m) => Some(m@),
                None => None,
            },
        }
    }
}

impl SourceReference {
    /// A source reference as a document states it.
    pub fn new(repository: String, revision: String, path: String, module: Option<ModulePin>) -> (r: Self)
        ensures
            r@ == (SourceView {
                repository: repository@,
                revision: revision@,
                path: path@,
                module: match module {
                    Some(m) => Some(m@),
                    None => None,
                },
            }),
    {
        SourceReference { repository, revision, path, module }
    }
}

/// The content of one reviewed operation.
pub struct OperationView {
    pub category: Seq<char>,
    pub cli_source: SourceView,
    pub libpod_endpoint_source: SourceView,
    pub body_source: Option<SourceView>,
}

/// The evidence of one rendered operation category.
pub struct ReviewedRenderingOperation {
    category: String,
    cli_source: SourceReference,
    libpod_endpoint_source: SourceReference,
    body_source: Option<SourceReference>,
}

impl View for ReviewedRenderingOperation {
    type V = OperationView;

    closed spec fn view(&self) -> OperationView {
        OperationView {
            category: self.category@,
            cli_source: self.cli_source@,
            libpod_endpoint_source: self.libpod_endpoint_source@,
            body_source: match self.body_source {
                Some(s) => Some(s@),
                None => None,
            },
        }
    }
}

impl ReviewedRenderingOperation {
    /// An operation's evidence as a document states it.
    pub fn new(
        category: String,
        cli_source: SourceReference,
        libpod_endpoint_source: SourceReference,
        body_source: Option<SourceReference>,
    ) -> (r: Self)
        ensures
            r@ == (OperationView {
                category: category@,
                cli_source: cli_source@,
                libpod_endpoint_source: libpod_endpoint_source@,
                body_source: match body_source {
                    Some(s) => Some(s@),
                    None => None,
                },
            }),
    {
        ReviewedRenderingOperation { category, cli_source, libpod_endpoint_source, body_source }
    }
}

/// The content of one field's evidence.
pub struct FieldEvidenceView {
    pub field: Seq<char>,
    pub availability: Seq<char>,
    pub operation: Seq<char>,
    pub flag: Option<Seq<char>>,
    pub shape: Seq<char>,
    pub member: Seq<char>,
    pub cli_source: SourceView,
    pub model_sources: Seq<SourceView>,
    pub handler_source: SourceView,
}

/// The evidence of one rendered field: its availability, the operation and CLI flag and value
/// shape and Libpod member that carry it, and its CLI, model and handler sources.
pub struct ReviewedFieldEvidence {
    field: String,
    availability: String,
    operation: String,
    flag: Option<String>,
    shape: String,
    member: String,
    cli_source: SourceReference,
    model_sources: Vec<SourceReference>,
    handler_source: SourceReference,
}

impl View for ReviewedFieldEvidence {
    type V = FieldEvidenceView;

    closed spec fn view(&self) -> FieldEvidenceView {
        FieldEvidenceView {
            field: self.field@,
            availability: self.availability@,
            operation: self.operation@,
            flag: match self.flag {
                Some(f) => Some(f@),
                None => None,
            },
            shape: self.shape@,
            member: self.member@,
            cli_source: self.cli_source@,
            model_sources: views(self.model_sources@),
            handler_source: self.handler_source@,
        }
    }
}

impl ReviewedFieldEvidence {
    /// A field's evidence as a document states it.
    pub fn new(
        field: String,
        availability: String,
        operation: String,
        flag: Option<String>,
        shape: String,
        member: String,
        cli_source: SourceReference,
        model_sources: Vec<SourceReference>,
        handler_source: SourceReference,
    ) -> (r: Self)
        ensures
            r@ == (FieldEvidenceView {
                field: field@,
                availability: availability@,
                operation: operation@,
                flag: match flag {
                    Some(f) => Some(f@),
                    None => None,
                },
                shape: shape@,
                member: member@,
                cli_source: cli_source@,
                model_sources: views(model_sources@),
                handler_source: handler_source@,
            }),
    {
        ReviewedFieldEvidence { field, availability, operation, flag, shape, member, cli_source, model_sources, handler_source }
    }
}

/// The content of one reviewed renderer line.
pub struct RenderingLineView {
    pub version: Seq<char>,
    pub revision: Seq<char>,
    pub tag: Seq<char>,
    pub common_module: ModulePinView,
    pub operations: Seq<OperationView>,
    pub field_evidence: Seq<FieldEvidenceView>,
}

/// One reviewed renderer version with its evidence.
pub struct ReviewedRenderingLine {
    version: String,
    revision: String,
    tag: String,
    common_module: ModulePin,
    operations: Vec<ReviewedRenderingOperation>,
    field_evidence: Vec<ReviewedFieldEvidence>,
}

impl View for ReviewedRenderingLine {
    type V = RenderingLineView;

    closed spec fn view(&self) -> RenderingLineView {
        RenderingLineView {
            version: self.version@,
            revision: self.revision@,
            tag: self.tag@,
            common_module: self.common_module@,
            operations: views(self.operations@),
            field_evidence: views(self.field_evidence@),
        }
    }
}

impl ReviewedRenderingLine {
    /// A renderer line as a document states it.
    pub fn new(
        version: String,
        revision: String,
        tag: String,
        common_module: ModulePin,
        operations: Vec<ReviewedRenderingOperation>,
        field_evidence: Vec<ReviewedFieldEvidence>,
    ) -> (r: Self)
        ensures
            r@ == (RenderingLineView {
                version: version@,
                revision: revision@,
                tag: tag@,
                common_module: common_module@,
                operations: views(operations@),
                field_evidence: views(field_evidence@),
            }),
    {
        ReviewedRenderingLine { version, revision, tag, common_module, operations, field_evidence }
    }
}

// ---------------------------------------------------------------------------------------------
// The reviewed matrix.
// ---------------------------------------------------------------------------------------------
/// Where a claim's source must lie: a path in the Podman repository at the line's revision, or
/// the network model of the line's pinned common module.
pub enum ExpectedSource {
    Podman(Seq<char>),
    Common,
}

/// What the evidence of one rendered field must state.
pub struct ClaimRow {
    pub field: Seq<char>,
    pub operation: Seq<char>,
    pub flag: Option<Seq<char>>,
    pub shape: Seq<char>,
    pub member: Seq<char>,
    pub cli: ExpectedSource,
    pub models: Seq<ExpectedSource>,
    pub handler: ExpectedSource,
}

/// The number of rendered fields.
pub const CLAIM_ROWS: usize = 41;

/// The reviewed claim of every rendered field.
pub open spec fn claim_row(i: int) -> ClaimRow {
    if i == 0 {
        ClaimRow {
            field: "container-command"@,
            operation: "container-create"@,
            flag: None,
            shape: "argument-array"@,
            member: "command"@,
            cli: ExpectedSource::Podman("cmd/podman/containers/create.go"@),
            models: seq![ExpectedSource::Podman("pkg/specgen/specgen.go"@)],
            handler: ExpectedSource::Podman("pkg/api/handlers/libpod/containers_create.go"@),
        }
    } else if i == 1 {
        ClaimRow {
            field: "container-entrypoint"@,
            operation: "container-create"@,
            flag: Some("--entrypoint"@),
            shape: "argument-array"@,
            member: "entrypoint"@,
            cli: ExpectedSource::Podman("cmd/podman/common/create.go"@),
            models: seq![ExpectedSource::Podman("pkg/specgen/specgen.go"@)],
            handler: ExpectedSource::Podman("pkg/api/handlers/libpod/containers_create.go"@),
        }
    } else if i == 2 {
        ClaimRow {
            field: "container-user"@,
            operation: "container-create"@,
            flag: Some("--user"@),
            shape: "container-user"@,
            member: "user"@,
            cli: ExpectedSource::Podman("cmd/podman/common/create.go"@),
            models: seq![ExpectedSource::Podman("pkg/specgen/specgen.go"@)],
            handler: ExpectedSource::Podman("pkg/api/handlers/libpod/containers_create.go"@),
        }
    } else if i == 3 {
        ClaimRow {
            field: "container-workdir"@,
            operation: "container-create"@,
            flag: Some("--workdir"@),
            shape: "absolute-container-path"@,
            member: "work_dir"@,
            cli: ExpectedSource::Podman("cmd/podman/common/create.go"@),
            models: seq![ExpectedSource::Podman("pkg/specgen/specgen.go"@)],
            handler: ExpectedSource::Podman("pkg/api/handlers/libpod/containers_create.go"@),
        }
    } else if i == 4 {
        ClaimRow {
            field: "container-hostname"@,
            operation: "container-create"@,
            flag: Some("--hostname"@),
            shape: "hostname"@,
            member: "hostname"@,
            cli: ExpectedSource::Podman("cmd/podman/common/create.go"@),
            models: seq![ExpectedSource::Podman("pkg/specgen/specgen.go"@)],
            handler: ExpectedSource::Podman("pkg/api/handlers/libpod/containers_create.go"@),
        }
    } else if i == 5 {
        ClaimRow {
            field: "container-label"@,
            operation: "container-create"@,
            flag: Some("--label"@),
            shape: "label-assignment"@,
            member: "labels"@,
            cli: ExpectedSource::Podman("cmd/podman/common/create.go"@),
            models: seq![ExpectedSource::Podman("pkg/specgen/specgen.go"@)],
            handler: ExpectedSource::Podman("pkg/api/handlers/libpod/containers_create.go"@),
        }
    } else if i == 6 {
        ClaimRow {
            field: "container-environment"@,
            operation: "container-create"@,
            flag: Some("--env"@),
            shape: "environment-assignment"@,
            member: "env"@,
            cli: ExpectedSource::Podman("cmd/podman/common/create.go"@),
            models: seq![ExpectedSource::Podman("pkg/specgen/specgen.go"@)],
            handler: ExpectedSource::Podman("pkg/api/handlers/libpod/containers_create.go"@),
        }
    } else if i == 7 {
        ClaimRow {
            field: "container-restart-policy"@,
            operation: "container-create"@,
            flag: Some("--restart"@),
            shape: "restart-policy"@,
            member: "restart_policy"@,
            cli: ExpectedSource::Podman("cmd/podman/common/create.go"@),
            models: seq![ExpectedSource::Podman("pkg/specgen/specgen.go"@)],
            handler: ExpectedSource::Podman("pkg/api/handlers/libpod/containers_create.go"@),
        }
    } else if i == 8 {
        ClaimRow {
            field: "container-named-volume-mount"@,
            operation: "container-create"@,
            flag: Some("--volume"@),
            shape: "named-volume-mount"@,
            member: "volumes"@,
            cli: ExpectedSource::Podman("cmd/podman/common/create.go"@),
            models: seq![ExpectedSource::Podman("pkg/specgen/specgen.go"@), ExpectedSource::Podman("pkg/specgen/volumes.go"@)],
            handler: ExpectedSource::Podman("pkg/api/handlers/libpod/containers_create.go"@),
        }
    } else if i == 9 {
        ClaimRow {
            field: "pod-infra-named-volume-mount"@,
            operation: "pod-create"@,
            flag: Some("--volume"@),
            shape: "named-volume-mount"@,
            member: "volumes"@,
            cli: ExpectedSource::Podman("cmd/podman/pods/create.go"@),
            models: seq![ExpectedSource::Podman("pkg/specgen/podspecgen.go"@), ExpectedSource::Podman("pkg/specgen/volumes.go"@)],
            handler: ExpectedSource::Podman("pkg/api/handlers/libpod/pods.go"@),
        }
    } else if i == 10 {
        ClaimRow {
            field: "container-network-attachment"@,
            operation: "container-create"@,
            flag: Some("--network"@),
            shape: "network-attachment"@,
            member: "Networks"@,
            cli: ExpectedSource::Podman("cmd/podman/common/netflags.go"@),
            models: seq![ExpectedSource::Podman("pkg/specgen/specgen.go"@), ExpectedSource::Common],
            handler: ExpectedSource::Podman("pkg/api/handlers/libpod/containers_create.go"@),
        }
    } else if i == 11 {
        ClaimRow {
            field: "pod-network-attachment"@,
            operation: "pod-create"@,
            flag: Some("--network"@),
            shape: "network-attachment"@,
            member: "Networks"@,
            cli: ExpectedSource::Podman("cmd/podman/pods/create.go"@),
            models: seq![ExpectedSource::Podman("pkg/specgen/podspecgen.go"@), ExpectedSource::Common],
            handler: ExpectedSource::Podman("pkg/api/handlers/libpod/pods.go"@),
        }
    } else if i == 12 {
        ClaimRow {
            field: "container-network-alias"@,
            operation: "container-create"@,
            flag: Some("--network"@),
            shape: "network-alias"@,
            member: "Networks"@,
            cli: ExpectedSource::Podman("cmd/podman/common/netflags.go"@),
            models: seq![ExpectedSource::Podman("pkg/specgen/specgen.go"@), ExpectedSource::Common],
            handler: ExpectedSource::Podman("pkg/api/handlers/libpod/containers_create.go"@),
        }
    } else if i == 13 {
        ClaimRow {
            field: "pod-network-alias"@,
            operation: "pod-create"@,
            flag: Some("--network"@),
            shape: "network-alias"@,
            member: "Networks"@,
            cli: ExpectedSource::Podman("cmd/podman/pods/create.go"@),
            models: seq![ExpectedSource::Podman("pkg/specgen/podspecgen.go"@), ExpectedSource::Common],
            handler: ExpectedSource::Podman("pkg/api/handlers/libpod/pods.go"@),
        }
    } else if i == 14 {
        ClaimRow {
            field: "container-network-static-ipv4"@,
            operation: "container-create"@,
            flag: Some("--network"@),
            shape: "static-ip"@,
            member: "Networks"@,
            cli: ExpectedSource::Podman("cmd/podman/common/netflags.go"@),
            models: seq![ExpectedSource::Podman("pkg/specgen/specgen.go"@), ExpectedSource::Common],
            handler: ExpectedSource::Podman("pkg/api/handlers/libpod/containers_create.go"@),
        }
    } else if i == 15 {
        ClaimRow {
            field: "pod-network-static-ipv4"@,
            operation: "pod-create"@,
            flag: Some("--network"@),
            shape: "static-ip"@,
            member: "Networks"@,
            cli: ExpectedSource::Podman("cmd/podman/pods/create.go"@),
            models: seq![ExpectedSource::Podman("pkg/specgen/podspecgen.go"@), ExpectedSource::Common],
            handler: ExpectedSource::Podman("pkg/api/handlers/libpod/pods.go"@),
        }
    } else if i == 16 {
        ClaimRow {
            field: "container-network-static-ipv6"@,
            operation: "container-create"@,
            flag: Some("--network"@),
            shape: "static-ip"@,
            member: "Networks"@,
            cli: ExpectedSource::Podman("cmd/podman/common/netflags.go"@),
            models: seq![ExpectedSource::Podman("pkg/specgen/specgen.go"@), ExpectedSource::Common],
            handler: ExpectedSource::Podman("pkg/api/handlers/libpod/containers_create.go"@),
        }
    } else if i == 17 {
        ClaimRow {
            field: "pod-network-static-ipv6"@,
            operation: "pod-create"@,
            flag: Some("--network"@),
            shape: "static-ip"@,
            member: "Networks"@,
            cli: ExpectedSource::Podman("cmd/podman/pods/create.go"@),
            models: seq![ExpectedSource::Podman("pkg/specgen/podspecgen.go"@), ExpectedSource::Common],
            handler: ExpectedSource::Podman("pkg/api/handlers/libpod/pods.go"@),
        }
    } else if i == 18 {
        ClaimRow {
            field: "container-network-static-mac"@,
            operation: "container-create"@,
            flag: Some("--network"@),
            shape: "static-mac"@,
            member: "Networks"@,
            cli: ExpectedSource::Podman("cmd/podman/common/netflags.go"@),
            models: seq![ExpectedSource::Podman("pkg/specgen/specgen.go"@), ExpectedSource::Common],
            handler: ExpectedSource::Podman("pkg/api/handlers/libpod/containers_create.go"@),
        }
    } else if i == 19 {
        ClaimRow {
            field: "pod-network-static-mac"@,
            operation: "pod-create"@,
            flag: Some("--network"@),
            shape: "static-mac"@,
            member: "Networks"@,
            cli: ExpectedSource::Podman("cmd/podman/pods/create.go"@),
            models: seq![ExpectedSource::Podman("pkg/specgen/podspecgen.go"@), ExpectedSource::Common],
            handler: ExpectedSource::Podman("pkg/api/handlers/libpod/pods.go"@),
        }
    } else if i == 20 {
        ClaimRow {
            field: "container-port-mapping"@,
            operation: "container-create"@,
            flag: Some("--publish"@),
            shape: "port-mapping"@,
            member: "portmappings"@,
            cli: ExpectedSource::Podman("cmd/podman/common/netflags.go"@),
            models: seq![ExpectedSource::Podman("pkg/specgen/specgen.go"@), ExpectedSource::Common],
            handler: ExpectedSource::Podman("pkg/api/handlers/libpod/containers_create.go"@),
        }
    } else if i == 21 {
        ClaimRow {
            field: "pod-port-mapping"@,
            operation: "pod-create"@,
            flag: Some("--publish"@),
            shape: "port-mapping"@,
            member: "portmappings"@,
            cli: ExpectedSource::Podman("cmd/podman/pods/create.go"@),
            models: seq![ExpectedSource::Podman("pkg/specgen/podspecgen.go"@), ExpectedSource::Common],
            handler: ExpectedSource::Podman("pkg/api/handlers/libpod/pods.go"@),
        }
    } else if i == 22 {
        ClaimRow {
            field: "container-dns-servers"@,
            operation: "container-create"@,
            flag: Some("--dns"@),
            shape: "dns-server"@,
            member: "dns_server"@,
            cli: ExpectedSource::Podman("cmd/podman/common/netflags.go"@),
            models: seq![ExpectedSource::Podman("pkg/specgen/specgen.go"@)],
            handler: ExpectedSource::Podman("pkg/api/handlers/libpod/containers_create.go"@),
        }
    } else if i == 23 {
        ClaimRow {
            field: "container-dns-search"@,
            operation: "container-create"@,
            flag: Some("--dns-search"@),
            shape: "dns-search"@,
            member: "dns_search"@,
            cli: ExpectedSource::Podman("cmd/podman/common/netflags.go"@),
            models: seq![ExpectedSource::Podman("pkg/specgen/specgen.go"@)],
            handler: ExpectedSource::Podman("pkg/api/handlers/libpod/containers_create.go"@),
        }
    } else if i == 24 {
        ClaimRow {
            field: "container-dns-options"@,
            operation: "container-create"@,
            flag: Some("--dns-option"@),
            shape: "dns-option"@,
            member: "dns_option"@,
            cli: ExpectedSource::Podman("cmd/podman/common/netflags.go"@),
            models: seq![ExpectedSource::Podman("pkg/specgen/specgen.go"@)],
            handler: ExpectedSource::Podman("pkg/api/handlers/libpod/containers_create.go"@),
        }
    } else if i == 25 {
        ClaimRow {
            field: "pod-dns-servers"@,
            operation: "pod-create"@,
            flag: Some("--dns"@),
            shape: "dns-server"@,
            member: "dns_server"@,
            cli: ExpectedSource::Podman("cmd/podman/pods/create.go"@),
            models: seq![ExpectedSource::Podman("pkg/specgen/podspecgen.go"@)],
            handler: ExpectedSource::Podman("pkg/api/handlers/libpod/pods.go"@),
        }
    } else if i == 26 {
        ClaimRow {
            field: "pod-dns-search"@,
            operation: "pod-create"@,
            flag: Some("--dns-search"@),
            shape: "dns-search"@,
            member: "dns_search"@,
            cli: ExpectedSource::Podman("cmd/podman/pods/create.go"@),
            models: seq![ExpectedSource::Podman("pkg/specgen/podspecgen.go"@)],
            handler: ExpectedSource::Podman("pkg/api/handlers/libpod/pods.go"@),
        }
    } else if i == 27 {
        ClaimRow {
            field: "pod-dns-options"@,
            operation: "pod-create"@,
            flag: Some("--dns-option"@),
            shape: "dns-option"@,
            member: "dns_option"@,
            cli: ExpectedSource::Podman("cmd/podman/pods/create.go"@),
            models: seq![ExpectedSource::Podman("pkg/specgen/podspecgen.go"@)],
            handler: ExpectedSource::Podman("pkg/api/handlers/libpod/pods.go"@),
        }
    } else if i == 28 {
        ClaimRow {
            field: "container-host-alias"@,
            operation: "container-create"@,
            flag: Some("--add-host"@),
            shape: "host-alias"@,
            member: "hostadd"@,
            cli: ExpectedSource::Podman("cmd/podman/common/netflags.go"@),
            models: seq![ExpectedSource::Podman("pkg/specgen/specgen.go"@)],
            handler: ExpectedSource::Podman("pkg/api/handlers/libpod/containers_create.go"@),
        }
    } else if i == 29 {
        ClaimRow {
            field: "pod-host-alias"@,
            operation: "pod-create"@,
            flag: Some("--add-host"@),
            shape: "host-alias"@,
            member: "hostadd"@,
            cli: ExpectedSource::Podman("cmd/podman/pods/create.go"@),
            models: seq![ExpectedSource::Podman("pkg/specgen/podspecgen.go"@)],
            handler: ExpectedSource::Podman("pkg/api/handlers/libpod/pods.go"@),
        }
    } else if i == 30 {
        ClaimRow {
            field: "container-network-order"@,
            operation: "container-create"@,
            flag: Some("--network"@),
            shape: "network-order"@,
            member: "networkOrder"@,
            cli: ExpectedSource::Podman("cmd/podman/common/netflags.go"@),
            models: seq![ExpectedSource::Podman("pkg/specgen/specgen.go"@), ExpectedSource::Podman("pkg/specgen/namespaces.go"@)],
            handler: ExpectedSource::Podman("pkg/api/handlers/libpod/containers_create.go"@),
        }
    } else if i == 31 {
        ClaimRow {
            field: "network-ipam-subnet"@,
            operation: "network-create"@,
            flag: Some("--subnet"@),
            shape: "network-subnet"@,
            member: "subnets"@,
            cli: ExpectedSource::Podman("cmd/podman/networks/create.go"@),
            models: seq![ExpectedSource::Common],
            handler: ExpectedSource::Podman("pkg/api/handlers/libpod/networks.go"@),
        }
    } else if i == 32 {
        ClaimRow {
            field: "network-ipam-gateway"@,
            operation: "network-create"@,
            flag: Some("--gateway"@),
            shape: "network-gateway"@,
            member: "subnets"@,
            cli: ExpectedSource::Podman("cmd/podman/networks/create.go"@),
            models: seq![ExpectedSource::Common],
            handler: ExpectedSource::Podman("pkg/api/handlers/libpod/networks.go"@),
        }
    } else if i == 33 {
        ClaimRow {
            field: "network-ipam-range"@,
            operation: "network-create"@,
            flag: Some("--ip-range"@),
            shape: "network-ip-range"@,
            member: "subnets"@,
            cli: ExpectedSource::Podman("cmd/podman/networks/create.go"@),
            models: seq![ExpectedSource::Common],
            handler: ExpectedSource::Podman("pkg/api/handlers/libpod/networks.go"@),
        }
    } else if i == 34 {
        ClaimRow {
            field: "network-route-destination"@,
            operation: "network-create"@,
            flag: Some("--route"@),
            shape: "network-route"@,
            member: "routes"@,
            cli: ExpectedSource::Podman("cmd/podman/networks/create.go"@),
            models: seq![ExpectedSource::Common],
            handler: ExpectedSource::Podman("pkg/api/handlers/libpod/networks.go"@),
        }
    } else if i == 35 {
        ClaimRow {
            field: "network-route-gateway"@,
            operation: "network-create"@,
            flag: Some("--route"@),
            shape: "network-route"@,
            member: "routes"@,
            cli: ExpectedSource::Podman("cmd/podman/networks/create.go"@),
            models: seq![ExpectedSource::Common],
            handler: ExpectedSource::Podman("pkg/api/handlers/libpod/networks.go"@),
        }
    } else if i == 36 {
        ClaimRow {
            field: "network-route-metric"@,
            operation: "network-create"@,
            flag: Some("--route"@),
            shape: "network-route"@,
            member: "routes"@,
            cli: ExpectedSource::Podman("cmd/podman/networks/create.go"@),
            models: seq![ExpectedSource::Common],
            handler: ExpectedSource::Podman("pkg/api/handlers/libpod/networks.go"@),
        }
    } else if i == 37 {
        ClaimRow {
            field: "network-route-type-unicast"@,
            operation: "network-create"@,
            flag: Some("--route"@),
            shape: "network-route"@,
            member: "routes"@,
            cli: ExpectedSource::Podman("cmd/podman/networks/create.go"@),
            models: seq![ExpectedSource::Common],
            handler: ExpectedSource::Podman("pkg/api/handlers/libpod/networks.go"@),
        }
    } else if i == 38 {
        ClaimRow {
            field: "network-route-type-blackhole"@,
            operation: "network-create"@,
            flag: Some("--route"@),
            shape: "network-route"@,
            member: "routes"@,
            cli: ExpectedSource::Podman("cmd/podman/networks/create.go"@),
            models: seq![ExpectedSource::Common],
            handler: ExpectedSource::Podman("pkg/api/handlers/libpod/networks.go"@),
        }
    } else if i == 39 {
        ClaimRow {
            field: "network-route-type-unreachable"@,
            operation: "network-create"@,
            flag: Some("--route"@),
            shape: "network-route"@,
            member: "routes"@,
            cli: ExpectedSource::Podman("cmd/podman/networks/create.go"@),
            models: seq![ExpectedSource::Common],
            handler: ExpectedSource::Podman("pkg/api/handlers/libpod/networks.go"@),
        }
    } else {
        ClaimRow {
            field: "network-route-type-prohibit"@,
            operation: "network-create"@,
            flag: Some("--route"@),
            shape: "network-route"@,
            member: "routes"@,
            cli: ExpectedSource::Podman("cmd/podman/networks/create.go"@),
            models: seq![ExpectedSource::Common],
            handler: ExpectedSource::Podman("pkg/api/handlers/libpod/networks.go"@),
        }
    }
}

enum ExpectedSourceRef {
    Podman(&'static str),
    Common,
}

spec fn source_ref_view(e: ExpectedSourceRef) -> ExpectedSource {
    match e {
        ExpectedSourceRef::Podman(p) => ExpectedSource::Podman(p@),
        ExpectedSourceRef::Common => ExpectedSource::Common,
    }
}

struct ClaimEntry {
    field: &'static str,
    operation: &'static str,
    flag: Option<&'static str>,
    shape: &'static str,
    member: &'static str,
    cli: ExpectedSourceRef,
    models: Vec<ExpectedSourceRef>,
    handler: ExpectedSourceRef,
}

spec fn claim_view(c: ClaimEntry) -> ClaimRow {
    ClaimRow {
        field: c.field@,
        operation: c.operation@,
        flag: match c.flag {
            Some(f) => Some(f@),
            None => None,
        },
        shape: c.shape@,
        member: c.member@,
        cli: source_ref_view(c.cli),
        models: c.models@.map_values(|m: ExpectedSourceRef| source_ref_view(m)),
        handler: source_ref_view(c.handler),
    }
}

#[verifier::rlimit(60)]
fn claim_row_at(i: usize) -> (r: ClaimEntry)
    ensures
        claim_view(r) == claim_row(i as int),
{
    let r = {
    if i == 0 {
        let mut models: Vec<ExpectedSourceRef> = Vec::new();
        models.push(ExpectedSourceRef::Podman("pkg/specgen/specgen.go"));
        ClaimEntry {
            field: "container-command",
            operation: "container-create",
            flag: None,
            shape: "argument-array",
            member: "command",
            cli: ExpectedSourceRef::Podman("cmd/podman/containers/create.go"),
            models,
            handler: ExpectedSourceRef::Podman("pkg/api/handlers/libpod/containers_create.go"),
        }
    } else if i == 1 {
        let mut models: Vec<ExpectedSourceRef> = Vec::new();
        models.push(ExpectedSourceRef::Podman("pkg/specgen/specgen.go"));
        ClaimEntry {
            field: "container-entrypoint",
            operation: "container-create",
            flag: Some("--entrypoint"),
            shape: "argument-array",
            member: "entrypoint",
            cli: ExpectedSourceRef::Podman("cmd/podman/common/create.go"),
            models,
            handler: ExpectedSourceRef::Podman("pkg/api/handlers/libpod/containers_create.go"),
        }
    } else if i == 2 {
        let mut models: Vec<ExpectedSourceRef> = Vec::new();
        models.push(ExpectedSourceRef::Podman("pkg/specgen/specgen.go"));
        ClaimEntry {
            field: "container-user",
            operation: "container-create",
            flag: Some("--user"),
            shape: "container-user",
            member: "user",
            cli: ExpectedSourceRef::Podman("cmd/podman/common/create.go"),
            models,
            handler: ExpectedSourceRef::Podman("pkg/api/handlers/libpod/containers_create.go"),
        }
    } else if i == 3 {
        let mut models: Vec<ExpectedSourceRef> = Vec::new();
        models.push(ExpectedSourceRef::Podman("pkg/specgen/specgen.go"));
        ClaimEntry {
            field: "container-workdir",
            operation: "container-create",
            flag: Some("--workdir"),
            shape: "absolute-container-path",
            member: "work_dir",
            cli: ExpectedSourceRef::Podman("cmd/podman/common/create.go"),
            models,
            handler: ExpectedSourceRef::Podman("pkg/api/handlers/libpod/containers_create.go"),
        }
    } else if i == 4 {
        let mut models: Vec<ExpectedSourceRef> = Vec::new();
        models.push(ExpectedSourceRef::Podman("pkg/specgen/specgen.go"));
        ClaimEntry {
            field: "container-hostname",
            operation: "container-create",
            flag: Some("--hostname"),
            shape: "hostname",
            member: "hostname",
            cli: ExpectedSourceRef::Podman("cmd/podman/common/create.go"),
            models,
            handler: ExpectedSourceRef::Podman("pkg/api/handlers/libpod/containers_create.go"),
        }
    } else if i == 5 {
        let mut models: Vec<ExpectedSourceRef> = Vec::new();
        models.push(ExpectedSourceRef::Podman("pkg/specgen/specgen.go"));
        ClaimEntry {
            field: "container-label",
            operation: "container-create",
            flag: Some("--label"),
            shape: "label-assignment",
            member: "labels",
            cli: ExpectedSourceRef::Podman("cmd/podman/common/create.go"),
            models,
            handler: ExpectedSourceRef::Podman("pkg/api/handlers/libpod/containers_create.go"),
        }
    } else if i == 6 {
        let mut models: Vec<ExpectedSourceRef> = Vec::new();
        models.push(ExpectedSourceRef::Podman("pkg/specgen/specgen.go"));
        ClaimEntry {
            field: "container-environment",
            operation: "container-create",
            flag: Some("--env"),
            shape: "environment-assignment",
            member: "env",
            cli: ExpectedSourceRef::Podman("cmd/podman/common/create.go"),
            models,
            handler: ExpectedSourceRef::Podman("pkg/api/handlers/libpod/containers_create.go"),
        }
    } else if i == 7 {
        let mut models: Vec<ExpectedSourceRef> = Vec::new();
        models.push(ExpectedSourceRef::Podman("pkg/specgen/specgen.go"));
        ClaimEntry {
            field: "container-restart-policy",
            operation: "container-create",
            flag: Some("--restart"),
            shape: "restart-policy",
            member: "restart_policy",
            cli: ExpectedSourceRef::Podman("cmd/podman/common/create.go"),
            models,
            handler: ExpectedSourceRef::Podman("pkg/api/handlers/libpod/containers_create.go"),
        }
    } else if i == 8 {
        let mut models: Vec<ExpectedSourceRef> = Vec::new();
        models.push(ExpectedSourceRef::Podman("pkg/specgen/specgen.go"));
        models.push(ExpectedSourceRef::Podman("pkg/specgen/volumes.go"));
        ClaimEntry {
            field: "container-named-volume-mount",
            operation: "container-create",
            flag: Some("--volume"),
            shape: "named-volume-mount",
            member: "volumes",
            cli: ExpectedSourceRef::Podman("cmd/podman/common/create.go"),
            models,
            handler: ExpectedSourceRef::Podman("pkg/api/handlers/libpod/containers_create.go"),
        }
    } else if i == 9 {
        let mut models: Vec<ExpectedSourceRef> = Vec::new();
        models.push(ExpectedSourceRef::Podman("pkg/specgen/podspecgen.go"));
        models.push(ExpectedSourceRef::Podman("pkg/specgen/volumes.go"));
        ClaimEntry {
            field: "pod-infra-named-volume-mount",
            operation: "pod-create",
            flag: Some("--volume"),
            shape: "named-volume-mount",
            member: "volumes",
            cli: ExpectedSourceRef::Podman("cmd/podman/pods/create.go"),
            models,
            handler: ExpectedSourceRef::Podman("pkg/api/handlers/libpod/pods.go"),
        }
    } else if i == 10 {
        let mut models: Vec<ExpectedSourceRef> = Vec::new();
        models.push(ExpectedSourceRef::Podman("pkg/specgen/specgen.go"));
        models.push(ExpectedSourceRef::Common);
        ClaimEntry {
            field: "container-network-attachment",
            operation: "container-create",
            flag: Some("--network"),
            shape: "network-attachment",
            member: "Networks",
            cli: ExpectedSourceRef::Podman("cmd/podman/common/netflags.go"),
            models,
            handler: ExpectedSourceRef::Podman("pkg/api/handlers/libpod/containers_create.go"),
        }
    } else if i == 11 {
        let mut models: Vec<ExpectedSourceRef> = Vec::new();
        models.push(ExpectedSourceRef::Podman("pkg/specgen/podspecgen.go"));
        models.push(ExpectedSourceRef::Common);
        ClaimEntry {
            field: "pod-network-attachment",
            operation: "pod-create",
            flag: Some("--network"),
            shape: "network-attachment",
            member: "Networks",
            cli: ExpectedSourceRef::Podman("cmd/podman/pods/create.go"),
            models,
            handler: ExpectedSourceRef::Podman("pkg/api/handlers/libpod/pods.go"),
        }
    } else if i == 12 {
        let mut models: Vec<ExpectedSourceRef> = Vec::new();
        models.push(ExpectedSourceRef::Podman("pkg/specgen/specgen.go"));
        models.push(ExpectedSourceRef::Common);
        ClaimEntry {
            field: "container-network-alias",
            operation: "container-create",
            flag: Some("--network"),
            shape: "network-alias",
            member: "Networks",
            cli: ExpectedSourceRef::Podman("cmd/podman/common/netflags.go"),
            models,
            handler: ExpectedSourceRef::Podman("pkg/api/handlers/libpod/containers_create.go"),
        }
    } else if i == 13 {
        let mut models: Vec<ExpectedSourceRef> = Vec::new();
        models.push(ExpectedSourceRef::Podman("pkg/specgen/podspecgen.go"));
        models.push(ExpectedSourceRef::Common);
        ClaimEntry {
            field: "pod-network-alias",
            operation: "pod-create",
            flag: Some("--network"),
            shape: "network-alias",
            member: "Networks",
            cli: ExpectedSourceRef::Podman("cmd/podman/pods/create.go"),
            models,
            handler: ExpectedSourceRef::Podman("pkg/api/handlers/libpod/pods.go"),
        }
    } else if i == 14 {
        let mut models: Vec<ExpectedSourceRef> = Vec::new();
        models.push(ExpectedSourceRef::Podman("pkg/specgen/specgen.go"));
        models.push(ExpectedSourceRef::Common);
        ClaimEntry {
            field: "container-network-static-ipv4",
            operation: "container-create",
            flag: Some("--network"),
            shape: "static-ip",
            member: "Networks",
            cli: ExpectedSourceRef::Podman("cmd/podman/common/netflags.go"),
            models,
            handler: ExpectedSourceRef::Podman("pkg/api/handlers/libpod/containers_create.go"),
        }
    } else if i == 15 {
        let mut models: Vec<ExpectedSourceRef> = Vec::new();
        models.push(ExpectedSourceRef::Podman("pkg/specgen/podspecgen.go"));
        models.push(ExpectedSourceRef::Common);
        ClaimEntry {
            field: "pod-network-static-ipv4",
            operation: "pod-create",
            flag: Some("--network"),
            shape: "static-ip",
            member: "Networks",
            cli: ExpectedSourceRef::Podman("cmd/podman/pods/create.go"),
            models,
            handler: ExpectedSourceRef::Podman("pkg/api/handlers/libpod/pods.go"),
        }
    } else if i == 16 {
        let mut models: Vec<ExpectedSourceRef> = Vec::new();
        models.push(ExpectedSourceRef::Podman("pkg/specgen/specgen.go"));
        models.push(ExpectedSourceRef::Common);
        ClaimEntry {
            field: "container-network-static-ipv6",
            operation: "container-create",
            flag: Some("--network"),
            shape: "static-ip",
            member: "Networks",
            cli: ExpectedSourceRef::Podman("cmd/podman/common/netflags.go"),
            models,
            handler: ExpectedSourceRef::Podman("pkg/api/handlers/libpod/containers_create.go"),
        }
    } else if i == 17 {
        let mut models: Vec<ExpectedSourceRef> = Vec::new();
        models.push(ExpectedSourceRef::Podman("pkg/specgen/podspecgen.go"));
        models.push(ExpectedSourceRef::Common);
        ClaimEntry {
            field: "pod-network-static-ipv6",
            operation: "pod-create",
            flag: Some("--network"),
            shape: "static-ip",
            member: "Networks",
            cli: ExpectedSourceRef::Podman("cmd/podman/pods/create.go"),
            models,
            handler: ExpectedSourceRef::Podman("pkg/api/handlers/libpod/pods.go"),
        }
    } else if i == 18 {
        let mut models: Vec<ExpectedSourceRef> = Vec::new();
        models.push(ExpectedSourceRef::Podman("pkg/specgen/specgen.go"));
        models.push(ExpectedSourceRef::Common);
        ClaimEntry {
            field: "container-network-static-mac",
            operation: "container-create",
            flag: Some("--network"),
            shape: "static-mac",
            member: "Networks",
            cli: ExpectedSourceRef::Podman("cmd/podman/common/netflags.go"),
            models,
            handler: ExpectedSourceRef::Podman("pkg/api/handlers/libpod/containers_create.go"),
        }
    } else if i == 19 {
        let mut models: Vec<ExpectedSourceRef> = Vec::new();
        models.push(ExpectedSourceRef::Podman("pkg/specgen/podspecgen.go"));
        models.push(ExpectedSourceRef::Common);
        ClaimEntry {
            field: "pod-network-static-mac",
            operation: "pod-create",
            flag: Some("--network"),
            shape: "static-mac",
            member: "Networks",
            cli: ExpectedSourceRef::Podman("cmd/podman/pods/create.go"),
            models,
            handler: ExpectedSourceRef::Podman("pkg/api/handlers/libpod/pods.go"),
        }
    } else if i == 20 {
        let mut models: Vec<ExpectedSourceRef> = Vec::new();
        models.push(ExpectedSourceRef::Podman("pkg/specgen/specgen.go"));
        models.push(ExpectedSourceRef::Common);
        ClaimEntry {
            field: "container-port-mapping",
            operation: "container-create",
            flag: Some("--publish"),
            shape: "port-mapping",
            member: "portmappings",
            cli: ExpectedSourceRef::Podman("cmd/podman/common/netflags.go"),
            models,
            handler: ExpectedSourceRef::Podman("pkg/api/handlers/libpod/containers_create.go"),
        }
    } else if i == 21 {
        let mut models: Vec<ExpectedSourceRef> = Vec::new();
        models.push(ExpectedSourceRef::Podman("pkg/specgen/podspecgen.go"));
        models.push(ExpectedSourceRef::Common);
        ClaimEntry {
            field: "pod-port-mapping",
            operation: "pod-create",
            flag: Some("--publish"),
            shape: "port-mapping",
            member: "portmappings",
            cli: ExpectedSourceRef::Podman("cmd/podman/pods/create.go"),
            models,
            handler: ExpectedSourceRef::Podman("pkg/api/handlers/libpod/pods.go"),
        }
    } else if i == 22 {
        let mut models: Vec<ExpectedSourceRef> = Vec::new();
        models.push(ExpectedSourceRef::Podman("pkg/specgen/specgen.go"));
        ClaimEntry {
            field: "container-dns-servers",
            operation: "container-create",
            flag: Some("--dns"),
            shape: "dns-server",
            member: "dns_server",
            cli: ExpectedSourceRef::Podman("cmd/podman/common/netflags.go"),
            models,
            handler: ExpectedSourceRef::Podman("pkg/api/handlers/libpod/containers_create.go"),
        }
    } else if i == 23 {
        let mut models: Vec<ExpectedSourceRef> = Vec::new();
        models.push(ExpectedSourceRef::Podman("pkg/specgen/specgen.go"));
        ClaimEntry {
            field: "container-dns-search",
            operation: "container-create",
            flag: Some("--dns-search"),
            shape: "dns-search",
            member: "dns_search",
            cli: ExpectedSourceRef::Podman("cmd/podman/common/netflags.go"),
            models,
            handler: ExpectedSourceRef::Podman("pkg/api/handlers/libpod/containers_create.go"),
        }
    } else if i == 24 {
        let mut models: Vec<ExpectedSourceRef> = Vec::new();
        models.push(ExpectedSourceRef::Podman("pkg/specgen/specgen.go"));
        ClaimEntry {
            field: "container-dns-options",
            operation: "container-create",
            flag: Some("--dns-option"),
            shape: "dns-option",
            member: "dns_option",
            cli: ExpectedSourceRef::Podman("cmd/podman/common/netflags.go"),
            models,
            handler: ExpectedSourceRef::Podman("pkg/api/handlers/libpod/containers_create.go"),
        }
    } else if i == 25 {
        let mut models: Vec<ExpectedSourceRef> = Vec::new();
        models.push(ExpectedSourceRef::Podman("pkg/specgen/podspecgen.go"));
        ClaimEntry {
            field: "pod-dns-servers",
            operation: "pod-create",
            flag: Some("--dns"),
            shape: "dns-server",
            member: "dns_server",
            cli: ExpectedSourceRef::Podman("cmd/podman/pods/create.go"),
            models,
            handler: ExpectedSourceRef::Podman("pkg/api/handlers/libpod/pods.go"),
        }
    } else if i == 26 {
        let mut models: Vec<ExpectedSourceRef> = Vec::new();
        models.push(ExpectedSourceRef::Podman("pkg/specgen/podspecgen.go"));
        ClaimEntry {
            field: "pod-dns-search",
            operation: "pod-create",
            flag: Some("--dns-search"),
            shape: "dns-search",
            member: "dns_search",
            cli: ExpectedSourceRef::Podman("cmd/podman/pods/create.go"),
            models,
            handler: ExpectedSourceRef::Podman("pkg/api/handlers/libpod/pods.go"),
        }
    } else if i == 27 {
        let mut models: Vec<ExpectedSourceRef> = Vec::new();
        models.push(ExpectedSourceRef::Podman("pkg/specgen/podspecgen.go"));
        ClaimEntry {
            field: "pod-dns-options",
            operation: "pod-create",
            flag: Some("--dns-option"),
            shape: "dns-option",
            member: "dns_option",
            cli: ExpectedSourceRef::Podman("cmd/podman/pods/create.go"),
            models,
            handler: ExpectedSourceRef::Podman("pkg/api/handlers/libpod/pods.go"),
        }
    } else if i == 28 {
        let mut models: Vec<ExpectedSourceRef> = Vec::new();
        models.push(ExpectedSourceRef::Podman("pkg/specgen/specgen.go"));
        ClaimEntry {
            field: "container-host-alias",
            operation: "container-create",
            flag: Some("--add-host"),
            shape: "host-alias",
            member: "hostadd",
            cli: ExpectedSourceRef::Podman("cmd/podman/common/netflags.go"),
            models,
            handler: ExpectedSourceRef::Podman("pkg/api/handlers/libpod/containers_create.go"),
        }
    } else if i == 29 {
        let mut models: Vec<ExpectedSourceRef> = Vec::new();
        models.push(ExpectedSourceRef::Podman("pkg/specgen/podspecgen.go"));
        ClaimEntry {
            field: "pod-host-alias",
            operation: "pod-create",
            flag: Some("--add-host"),
            shape: "host-alias",
            member: "hostadd",
            cli: ExpectedSourceRef::Podman("cmd/podman/pods/create.go"),
            models,
            handler: ExpectedSourceRef::Podman("pkg/api/handlers/libpod/pods.go"),
        }
    } else if i == 30 {
        let mut models: Vec<ExpectedSourceRef> = Vec::new();
        models.push(ExpectedSourceRef::Podman("pkg/specgen/specgen.go"));
        models.push(ExpectedSourceRef::Podman("pkg/specgen/namespaces.go"));
        ClaimEntry {
            field: "container-network-order",
            operation: "container-create",
            flag: Some("--network"),
            shape: "network-order",
            member: "networkOrder",
            cli: ExpectedSourceRef::Podman("cmd/podman/common/netflags.go"),
            models,
            handler: ExpectedSourceRef::Podman("pkg/api/handlers/libpod/containers_create.go"),
        }
    } else if i == 31 {
        let mut models: Vec<ExpectedSourceRef> = Vec::new();
        models.push(ExpectedSourceRef::Common);
        ClaimEntry {
            field: "network-ipam-subnet",
            operation: "network-create",
            flag: Some("--subnet"),
            shape: "network-subnet",
            member: "subnets",
            cli: ExpectedSourceRef::Podman("cmd/podman/networks/create.go"),
            models,
            handler: ExpectedSourceRef::Podman("pkg/api/handlers/libpod/networks.go"),
        }
    } else if i == 32 {
        let mut models: Vec<ExpectedSourceRef> = Vec::new();
        models.push(ExpectedSourceRef::Common);
        ClaimEntry {
            field: "network-ipam-gateway",
            operation: "network-create",
            flag: Some("--gateway"),
            shape: "network-gateway",
            member: "subnets",
            cli: ExpectedSourceRef::Podman("cmd/podman/networks/create.go"),
            models,
            handler: ExpectedSourceRef::Podman("pkg/api/handlers/libpod/networks.go"),
        }
    } else if i == 33 {
        let mut models: Vec<ExpectedSourceRef> = Vec::new();
        models.push(ExpectedSourceRef::Common);
        ClaimEntry {
            field: "network-ipam-range",
            operation: "network-create",
            flag: Some("--ip-range"),
            shape: "network-ip-range",
            member: "subnets",
            cli: ExpectedSourceRef::Podman("cmd/podman/networks/create.go"),
            models,
            handler: ExpectedSourceRef::Podman("pkg/api/handlers/libpod/networks.go"),
        }
    } else if i == 34 {
        let mut models: Vec<ExpectedSourceRef> = Vec::new();
        models.push(ExpectedSourceRef::Common);
        ClaimEntry {
            field: "network-route-destination",
            operation: "network-create",
            flag: Some("--route"),
            shape: "network-route",
            member: "routes",
            cli: ExpectedSourceRef::Podman("cmd/podman/networks/create.go"),
            models,
            handler: ExpectedSourceRef::Podman("pkg/api/handlers/libpod/networks.go"),
        }
    } else if i == 35 {
        let mut models: Vec<ExpectedSourceRef> = Vec::new();
        models.push(ExpectedSourceRef::Common);
        ClaimEntry {
            field: "network-route-gateway",
            operation: "network-create",
            flag: Some("--route"),
            shape: "network-route",
            member: "routes",
            cli: ExpectedSourceRef::Podman("cmd/podman/networks/create.go"),
            models,
            handler: ExpectedSourceRef::Podman("pkg/api/handlers/libpod/networks.go"),
        }
    } else if i == 36 {
        let mut models: Vec<ExpectedSourceRef> = Vec::new();
        models.push(ExpectedSourceRef::Common);
        ClaimEntry {
            field: "network-route-metric",
            operation: "network-create",
            flag: Some("--route"),
            shape: "network-route",
            member: "routes",
            cli: ExpectedSourceRef::Podman("cmd/podman/networks/create.go"),
            models,
            handler: ExpectedSourceRef::Podman("pkg/api/handlers/libpod/networks.go"),
        }
    } else if i == 37 {
        let mut models: Vec<ExpectedSourceRef> = Vec::new();
        models.push(ExpectedSourceRef::Common);
        ClaimEntry {
            field: "network-route-type-unicast",
            operation: "network-create",
            flag: Some("--route"),
            shape: "network-route",
            member: "routes",
            cli: ExpectedSourceRef::Podman("cmd/podman/networks/create.go"),
            models,
            handler: ExpectedSourceRef::Podman("pkg/api/handlers/libpod/networks.go"),
        }
    } else if i == 38 {
        let mut models: Vec<ExpectedSourceRef> = Vec::new();
        models.push(ExpectedSourceRef::Common);
        ClaimEntry {
            field: "network-route-type-blackhole",
            operation: "network-create",
            flag: Some("--route"),
            shape: "network-route",
            member: "routes",
            cli: ExpectedSourceRef::Podman("cmd/podman/networks/create.go"),
            models,
            handler: ExpectedSourceRef::Podman("pkg/api/handlers/libpod/networks.go"),
        }
    } else if i == 39 {
        let mut models: Vec<ExpectedSourceRef> = Vec::new();
        models.push(ExpectedSourceRef::Common);
        ClaimEntry {
            field: "network-route-type-unreachable",
            operation: "network-create",
            flag: Some("--route"),
            shape: "network-route",
            member: "routes",
            cli: ExpectedSourceRef::Podman("cmd/podman/networks/create.go"),
            models,
            handler: ExpectedSourceRef::Podman("pkg/api/handlers/libpod/networks.go"),
        }
    } else {
        let mut models: Vec<ExpectedSourceRef> = Vec::new();
        models.push(ExpectedSourceRef::Common);
        ClaimEntry {
            field: "network-route-type-prohibit",
            operation: "network-create",
            flag: Some("--route"),
            shape: "network-route",
            member: "routes",
            cli: ExpectedSourceRef::Podman("cmd/podman/networks/create.go"),
            models,
            handler: ExpectedSourceRef::Podman("pkg/api/handlers/libpod/networks.go"),
        }
    }
    };
    proof {
        assert(claim_view(r).models =~= claim_row(i as int).models);
    }
    r
}

/// Whether a field's availability is gated by the renderer version: network order and the
/// non-unicast route types exist only from 6.0.0.
pub open spec fn version_gated(field: Seq<char>) -> bool {
    field == "container-network-order"@ || field == "network-route-type-blackhole"@ || field
        == "network-route-type-unreachable"@ || field == "network-route-type-prohibit"@
}

/// The availability a line's evidence must claim for `field`.
pub open spec fn expected_availability(field: Seq<char>, version: Seq<char>) -> Seq<char> {
    if version_gated(field) && !(version == "6.0.0"@ || version == "6.1.0"@) {
        "unsupported"@
    } else {
        "exact"@
    }
}

/// A source at `path` in the Podman repository at `revision`.
pub open spec fn podman_source_ok(s: SourceView, revision: Seq<char>, path: Seq<char>) -> bool {
    &&& s.repository == "containers-podman"@
    &&& s.revision == revision
    &&& s.path == path
    &&& s.module is None
    &&& lowercase_sha40(s.revision)
}

/// The path of the network model within a line's pinned common module.
pub open spec fn common_model_path(version: Seq<char>) -> Option<Seq<char>> {
    if version == "5.4.0"@ || version == "5.5.0"@ || version == "5.6.0"@ {
        Some("libnetwork/types/network.go"@)
    } else if version == "5.7.0"@ || version == "5.8.6"@ || version == "6.0.0"@ || version == "6.1.0"@ {
        Some("common/libnetwork/types/network.go"@)
    } else {
        None
    }
}

/// A source that lies where `e` says, for the line `l`.
pub open spec fn expected_source_ok(s: SourceView, l: RenderingLineView, e: ExpectedSource) -> bool {
    match e {
        ExpectedSource::Podman(p) => podman_source_ok(s, l.revision, p),
        ExpectedSource::Common => {
            &&& s.repository == l.common_module.repository
            &&& s.revision == l.common_module.revision
            &&& common_model_path(l.version) == Some(s.path)
            &&& s.module == Some(l.common_module)
            &&& lowercase_sha40(s.revision)
        },
    }
}

/// A field's evidence states exactly the reviewed `row`, for the line `l`.
pub open spec fn claim_ok(ev: FieldEvidenceView, l: RenderingLineView, row: ClaimRow) -> bool {
    &&& ev.field == row.field
    &&& ev.availability == expected_availability(ev.field, l.version)
    &&& ev.operation == row.operation
    &&& ev.flag == row.flag
    &&& ev.shape == row.shape
    &&& ev.member == row.member
    &&& expected_source_ok(ev.cli_source, l, row.cli)
    &&& ev.model_sources.len() == row.models.len()
    &&& forall|k: int| 0 <= k < row.models.len() ==> expected_source_ok(#[trigger] ev.model_sources[k], l, row.models[k])
    &&& expected_source_ok(ev.handler_source, l, row.handler)
}

/// The evidence states the reviewed claim of some rendered field.
pub open spec fn some_claim_ok(ev: FieldEvidenceView, l: RenderingLineView) -> bool {
    exists|i: int| 0 <= i < CLAIM_ROWS && #[trigger] claim_ok(ev, l, claim_row(i))
}

/// Some evidence in `evs` is about `field`.
pub open spec fn names_field(evs: Seq<FieldEvidenceView>, field: Seq<char>) -> bool {
    exists|j: int| 0 <= j < evs.len() && #[trigger] evs[j].field == field
}

/// A line's field evidence names every rendered field once and states each reviewed claim.
pub open spec fn field_evidence_ok(l: RenderingLineView) -> bool {
    &&& l.field_evidence.len() == CLAIM_ROWS
    &&& forall|i: int| 0 <= i < CLAIM_ROWS ==> #[trigger] names_field(l.field_evidence, claim_row(i).field)
    &&& forall|j: int| 0 <= j < l.field_evidence.len() ==> #[trigger] some_claim_ok(l.field_evidence[j], l)
}

/// The sources an operation category's evidence must point at: CLI command, Libpod route, and
/// request-body handler when the request has a body.
pub open spec fn operation_paths(category: Seq<char>) -> Option<(Seq<char>, Seq<char>, Option<Seq<char>>)> {
    if category == "network-create"@ {
        Some(("cmd/podman/networks/create.go"@, "pkg/api/server/register_networks.go"@, Some("pkg/api/handlers/libpod/networks.go"@)))
    } else if category == "volume-create"@ {
        Some(("cmd/podman/volumes/create.go"@, "pkg/api/server/register_volumes.go"@, Some("pkg/api/handlers/libpod/volumes.go"@)))
    } else if category == "secret-create"@ {
        Some(("cmd/podman/secrets/create.go"@, "pkg/api/server/register_secrets.go"@, Some("pkg/api/handlers/libpod/secrets.go"@)))
    } else if category == "image-pull"@ {
        Some(("cmd/podman/images/pull.go"@, "pkg/api/server/register_images.go"@, None))
    } else if category == "pod-create"@ {
        Some(("cmd/podman/pods/create.go"@, "pkg/api/server/register_pods.go"@, Some("pkg/api/handlers/libpod/pods.go"@)))
    } else if category == "container-create"@ {
        Some(
            (
                "cmd/podman/containers/create.go"@,
                "pkg/api/server/register_containers.go"@,
                Some("pkg/api/handlers/libpod/containers_create.go"@),
            ),
        )
    } else if category == "pod-start"@ {
        Some(("cmd/podman/pods/start.go"@, "pkg/api/server/register_pods.go"@, None))
    } else if category == "container-start"@ {
        Some(("cmd/podman/containers/start.go"@, "pkg/api/server/register_containers.go"@, None))
    } else {
        None
    }
}

/// The rendered operation categories.
pub open spec fn operation_categories() -> Seq<Seq<char>> {
    seq![
        "network-create"@,
        "volume-create"@,
        "secret-create"@,
        "image-pull"@,
        "pod-create"@,
        "container-create"@,
        "pod-start"@,
        "container-start"@,
    ]
}

/// An operation's evidence points at the reviewed sources of its category at `revision`.
pub open spec fn operation_ok(op: OperationView, revision: Seq<char>) -> bool {
    match operation_paths(op.category) {
        None => false,
        Some((cli, route, body)) => {
            &&& podman_source_ok(op.cli_source, revision, cli)
            &&& podman_source_ok(op.libpod_endpoint_source, revision, route)
            &&& match (body, op.body_source) {
                (Some(p), Some(s)) => podman_source_ok(s, revision, p),
                (None, None) => true,
                _ => false,
            }
        },
    }
}

/// Some operation in `ops` is of `category`.
pub open spec fn names_category(ops: Seq<OperationView>, category: Seq<char>) -> bool {
    exists|j: int| 0 <= j < ops.len() && #[trigger] ops[j].category == category
}

/// A line's operations name every rendered category once, each with its reviewed sources.
pub open spec fn operations_ok(l: RenderingLineView) -> bool {
    &&& l.operations.len() == 8
    &&& forall|i: int| 0 <= i < 8 ==> #[trigger] names_category(l.operations, operation_categories()[i])
    &&& forall|j: int| 0 <= j < l.operations.len() ==> #[trigger] operation_ok(l.operations[j], l.revision)
}

/// The reviewed common-module pin of each renderer version.
pub open spec fn common_module_ok(version: Seq<char>, m: ModulePinView) -> bool {
    ||| version == "5.4.0"@ && m == (ModulePinView {
        repository: "containers-common"@,
        path: "github.com/containers/common"@,
        version: "v0.62.0"@,
        revision: "cde1afdf623bdb9595d1fdc7acffa6e2f03a06b2"@,
    })
    ||| version == "5.5.0"@ && m == (ModulePinView {
        repository: "containers-common"@,
        path: "github.com/containers/common"@,
        version: "v0.63.0"@,
        revision: "92927328862e4837d87bcbc0725b713387399984"@,
    })
    ||| version == "5.6.0"@ && m == (ModulePinView {
        repository: "containers-common"@,
        path: "github.com/containers/common"@,
        version: "v0.64.1"@,
        revision: "c007f37a6c55a53a7d41419d094c815bf2e46ca3"@,
    })
    ||| version == "5.7.0"@ && m == (ModulePinView {
        repository: "containers-container-libs"@,
        path: "go.podman.io/common"@,
        version: "v0.66.0"@,
        revision: "8163ca799c317e3dea886be7228406ec8cf06abc"@,
    })
    ||| version == "5.8.6"@ && m == (ModulePinView {
        repository: "containers-container-libs"@,
        path: "go.podman.io/common"@,
        version: "v0.67.1"@,
        revision: "c8b7f74383aa8bac5a84118db1a6fa870602af63"@,
    })
    ||| version == "6.0.0"@ && m == (ModulePinView {
        repository: "containers-container-libs"@,
        path: "go.podman.io/common"@,
        version: "v0.68.0"@,
        revision: "bb6a37c8946a977f24a8eed4d97b2dc3608cd05e"@,
    })
    ||| version == "6.1.0"@ && m == (ModulePinView {
        repository: "podman-container-tools-container-libs"@,
        path: "go.podman.io/common"@,
        version: "v0.69.1"@,
        revision: "e47c7ccf66a1b89b0807e053dd426ff26eedd7a7"@,
    })
}

/// A line is a plain canonical version matching its capability entry's observed release, with
/// its pinned module, operations and field matrix.
pub open spec fn line_ok(l: RenderingLineView, cap: EntryView) -> bool {
    &&& semver_version(l.version) matches Some(f) && f.pre.len() == 0 && f.build.len() == 0 && l.version == version_text(
        (f.major, f.minor, f.patch),
    )
    &&& l.version == cap.observed_podman_version
    &&& l.revision == cap.evidence.revision
    &&& l.tag == cap.evidence.release_tag
    &&& lowercase_sha40(l.revision)
    &&& common_module_ok(l.version, l.common_module)
    &&& operations_ok(l)
    &&& field_evidence_ok(l)
}

/// A renderer catalogue: schema version 5, a provenance that is not blank, and one valid line
/// per capability entry, in the capability catalogue's order.
pub open spec fn renderer_catalogue_ok(schema_version: u8, provenance: Seq<char>, lines: Seq<RenderingLineView>, caps: Seq<EntryView>) -> bool {
    &&& schema_version == 5
    &&& trim(provenance).len() > 0
    &&& lines.len() == caps.len()
    &&& forall|k: int| 0 <= k < lines.len() ==> #[trigger] line_ok(lines[k], caps[k])
}

fn podman_source_valid(s: &SourceReference, revision: &str, path: &str) -> (r: bool)
    ensures
        r == podman_source_ok(s@, revision@, path@),
{
    str_eq(s.repository.as_str(), "containers-podman") && str_eq(s.revision.as_str(), revision) && str_eq(
        s.path.as_str(),
        path,
    ) && s.module.is_none() && is_lowercase_sha40(s.revision.as_str())
}

fn module_eq(a: &ModulePin, b: &ModulePin) -> (r: bool)
    ensures
        r == (a@ == b@),
{
    let r = str_eq(a.repository.as_str(), b.repository.as_str()) && str_eq(a.path.as_str(), b.path.as_str()) && str_eq(
        a.version.as_str(),
        b.version.as_str(),
    ) && str_eq(a.revision.as_str(), b.revision.as_str());
    proof {
        if r {
            assert(a@ =~= b@);
        }
    }
    r
}

fn common_model_path_of(version: &str) -> (r: Option<&'static str>)
    ensures
        match (r, common_model_path(version@)) {
            (Some(a), Some(b)) => a@ == b,
            (None, None) => true,
            _ => false,
        },
{
    if str_eq(version, "5.4.0") || str_eq(version, "5.5.0") || str_eq(version, "5.6.0") {
        Some("libnetwork/types/network.go")
    } else if str_eq(version, "5.7.0") || str_eq(version, "5.8.6") || str_eq(version, "6.0.0") || str_eq(version, "6.1.0") {
        Some("common/libnetwork/types/network.go")
    } else {
        None
    }
}

fn expected_source_valid(s: &SourceReference, l: &ReviewedRenderingLine, e: &ExpectedSourceRef) -> (r: bool)
    ensures
        r == expected_source_ok(s@, l@, source_ref_view(*e)),
{
    match e {
        ExpectedSourceRef::Podman(p) => podman_source_valid(s, l.revision.as_str(), p),
        ExpectedSourceRef::Common => {
            let path_ok = match common_model_path_of(l.version.as_str()) {
                Some(p) => str_eq(s.path.as_str(), p),
                None => false,
            };
            let module_ok = match &s.module {
                Some(m) => module_eq(m, &l.common_module),
                None => false,
            };
            str_eq(s.repository.as_str(), l.common_module.repository.as_str()) && str_eq(
                s.revision.as_str(),
                l.common_module.revision.as_str(),
            ) && path_ok && module_ok && is_lowercase_sha40(s.revision.as_str())
        },
    }
}

fn availability_of(field: &str, version: &str) -> (r: &'static str)
    ensures
        r@ == expected_availability(field@, version@),
{
    let gated = str_eq(field, "container-network-order") || str_eq(field, "network-route-type-blackhole") || str_eq(
        field,
        "network-route-type-unreachable",
    ) || str_eq(field, "network-route-type-prohibit");
    if gated && !(str_eq(version, "6.0.0") || str_eq(version, "6.1.0")) {
        "unsupported"
    } else {
        "exact"
    }
}

fn opt_str_eq(a: &Option<String>, b: Option<&'static str>) -> (r: bool)
    ensures
        r == (match a {
            Some(x) => Some(x@),
            None => None,
        } == match b {
            Some(y) => Some(y@),
            None => None,
        }),
{
    match (a, b) {
        (Some(x), Some(y)) => str_eq(x.as_str(), y),
        (None, None) => true,
        _ => false,
    }
}

fn claim_valid(ev: &ReviewedFieldEvidence, l: &ReviewedRenderingLine, i: usize) -> (r: bool)
    ensures
        r == claim_ok(ev@, l@, claim_row(i as int)),
{
    let row = claim_row_at(i);
    let ghost rv = claim_view(row);
    if !(str_eq(ev.field.as_str(), row.field) && str_eq(ev.availability.as_str(), availability_of(ev.field.as_str(), l.version.as_str()))
        && str_eq(ev.operation.as_str(), row.operation) && opt_str_eq(&ev.flag, row.flag) && str_eq(ev.shape.as_str(), row.shape)
        && str_eq(ev.member.as_str(), row.member) && expected_source_valid(&ev.cli_source, l, &row.cli)
        && ev.model_sources.len() == row.models.len() && expected_source_valid(&ev.handler_source, l, &row.handler)) {
        assert(views(ev.model_sources@).len() == ev.model_sources@.len());
        return false;
    }
    assert(views(ev.model_sources@).len() == ev.model_sources@.len());
    let ghost evv = ev@;
    let ghost lv = l@;
    let mut k: usize = 0;
    while k < row.models.len()
        invariant
            k <= row.models.len(),
            row.models.len() == ev.model_sources.len(),
            rv == claim_view(row),
            rv == claim_row(i as int),
            evv == ev@,
            lv == l@,
            evv.field == rv.field,
            evv.availability == expected_availability(evv.field, lv.version),
            evv.operation == rv.operation,
            evv.flag == rv.flag,
            evv.shape == rv.shape,
            evv.member == rv.member,
            expected_source_ok(evv.cli_source, lv, rv.cli),
            evv.model_sources.len() == rv.models.len(),
            expected_source_ok(evv.handler_source, lv, rv.handler),
            forall|j: int| 0 <= j < k ==> expected_source_ok(#[trigger] ev@.model_sources[j], l@, rv.models[j]),
        decreases row.models.len() - k,
    {
        assert(ev@.model_sources[k as int] == ev.model_sources@[k as int]@);
        assert(rv.models[k as int] == source_ref_view(row.models@[k as int]));
        if !expected_source_valid(&ev.model_sources[k], l, &row.models[k]) {
            assert(!expected_source_ok(evv.model_sources[k as int], lv, rv.models[k as int]));
            return false;
        }
        k = k + 1;
    }
    true
}

fn some_claim_valid(ev: &ReviewedFieldEvidence, l: &ReviewedRenderingLine) -> (r: bool)
    ensures
        r == some_claim_ok(ev@, l@),
{
    let mut i: usize = 0;
    while i < CLAIM_ROWS
        invariant
            i <= CLAIM_ROWS,
            forall|j: int| 0 <= j < i ==> !claim_ok(ev@, l@, #[trigger] claim_row(j)),
        decreases CLAIM_ROWS - i,
    {
        if claim_valid(ev, l, i) {
            return true;
        }
        i = i + 1;
    }
    false
}

fn names_field_of(l: &ReviewedRenderingLine, field: &str) -> (r: bool)
    ensures
        r == names_field(l@.field_evidence, field@),
{
    let ghost evs = l@.field_evidence;
    let mut j: usize = 0;
    assert(evs.len() == l.field_evidence@.len());
    while j < l.field_evidence.len()
        invariant
            j <= l.field_evidence.len(),
            evs == l@.field_evidence,
            evs.len() == l.field_evidence@.len(),
            forall|k: int| 0 <= k < j ==> evs[k].field != field@,
        decreases l.field_evidence.len() - j,
    {
        assert(evs[j as int] == l.field_evidence@[j as int]@);
        if str_eq(l.field_evidence[j].field.as_str(), field) {
            assert(evs[j as int].field == field@);
            return true;
        }
        j = j + 1;
    }
    false
}

fn field_evidence_valid(l: &ReviewedRenderingLine) -> (r: bool)
    ensures
        r == field_evidence_ok(l@),
{
    let ghost lv = l@;
    assert(lv.field_evidence.len() == l.field_evidence@.len());
    if l.field_evidence.len() != CLAIM_ROWS {
        return false;
    }
    let mut i: usize = 0;
    while i < CLAIM_ROWS
        invariant
            i <= CLAIM_ROWS,
            lv == l@,
            forall|k: int| 0 <= k < i ==> #[trigger] names_field(lv.field_evidence, claim_row(k).field),
        decreases CLAIM_ROWS - i,
    {
        let row = claim_row_at(i);
        if !names_field_of(l, row.field) {
            assert(!names_field(lv.field_evidence, claim_row(i as int).field));
            return false;
        }
        i = i + 1;
    }
    let mut j: usize = 0;
    while j < l.field_evidence.len()
        invariant
            j <= l.field_evidence.len(),
            lv == l@,
            lv.field_evidence.len() == l.field_evidence@.len(),
            forall|k: int| 0 <= k < CLAIM_ROWS ==> #[trigger] names_field(lv.field_evidence, claim_row(k).field),
            forall|k: int| 0 <= k < j ==> #[trigger] some_claim_ok(lv.field_evidence[k], lv),
        decreases l.field_evidence.len() - j,
    {
        assert(lv.field_evidence[j as int] == l.field_evidence@[j as int]@);
        if !some_claim_valid(&l.field_evidence[j], l) {
            return false;
        }
        j = j + 1;
    }
    true
}

fn operation_paths_of(category: &str) -> (r: Option<(&'static str, &'static str, Option<&'static str>)>)
    ensures
        match (r, operation_paths(category@)) {
            (Some((a, b, c)), Some((x, y, z))) => a@ == x && b@ == y && match (c, z) {
                (Some(c1), Some(z1)) => c1@ == z1,
                (None, None) => true,
                _ => false,
            },
            (None, None) => true,
            _ => false,
        },
{
    if str_eq(category, "network-create") {
        Some(("cmd/podman/networks/create.go", "pkg/api/server/register_networks.go", Some("pkg/api/handlers/libpod/networks.go")))
    } else if str_eq(category, "volume-create") {
        Some(("cmd/podman/volumes/create.go", "pkg/api/server/register_volumes.go", Some("pkg/api/handlers/libpod/volumes.go")))
    } else if str_eq(category, "secret-create") {
        Some(("cmd/podman/secrets/create.go", "pkg/api/server/register_secrets.go", Some("pkg/api/handlers/libpod/secrets.go")))
    } else if str_eq(category, "image-pull") {
        Some(("cmd/podman/images/pull.go", "pkg/api/server/register_images.go", None))
    } else if str_eq(category, "pod-create") {
        Some(("cmd/podman/pods/create.go", "pkg/api/server/register_pods.go", Some("pkg/api/handlers/libpod/pods.go")))
    } else if str_eq(category, "container-create") {
        Some(
            (
                "cmd/podman/containers/create.go",
                "pkg/api/server/register_containers.go",
                Some("pkg/api/handlers/libpod/containers_create.go"),
            ),
        )
    } else if str_eq(category, "pod-start") {
        Some(("cmd/podman/pods/start.go", "pkg/api/server/register_pods.go", None))
    } else if str_eq(category, "container-start") {
        Some(("cmd/podman/containers/start.go", "pkg/api/server/register_containers.go", None))
    } else {
        None
    }
}

fn operation_valid(op: &ReviewedRenderingOperation, revision: &str) -> (r: bool)
    ensures
        r == operation_ok(op@, revision@),
{
    match operation_paths_of(op.category.as_str()) {
        None => false,
        Some((cli, route, body)) => {
            let body_ok = match (body, &op.body_source) {
                (Some(p), Some(s)) => podman_source_valid(s, revision, p),
                (None, None) => true,
                _ => false,
            };
            podman_source_valid(&op.cli_source, revision, cli) && podman_source_valid(&op.libpod_endpoint_source, revision, route)
                && body_ok
        },
    }
}

fn category_at(i: usize) -> (r: &'static str)
    requires
        i < 8,
    ensures
        r@ == operation_categories()[i as int],
{
    if i == 0 {
        "network-create"
    } else if i == 1 {
        "volume-create"
    } else if i == 2 {
        "secret-create"
    } else if i == 3 {
        "image-pull"
    } else if i == 4 {
        "pod-create"
    } else if i == 5 {
        "container-create"
    } else if i == 6 {
        "pod-start"
    } else {
        "container-start"
    }
}

fn operations_valid(l: &ReviewedRenderingLine) -> (r: bool)
    ensures
        r == operations_ok(l@),
{
    let ghost lv = l@;
    let ghost ops = lv.operations;
    assert(ops.len() == l.operations@.len());
    if l.operations.len() != 8 {
        return false;
    }
    let mut i: usize = 0;
    while i < 8
        invariant
            i <= 8,
            lv == l@,
            ops == lv.operations,
            ops.len() == l.operations@.len(),
            forall|k: int| 0 <= k < i ==> #[trigger] names_category(ops, operation_categories()[k]),
        decreases 8 - i,
    {
        let category = category_at(i);
        let mut j: usize = 0;
        let mut found = false;
        while j < l.operations.len()
            invariant
                j <= l.operations.len(),
                ops == l@.operations,
                ops.len() == l.operations@.len(),
                found ==> names_category(ops, category@),
                !found ==> forall|k: int| 0 <= k < j ==> (#[trigger] ops[k]).category != category@,
            decreases l.operations.len() - j,
        {
            assert(ops[j as int] == l.operations@[j as int]@);
            if str_eq(l.operations[j].category.as_str(), category) {
                assert(ops[j as int].category == category@);
                found = true;
            }
            j = j + 1;
        }
        if !found {
            assert(!names_category(ops, operation_categories()[i as int])) by {
                if names_category(ops, category@) {
                    let k = choose|k: int| 0 <= k < ops.len() && #[trigger] ops[k].category == category@;
                    assert(ops[k].category != category@);
                }
            }
            proof {
                if names_category(ops, category@) {
                    let k = choose|k: int| 0 <= k < ops.len() && #[trigger] ops[k].category == category@;
                    assert(ops[k].category != category@);
                }
            }
            return false;
        }
        i = i + 1;
    }
    let mut j: usize = 0;
    while j < l.operations.len()
        invariant
            j <= l.operations.len(),
            lv == l@,
            ops == lv.operations,
            ops.len() == l.operations@.len(),
            forall|k: int| 0 <= k < 8 ==> #[trigger] names_category(ops, operation_categories()[k]),
            forall|k: int| 0 <= k < j ==> #[trigger] operation_ok(ops[k], lv.revision),
        decreases l.operations.len() - j,
    {
        assert(ops[j as int] == l.operations@[j as int]@);
        if !operation_valid(&l.operations[j], l.revision.as_str()) {
            assert(!operation_ok(ops[j as int], lv.revision));
            return false;
        }
        j = j + 1;
    }
    true
}

fn module_is(m: &ModulePin, repository: &str, path: &str, version: &str, revision: &str) -> (r: bool)
    ensures
        r == (m@ == ModulePinView { repository: repository@, path: path@, version: version@, revision: revision@ }),
{
    let r = str_eq(m.repository.as_str(), repository) && str_eq(m.path.as_str(), path) && str_eq(m.version.as_str(), version)
        && str_eq(m.revision.as_str(), revision);
    proof {
        if r {
            assert(m@ =~= ModulePinView { repository: repository@, path: path@, version: version@, revision: revision@ });
        }
    }
    r
}

fn common_module_valid(version: &str, m: &ModulePin) -> (r: bool)
    ensures
        r == common_module_ok(version@, m@),
{
    (str_eq(version, "5.4.0") && module_is(
        m,
        "containers-common",
        "github.com/containers/common",
        "v0.62.0",
        "cde1afdf623bdb9595d1fdc7acffa6e2f03a06b2",
    )) || (str_eq(version, "5.5.0") && module_is(
        m,
        "containers-common",
        "github.com/containers/common",
        "v0.63.0",
        "92927328862e4837d87bcbc0725b713387399984",
    )) || (str_eq(version, "5.6.0") && module_is(
        m,
        "containers-common",
        "github.com/containers/common",
        "v0.64.1",
        "c007f37a6c55a53a7d41419d094c815bf2e46ca3",
    )) || (str_eq(version, "5.7.0") && module_is(
        m,
        "containers-container-libs",
        "go.podman.io/common",
        "v0.66.0",
        "8163ca799c317e3dea886be7228406ec8cf06abc",
    )) || (str_eq(version, "5.8.6") && module_is(
        m,
        "containers-container-libs",
        "go.podman.io/common",
        "v0.67.1",
        "c8b7f74383aa8bac5a84118db1a6fa870602af63",
    )) || (str_eq(version, "6.0.0") && module_is(
        m,
        "containers-container-libs",
        "go.podman.io/common",
        "v0.68.0",
        "bb6a37c8946a977f24a8eed4d97b2dc3608cd05e",
    )) || (str_eq(version, "6.1.0") && module_is(
        m,
        "podman-container-tools-container-libs",
        "go.podman.io/common",
        "v0.69.1",
        "e47c7ccf66a1b89b0807e053dd426ff26eedd7a7",
    ))
}

fn canonical_plain_version(version: &str) -> (r: bool)
    ensures
        r == (semver_version(version@) matches Some(f) && f.pre.len() == 0 && f.build.len() == 0 && version@ == version_text(
            (f.major, f.minor, f.patch),
        )),
{
    match semver_fields(version) {
        None => false,
        Some(f) => {
            let text = string_from_chars(&version_text_of((f.major, f.minor, f.patch)));
            f.pre.as_str().is_empty() && f.build.as_str().is_empty() && str_eq(version, text.as_str())
        },
    }
}

fn line_valid(l: &ReviewedRenderingLine, cap: &CapabilityCatalogueEntry) -> (r: bool)
    ensures
        r == line_ok(l@, cap@),
{
    canonical_plain_version(l.version.as_str()) && str_eq(l.version.as_str(), cap.observed_podman_version()) && str_eq(
        l.revision.as_str(),
        cap.evidence().revision(),
    ) && str_eq(l.tag.as_str(), cap.evidence().release_tag()) && is_lowercase_sha40(l.revision.as_str())
        && common_module_valid(l.version.as_str(), &l.common_module) && operations_valid(l) && field_evidence_valid(l)
}

/// The reviewed renderer versions of a renderer catalogue, in catalogue order.
pub open spec fn renderer_versions(lines: Seq<RenderingLineView>) -> Seq<Seq<char>> {
    lines.map_values(|l: RenderingLineView| l.version)
}

/// Holds a decoded renderer catalogue to its schema version, its provenance, the validated
/// capability catalogue and the reviewed evidence matrix, and hands back the reviewed renderer
/// versions when it obeys them; `None` otherwise.
pub fn validate_renderer_catalogue(
    schema_version: u8,
    provenance: &str,
    lines: &[ReviewedRenderingLine],
    capabilities: &[CapabilityCatalogueEntry],
) -> (r: Option<Vec<String>>)
    ensures
        r is Some <==> renderer_catalogue_ok(schema_version, provenance@, views(lines@), views(capabilities@)),
        r matches Some(v) ==> crate::observation::texts(v@) == renderer_versions(views(lines@)),
{
    let ghost ls = views(lines@);
    let ghost cs = views(capabilities@);
    assert(ls.len() == lines@.len() && cs.len() == capabilities@.len());
    if schema_version != 5 || trimmed(&to_chars(provenance)).len() == 0 || lines.len() != capabilities.len() {
        return None;
    }
    let mut versions: Vec<String> = Vec::new();
    let mut k: usize = 0;
    while k < lines.len()
        invariant
            k <= lines.len(),
            lines.len() == capabilities.len(),
            ls == views(lines@),
            cs == views(capabilities@),
            ls.len() == lines@.len(),
            cs.len() == capabilities@.len(),
            forall|j: int| 0 <= j < k ==> #[trigger] line_ok(ls[j], cs[j]),
            crate::observation::texts(versions@) == renderer_versions(ls.take(k as int)),
        decreases lines.len() - k,
    {
        assert(ls[k as int] == lines@[k as int]@);
        assert(cs[k as int] == capabilities@[k as int]@);
        if !line_valid(&lines[k], &capabilities[k]) {
            assert(!line_ok(ls[k as int], cs[k as int]));
            return None;
        }
        let ghost prev = versions@;
        assert(crate::observation::texts(prev).len() == prev.len());
        versions.push(string_from_chars(&to_chars(lines[k].version.as_str())));
        assert(crate::observation::texts(versions@).len() == versions@.len());
        assert forall|j: int| 0 <= j < k + 1 implies crate::observation::texts(versions@)[j] == renderer_versions(ls.take(k + 1))[j] by {
            if j < k {
                assert(versions@[j] == prev[j]);
                assert(crate::observation::texts(prev)[j] == prev[j]@);
            }
        }
        assert(crate::observation::texts(versions@) =~= renderer_versions(ls.take(k + 1)));
        k = k + 1;
    }
    assert(ls.take(k as int) =~= ls);
    Some(versions)
}

} // verus!
