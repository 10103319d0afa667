//! Versioned deployment artifacts: the plain records a rendering is written out as. The
//! records are computed here; writing them as JSON is left to the caller.

use vstd::prelude::*;

use crate::deployment::ResourceIdView;
use crate::inventory::ResourceKind;
use crate::json::{copy_json, JsonValue, JsonView};
use crate::observation::texts;
use crate::once::views;
use crate::planning::SemanticOperationAction;
use crate::render::{BodyView, DeploymentRendering, RenderStatus, RenderedHttpBody, RenderedHttpMethod, RenderedOperationView, RenderingView};

pub mod deployment_v1;
pub mod deployment_v2;

verus! {

/// The artifact spelling of a resource kind.
pub open spec fn kind_name(kind: ResourceKind) -> Seq<char> {
    match kind {
        ResourceKind::Container => "container"@,
        ResourceKind::Pod => "pod"@,
        ResourceKind::Network => "network"@,
        ResourceKind::Volume => "volume"@,
        ResourceKind::Image => "image"@,
        ResourceKind::Secret => "secret"@,
    }
}

/// The artifact spelling of a render status.
pub open spec fn status_name(status: RenderStatus) -> Seq<char> {
    match status {
        RenderStatus::Exact => "exact"@,
        RenderStatus::DeferredSensitiveInput => "deferred_sensitive_input"@,
        RenderStatus::Manual => "manual"@,
        RenderStatus::Approximate => "approximate"@,
        RenderStatus::Unsupported => "unsupported"@,
    }
}

/// The artifact spelling of an operation's action.
pub open spec fn action_name(action: SemanticOperationAction) -> Seq<char> {
    match action {
        SemanticOperationAction::EnsureImage => "ensure_image"@,
        SemanticOperationAction::Create => "create"@,
        SemanticOperationAction::StartPod => "start_pod"@,
        SemanticOperationAction::StartContainer => "start_container"@,
    }
}

/// The artifact spelling of an HTTP method.
pub open spec fn method_name(method: RenderedHttpMethod) -> Seq<char> {
    match method {
        RenderedHttpMethod::Get => "GET"@,
        RenderedHttpMethod::Post => "POST"@,
    }
}

pub(crate) fn kind_text(kind: ResourceKind) -> (r: &'static str)
    ensures
        r@ == kind_name(kind),
{
    match kind {
        ResourceKind::Container => "container",
        ResourceKind::Pod => "pod",
        ResourceKind::Network => "network",
        ResourceKind::Volume => "volume",
        ResourceKind::Image => "image",
        ResourceKind::Secret => "secret",
    }
}

pub(crate) fn status_text(status: RenderStatus) -> (r: &'static str)
    ensures
        r@ == status_name(status),
{
    match status {
        RenderStatus::Exact => "exact",
        RenderStatus::DeferredSensitiveInput => "deferred_sensitive_input",
        RenderStatus::Manual => "manual",
        RenderStatus::Approximate => "approximate",
        RenderStatus::Unsupported => "unsupported",
    }
}

fn action_text(action: SemanticOperationAction) -> (r: &'static str)
    ensures
        r@ == action_name(action),
{
    match action {
        SemanticOperationAction::EnsureImage => "ensure_image",
        SemanticOperationAction::Create => "create",
        SemanticOperationAction::StartPod => "start_pod",
        SemanticOperationAction::StartContainer => "start_container",
    }
}

fn method_text(method: RenderedHttpMethod) -> (r: &'static str)
    ensures
        r@ == method_name(method),
{
    match method {
        RenderedHttpMethod::Get => "GET",
        RenderedHttpMethod::Post => "POST",
    }
}

/// The content of an artifact resource.
pub struct ResourceArtifactView {
    pub kind: Seq<char>,
    pub name: Seq<char>,
}

/// A resource as an artifact names it.
pub struct ResourceArtifact {
    pub kind: &'static str,
    pub name: String,
}

impl View for ResourceArtifact {
    type V = ResourceArtifactView;

    open spec fn view(&self) -> ResourceArtifactView {
        ResourceArtifactView { kind: self.kind@, name: self.name@ }
    }
}

/// The content of an artifact request body.
pub enum BodyArtifactView {
    Empty,
    Json(JsonView),
    ExternalSensitiveInput,
}

/// A request body as an artifact holds it: its JSON when it has one; a sensitive input only by
/// its kind, never by its reference.
pub enum BodyArtifact {
    Empty,
    Json(JsonValue),
    ExternalSensitiveInput,
}

impl View for BodyArtifact {
    type V = BodyArtifactView;

    open spec fn view(&self) -> BodyArtifactView {
        match self {
            BodyArtifact::Empty => BodyArtifactView::Empty,
            BodyArtifact::Json(v) => BodyArtifactView::Json(crate::json::json_view(*v)),
            BodyArtifact::ExternalSensitiveInput => BodyArtifactView::ExternalSensitiveInput,
        }
    }
}

/// The content of one artifact operation.
pub struct OperationArtifactView {
    pub status: Seq<char>,
    pub action: Seq<char>,
    pub resource: ResourceArtifactView,
    pub program: Seq<char>,
    pub argv: Seq<Seq<char>>,
    pub external_sensitive_input_required: bool,
    pub method: Seq<char>,
    pub path_and_query: Seq<char>,
    pub body: BodyArtifactView,
}

/// One rendered operation as an artifact records it.
pub struct OperationArtifact {
    pub status: &'static str,
    pub action: &'static str,
    pub resource: ResourceArtifact,
    pub program: &'static str,
    pub argv: Vec<String>,
    pub external_sensitive_input_required: bool,
    pub method: &'static str,
    pub path_and_query: String,
    pub body: BodyArtifact,
}

impl View for OperationArtifact {
    type V = OperationArtifactView;

    open spec fn view(&self) -> OperationArtifactView {
        OperationArtifactView {
            status: self.status@,
            action: self.action@,
            resource: self.resource@,
            program: self.program@,
            argv: texts(self.argv@),
            external_sensitive_input_required: self.external_sensitive_input_required,
            method: self.method@,
            path_and_query: self.path_and_query@,
            body: self.body@,
        }
    }
}

/// The content of an artifact's rendering data.
pub struct ArtifactDataView {
    pub connection: Option<Seq<char>>,
    pub external_preconditions: Seq<ResourceArtifactView>,
    pub operations: Seq<OperationArtifactView>,
}

/// What every artifact version records of a rendering: its connection, its external
/// preconditions, and its operations in plan order.
pub struct ArtifactData {
    pub connection: Option<String>,
    pub external_preconditions: Vec<ResourceArtifact>,
    pub operations: Vec<OperationArtifact>,
}

impl View for ArtifactData {
    type V = ArtifactDataView;

    open spec fn view(&self) -> ArtifactDataView {
        ArtifactDataView {
            connection: match self.connection {
                Some(c) => Some(c@),
                None => None,
            },
            external_preconditions: views(self.external_preconditions@),
            operations: views(self.operations@),
        }
    }
}

/// How an artifact names a resource.
pub open spec fn resource_artifact(id: ResourceIdView) -> ResourceArtifactView {
    ResourceArtifactView { kind: kind_name(id.kind), name: id.name }
}

/// How an artifact records a request body.
pub open spec fn body_artifact(b: BodyView) -> BodyArtifactView {
    match b {
        BodyView::Empty => BodyArtifactView::Empty,
        BodyView::Json(j) => BodyArtifactView::Json(j),
        BodyView::ExternalSensitiveInput(_) => BodyArtifactView::ExternalSensitiveInput,
    }
}

/// How an artifact records a rendered operation.
pub open spec fn operation_artifact(op: RenderedOperationView) -> OperationArtifactView {
    OperationArtifactView {
        status: status_name(op.status),
        action: action_name(op.operation.id.action),
        resource: resource_artifact(op.operation.id.resource),
        program: "podman"@,
        argv: op.argv,
        external_sensitive_input_required: op.external_input is Some,
        method: method_name(op.method),
        path_and_query: op.path_and_query,
        body: body_artifact(op.body),
    }
}

/// What an artifact records of a rendering.
pub open spec fn artifact_data(r: RenderingView) -> ArtifactDataView {
    ArtifactDataView {
        connection: r.connection,
        external_preconditions: r.external_preconditions.map_values(|id: ResourceIdView| resource_artifact(id)),
        operations: r.operations.map_values(|op: RenderedOperationView| operation_artifact(op)),
    }
}

fn copy_texts(values: &[String]) -> (r: Vec<String>)
    ensures
        texts(r@) == texts(values@),
{
    let mut out: Vec<String> = Vec::new();
    let mut i: usize = 0;
    while i < values.len()
        invariant
            i <= values.len(),
            out@ == values@.take(i as int),
        decreases values.len() - i,
    {
        out.push(values[i].clone());
        assert(out@ =~= values@.take(i + 1));
        i = i + 1;
    }
    assert(values@.take(values.len() as int) =~= values@);
    out
}

impl ArtifactData {
    /// Records a rendering: the connection's spelling, each external precondition by kind and
    /// name, and each operation with its status, action, resource, CLI arguments, whether its
    /// CLI form reads sensitive input, and its Libpod request; a sensitive body only by kind.
    pub fn from_rendering(source: &DeploymentRendering) -> (r: Self)
        ensures
            r@ == artifact_data(source@),
    {
        let connection = match source.connection() {
            Some(c) => Some(c.as_str().to_owned()),
            None => None,
        };
        let preconditions = source.external_preconditions();
        let mut external_preconditions: Vec<ResourceArtifact> = Vec::new();
        let mut i: usize = 0;
        while i < preconditions.len()
            invariant
                i <= preconditions.len(),
                views(preconditions@) == source@.external_preconditions,
                views(external_preconditions@) == source@.external_preconditions.take(i as int).map_values(
                    |id: ResourceIdView| resource_artifact(id),
                ),
            decreases preconditions.len() - i,
        {
            let id = preconditions[i].identity();
            assert(views(preconditions@)[i as int] == preconditions@[i as int]@);
            let ra = ResourceArtifact { kind: kind_text(id.kind()), name: id.name().to_owned() };
            let ghost before = external_preconditions@;
            let ghost rv = ra@;
            assert(rv == resource_artifact(source@.external_preconditions[i as int]));
            external_preconditions.push(ra);
            proof {
                assert(views(external_preconditions@) =~= views(before).push(rv));
                assert(source@.external_preconditions.take(i + 1).map_values(|id: ResourceIdView| resource_artifact(id))
                    =~= source@.external_preconditions.take(i as int).map_values(|id: ResourceIdView| resource_artifact(id)).push(rv));
            }
            i = i + 1;
        }
        let rendered = source.operations();
        let mut operations: Vec<OperationArtifact> = Vec::new();
        let mut k: usize = 0;
        while k < rendered.len()
            invariant
                k <= rendered.len(),
                views(rendered@) == source@.operations,
                views(operations@) == source@.operations.take(k as int).map_values(
                    |op: RenderedOperationView| operation_artifact(op),
                ),
            decreases rendered.len() - k,
        {
            let op = &rendered[k];
            assert(views(rendered@)[k as int] == rendered@[k as int]@);
            let id = op.operation().id();
            let resource = id.resource();
            let cli = op.cli();
            let libpod = op.libpod();
            let body = match libpod.body() {
                RenderedHttpBody::Empty => BodyArtifact::Empty,
                RenderedHttpBody::Json(v) => BodyArtifact::Json(copy_json(v)),
                RenderedHttpBody::ExternalSensitiveInput(_) => BodyArtifact::ExternalSensitiveInput,
            };
            let artifact = OperationArtifact {
                status: status_text(op.status()),
                action: action_text(id.action()),
                resource: ResourceArtifact { kind: kind_text(resource.kind()), name: resource.name().to_owned() },
                program: cli.program(),
                argv: copy_texts(cli.argv()),
                external_sensitive_input_required: cli.external_input().is_some(),
                method: method_text(libpod.method()),
                path_and_query: libpod.path_and_query().to_owned(),
                body,
            };
            let ghost av = artifact@;
            assert(av == operation_artifact(source@.operations[k as int]));
            let ghost before = operations@;
            operations.push(artifact);
            proof {
                assert(views(operations@) =~= views(before).push(av));
                assert(source@.operations.take(k + 1).map_values(|op: RenderedOperationView| operation_artifact(op))
                    =~= source@.operations.take(k as int).map_values(|op: RenderedOperationView| operation_artifact(op)).push(av));
            }
            k = k + 1;
        }
        assert(source@.external_preconditions.take(preconditions.len() as int) =~= source@.external_preconditions);
        assert(source@.operations.take(rendered.len() as int) =~= source@.operations);
        ArtifactData { connection, external_preconditions, operations }
    }
}

} // verus!
