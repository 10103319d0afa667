//! Version-aware Podman inventory, discovery, deployment planning, and rendering.
//!
//! The library decides every step of a read-only Libpod acquisition (which request comes next
//! and what each answer means), decodes native observations into a reconciled inventory, groups
//! discovered resources, validates typed deployment intent and orders its operations, and
//! renders a plan as CLI arguments, Libpod requests, a review script, and versioned artifact
//! records. Nothing here opens a connection or executes a plan: the caller performs the I/O.

pub mod acquisition;
pub mod connection;
pub mod coverage;
pub mod decode;
pub mod deployment;
pub mod diagnostic;
pub mod evidence;
pub mod discovery;
pub mod inventory;
pub mod json;
pub mod networking;
pub mod observation;
pub mod once;
pub mod order;
pub mod planner;
pub mod planning;
pub mod probe;
pub mod reconcile;
pub mod render;
pub mod artifact;
pub mod render_catalogue;
pub mod runtime;
pub mod sequence;
pub mod settings;
pub mod text;
pub mod transport;
pub mod version;

pub use acquisition::{
    inspect_path, list_path, InventorySection, InventorySectionAvailability, ResourceInventory, UnknownFieldBudget,
};
pub use connection::{
    ConnectionKind, ConnectionSpec, MutualTlsPolicy, OpaqueReference, SshConnection, TcpMutualTlsConnection, UnixConnection,
};
pub use coverage::{
    validate_coverage_catalogue, NativeFieldCoverageClassification, NativeFieldCoverageEntry, NativeFieldCoveragePlane,
};
pub use sequence::{AcquisitionAction, AcquisitionEvent, AcquisitionStage, AcquisitionState, ServiceObservation};
pub use deployment::{
    ContainerIntent, DeploymentConnectionReference, DeploymentIntent, DeploymentResource, DeploymentResourceId,
    ExternalPrecondition, ImageIntent, ImagePullPolicy, NetworkIntent, PodIntent, SecretIntent, SensitiveInputReference,
    StartupDependency, VolumeIntent,
};
pub use decode::{decode_json, decode_list, decode_observation, inspect_observation, require_ok_json, ListedSection, ResourceObservation};
pub use diagnostic::{Diagnostic, DiagnosticCode, PodmanLensResult};
pub use evidence::{
    normalized_reported_version, validate_catalogue, CapabilityCatalogueEntry, EvidenceReference, ReportedVersionAlias,
};
pub use discovery::{
    discover, DependencyEvidence, DiscoveryExplanation, DiscoveryExplanationKind, DiscoveryFinding, DiscoveryRequest,
    DiscoveryRootOrigin, GroupingEdge, GroupingEvidence, LabelSelector, ResourceDependency, ResourceGraph, ResourceGroup,
    ResourceSelector,
};
pub use inventory::{
    AcquisitionOptions, EnvironmentValuePolicy, JsonValueKind, MAX_INVENTORY_JSON_BYTES, MAX_UNKNOWN_FIELDS_PER_INVENTORY,
    MAX_UNKNOWN_FIELDS_PER_RECORD, ResourceKind,
};
pub use networking::{PortProtocol, RouteType, StaticMacAddress};
pub use observation::{
    Labels, NativeRelationship, NetworkOptionKeys, ObservationField, ObservationOrigin, ObservationRecord, ObservedValue,
    ProtectedEnvironment, ProtectedEnvironmentEntry, ProtectedEnvironmentValue, ResourceIdentity, ResourceObservationState,
    SensitiveEnvironmentValue, UnixId as ObservedUnixId, UnmodelledCompleteness, UnmodelledField, UnmodelledFieldId,
    VolumeOwnerIdWireValue,
};
pub use planner::plan_deployment;
pub use planning::{
    DeploymentOperation, DeploymentOperationId, DeploymentPlan, PlanningFinding, PlanningOutcome,
    SemanticOperationAction,
};
pub use probe::{
    engine_version, ping_api_version, require_json_content_type, require_ok_status, version_probe_path, MAX_PROBE_JSON_BYTES,
};
pub use reconcile::{reconcile_relationships, InventoryFinding};
pub use render_catalogue::{
    validate_renderer_catalogue, ModulePin, ReviewedFieldEvidence, ReviewedRenderingLine, ReviewedRenderingOperation,
    SourceReference,
};
pub use render::{
    percent_encode, render_deployment, render_operation, shell_quote, unsupported_fields, DeploymentRendering,
    CliInvocation, LibpodInvocation, RenderStatus, RenderedHttpBody, RenderedHttpMethod, RenderedOperation, RenderingFinding,
    RenderingOutcome,
};
pub use runtime::{
    ConfiguredHealthCheck, ContainerNamespaceSettings, ContainerResourceControls, ContainerRuntimeSettings,
    HealthCheck, HealthCommand, HealthDuration, HealthInterval, HealthOnFailure, HealthRetries, HealthStartPeriod,
    HealthTimeout, IpcNamespaceMode, LinuxCapability, LogDriver, LogSize, LoggingSettings, NamespaceMode,
    PublicHealthArgumentArray, PublicHealthCommand, Rlimit, RlimitKind, RlimitValue, SecuritySettings,
    SensitiveInlineHealthArgumentArray, SensitiveInlineHealthCommand, StartupHealthCheck, StartupHealthRetries,
    StartupHealthSuccesses,
};
pub use settings::{
    AbsoluteContainerPath, ArgumentArray, BindMount, ContainerHostname, ContainerSettings, ContainerUser,
    ContainerWorkdir, DeploymentEnvironmentValue, EnvironmentAssignment, EnvironmentName, Label, LabelKey, MountAccess,
    MountIntent, NamedVolumeCopyMode, NamedVolumeMount, PublicEnvironmentValue, PublicLabelValue, RestartPolicy,
    SecretGrant, SecretMode, SensitiveInlineEnvironmentValue, TmpfsMount, UnixId, VolumeSubpath,
};
pub use transport::{LibpodHeader, LibpodHeaders, LibpodResponse};
pub use version::{ObservedApiVersion, ObservedPodmanVersion, TargetExecutionContext, TargetProfile};
