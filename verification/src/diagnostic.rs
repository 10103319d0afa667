//! Structured, non-sensitive diagnostics produced by the library's contracts.

use vstd::prelude::*;

verus! {

/// A stable identifier for a diagnostic class.
#[derive(Clone, Copy, Debug, Eq, PartialEq, Hash, Structural)]
#[non_exhaustive]
pub enum DiagnosticCode {
    /// An explicit connection specification is malformed or incomplete.
    InvalidConnection,
    /// A supplied transport cannot currently reach the selected service.
    TransportUnavailable,
    /// A Libpod request or response exceeds this library's contract boundaries.
    InvalidTransportMessage,
    /// A reported or requested version is malformed.
    InvalidVersion,
    /// A requested target profile is outside reviewed compatibility evidence.
    IncompatibleTargetProfile,
    /// The embedded evidence catalogue cannot be decoded.
    CatalogueUnavailable,
    /// A Libpod probe received an unexpected HTTP status.
    ProbeHttpStatus,
    /// A Libpod probe response header is missing, duplicated, or malformed.
    ProbeHeader,
    /// A Libpod probe response body is not valid bounded JSON.
    ProbeJson,
    /// A Libpod probe JSON document has an unsupported shape.
    ProbeShape,
    /// A Libpod probe does not contain one valid Podman Engine component.
    ProbeComponent,
    /// Observed engine and API versions are outside reviewed compatibility evidence.
    ObservedCompatibility,
    /// A Libpod inventory request received an unexpected HTTP status.
    InventoryHttpStatus,
    /// A Libpod inventory response is not valid bounded JSON.
    InventoryJson,
    /// A Libpod inventory response has an unsupported JSON shape.
    InventoryShape,
    /// A listed resource could no longer be inspected.
    ResourceUnavailable,
    /// An individual resource response is malformed.
    ResourceMalformed,
    /// A secret metadata response unexpectedly included payload material.
    SecretPayloadDiscarded,
    /// A runtime environment entry has an unsupported spelling.
    EnvironmentMalformed,
    /// Native fields contain contradictory relationship evidence.
    RelationshipConflict,
    /// Unknown-field metadata reached a configured safe retention limit.
    UnknownFieldOverflow,
    /// A field is not representable for the observed Libpod API version.
    VersionInapplicableField,
    /// A retained unknown native field has no typed representation.
    NativeFieldUnsupported,
    /// A relationship cannot be resolved in an available target section.
    UnresolvedRelationship,
    /// Pod and container membership evidence disagrees.
    PodMembershipConflict,
    /// The observed version lacks matching immutable capability evidence.
    InventoryEvidenceUnavailable,
    /// A discovery request or selector is not exact.
    InvalidDiscoveryRequest,
    /// A discovery selector matches no observed resource.
    SelectorUnresolved,
    /// A discovery selector matches more than one observed resource.
    SelectorAmbiguous,
    /// A native relationship reference matches more than one resource.
    RelationshipAmbiguous,
    /// Advisory grouping labels are incomplete.
    AdvisoryLabelIncomplete,
    /// Advisory grouping labels conflict.
    AdvisoryLabelConflict,
    /// A network boundary override matched no discovered network.
    BoundaryOverrideUnused,
    /// A deployment intent value is malformed or outside its bounds.
    InvalidDeploymentIntent,
    /// A deployment declaration repeats an existing one.
    DeploymentDuplicateResource,
    /// Two deployment declarations share one identity but differ.
    DeploymentConflictingResource,
    /// A deployment prerequisite is not declared.
    DeploymentUnresolvedPrerequisite,
    /// Deployment settings are combined in an unsupported way.
    DeploymentUnsupportedCombination,
    /// Deployment operations depend on each other in a cycle.
    DeploymentCycle,
    /// A deployment value appears to embed sensitive material.
    SensitivePayloadEmbedded,
    /// An image source is not a portable pull reference.
    InvalidImageReference,
    /// An external precondition names a container or pod.
    InvalidExternalPrecondition,
    /// Pod and container membership declarations disagree.
    DeploymentPodMembership,
    /// A startup dependency orders two containers of one pod.
    SamePodStartupDependency,
    /// A planned operation cannot be rendered exactly.
    RenderingUnsupported,
    /// A volume owner default cannot be decided from the observation.
    VolumeOwnerDefaultAmbiguous,
    /// The embedded native field coverage catalogue cannot be decoded.
    NativeFieldCoverageUnavailable,
    /// A plan targets a different profile than the renderer.
    RenderingTargetMismatch,
}

/// The stable machine-readable rule code of each class, `PLN0001` onwards.
pub open spec fn rule_code(code: DiagnosticCode) -> Seq<char> {
    match code {
        DiagnosticCode::InvalidConnection => "PLN0001"@,
        DiagnosticCode::TransportUnavailable => "PLN0002"@,
        DiagnosticCode::InvalidTransportMessage => "PLN0003"@,
        DiagnosticCode::InvalidVersion => "PLN0004"@,
        DiagnosticCode::IncompatibleTargetProfile => "PLN0005"@,
        DiagnosticCode::CatalogueUnavailable => "PLN0006"@,
        DiagnosticCode::ProbeHttpStatus => "PLN0007"@,
        DiagnosticCode::ProbeHeader => "PLN0008"@,
        DiagnosticCode::ProbeJson => "PLN0009"@,
        DiagnosticCode::ProbeShape => "PLN0010"@,
        DiagnosticCode::ProbeComponent => "PLN0011"@,
        DiagnosticCode::ObservedCompatibility => "PLN0012"@,
        DiagnosticCode::InventoryHttpStatus => "PLN0013"@,
        DiagnosticCode::InventoryJson => "PLN0014"@,
        DiagnosticCode::InventoryShape => "PLN0015"@,
        DiagnosticCode::ResourceUnavailable => "PLN0016"@,
        DiagnosticCode::ResourceMalformed => "PLN0017"@,
        DiagnosticCode::SecretPayloadDiscarded => "PLN0018"@,
        DiagnosticCode::EnvironmentMalformed => "PLN0019"@,
        DiagnosticCode::RelationshipConflict => "PLN0020"@,
        DiagnosticCode::UnknownFieldOverflow => "PLN0021"@,
        DiagnosticCode::VersionInapplicableField => "PLN0022"@,
        DiagnosticCode::NativeFieldUnsupported => "PLN0023"@,
        DiagnosticCode::UnresolvedRelationship => "PLN0024"@,
        DiagnosticCode::PodMembershipConflict => "PLN0025"@,
        DiagnosticCode::InventoryEvidenceUnavailable => "PLN0026"@,
        DiagnosticCode::InvalidDiscoveryRequest => "PLN0027"@,
        DiagnosticCode::SelectorUnresolved => "PLN0028"@,
        DiagnosticCode::SelectorAmbiguous => "PLN0029"@,
        DiagnosticCode::RelationshipAmbiguous => "PLN0030"@,
        DiagnosticCode::AdvisoryLabelIncomplete => "PLN0031"@,
        DiagnosticCode::AdvisoryLabelConflict => "PLN0032"@,
        DiagnosticCode::BoundaryOverrideUnused => "PLN0033"@,
        DiagnosticCode::InvalidDeploymentIntent => "PLN0034"@,
        DiagnosticCode::DeploymentDuplicateResource => "PLN0035"@,
        DiagnosticCode::DeploymentConflictingResource => "PLN0036"@,
        DiagnosticCode::DeploymentUnresolvedPrerequisite => "PLN0037"@,
        DiagnosticCode::DeploymentUnsupportedCombination => "PLN0038"@,
        DiagnosticCode::DeploymentCycle => "PLN0039"@,
        DiagnosticCode::SensitivePayloadEmbedded => "PLN0040"@,
        DiagnosticCode::InvalidImageReference => "PLN0041"@,
        DiagnosticCode::InvalidExternalPrecondition => "PLN0042"@,
        DiagnosticCode::DeploymentPodMembership => "PLN0043"@,
        DiagnosticCode::SamePodStartupDependency => "PLN0044"@,
        DiagnosticCode::RenderingUnsupported => "PLN0045"@,
        DiagnosticCode::VolumeOwnerDefaultAmbiguous => "PLN0046"@,
        DiagnosticCode::NativeFieldCoverageUnavailable => "PLN0047"@,
        DiagnosticCode::RenderingTargetMismatch => "PLN0048"@,
    }
}


/// The number a rule code spells in its four digits.
pub open spec fn rule_number(code: DiagnosticCode) -> int {
    match code {
        DiagnosticCode::InvalidConnection => 1,
        DiagnosticCode::TransportUnavailable => 2,
        DiagnosticCode::InvalidTransportMessage => 3,
        DiagnosticCode::InvalidVersion => 4,
        DiagnosticCode::IncompatibleTargetProfile => 5,
        DiagnosticCode::CatalogueUnavailable => 6,
        DiagnosticCode::ProbeHttpStatus => 7,
        DiagnosticCode::ProbeHeader => 8,
        DiagnosticCode::ProbeJson => 9,
        DiagnosticCode::ProbeShape => 10,
        DiagnosticCode::ProbeComponent => 11,
        DiagnosticCode::ObservedCompatibility => 12,
        DiagnosticCode::InventoryHttpStatus => 13,
        DiagnosticCode::InventoryJson => 14,
        DiagnosticCode::InventoryShape => 15,
        DiagnosticCode::ResourceUnavailable => 16,
        DiagnosticCode::ResourceMalformed => 17,
        DiagnosticCode::SecretPayloadDiscarded => 18,
        DiagnosticCode::EnvironmentMalformed => 19,
        DiagnosticCode::RelationshipConflict => 20,
        DiagnosticCode::UnknownFieldOverflow => 21,
        DiagnosticCode::VersionInapplicableField => 22,
        DiagnosticCode::NativeFieldUnsupported => 23,
        DiagnosticCode::UnresolvedRelationship => 24,
        DiagnosticCode::PodMembershipConflict => 25,
        DiagnosticCode::InventoryEvidenceUnavailable => 26,
        DiagnosticCode::InvalidDiscoveryRequest => 27,
        DiagnosticCode::SelectorUnresolved => 28,
        DiagnosticCode::SelectorAmbiguous => 29,
        DiagnosticCode::RelationshipAmbiguous => 30,
        DiagnosticCode::AdvisoryLabelIncomplete => 31,
        DiagnosticCode::AdvisoryLabelConflict => 32,
        DiagnosticCode::BoundaryOverrideUnused => 33,
        DiagnosticCode::InvalidDeploymentIntent => 34,
        DiagnosticCode::DeploymentDuplicateResource => 35,
        DiagnosticCode::DeploymentConflictingResource => 36,
        DiagnosticCode::DeploymentUnresolvedPrerequisite => 37,
        DiagnosticCode::DeploymentUnsupportedCombination => 38,
        DiagnosticCode::DeploymentCycle => 39,
        DiagnosticCode::SensitivePayloadEmbedded => 40,
        DiagnosticCode::InvalidImageReference => 41,
        DiagnosticCode::InvalidExternalPrecondition => 42,
        DiagnosticCode::DeploymentPodMembership => 43,
        DiagnosticCode::SamePodStartupDependency => 44,
        DiagnosticCode::RenderingUnsupported => 45,
        DiagnosticCode::VolumeOwnerDefaultAmbiguous => 46,
        DiagnosticCode::NativeFieldCoverageUnavailable => 47,
        DiagnosticCode::RenderingTargetMismatch => 48,
    }
}

/// The number of a code's rule, as an integer for ordering.
pub fn rule_number_of(code: DiagnosticCode) -> (r: i64)
    ensures
        r == rule_number(code),
{
    match code {
        DiagnosticCode::InvalidConnection => 1,
        DiagnosticCode::TransportUnavailable => 2,
        DiagnosticCode::InvalidTransportMessage => 3,
        DiagnosticCode::InvalidVersion => 4,
        DiagnosticCode::IncompatibleTargetProfile => 5,
        DiagnosticCode::CatalogueUnavailable => 6,
        DiagnosticCode::ProbeHttpStatus => 7,
        DiagnosticCode::ProbeHeader => 8,
        DiagnosticCode::ProbeJson => 9,
        DiagnosticCode::ProbeShape => 10,
        DiagnosticCode::ProbeComponent => 11,
        DiagnosticCode::ObservedCompatibility => 12,
        DiagnosticCode::InventoryHttpStatus => 13,
        DiagnosticCode::InventoryJson => 14,
        DiagnosticCode::InventoryShape => 15,
        DiagnosticCode::ResourceUnavailable => 16,
        DiagnosticCode::ResourceMalformed => 17,
        DiagnosticCode::SecretPayloadDiscarded => 18,
        DiagnosticCode::EnvironmentMalformed => 19,
        DiagnosticCode::RelationshipConflict => 20,
        DiagnosticCode::UnknownFieldOverflow => 21,
        DiagnosticCode::VersionInapplicableField => 22,
        DiagnosticCode::NativeFieldUnsupported => 23,
        DiagnosticCode::UnresolvedRelationship => 24,
        DiagnosticCode::PodMembershipConflict => 25,
        DiagnosticCode::InventoryEvidenceUnavailable => 26,
        DiagnosticCode::InvalidDiscoveryRequest => 27,
        DiagnosticCode::SelectorUnresolved => 28,
        DiagnosticCode::SelectorAmbiguous => 29,
        DiagnosticCode::RelationshipAmbiguous => 30,
        DiagnosticCode::AdvisoryLabelIncomplete => 31,
        DiagnosticCode::AdvisoryLabelConflict => 32,
        DiagnosticCode::BoundaryOverrideUnused => 33,
        DiagnosticCode::InvalidDeploymentIntent => 34,
        DiagnosticCode::DeploymentDuplicateResource => 35,
        DiagnosticCode::DeploymentConflictingResource => 36,
        DiagnosticCode::DeploymentUnresolvedPrerequisite => 37,
        DiagnosticCode::DeploymentUnsupportedCombination => 38,
        DiagnosticCode::DeploymentCycle => 39,
        DiagnosticCode::SensitivePayloadEmbedded => 40,
        DiagnosticCode::InvalidImageReference => 41,
        DiagnosticCode::InvalidExternalPrecondition => 42,
        DiagnosticCode::DeploymentPodMembership => 43,
        DiagnosticCode::SamePodStartupDependency => 44,
        DiagnosticCode::RenderingUnsupported => 45,
        DiagnosticCode::VolumeOwnerDefaultAmbiguous => 46,
        DiagnosticCode::NativeFieldCoverageUnavailable => 47,
        DiagnosticCode::RenderingTargetMismatch => 48,
    }
}

spec fn code_of_number(n: int) -> DiagnosticCode {
    if n == 1 {
        DiagnosticCode::InvalidConnection
    } else if n == 2 {
        DiagnosticCode::TransportUnavailable
    } else if n == 3 {
        DiagnosticCode::InvalidTransportMessage
    } else if n == 4 {
        DiagnosticCode::InvalidVersion
    } else if n == 5 {
        DiagnosticCode::IncompatibleTargetProfile
    } else if n == 6 {
        DiagnosticCode::CatalogueUnavailable
    } else if n == 7 {
        DiagnosticCode::ProbeHttpStatus
    } else if n == 8 {
        DiagnosticCode::ProbeHeader
    } else if n == 9 {
        DiagnosticCode::ProbeJson
    } else if n == 10 {
        DiagnosticCode::ProbeShape
    } else if n == 11 {
        DiagnosticCode::ProbeComponent
    } else if n == 12 {
        DiagnosticCode::ObservedCompatibility
    } else if n == 13 {
        DiagnosticCode::InventoryHttpStatus
    } else if n == 14 {
        DiagnosticCode::InventoryJson
    } else if n == 15 {
        DiagnosticCode::InventoryShape
    } else if n == 16 {
        DiagnosticCode::ResourceUnavailable
    } else if n == 17 {
        DiagnosticCode::ResourceMalformed
    } else if n == 18 {
        DiagnosticCode::SecretPayloadDiscarded
    } else if n == 19 {
        DiagnosticCode::EnvironmentMalformed
    } else if n == 20 {
        DiagnosticCode::RelationshipConflict
    } else if n == 21 {
        DiagnosticCode::UnknownFieldOverflow
    } else if n == 22 {
        DiagnosticCode::VersionInapplicableField
    } else if n == 23 {
        DiagnosticCode::NativeFieldUnsupported
    } else if n == 24 {
        DiagnosticCode::UnresolvedRelationship
    } else if n == 25 {
        DiagnosticCode::PodMembershipConflict
    } else if n == 26 {
        DiagnosticCode::InventoryEvidenceUnavailable
    } else if n == 27 {
        DiagnosticCode::InvalidDiscoveryRequest
    } else if n == 28 {
        DiagnosticCode::SelectorUnresolved
    } else if n == 29 {
        DiagnosticCode::SelectorAmbiguous
    } else if n == 30 {
        DiagnosticCode::RelationshipAmbiguous
    } else if n == 31 {
        DiagnosticCode::AdvisoryLabelIncomplete
    } else if n == 32 {
        DiagnosticCode::AdvisoryLabelConflict
    } else if n == 33 {
        DiagnosticCode::BoundaryOverrideUnused
    } else if n == 34 {
        DiagnosticCode::InvalidDeploymentIntent
    } else if n == 35 {
        DiagnosticCode::DeploymentDuplicateResource
    } else if n == 36 {
        DiagnosticCode::DeploymentConflictingResource
    } else if n == 37 {
        DiagnosticCode::DeploymentUnresolvedPrerequisite
    } else if n == 38 {
        DiagnosticCode::DeploymentUnsupportedCombination
    } else if n == 39 {
        DiagnosticCode::DeploymentCycle
    } else if n == 40 {
        DiagnosticCode::SensitivePayloadEmbedded
    } else if n == 41 {
        DiagnosticCode::InvalidImageReference
    } else if n == 42 {
        DiagnosticCode::InvalidExternalPrecondition
    } else if n == 43 {
        DiagnosticCode::DeploymentPodMembership
    } else if n == 44 {
        DiagnosticCode::SamePodStartupDependency
    } else if n == 45 {
        DiagnosticCode::RenderingUnsupported
    } else if n == 46 {
        DiagnosticCode::VolumeOwnerDefaultAmbiguous
    } else if n == 47 {
        DiagnosticCode::NativeFieldCoverageUnavailable
    } else {
        DiagnosticCode::RenderingTargetMismatch
    }
}

/// The value of the four decimal digits that follow `PLN` in a rule code.
pub open spec fn digits_value(t: Seq<char>) -> int {
    (t[3] as int - '0' as int) * 1000 + (t[4] as int - '0' as int) * 100 + (t[5] as int - '0' as int) * 10 + (t[6] as int
        - '0' as int)
}

/// A rule code: `PLN` followed by four ASCII digits.
pub open spec fn rule_code_shape(t: Seq<char>) -> bool {
    &&& t.len() == 7
    &&& t[0] == 'P' && t[1] == 'L' && t[2] == 'N'
    &&& forall|k: int| 3 <= k < 7 ==> '0' <= #[trigger] t[k] <= '9'
}

proof fn lemma_rule_code_spells(code: DiagnosticCode)
    ensures
        rule_code_shape(rule_code(code)),
        digits_value(rule_code(code)) == rule_number(code),
        code_of_number(rule_number(code)) == code,
{
    match code {
        DiagnosticCode::InvalidConnection => {
            reveal_strlit("PLN0001");
        },
        DiagnosticCode::TransportUnavailable => {
            reveal_strlit("PLN0002");
        },
        DiagnosticCode::InvalidTransportMessage => {
            reveal_strlit("PLN0003");
        },
        DiagnosticCode::InvalidVersion => {
            reveal_strlit("PLN0004");
        },
        DiagnosticCode::IncompatibleTargetProfile => {
            reveal_strlit("PLN0005");
        },
        DiagnosticCode::CatalogueUnavailable => {
            reveal_strlit("PLN0006");
        },
        DiagnosticCode::ProbeHttpStatus => {
            reveal_strlit("PLN0007");
        },
        DiagnosticCode::ProbeHeader => {
            reveal_strlit("PLN0008");
        },
        DiagnosticCode::ProbeJson => {
            reveal_strlit("PLN0009");
        },
        DiagnosticCode::ProbeShape => {
            reveal_strlit("PLN0010");
        },
        DiagnosticCode::ProbeComponent => {
            reveal_strlit("PLN0011");
        },
        DiagnosticCode::ObservedCompatibility => {
            reveal_strlit("PLN0012");
        },
        DiagnosticCode::InventoryHttpStatus => {
            reveal_strlit("PLN0013");
        },
        DiagnosticCode::InventoryJson => {
            reveal_strlit("PLN0014");
        },
        DiagnosticCode::InventoryShape => {
            reveal_strlit("PLN0015");
        },
        DiagnosticCode::ResourceUnavailable => {
            reveal_strlit("PLN0016");
        },
        DiagnosticCode::ResourceMalformed => {
            reveal_strlit("PLN0017");
        },
        DiagnosticCode::SecretPayloadDiscarded => {
            reveal_strlit("PLN0018");
        },
        DiagnosticCode::EnvironmentMalformed => {
            reveal_strlit("PLN0019");
        },
        DiagnosticCode::RelationshipConflict => {
            reveal_strlit("PLN0020");
        },
        DiagnosticCode::UnknownFieldOverflow => {
            reveal_strlit("PLN0021");
        },
        DiagnosticCode::VersionInapplicableField => {
            reveal_strlit("PLN0022");
        },
        DiagnosticCode::NativeFieldUnsupported => {
            reveal_strlit("PLN0023");
        },
        DiagnosticCode::UnresolvedRelationship => {
            reveal_strlit("PLN0024");
        },
        DiagnosticCode::PodMembershipConflict => {
            reveal_strlit("PLN0025");
        },
        DiagnosticCode::InventoryEvidenceUnavailable => {
            reveal_strlit("PLN0026");
        },
        DiagnosticCode::InvalidDiscoveryRequest => {
            reveal_strlit("PLN0027");
        },
        DiagnosticCode::SelectorUnresolved => {
            reveal_strlit("PLN0028");
        },
        DiagnosticCode::SelectorAmbiguous => {
            reveal_strlit("PLN0029");
        },
        DiagnosticCode::RelationshipAmbiguous => {
            reveal_strlit("PLN0030");
        },
        DiagnosticCode::AdvisoryLabelIncomplete => {
            reveal_strlit("PLN0031");
        },
        DiagnosticCode::AdvisoryLabelConflict => {
            reveal_strlit("PLN0032");
        },
        DiagnosticCode::BoundaryOverrideUnused => {
            reveal_strlit("PLN0033");
        },
        DiagnosticCode::InvalidDeploymentIntent => {
            reveal_strlit("PLN0034");
        },
        DiagnosticCode::DeploymentDuplicateResource => {
            reveal_strlit("PLN0035");
        },
        DiagnosticCode::DeploymentConflictingResource => {
            reveal_strlit("PLN0036");
        },
        DiagnosticCode::DeploymentUnresolvedPrerequisite => {
            reveal_strlit("PLN0037");
        },
        DiagnosticCode::DeploymentUnsupportedCombination => {
            reveal_strlit("PLN0038");
        },
        DiagnosticCode::DeploymentCycle => {
            reveal_strlit("PLN0039");
        },
        DiagnosticCode::SensitivePayloadEmbedded => {
            reveal_strlit("PLN0040");
        },
        DiagnosticCode::InvalidImageReference => {
            reveal_strlit("PLN0041");
        },
        DiagnosticCode::InvalidExternalPrecondition => {
            reveal_strlit("PLN0042");
        },
        DiagnosticCode::DeploymentPodMembership => {
            reveal_strlit("PLN0043");
        },
        DiagnosticCode::SamePodStartupDependency => {
            reveal_strlit("PLN0044");
        },
        DiagnosticCode::RenderingUnsupported => {
            reveal_strlit("PLN0045");
        },
        DiagnosticCode::VolumeOwnerDefaultAmbiguous => {
            reveal_strlit("PLN0046");
        },
        DiagnosticCode::NativeFieldCoverageUnavailable => {
            reveal_strlit("PLN0047");
        },
        DiagnosticCode::RenderingTargetMismatch => {
            reveal_strlit("PLN0048");
        },
    }
}

/// Every rule code is `PLN` followed by four ASCII digits, and distinct diagnostic classes
/// have distinct rule codes.
pub proof fn lemma_rule_codes_distinct(a: DiagnosticCode, b: DiagnosticCode)
    ensures
        rule_code_shape(rule_code(a)),
        a != b ==> rule_code(a) != rule_code(b),
{
    lemma_rule_code_spells(a);
    lemma_rule_code_spells(b);
    if rule_code(a) == rule_code(b) {
        assert(rule_number(a) == rule_number(b));
    }
}


/// The redacted explanation of each class.
pub open spec fn diagnostic_message(code: DiagnosticCode) -> Seq<char> {
    match code {
        DiagnosticCode::InvalidConnection => "the explicit Podman connection is invalid"@,
        DiagnosticCode::TransportUnavailable => "the selected Podman transport is unavailable"@,
        DiagnosticCode::InvalidTransportMessage => "the Libpod transport message is outside supported safety bounds"@,
        DiagnosticCode::InvalidVersion => "the Podman or Libpod API version is invalid"@,
        DiagnosticCode::IncompatibleTargetProfile => "the requested Podman target profile is not supported by reviewed evidence"@,
        DiagnosticCode::CatalogueUnavailable => "the embedded Podman compatibility catalogue is unavailable"@,
        DiagnosticCode::ProbeHttpStatus => "the Libpod probe received an unexpected HTTP status"@,
        DiagnosticCode::ProbeHeader => "the Libpod probe response header is invalid"@,
        DiagnosticCode::ProbeJson => "the Libpod probe response JSON is invalid or exceeds its safety bound"@,
        DiagnosticCode::ProbeShape => "the Libpod probe response has an unsupported JSON shape"@,
        DiagnosticCode::ProbeComponent => "the Libpod probe response does not identify one valid Podman Engine component"@,
        DiagnosticCode::ObservedCompatibility => "the observed Podman engine and Libpod API versions are outside reviewed evidence"@,
        DiagnosticCode::InventoryHttpStatus => "a Libpod inventory request received an unexpected HTTP status"@,
        DiagnosticCode::InventoryJson => "a Libpod inventory response is invalid or exceeds its safety bound"@,
        DiagnosticCode::InventoryShape => "a Libpod inventory response has an unsupported JSON shape"@,
        DiagnosticCode::ResourceUnavailable => "a listed Podman resource was unavailable during non-atomic inspection"@,
        DiagnosticCode::ResourceMalformed => "a Podman resource response is malformed"@,
        DiagnosticCode::SecretPayloadDiscarded => "unexpected secret payload material was discarded from metadata inspection"@,
        DiagnosticCode::EnvironmentMalformed => "a Podman runtime environment entry is malformed"@,
        DiagnosticCode::RelationshipConflict => "a Podman resource contains conflicting relationship evidence"@,
        DiagnosticCode::UnknownFieldOverflow => "unknown Podman field metadata exceeded a safe retention limit"@,
        DiagnosticCode::VersionInapplicableField => "a Podman field is inapplicable for the observed Libpod API version"@,
        DiagnosticCode::NativeFieldUnsupported => "a Podman native field is retained as unsupported metadata"@,
        DiagnosticCode::UnresolvedRelationship => "a Podman native relationship could not be resolved"@,
        DiagnosticCode::PodMembershipConflict => "Podman pod and container membership evidence disagrees"@,
        DiagnosticCode::InventoryEvidenceUnavailable => "the observed Podman version has no matching immutable inventory evidence"@,
        DiagnosticCode::InvalidDiscoveryRequest => "the discovery request is invalid"@,
        DiagnosticCode::SelectorUnresolved => "a discovery selector matched no observed resource"@,
        DiagnosticCode::SelectorAmbiguous => "a discovery selector matched more than one observed resource"@,
        DiagnosticCode::RelationshipAmbiguous => "a Podman native relationship reference is ambiguous"@,
        DiagnosticCode::AdvisoryLabelIncomplete => "advisory grouping labels are incomplete"@,
        DiagnosticCode::AdvisoryLabelConflict => "advisory grouping labels conflict"@,
        DiagnosticCode::BoundaryOverrideUnused => "a network boundary override was not used"@,
        DiagnosticCode::InvalidDeploymentIntent => "the deployment intent is invalid"@,
        DiagnosticCode::DeploymentDuplicateResource => "the deployment intent repeats a declaration"@,
        DiagnosticCode::DeploymentConflictingResource => "the deployment intent declares conflicting resources"@,
        DiagnosticCode::DeploymentUnresolvedPrerequisite => "a deployment prerequisite is not declared"@,
        DiagnosticCode::DeploymentUnsupportedCombination => "the deployment intent combines settings in an unsupported way"@,
        DiagnosticCode::DeploymentCycle => "the deployment operations form a dependency cycle"@,
        DiagnosticCode::SensitivePayloadEmbedded => "a deployment value appears to embed sensitive material"@,
        DiagnosticCode::InvalidImageReference => "the image source is not a portable pull reference"@,
        DiagnosticCode::InvalidExternalPrecondition => "an external precondition must name an image, network, volume, or secret"@,
        DiagnosticCode::DeploymentPodMembership => "pod and container membership declarations disagree"@,
        DiagnosticCode::SamePodStartupDependency => "a startup dependency orders containers of the same pod"@,
        DiagnosticCode::RenderingUnsupported => "the planned operation cannot be rendered exactly"@,
        DiagnosticCode::VolumeOwnerDefaultAmbiguous => "a volume owner default is ambiguous"@,
        DiagnosticCode::NativeFieldCoverageUnavailable => "the embedded native field coverage catalogue is unavailable"@,
        DiagnosticCode::RenderingTargetMismatch => "the plan target does not match the renderer"@,
    }
}

impl DiagnosticCode {
    /// Returns the stable machine-readable rule code.
    pub fn as_str(self) -> (r: &'static str)
        ensures
            r@ == rule_code(self),
    {
        match self {
            DiagnosticCode::InvalidConnection => "PLN0001",
            DiagnosticCode::TransportUnavailable => "PLN0002",
            DiagnosticCode::InvalidTransportMessage => "PLN0003",
            DiagnosticCode::InvalidVersion => "PLN0004",
            DiagnosticCode::IncompatibleTargetProfile => "PLN0005",
            DiagnosticCode::CatalogueUnavailable => "PLN0006",
            DiagnosticCode::ProbeHttpStatus => "PLN0007",
            DiagnosticCode::ProbeHeader => "PLN0008",
            DiagnosticCode::ProbeJson => "PLN0009",
            DiagnosticCode::ProbeShape => "PLN0010",
            DiagnosticCode::ProbeComponent => "PLN0011",
            DiagnosticCode::ObservedCompatibility => "PLN0012",
            DiagnosticCode::InventoryHttpStatus => "PLN0013",
            DiagnosticCode::InventoryJson => "PLN0014",
            DiagnosticCode::InventoryShape => "PLN0015",
            DiagnosticCode::ResourceUnavailable => "PLN0016",
            DiagnosticCode::ResourceMalformed => "PLN0017",
            DiagnosticCode::SecretPayloadDiscarded => "PLN0018",
            DiagnosticCode::EnvironmentMalformed => "PLN0019",
            DiagnosticCode::RelationshipConflict => "PLN0020",
            DiagnosticCode::UnknownFieldOverflow => "PLN0021",
            DiagnosticCode::VersionInapplicableField => "PLN0022",
            DiagnosticCode::NativeFieldUnsupported => "PLN0023",
            DiagnosticCode::UnresolvedRelationship => "PLN0024",
            DiagnosticCode::PodMembershipConflict => "PLN0025",
            DiagnosticCode::InventoryEvidenceUnavailable => "PLN0026",
            DiagnosticCode::InvalidDiscoveryRequest => "PLN0027",
            DiagnosticCode::SelectorUnresolved => "PLN0028",
            DiagnosticCode::SelectorAmbiguous => "PLN0029",
            DiagnosticCode::RelationshipAmbiguous => "PLN0030",
            DiagnosticCode::AdvisoryLabelIncomplete => "PLN0031",
            DiagnosticCode::AdvisoryLabelConflict => "PLN0032",
            DiagnosticCode::BoundaryOverrideUnused => "PLN0033",
            DiagnosticCode::InvalidDeploymentIntent => "PLN0034",
            DiagnosticCode::DeploymentDuplicateResource => "PLN0035",
            DiagnosticCode::DeploymentConflictingResource => "PLN0036",
            DiagnosticCode::DeploymentUnresolvedPrerequisite => "PLN0037",
            DiagnosticCode::DeploymentUnsupportedCombination => "PLN0038",
            DiagnosticCode::DeploymentCycle => "PLN0039",
            DiagnosticCode::SensitivePayloadEmbedded => "PLN0040",
            DiagnosticCode::InvalidImageReference => "PLN0041",
            DiagnosticCode::InvalidExternalPrecondition => "PLN0042",
            DiagnosticCode::DeploymentPodMembership => "PLN0043",
            DiagnosticCode::SamePodStartupDependency => "PLN0044",
            DiagnosticCode::RenderingUnsupported => "PLN0045",
            DiagnosticCode::VolumeOwnerDefaultAmbiguous => "PLN0046",
            DiagnosticCode::NativeFieldCoverageUnavailable => "PLN0047",
            DiagnosticCode::RenderingTargetMismatch => "PLN0048",
        }
    }

    /// Returns the redacted explanation of this class.
    pub fn message(self) -> (r: &'static str)
        ensures
            r@ == diagnostic_message(self),
    {
        match self {
            DiagnosticCode::InvalidConnection => "the explicit Podman connection is invalid",
            DiagnosticCode::TransportUnavailable => "the selected Podman transport is unavailable",
            DiagnosticCode::InvalidTransportMessage => "the Libpod transport message is outside supported safety bounds",
            DiagnosticCode::InvalidVersion => "the Podman or Libpod API version is invalid",
            DiagnosticCode::IncompatibleTargetProfile => "the requested Podman target profile is not supported by reviewed evidence",
            DiagnosticCode::CatalogueUnavailable => "the embedded Podman compatibility catalogue is unavailable",
            DiagnosticCode::ProbeHttpStatus => "the Libpod probe received an unexpected HTTP status",
            DiagnosticCode::ProbeHeader => "the Libpod probe response header is invalid",
            DiagnosticCode::ProbeJson => "the Libpod probe response JSON is invalid or exceeds its safety bound",
            DiagnosticCode::ProbeShape => "the Libpod probe response has an unsupported JSON shape",
            DiagnosticCode::ProbeComponent => "the Libpod probe response does not identify one valid Podman Engine component",
            DiagnosticCode::ObservedCompatibility => "the observed Podman engine and Libpod API versions are outside reviewed evidence",
            DiagnosticCode::InventoryHttpStatus => "a Libpod inventory request received an unexpected HTTP status",
            DiagnosticCode::InventoryJson => "a Libpod inventory response is invalid or exceeds its safety bound",
            DiagnosticCode::InventoryShape => "a Libpod inventory response has an unsupported JSON shape",
            DiagnosticCode::ResourceUnavailable => "a listed Podman resource was unavailable during non-atomic inspection",
            DiagnosticCode::ResourceMalformed => "a Podman resource response is malformed",
            DiagnosticCode::SecretPayloadDiscarded => "unexpected secret payload material was discarded from metadata inspection",
            DiagnosticCode::EnvironmentMalformed => "a Podman runtime environment entry is malformed",
            DiagnosticCode::RelationshipConflict => "a Podman resource contains conflicting relationship evidence",
            DiagnosticCode::UnknownFieldOverflow => "unknown Podman field metadata exceeded a safe retention limit",
            DiagnosticCode::VersionInapplicableField => "a Podman field is inapplicable for the observed Libpod API version",
            DiagnosticCode::NativeFieldUnsupported => "a Podman native field is retained as unsupported metadata",
            DiagnosticCode::UnresolvedRelationship => "a Podman native relationship could not be resolved",
            DiagnosticCode::PodMembershipConflict => "Podman pod and container membership evidence disagrees",
            DiagnosticCode::InventoryEvidenceUnavailable => "the observed Podman version has no matching immutable inventory evidence",
            DiagnosticCode::InvalidDiscoveryRequest => "the discovery request is invalid",
            DiagnosticCode::SelectorUnresolved => "a discovery selector matched no observed resource",
            DiagnosticCode::SelectorAmbiguous => "a discovery selector matched more than one observed resource",
            DiagnosticCode::RelationshipAmbiguous => "a Podman native relationship reference is ambiguous",
            DiagnosticCode::AdvisoryLabelIncomplete => "advisory grouping labels are incomplete",
            DiagnosticCode::AdvisoryLabelConflict => "advisory grouping labels conflict",
            DiagnosticCode::BoundaryOverrideUnused => "a network boundary override was not used",
            DiagnosticCode::InvalidDeploymentIntent => "the deployment intent is invalid",
            DiagnosticCode::DeploymentDuplicateResource => "the deployment intent repeats a declaration",
            DiagnosticCode::DeploymentConflictingResource => "the deployment intent declares conflicting resources",
            DiagnosticCode::DeploymentUnresolvedPrerequisite => "a deployment prerequisite is not declared",
            DiagnosticCode::DeploymentUnsupportedCombination => "the deployment intent combines settings in an unsupported way",
            DiagnosticCode::DeploymentCycle => "the deployment operations form a dependency cycle",
            DiagnosticCode::SensitivePayloadEmbedded => "a deployment value appears to embed sensitive material",
            DiagnosticCode::InvalidImageReference => "the image source is not a portable pull reference",
            DiagnosticCode::InvalidExternalPrecondition => "an external precondition must name an image, network, volume, or secret",
            DiagnosticCode::DeploymentPodMembership => "pod and container membership declarations disagree",
            DiagnosticCode::SamePodStartupDependency => "a startup dependency orders containers of the same pod",
            DiagnosticCode::RenderingUnsupported => "the planned operation cannot be rendered exactly",
            DiagnosticCode::VolumeOwnerDefaultAmbiguous => "a volume owner default is ambiguous",
            DiagnosticCode::NativeFieldCoverageUnavailable => "the embedded native field coverage catalogue is unavailable",
            DiagnosticCode::RenderingTargetMismatch => "the plan target does not match the renderer",
        }
    }
}

/// A redacted diagnostic with a stable code and human-facing explanation.
///
/// It deliberately retains no rejected endpoint string, credential, request body, or response
/// data: its whole content is a function of its code.
#[derive(Clone, Debug, Eq, PartialEq)]
pub struct Diagnostic {
    code: DiagnosticCode,
}

impl View for Diagnostic {
    type V = DiagnosticCode;

    closed spec fn view(&self) -> DiagnosticCode {
        self.code
    }
}

impl Diagnostic {
    /// Creates a diagnostic from one of the library's stable codes.
    pub fn new(code: DiagnosticCode) -> (r: Self)
        ensures
            r@ == code,
    {
        Diagnostic { code }
    }

    /// Returns the stable rule code.
    pub fn code(&self) -> (r: DiagnosticCode)
        ensures
            r == self@,
    {
        self.code
    }

    /// Returns the redacted explanation.
    pub fn message(&self) -> (r: &'static str)
        ensures
            r@ == diagnostic_message(self@),
    {
        self.code.message()
    }

    /// The text `code: message`, as the diagnostic is displayed.
    pub fn to_display_string(&self) -> (r: String)
        ensures
            r@ == rule_code(self@) + ": "@ + diagnostic_message(self@),
    {
        let head = String::from_str(self.code.as_str());
        let with_separator = head.concat(": ");
        with_separator.concat(self.code.message())
    }
}

/// The result type returned by fallible public contracts.
pub type PodmanLensResult<T> = Result<T, Diagnostic>;

/// `r` is the error carrying `code`.
pub open spec fn fails_with<T>(r: PodmanLensResult<T>, code: DiagnosticCode) -> bool {
    r matches Err(e) && e@ == code
}

} // verus!
