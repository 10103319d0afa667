//! A strict, versioned coverage ledger for native observations and declared output intent.
//!
//! Every row of the ledger is pinned: the reviewed tables below fix, row by row, the field it
//! covers, its outcome, the code that owns it and the tests that hold it, and a ledger is
//! accepted only when it states exactly those rows, in order.

use vstd::prelude::*;

use crate::diagnostic::{fails_with, Diagnostic, DiagnosticCode, PodmanLensResult};
use crate::observation::{has_prefix, starts_with};
use crate::once::views;
use crate::text::{all_alnum_or, alnum_or, byte_len, byte_len_at_most, is_ascii_digit, str_eq, to_chars};

verus! {

/// The outcome currently declared for one native Podman field.
#[derive(Clone, Copy, Debug, PartialEq, Eq, Structural)]
#[non_exhaustive]
pub enum NativeFieldCoverageClassification {
    /// The field has a complete, exact typed contract.
    SupportedExact,
    /// The field is represented only for reviewed target-version conditions.
    TargetGated,
    /// The field requires a manual caller action rather than being retained as data.
    Manual,
    /// The field is intentionally retained only for observation, not semantic output.
    ObservationOnly,
    /// Retained metadata is deliberately bounded and therefore not exhaustive.
    UnknownIncomplete,
}

/// The contract plane represented by one strict coverage-ledger row.
#[derive(Clone, Copy, Debug, PartialEq, Eq, Structural)]
#[non_exhaustive]
pub enum NativeFieldCoveragePlane {
    /// A native Libpod inspection observation accepted by the decoder.
    InputObservation,
    /// A caller-declared deployment field classified by planning and rendering contracts.
    OutputIntent,
}

/// The ledger's spelling of a classification.
pub open spec fn classification_text(c: NativeFieldCoverageClassification) -> Seq<char> {
    match c {
        NativeFieldCoverageClassification::SupportedExact => "supported-exact"@,
        NativeFieldCoverageClassification::TargetGated => "target-gated"@,
        NativeFieldCoverageClassification::Manual => "manual"@,
        NativeFieldCoverageClassification::ObservationOnly => "observation-only"@,
        NativeFieldCoverageClassification::UnknownIncomplete => "unknown-incomplete"@,
    }
}

impl NativeFieldCoverageClassification {
    /// The ledger's spelling of this classification.
    pub fn as_str(self) -> (r: &'static str)
        ensures
            r@ == classification_text(self),
    {
        match self {
            NativeFieldCoverageClassification::SupportedExact => "supported-exact",
            NativeFieldCoverageClassification::TargetGated => "target-gated",
            NativeFieldCoverageClassification::Manual => "manual",
            NativeFieldCoverageClassification::ObservationOnly => "observation-only",
            NativeFieldCoverageClassification::UnknownIncomplete => "unknown-incomplete",
        }
    }
}

/// What one ledger row states, as text.
pub struct CoverageEntryView {
    pub id: Seq<char>,
    pub plane: NativeFieldCoveragePlane,
    pub resource_kind: Seq<char>,
    pub field_path: Seq<char>,
    pub classification: NativeFieldCoverageClassification,
    pub observation: Seq<char>,
    pub planner: Seq<char>,
    pub cli_renderer: Seq<char>,
    pub libpod_renderer: Seq<char>,
    pub target_versions: Seq<Seq<char>>,
    pub public_contract: Seq<char>,
    pub finding: Seq<char>,
    pub positive_test: Seq<char>,
    pub negative_test: Seq<char>,
}

/// One strict coverage row linking an observation or declared output field to its contract.
#[derive(Clone, Debug)]
pub struct NativeFieldCoverageEntry {
    id: String,
    plane: NativeFieldCoveragePlane,
    resource_kind: String,
    field_path: String,
    classification: NativeFieldCoverageClassification,
    observation: String,
    planner: String,
    cli_renderer: String,
    libpod_renderer: String,
    target_versions: Vec<String>,
    public_contract: String,
    finding: String,
    positive_test: String,
    negative_test: String,
}

impl View for NativeFieldCoverageEntry {
    type V = CoverageEntryView;

    closed spec fn view(&self) -> CoverageEntryView {
        CoverageEntryView {
            id: self.id@,
            plane: self.plane,
            resource_kind: self.resource_kind@,
            field_path: self.field_path@,
            classification: self.classification,
            observation: self.observation@,
            planner: self.planner@,
            cli_renderer: self.cli_renderer@,
            libpod_renderer: self.libpod_renderer@,
            target_versions: views(self.target_versions@),
            public_contract: self.public_contract@,
            finding: self.finding@,
            positive_test: self.positive_test@,
            negative_test: self.negative_test@,
        }
    }
}

impl NativeFieldCoverageEntry {
    /// A ledger row as a document states it, field by field.
    pub fn new(
        id: String,
        plane: NativeFieldCoveragePlane,
        resource_kind: String,
        field_path: String,
        classification: NativeFieldCoverageClassification,
        observation: String,
        planner: String,
        cli_renderer: String,
        libpod_renderer: String,
        target_versions: Vec<String>,
        public_contract: String,
        finding: String,
        positive_test: String,
        negative_test: String,
    ) -> (r: Self)
        ensures
            r@ == (CoverageEntryView {
                id: id@,
                plane,
                resource_kind: resource_kind@,
                field_path: field_path@,
                classification,
                observation: observation@,
                planner: planner@,
                cli_renderer: cli_renderer@,
                libpod_renderer: libpod_renderer@,
                target_versions: views(target_versions@),
                public_contract: public_contract@,
                finding: finding@,
                positive_test: positive_test@,
                negative_test: negative_test@,
            }),
    {
        NativeFieldCoverageEntry {
            id,
            plane,
            resource_kind,
            field_path,
            classification,
            observation,
            planner,
            cli_renderer,
            libpod_renderer,
            target_versions,
            public_contract,
            finding,
            positive_test,
            negative_test,
        }
    }

    /// Returns the stable ledger identifier.
    pub fn id(&self) -> (r: &str)
        ensures
            r@ == self@.id,
    {
        self.id.as_str()
    }

    /// Returns whether this row covers decoded input or caller-declared output intent.
    pub fn plane(&self) -> (r: NativeFieldCoveragePlane)
        ensures
            r == self@.plane,
    {
        self.plane
    }

    /// Returns the native resource kind covered by this row.
    pub fn resource_kind(&self) -> (r: &str)
        ensures
            r@ == self@.resource_kind,
    {
        self.resource_kind.as_str()
    }

    /// Returns the native or semantic field path.
    pub fn field_path(&self) -> (r: &str)
        ensures
            r@ == self@.field_path,
    {
        self.field_path.as_str()
    }

    /// Returns the declared coverage outcome.
    pub fn classification(&self) -> (r: NativeFieldCoverageClassification)
        ensures
            r == self@.classification,
    {
        self.classification
    }

    /// Returns the input-observation owner, or `not_applicable` for output-only intent.
    pub fn observation(&self) -> (r: &str)
        ensures
            r@ == self@.observation,
    {
        self.observation.as_str()
    }

    /// Returns the planner ownership reference.
    pub fn planner(&self) -> (r: &str)
        ensures
            r@ == self@.planner,
    {
        self.planner.as_str()
    }

    /// Returns the CLI-renderer owner.
    pub fn cli_renderer(&self) -> (r: &str)
        ensures
            r@ == self@.cli_renderer,
    {
        self.cli_renderer.as_str()
    }

    /// Returns the Libpod-renderer owner.
    pub fn libpod_renderer(&self) -> (r: &str)
        ensures
            r@ == self@.libpod_renderer,
    {
        self.libpod_renderer.as_str()
    }

    /// Returns the reviewed targets to which this row applies.
    pub fn target_versions(&self) -> (r: &[String])
        ensures
            views(r@) == self@.target_versions,
    {
        self.target_versions.as_slice()
    }

    /// Returns the stable public API access point for the field outcome.
    pub fn public_contract(&self) -> (r: &str)
        ensures
            r@ == self@.public_contract,
    {
        self.public_contract.as_str()
    }

    /// Returns the stable diagnostic rule associated with the field.
    pub fn finding(&self) -> (r: &str)
        ensures
            r@ == self@.finding,
    {
        self.finding.as_str()
    }

    /// Returns the focused positive test identifier.
    pub fn positive_test(&self) -> (r: &str)
        ensures
            r@ == self@.positive_test,
    {
        self.positive_test.as_str()
    }

    /// Returns the focused negative test identifier.
    pub fn negative_test(&self) -> (r: &str)
        ensures
            r@ == self@.negative_test,
    {
        self.negative_test.as_str()
    }
}

// ---------------------------------------------------------------------------------------------
// The reviewed rows.
// ---------------------------------------------------------------------------------------------
/// The number of reviewed input-observation rows, which open the ledger.
pub const INPUT_ROWS: usize = 56;

/// The number of reviewed output-intent rows, which follow them.
pub const OUTPUT_ROWS: usize = 50;

/// What the ledger must state of one reviewed native input field.
pub struct InputRow {
    pub id: Seq<char>,
    pub resource_kind: Seq<char>,
    pub native_path: Seq<char>,
    pub classification: Seq<char>,
    pub decoder: Seq<char>,
    pub planner: Seq<char>,
    pub renderer: Seq<char>,
    pub public_contract: Seq<char>,
    pub finding: Seq<char>,
    pub positive_test: Seq<char>,
    pub negative_test: Seq<char>,
}

/// What the ledger must state of one reviewed output-intent field.
pub struct OutputRow {
    pub id: Seq<char>,
    pub resource_kind: Seq<char>,
    pub field_path: Seq<char>,
    pub classification: Seq<char>,
    pub planner: Seq<char>,
    pub cli_renderer: Seq<char>,
    pub libpod_renderer: Seq<char>,
    pub public_contract: Seq<char>,
    pub finding: Seq<char>,
    pub positive_test: Seq<char>,
    pub negative_test: Seq<char>,
    pub targets: Seq<Seq<char>>,
}

/// The reviewed target sets: every reviewed target (0), those with unlimited resource limits
/// (1), those with journald labels (2), and those with versioned block four output (3).
pub open spec fn target_set(code: u8) -> Seq<Seq<char>> {
    if code == 0 {
        seq!["5.4.0"@, "5.5.0"@, "5.6.0"@, "5.7.0"@, "5.8.6"@, "6.0.0"@, "6.1.0"@]
    } else if code == 1 {
        seq!["5.6.0"@, "5.7.0"@, "5.8.6"@, "6.0.0"@, "6.1.0"@]
    } else if code == 2 {
        seq!["6.0.0"@, "6.1.0"@]
    } else {
        seq!["5.6.0"@, "5.7.0"@, "5.8.6"@, "6.0.0"@, "6.1.0"@]
    }
}

/// The reviewed input rows, in ledger order.
pub open spec fn input_row(i: int) -> InputRow {
    if i == 0 {
        InputRow {
            id: "PLN-FLD-0001"@,
            resource_kind: "container"@,
            native_path: "$.Id"@,
            classification: "supported-exact"@,
            decoder: "inventory::decode_container"@,
            planner: "not_applicable"@,
            renderer: "not_applicable"@,
            public_contract: "ObservationHeader::identity"@,
            finding: "PLN0017"@,
            positive_test: "tests::inventory::acquisition_probes_lists_every_kind_then_inspects_canonical_stable_ids"@,
            negative_test: "tests::inventory::every_inspect_status_and_shape_failure_retains_a_partial_stable_identity"@,
        }
    } else if i == 1 {
        InputRow {
            id: "PLN-FLD-0002"@,
            resource_kind: "container"@,
            native_path: "$.Name"@,
            classification: "supported-exact"@,
            decoder: "inventory::decode_container"@,
            planner: "not_applicable"@,
            renderer: "not_applicable"@,
            public_contract: "ObservationHeader::identity"@,
            finding: "PLN0017"@,
            positive_test: "tests::inventory::acquisition_probes_lists_every_kind_then_inspects_canonical_stable_ids"@,
            negative_test: "tests::inventory::every_inspect_status_and_shape_failure_retains_a_partial_stable_identity"@,
        }
    } else if i == 2 {
        InputRow {
            id: "PLN-FLD-0003"@,
            resource_kind: "container"@,
            native_path: "$.Config.Labels"@,
            classification: "observation-only"@,
            decoder: "inventory::decode_container"@,
            planner: "not_applicable"@,
            renderer: "not_applicable"@,
            public_contract: "ContainerObservation::labels"@,
            finding: "PLN0017"@,
            positive_test: "tests::inventory::acquisition_probes_lists_every_kind_then_inspects_canonical_stable_ids"@,
            negative_test: "tests::inventory::modeled_nested_boundaries_report_the_precise_path_without_hiding_the_record"@,
        }
    } else if i == 3 {
        InputRow {
            id: "PLN-FLD-0004"@,
            resource_kind: "container"@,
            native_path: "$.Config.Env"@,
            classification: "observation-only"@,
            decoder: "inventory::decode_container"@,
            planner: "not_applicable"@,
            renderer: "not_applicable"@,
            public_contract: "ContainerObservation::environment"@,
            finding: "PLN0019"@,
            positive_test: "tests::inventory::explicit_environment_inclusion_is_opaque_and_preserves_duplicate_order"@,
            negative_test: "tests::inventory::environment_boundaries_preserve_valid_entries_and_report_every_bad_occurrence"@,
        }
    } else if i == 4 {
        InputRow {
            id: "PLN-FLD-0005"@,
            resource_kind: "container"@,
            native_path: "$.Config.Secrets"@,
            classification: "observation-only"@,
            decoder: "inventory::decode_container_secret_grants"@,
            planner: "not_applicable"@,
            renderer: "not_applicable"@,
            public_contract: "ContainerObservation::secret_grants"@,
            finding: "PLN0017"@,
            positive_test: "tests::inventory::acquisition_probes_lists_every_kind_then_inspects_canonical_stable_ids"@,
            negative_test: "tests::inventory::modeled_nested_boundaries_report_the_precise_path_without_hiding_the_record"@,
        }
    } else if i == 5 {
        InputRow {
            id: "PLN-FLD-0006"@,
            resource_kind: "container"@,
            native_path: "$.Image"@,
            classification: "observation-only"@,
            decoder: "inventory::decode_container"@,
            planner: "not_applicable"@,
            renderer: "not_applicable"@,
            public_contract: "ContainerObservation::local_image_id"@,
            finding: "PLN0017"@,
            positive_test: "tests::inventory::acquisition_probes_lists_every_kind_then_inspects_canonical_stable_ids"@,
            negative_test: "tests::inventory::modeled_nested_boundaries_report_the_precise_path_without_hiding_the_record"@,
        }
    } else if i == 6 {
        InputRow {
            id: "PLN-FLD-0007"@,
            resource_kind: "container"@,
            native_path: "$.ImageName"@,
            classification: "observation-only"@,
            decoder: "inventory::decode_container"@,
            planner: "not_applicable"@,
            renderer: "not_applicable"@,
            public_contract: "ContainerObservation::configured_image"@,
            finding: "PLN0017"@,
            positive_test: "tests::inventory::acquisition_probes_lists_every_kind_then_inspects_canonical_stable_ids"@,
            negative_test: "tests::inventory::modeled_nested_boundaries_report_the_precise_path_without_hiding_the_record"@,
        }
    } else if i == 7 {
        InputRow {
            id: "PLN-FLD-0008"@,
            resource_kind: "container"@,
            native_path: "$.Pod"@,
            classification: "observation-only"@,
            decoder: "inventory::decode_native_reference"@,
            planner: "not_applicable"@,
            renderer: "not_applicable"@,
            public_contract: "ContainerObservation::pod_membership"@,
            finding: "PLN0017"@,
            positive_test: "tests::inventory::acquisition_probes_lists_every_kind_then_inspects_canonical_stable_ids"@,
            negative_test: "tests::inventory::modeled_nested_boundaries_report_the_precise_path_without_hiding_the_record"@,
        }
    } else if i == 8 {
        InputRow {
            id: "PLN-FLD-0009"@,
            resource_kind: "container"@,
            native_path: "$.NetworkSettings.Networks"@,
            classification: "observation-only"@,
            decoder: "inventory::decode_container_networks"@,
            planner: "not_applicable"@,
            renderer: "not_applicable"@,
            public_contract: "ResourceGraph::dependencies"@,
            finding: "PLN0017"@,
            positive_test: "tests::inventory::acquisition_probes_lists_every_kind_then_inspects_canonical_stable_ids"@,
            negative_test: "tests::inventory::modeled_nested_boundaries_report_the_precise_path_without_hiding_the_record"@,
        }
    } else if i == 9 {
        InputRow {
            id: "PLN-FLD-0010"@,
            resource_kind: "container"@,
            native_path: "$.Mounts"@,
            classification: "observation-only"@,
            decoder: "inventory::decode_container_mounts"@,
            planner: "not_applicable"@,
            renderer: "not_applicable"@,
            public_contract: "ContainerObservation::mounts"@,
            finding: "PLN0017"@,
            positive_test: "tests::inventory::acquisition_probes_lists_every_kind_then_inspects_canonical_stable_ids"@,
            negative_test: "tests::inventory::modeled_nested_boundaries_report_the_precise_path_without_hiding_the_record"@,
        }
    } else if i == 10 {
        InputRow {
            id: "PLN-FLD-0011"@,
            resource_kind: "container"@,
            native_path: "$.Dependencies"@,
            classification: "observation-only"@,
            decoder: "inventory::decode_native_dependencies"@,
            planner: "not_applicable"@,
            renderer: "not_applicable"@,
            public_contract: "ContainerObservation::native_dependencies"@,
            finding: "PLN0017"@,
            positive_test: "tests::inventory::acquisition_probes_lists_every_kind_then_inspects_canonical_stable_ids"@,
            negative_test: "tests::inventory::modeled_nested_boundaries_report_the_precise_path_without_hiding_the_record"@,
        }
    } else if i == 11 {
        InputRow {
            id: "PLN-FLD-0012"@,
            resource_kind: "container"@,
            native_path: "$.HostConfig.MemorySwappiness"@,
            classification: "target-gated"@,
            decoder: "inventory::decode_memory_swappiness"@,
            planner: "not_applicable"@,
            renderer: "not_applicable"@,
            public_contract: "ContainerObservation::memory_swappiness"@,
            finding: "PLN0022"@,
            positive_test: "tests::inventory::memory_swappiness_distinguishes_reviewed_null_boundary_and_invalid_values"@,
            negative_test: "tests::inventory::memory_swappiness_distinguishes_reviewed_null_boundary_and_invalid_values"@,
        }
    } else if i == 12 {
        InputRow {
            id: "PLN-FLD-0013"@,
            resource_kind: "container"@,
            native_path: "$.HostConfig.*"@,
            classification: "unknown-incomplete"@,
            decoder: "inventory::unknown_nested_fields"@,
            planner: "not_applicable"@,
            renderer: "not_applicable"@,
            public_contract: "ObservationHeader::unmodelled_fields"@,
            finding: "PLN0023"@,
            positive_test: "tests::inventory::host_config_members_not_yet_modeled_are_retained_as_unknown_metadata"@,
            negative_test: "tests::inventory::unknown_fields_are_bounded_per_record_and_across_the_inventory"@,
        }
    } else if i == 13 {
        InputRow {
            id: "PLN-FLD-0014"@,
            resource_kind: "container"@,
            native_path: "$.IsInfra"@,
            classification: "observation-only"@,
            decoder: "inventory::decode_is_infra"@,
            planner: "not_applicable"@,
            renderer: "not_applicable"@,
            public_contract: "ContainerObservation::infra"@,
            finding: "PLN0017"@,
            positive_test: "tests::inventory::acquisition_probes_lists_every_kind_then_inspects_canonical_stable_ids"@,
            negative_test: "tests::inventory::modeled_nested_boundaries_report_the_precise_path_without_hiding_the_record"@,
        }
    } else if i == 14 {
        InputRow {
            id: "PLN-FLD-0015"@,
            resource_kind: "pod"@,
            native_path: "$.Id"@,
            classification: "supported-exact"@,
            decoder: "inventory::decode_pod"@,
            planner: "not_applicable"@,
            renderer: "not_applicable"@,
            public_contract: "ObservationHeader::identity"@,
            finding: "PLN0017"@,
            positive_test: "tests::inventory::acquisition_probes_lists_every_kind_then_inspects_canonical_stable_ids"@,
            negative_test: "tests::inventory::every_inspect_status_and_shape_failure_retains_a_partial_stable_identity"@,
        }
    } else if i == 15 {
        InputRow {
            id: "PLN-FLD-0016"@,
            resource_kind: "pod"@,
            native_path: "$.Name"@,
            classification: "supported-exact"@,
            decoder: "inventory::decode_pod"@,
            planner: "not_applicable"@,
            renderer: "not_applicable"@,
            public_contract: "ObservationHeader::identity"@,
            finding: "PLN0017"@,
            positive_test: "tests::inventory::acquisition_probes_lists_every_kind_then_inspects_canonical_stable_ids"@,
            negative_test: "tests::inventory::every_inspect_status_and_shape_failure_retains_a_partial_stable_identity"@,
        }
    } else if i == 16 {
        InputRow {
            id: "PLN-FLD-0017"@,
            resource_kind: "pod"@,
            native_path: "$.Labels"@,
            classification: "observation-only"@,
            decoder: "inventory::decode_pod"@,
            planner: "not_applicable"@,
            renderer: "not_applicable"@,
            public_contract: "PodObservation::labels"@,
            finding: "PLN0017"@,
            positive_test: "tests::inventory::acquisition_probes_lists_every_kind_then_inspects_canonical_stable_ids"@,
            negative_test: "tests::inventory::modeled_nested_boundaries_report_the_precise_path_without_hiding_the_record"@,
        }
    } else if i == 17 {
        InputRow {
            id: "PLN-FLD-0018"@,
            resource_kind: "pod"@,
            native_path: "$.Containers"@,
            classification: "observation-only"@,
            decoder: "inventory::decode_pod_containers"@,
            planner: "not_applicable"@,
            renderer: "not_applicable"@,
            public_contract: "ResourceGraph::dependencies"@,
            finding: "PLN0017"@,
            positive_test: "tests::inventory::acquisition_probes_lists_every_kind_then_inspects_canonical_stable_ids"@,
            negative_test: "tests::inventory::modeled_nested_boundaries_report_the_precise_path_without_hiding_the_record"@,
        }
    } else if i == 18 {
        InputRow {
            id: "PLN-FLD-0019"@,
            resource_kind: "pod"@,
            native_path: "$.Networks"@,
            classification: "observation-only"@,
            decoder: "inventory::decode_pod_networks"@,
            planner: "not_applicable"@,
            renderer: "not_applicable"@,
            public_contract: "ResourceGraph::dependencies"@,
            finding: "PLN0017"@,
            positive_test: "tests::inventory::acquisition_probes_lists_every_kind_then_inspects_canonical_stable_ids"@,
            negative_test: "tests::inventory::modeled_nested_boundaries_report_the_precise_path_without_hiding_the_record"@,
        }
    } else if i == 19 {
        InputRow {
            id: "PLN-FLD-0020"@,
            resource_kind: "network"@,
            native_path: "$.id"@,
            classification: "supported-exact"@,
            decoder: "inventory::decode_network"@,
            planner: "not_applicable"@,
            renderer: "not_applicable"@,
            public_contract: "ObservationHeader::identity"@,
            finding: "PLN0017"@,
            positive_test: "tests::inventory::acquisition_probes_lists_every_kind_then_inspects_canonical_stable_ids"@,
            negative_test: "tests::inventory::every_inspect_status_and_shape_failure_retains_a_partial_stable_identity"@,
        }
    } else if i == 20 {
        InputRow {
            id: "PLN-FLD-0021"@,
            resource_kind: "network"@,
            native_path: "$.name"@,
            classification: "supported-exact"@,
            decoder: "inventory::decode_network"@,
            planner: "not_applicable"@,
            renderer: "not_applicable"@,
            public_contract: "ObservationHeader::identity"@,
            finding: "PLN0017"@,
            positive_test: "tests::inventory::acquisition_probes_lists_every_kind_then_inspects_canonical_stable_ids"@,
            negative_test: "tests::inventory::every_inspect_status_and_shape_failure_retains_a_partial_stable_identity"@,
        }
    } else if i == 21 {
        InputRow {
            id: "PLN-FLD-0022"@,
            resource_kind: "network"@,
            native_path: "$.labels"@,
            classification: "observation-only"@,
            decoder: "inventory::decode_network"@,
            planner: "not_applicable"@,
            renderer: "not_applicable"@,
            public_contract: "NetworkObservation::labels"@,
            finding: "PLN0017"@,
            positive_test: "tests::inventory::acquisition_probes_lists_every_kind_then_inspects_canonical_stable_ids"@,
            negative_test: "tests::inventory::modeled_nested_boundaries_report_the_precise_path_without_hiding_the_record"@,
        }
    } else if i == 22 {
        InputRow {
            id: "PLN-FLD-0023"@,
            resource_kind: "network"@,
            native_path: "$.internal"@,
            classification: "observation-only"@,
            decoder: "inventory::decode_network_details"@,
            planner: "not_applicable"@,
            renderer: "not_applicable"@,
            public_contract: "NetworkObservation::internal"@,
            finding: "PLN0017"@,
            positive_test: "tests::inventory::acquisition_probes_lists_every_kind_then_inspects_canonical_stable_ids"@,
            negative_test: "tests::inventory::modeled_nested_boundaries_report_the_precise_path_without_hiding_the_record"@,
        }
    } else if i == 23 {
        InputRow {
            id: "PLN-FLD-0024"@,
            resource_kind: "network"@,
            native_path: "$.options"@,
            classification: "observation-only"@,
            decoder: "inventory::decode_network_details"@,
            planner: "not_applicable"@,
            renderer: "not_applicable"@,
            public_contract: "NetworkObservation::options"@,
            finding: "PLN0017"@,
            positive_test: "tests::inventory::acquisition_probes_lists_every_kind_then_inspects_canonical_stable_ids"@,
            negative_test: "tests::inventory::modeled_nested_boundaries_report_the_precise_path_without_hiding_the_record"@,
        }
    } else if i == 24 {
        InputRow {
            id: "PLN-FLD-0025"@,
            resource_kind: "network"@,
            native_path: "$.subnets"@,
            classification: "observation-only"@,
            decoder: "inventory::decode_network_details"@,
            planner: "not_applicable"@,
            renderer: "not_applicable"@,
            public_contract: "NetworkObservation::subnets"@,
            finding: "PLN0017"@,
            positive_test: "tests::inventory::acquisition_probes_lists_every_kind_then_inspects_canonical_stable_ids"@,
            negative_test: "tests::inventory::modeled_nested_boundaries_report_the_precise_path_without_hiding_the_record"@,
        }
    } else if i == 25 {
        InputRow {
            id: "PLN-FLD-0026"@,
            resource_kind: "volume"@,
            native_path: "$.Name"@,
            classification: "supported-exact"@,
            decoder: "inventory::decode_volume"@,
            planner: "not_applicable"@,
            renderer: "not_applicable"@,
            public_contract: "ObservationHeader::identity"@,
            finding: "PLN0017"@,
            positive_test: "tests::inventory::acquisition_probes_lists_every_kind_then_inspects_canonical_stable_ids"@,
            negative_test: "tests::inventory::every_inspect_status_and_shape_failure_retains_a_partial_stable_identity"@,
        }
    } else if i == 26 {
        InputRow {
            id: "PLN-FLD-0027"@,
            resource_kind: "volume"@,
            native_path: "$.Labels"@,
            classification: "observation-only"@,
            decoder: "inventory::decode_volume"@,
            planner: "not_applicable"@,
            renderer: "not_applicable"@,
            public_contract: "VolumeObservation::labels"@,
            finding: "PLN0017"@,
            positive_test: "tests::inventory::acquisition_probes_lists_every_kind_then_inspects_canonical_stable_ids"@,
            negative_test: "tests::inventory::modeled_nested_boundaries_report_the_precise_path_without_hiding_the_record"@,
        }
    } else if i == 27 {
        InputRow {
            id: "PLN-FLD-0028"@,
            resource_kind: "image"@,
            native_path: "$.Id"@,
            classification: "supported-exact"@,
            decoder: "inventory::decode_image"@,
            planner: "not_applicable"@,
            renderer: "not_applicable"@,
            public_contract: "ObservationHeader::identity"@,
            finding: "PLN0017"@,
            positive_test: "tests::inventory::acquisition_probes_lists_every_kind_then_inspects_canonical_stable_ids"@,
            negative_test: "tests::inventory::every_inspect_status_and_shape_failure_retains_a_partial_stable_identity"@,
        }
    } else if i == 28 {
        InputRow {
            id: "PLN-FLD-0029"@,
            resource_kind: "image"@,
            native_path: "$.Names"@,
            classification: "observation-only"@,
            decoder: "inventory::decode_image"@,
            planner: "not_applicable"@,
            renderer: "not_applicable"@,
            public_contract: "ImageObservation::aliases"@,
            finding: "PLN0017"@,
            positive_test: "tests::inventory::acquisition_probes_lists_every_kind_then_inspects_canonical_stable_ids"@,
            negative_test: "tests::inventory::modeled_nested_boundaries_report_the_precise_path_without_hiding_the_record"@,
        }
    } else if i == 29 {
        InputRow {
            id: "PLN-FLD-0030"@,
            resource_kind: "image"@,
            native_path: "$.Labels"@,
            classification: "observation-only"@,
            decoder: "inventory::decode_image"@,
            planner: "not_applicable"@,
            renderer: "not_applicable"@,
            public_contract: "ImageObservation::labels"@,
            finding: "PLN0017"@,
            positive_test: "tests::inventory::acquisition_probes_lists_every_kind_then_inspects_canonical_stable_ids"@,
            negative_test: "tests::inventory::modeled_nested_boundaries_report_the_precise_path_without_hiding_the_record"@,
        }
    } else if i == 30 {
        InputRow {
            id: "PLN-FLD-0031"@,
            resource_kind: "image"@,
            native_path: "$.Config.Env"@,
            classification: "observation-only"@,
            decoder: "inventory::decode_image"@,
            planner: "not_applicable"@,
            renderer: "not_applicable"@,
            public_contract: "ImageObservation::environment"@,
            finding: "PLN0019"@,
            positive_test: "tests::inventory::explicit_environment_inclusion_is_opaque_and_preserves_duplicate_order"@,
            negative_test: "tests::inventory::environment_boundaries_preserve_valid_entries_and_report_every_bad_occurrence"@,
        }
    } else if i == 31 {
        InputRow {
            id: "PLN-FLD-0032"@,
            resource_kind: "secret"@,
            native_path: "$.ID"@,
            classification: "supported-exact"@,
            decoder: "inventory::decode_secret"@,
            planner: "not_applicable"@,
            renderer: "not_applicable"@,
            public_contract: "ObservationHeader::identity"@,
            finding: "PLN0017"@,
            positive_test: "tests::inventory::acquisition_probes_lists_every_kind_then_inspects_canonical_stable_ids"@,
            negative_test: "tests::inventory::every_inspect_status_and_shape_failure_retains_a_partial_stable_identity"@,
        }
    } else if i == 32 {
        InputRow {
            id: "PLN-FLD-0033"@,
            resource_kind: "secret"@,
            native_path: "$.Spec.Name"@,
            classification: "supported-exact"@,
            decoder: "inventory::decode_secret"@,
            planner: "not_applicable"@,
            renderer: "not_applicable"@,
            public_contract: "ObservationHeader::identity"@,
            finding: "PLN0017"@,
            positive_test: "tests::inventory::acquisition_probes_lists_every_kind_then_inspects_canonical_stable_ids"@,
            negative_test: "tests::inventory::every_inspect_status_and_shape_failure_retains_a_partial_stable_identity"@,
        }
    } else if i == 33 {
        InputRow {
            id: "PLN-FLD-0034"@,
            resource_kind: "secret"@,
            native_path: "$.Spec.Labels"@,
            classification: "observation-only"@,
            decoder: "inventory::decode_secret"@,
            planner: "not_applicable"@,
            renderer: "not_applicable"@,
            public_contract: "SecretObservation::labels"@,
            finding: "PLN0017"@,
            positive_test: "tests::inventory::acquisition_probes_lists_every_kind_then_inspects_canonical_stable_ids"@,
            negative_test: "tests::inventory::modeled_nested_boundaries_report_the_precise_path_without_hiding_the_record"@,
        }
    } else if i == 34 {
        InputRow {
            id: "PLN-FLD-0035"@,
            resource_kind: "secret"@,
            native_path: "$.Spec.Driver"@,
            classification: "observation-only"@,
            decoder: "inventory::decode_secret"@,
            planner: "not_applicable"@,
            renderer: "not_applicable"@,
            public_contract: "SecretObservation::driver"@,
            finding: "PLN0017"@,
            positive_test: "tests::inventory::secret_driver_is_modeled_without_unsupported_metadata"@,
            negative_test: "tests::inventory::modeled_nested_boundaries_report_the_precise_path_without_hiding_the_record"@,
        }
    } else if i == 35 {
        InputRow {
            id: "PLN-FLD-0036"@,
            resource_kind: "secret"@,
            native_path: "$.SecretData"@,
            classification: "manual"@,
            decoder: "inventory::decode_secret"@,
            planner: "not_applicable"@,
            renderer: "not_applicable"@,
            public_contract: "ObservationHeader::findings"@,
            finding: "PLN0018"@,
            positive_test: "tests::inventory::secret_payload_is_discarded_from_metadata_inspection"@,
            negative_test: "tests::inventory::secret_payload_is_discarded_from_metadata_inspection"@,
        }
    } else if i == 36 {
        InputRow {
            id: "PLN-FLD-0037"@,
            resource_kind: "secret"@,
            native_path: "$.Spec.SecretData"@,
            classification: "manual"@,
            decoder: "inventory::decode_secret"@,
            planner: "not_applicable"@,
            renderer: "not_applicable"@,
            public_contract: "ObservationHeader::findings"@,
            finding: "PLN0018"@,
            positive_test: "tests::inventory::secret_payload_is_discarded_from_metadata_inspection"@,
            negative_test: "tests::inventory::secret_payload_is_discarded_from_metadata_inspection"@,
        }
    } else if i == 37 {
        InputRow {
            id: "PLN-FLD-0038"@,
            resource_kind: "all"@,
            native_path: "$.<unknown>"@,
            classification: "unknown-incomplete"@,
            decoder: "inventory::unknown_top_level"@,
            planner: "not_applicable"@,
            renderer: "not_applicable"@,
            public_contract: "ObservationHeader::unmodelled_completeness"@,
            finding: "PLN0021"@,
            positive_test: "tests::inventory::unknown_fields_are_bounded_per_record_and_across_the_inventory"@,
            negative_test: "tests::input_corpus::malformed_corpus_is_structured_and_bounded_never_panics"@,
        }
    } else if i == 38 {
        InputRow {
            id: "PLN-FLD-0039"@,
            resource_kind: "container"@,
            native_path: "$.Config.Cmd"@,
            classification: "observation-only"@,
            decoder: "inventory::decode_container_configuration"@,
            planner: "not_applicable"@,
            renderer: "not_applicable"@,
            public_contract: "ContainerObservation::command"@,
            finding: "PLN0017"@,
            positive_test: "tests::inventory::container_core_mount_and_secret_observations_are_typed_and_redacted"@,
            negative_test: "tests::inventory::malformed_enclosing_config_marks_every_modeled_child_malformed"@,
        }
    } else if i == 39 {
        InputRow {
            id: "PLN-FLD-0040"@,
            resource_kind: "container"@,
            native_path: "$.Config.Entrypoint"@,
            classification: "observation-only"@,
            decoder: "inventory::decode_container_configuration"@,
            planner: "not_applicable"@,
            renderer: "not_applicable"@,
            public_contract: "ContainerObservation::entrypoint"@,
            finding: "PLN0017"@,
            positive_test: "tests::inventory::container_core_mount_and_secret_observations_are_typed_and_redacted"@,
            negative_test: "tests::inventory::malformed_enclosing_config_marks_every_modeled_child_malformed"@,
        }
    } else if i == 40 {
        InputRow {
            id: "PLN-FLD-0041"@,
            resource_kind: "container"@,
            native_path: "$.Config.User"@,
            classification: "observation-only"@,
            decoder: "inventory::decode_container_configuration"@,
            planner: "not_applicable"@,
            renderer: "not_applicable"@,
            public_contract: "ContainerObservation::user"@,
            finding: "PLN0017"@,
            positive_test: "tests::inventory::container_core_mount_and_secret_observations_are_typed_and_redacted"@,
            negative_test: "tests::inventory::malformed_enclosing_config_marks_every_modeled_child_malformed"@,
        }
    } else if i == 41 {
        InputRow {
            id: "PLN-FLD-0042"@,
            resource_kind: "container"@,
            native_path: "$.Config.WorkingDir"@,
            classification: "observation-only"@,
            decoder: "inventory::decode_container_configuration"@,
            planner: "not_applicable"@,
            renderer: "not_applicable"@,
            public_contract: "ContainerObservation::working_directory"@,
            finding: "PLN0017"@,
            positive_test: "tests::inventory::container_core_mount_and_secret_observations_are_typed_and_redacted"@,
            negative_test: "tests::inventory::malformed_enclosing_config_marks_every_modeled_child_malformed"@,
        }
    } else if i == 42 {
        InputRow {
            id: "PLN-FLD-0043"@,
            resource_kind: "container"@,
            native_path: "$.Config.Hostname"@,
            classification: "observation-only"@,
            decoder: "inventory::decode_container_configuration"@,
            planner: "not_applicable"@,
            renderer: "not_applicable"@,
            public_contract: "ContainerObservation::hostname"@,
            finding: "PLN0017"@,
            positive_test: "tests::inventory::container_core_mount_and_secret_observations_are_typed_and_redacted"@,
            negative_test: "tests::inventory::malformed_enclosing_config_marks_every_modeled_child_malformed"@,
        }
    } else if i == 43 {
        InputRow {
            id: "PLN-FLD-0046"@,
            resource_kind: "container"@,
            native_path: "$.Mounts.Type"@,
            classification: "observation-only"@,
            decoder: "inventory::decode_container_mounts"@,
            planner: "not_applicable"@,
            renderer: "not_applicable"@,
            public_contract: "ContainerObservation::mounts"@,
            finding: "PLN0023"@,
            positive_test: "tests::inventory::container_core_mount_and_secret_observations_are_typed_and_redacted"@,
            negative_test: "tests::inventory::malformed_secret_aliases_and_unsupported_mounts_remain_non_deployable_evidence"@,
        }
    } else if i == 44 {
        InputRow {
            id: "PLN-FLD-0047"@,
            resource_kind: "container"@,
            native_path: "$.Mounts.Name"@,
            classification: "observation-only"@,
            decoder: "inventory::decode_container_mounts"@,
            planner: "not_applicable"@,
            renderer: "not_applicable"@,
            public_contract: "ContainerMountObservation::source"@,
            finding: "PLN0017"@,
            positive_test: "tests::inventory::container_core_mount_and_secret_observations_are_typed_and_redacted"@,
            negative_test: "tests::inventory::modeled_nested_boundaries_report_the_precise_path_without_hiding_the_record"@,
        }
    } else if i == 45 {
        InputRow {
            id: "PLN-FLD-0048"@,
            resource_kind: "container"@,
            native_path: "$.Mounts.Source"@,
            classification: "observation-only"@,
            decoder: "inventory::decode_container_mounts"@,
            planner: "not_applicable"@,
            renderer: "not_applicable"@,
            public_contract: "ContainerMountObservation::source"@,
            finding: "PLN0017"@,
            positive_test: "tests::inventory::container_core_mount_and_secret_observations_are_typed_and_redacted"@,
            negative_test: "tests::inventory::malformed_mount_destination_or_local_backing_path_invalidates_the_complete_mount_family"@,
        }
    } else if i == 46 {
        InputRow {
            id: "PLN-FLD-0049"@,
            resource_kind: "container"@,
            native_path: "$.Mounts.Destination"@,
            classification: "observation-only"@,
            decoder: "inventory::decode_container_mounts"@,
            planner: "not_applicable"@,
            renderer: "not_applicable"@,
            public_contract: "ContainerMountObservation::destination"@,
            finding: "PLN0017"@,
            positive_test: "tests::inventory::container_core_mount_and_secret_observations_are_typed_and_redacted"@,
            negative_test: "tests::inventory::malformed_mount_destination_or_local_backing_path_invalidates_the_complete_mount_family"@,
        }
    } else if i == 47 {
        InputRow {
            id: "PLN-FLD-0050"@,
            resource_kind: "container"@,
            native_path: "$.Mounts.RW"@,
            classification: "observation-only"@,
            decoder: "inventory::decode_container_mounts"@,
            planner: "not_applicable"@,
            renderer: "not_applicable"@,
            public_contract: "ContainerMountObservation::writable"@,
            finding: "PLN0017"@,
            positive_test: "tests::inventory::container_core_mount_and_secret_observations_are_typed_and_redacted"@,
            negative_test: "tests::inventory::modeled_nested_boundaries_report_the_precise_path_without_hiding_the_record"@,
        }
    } else if i == 48 {
        InputRow {
            id: "PLN-FLD-0051"@,
            resource_kind: "container"@,
            native_path: "$.Mounts.Options"@,
            classification: "observation-only"@,
            decoder: "inventory::decode_container_mounts"@,
            planner: "not_applicable"@,
            renderer: "not_applicable"@,
            public_contract: "ContainerMountObservation::options"@,
            finding: "PLN0017"@,
            positive_test: "tests::inventory::container_core_mount_and_secret_observations_are_typed_and_redacted"@,
            negative_test: "tests::inventory::modeled_nested_boundaries_report_the_precise_path_without_hiding_the_record"@,
        }
    } else if i == 49 {
        InputRow {
            id: "PLN-FLD-0052"@,
            resource_kind: "container"@,
            native_path: "$.Mounts.Propagation"@,
            classification: "observation-only"@,
            decoder: "inventory::decode_container_mounts"@,
            planner: "not_applicable"@,
            renderer: "not_applicable"@,
            public_contract: "ContainerMountObservation::propagation"@,
            finding: "PLN0017"@,
            positive_test: "tests::inventory::container_core_mount_and_secret_observations_are_typed_and_redacted"@,
            negative_test: "tests::inventory::modeled_nested_boundaries_report_the_precise_path_without_hiding_the_record"@,
        }
    } else if i == 50 {
        InputRow {
            id: "PLN-FLD-0053"@,
            resource_kind: "container"@,
            native_path: "$.Mounts.SubPath"@,
            classification: "observation-only"@,
            decoder: "inventory::decode_container_mounts"@,
            planner: "not_applicable"@,
            renderer: "not_applicable"@,
            public_contract: "ContainerMountObservation::subpath"@,
            finding: "PLN0017"@,
            positive_test: "tests::inventory::container_core_mount_and_secret_observations_are_typed_and_redacted"@,
            negative_test: "tests::inventory::modeled_nested_boundaries_report_the_precise_path_without_hiding_the_record"@,
        }
    } else if i == 51 {
        InputRow {
            id: "PLN-FLD-0054"@,
            resource_kind: "container"@,
            native_path: "$.Config.Secrets.ID"@,
            classification: "observation-only"@,
            decoder: "inventory::decode_container_secret_grants"@,
            planner: "not_applicable"@,
            renderer: "not_applicable"@,
            public_contract: "ContainerSecretGrantObservation::reference"@,
            finding: "PLN0017"@,
            positive_test: "tests::inventory::container_core_mount_and_secret_observations_are_typed_and_redacted"@,
            negative_test: "tests::inventory::malformed_secret_aliases_and_unsupported_mounts_remain_non_deployable_evidence"@,
        }
    } else if i == 52 {
        InputRow {
            id: "PLN-FLD-0055"@,
            resource_kind: "container"@,
            native_path: "$.Config.Secrets.Name"@,
            classification: "observation-only"@,
            decoder: "inventory::decode_container_secret_grants"@,
            planner: "not_applicable"@,
            renderer: "not_applicable"@,
            public_contract: "ContainerSecretGrantObservation::reference"@,
            finding: "PLN0017"@,
            positive_test: "tests::inventory::container_core_mount_and_secret_observations_are_typed_and_redacted"@,
            negative_test: "tests::inventory::malformed_secret_aliases_and_unsupported_mounts_remain_non_deployable_evidence"@,
        }
    } else if i == 53 {
        InputRow {
            id: "PLN-FLD-0056"@,
            resource_kind: "container"@,
            native_path: "$.Config.Secrets.UID"@,
            classification: "observation-only"@,
            decoder: "inventory::decode_container_secret_grants"@,
            planner: "not_applicable"@,
            renderer: "not_applicable"@,
            public_contract: "ContainerSecretGrantObservation::uid"@,
            finding: "PLN0017"@,
            positive_test: "tests::inventory::canonical_direct_secret_metadata_preserves_effective_zero_and_configured_aliases"@,
            negative_test: "tests::inventory::malformed_direct_secret_effective_metadata_invalidates_the_grant_family"@,
        }
    } else if i == 54 {
        InputRow {
            id: "PLN-FLD-0057"@,
            resource_kind: "container"@,
            native_path: "$.Config.Secrets.GID"@,
            classification: "observation-only"@,
            decoder: "inventory::decode_container_secret_grants"@,
            planner: "not_applicable"@,
            renderer: "not_applicable"@,
            public_contract: "ContainerSecretGrantObservation::gid"@,
            finding: "PLN0017"@,
            positive_test: "tests::inventory::canonical_direct_secret_metadata_preserves_effective_zero_and_configured_aliases"@,
            negative_test: "tests::inventory::malformed_direct_secret_effective_metadata_invalidates_the_grant_family"@,
        }
    } else {
        InputRow {
            id: "PLN-FLD-0058"@,
            resource_kind: "container"@,
            native_path: "$.Config.Secrets.Mode"@,
            classification: "observation-only"@,
            decoder: "inventory::decode_container_secret_grants"@,
            planner: "not_applicable"@,
            renderer: "not_applicable"@,
            public_contract: "ContainerSecretGrantObservation::mode"@,
            finding: "PLN0017"@,
            positive_test: "tests::inventory::canonical_direct_secret_metadata_preserves_effective_zero_and_configured_aliases"@,
            negative_test: "tests::inventory::malformed_direct_secret_effective_metadata_invalidates_the_grant_family"@,
        }
    }
}

/// The reviewed output rows, in ledger order.
pub open spec fn output_row(i: int) -> OutputRow {
    if i == 0 {
        OutputRow {
            id: "PLN-OUT-0001"@,
            resource_kind: "container"@,
            field_path: "runtime.health.disabled"@,
            classification: "supported-exact"@,
            planner: "deployment::validate_runtime_settings"@,
            cli_renderer: "render::append_container_runtime_arguments"@,
            libpod_renderer: "render::append_container_runtime_json"@,
            public_contract: "ContainerRuntimeSettings::health"@,
            finding: "PLN0046"@,
            positive_test: "tests::runtime::bounded_runtime_intent_plans_and_renders_exactly"@,
            negative_test: "tests::runtime::bounded_runtime_values_reject_invalid_inputs_and_preserve_explicit_false"@,
            targets: target_set(0),
        }
    } else if i == 1 {
        OutputRow {
            id: "PLN-OUT-0002"@,
            resource_kind: "container"@,
            field_path: "runtime.health.command.public"@,
            classification: "supported-exact"@,
            planner: "deployment::validate_runtime_settings"@,
            cli_renderer: "render::append_container_runtime_arguments"@,
            libpod_renderer: "render::append_container_runtime_json"@,
            public_contract: "ConfiguredHealthCheck::command"@,
            finding: "PLN0046"@,
            positive_test: "tests::runtime::bounded_runtime_intent_plans_and_renders_exactly"@,
            negative_test: "tests::runtime::bounded_runtime_values_reject_invalid_inputs_and_preserve_explicit_false"@,
            targets: target_set(0),
        }
    } else if i == 2 {
        OutputRow {
            id: "PLN-OUT-0003"@,
            resource_kind: "container"@,
            field_path: "runtime.health.interval"@,
            classification: "supported-exact"@,
            planner: "deployment::validate_runtime_settings"@,
            cli_renderer: "render::append_container_runtime_arguments"@,
            libpod_renderer: "render::append_container_runtime_json"@,
            public_contract: "ConfiguredHealthCheck::interval"@,
            finding: "PLN0046"@,
            positive_test: "tests::runtime::bounded_runtime_intent_plans_and_renders_exactly"@,
            negative_test: "tests::runtime::bounded_runtime_values_reject_invalid_inputs_and_preserve_explicit_false"@,
            targets: target_set(0),
        }
    } else if i == 3 {
        OutputRow {
            id: "PLN-OUT-0004"@,
            resource_kind: "container"@,
            field_path: "runtime.health.timeout"@,
            classification: "supported-exact"@,
            planner: "deployment::validate_runtime_settings"@,
            cli_renderer: "render::append_container_runtime_arguments"@,
            libpod_renderer: "render::append_container_runtime_json"@,
            public_contract: "ConfiguredHealthCheck::timeout"@,
            finding: "PLN0046"@,
            positive_test: "tests::runtime::bounded_runtime_intent_plans_and_renders_exactly"@,
            negative_test: "tests::runtime::bounded_runtime_values_reject_invalid_inputs_and_preserve_explicit_false"@,
            targets: target_set(0),
        }
    } else if i == 4 {
        OutputRow {
            id: "PLN-OUT-0005"@,
            resource_kind: "container"@,
            field_path: "runtime.health.retries"@,
            classification: "supported-exact"@,
            planner: "deployment::validate_runtime_settings"@,
            cli_renderer: "render::append_container_runtime_arguments"@,
            libpod_renderer: "render::append_container_runtime_json"@,
            public_contract: "ConfiguredHealthCheck::retries"@,
            finding: "PLN0046"@,
            positive_test: "tests::runtime::bounded_runtime_intent_plans_and_renders_exactly"@,
            negative_test: "tests::runtime::bounded_runtime_values_reject_invalid_inputs_and_preserve_explicit_false"@,
            targets: target_set(0),
        }
    } else if i == 5 {
        OutputRow {
            id: "PLN-OUT-0006"@,
            resource_kind: "container"@,
            field_path: "runtime.health.start_period"@,
            classification: "supported-exact"@,
            planner: "deployment::validate_runtime_settings"@,
            cli_renderer: "render::append_container_runtime_arguments"@,
            libpod_renderer: "render::append_container_runtime_json"@,
            public_contract: "ConfiguredHealthCheck::start_period"@,
            finding: "PLN0046"@,
            positive_test: "tests::runtime::bounded_runtime_intent_plans_and_renders_exactly"@,
            negative_test: "tests::runtime::bounded_runtime_values_reject_invalid_inputs_and_preserve_explicit_false"@,
            targets: target_set(0),
        }
    } else if i == 6 {
        OutputRow {
            id: "PLN-OUT-0007"@,
            resource_kind: "container"@,
            field_path: "runtime.health.on_failure"@,
            classification: "supported-exact"@,
            planner: "deployment::validate_runtime_settings"@,
            cli_renderer: "render::append_container_runtime_arguments"@,
            libpod_renderer: "render::append_container_runtime_json"@,
            public_contract: "ConfiguredHealthCheck::on_failure"@,
            finding: "PLN0046"@,
            positive_test: "tests::runtime::bounded_runtime_intent_plans_and_renders_exactly"@,
            negative_test: "tests::runtime::bounded_runtime_values_reject_invalid_inputs_and_preserve_explicit_false"@,
            targets: target_set(0),
        }
    } else if i == 7 {
        OutputRow {
            id: "PLN-OUT-0008"@,
            resource_kind: "container"@,
            field_path: "runtime.startup_health.command.public"@,
            classification: "supported-exact"@,
            planner: "deployment::validate_runtime_settings"@,
            cli_renderer: "render::append_container_runtime_arguments"@,
            libpod_renderer: "render::append_container_runtime_json"@,
            public_contract: "StartupHealthCheck::command"@,
            finding: "PLN0046"@,
            positive_test: "tests::runtime::bounded_runtime_intent_plans_and_renders_exactly"@,
            negative_test: "tests::runtime::bounded_runtime_values_reject_invalid_inputs_and_preserve_explicit_false"@,
            targets: target_set(0),
        }
    } else if i == 8 {
        OutputRow {
            id: "PLN-OUT-0009"@,
            resource_kind: "container"@,
            field_path: "runtime.startup_health.interval"@,
            classification: "supported-exact"@,
            planner: "deployment::validate_runtime_settings"@,
            cli_renderer: "render::append_container_runtime_arguments"@,
            libpod_renderer: "render::append_container_runtime_json"@,
            public_contract: "StartupHealthCheck::interval"@,
            finding: "PLN0046"@,
            positive_test: "tests::runtime::bounded_runtime_intent_plans_and_renders_exactly"@,
            negative_test: "tests::runtime::bounded_runtime_values_reject_invalid_inputs_and_preserve_explicit_false"@,
            targets: target_set(0),
        }
    } else if i == 9 {
        OutputRow {
            id: "PLN-OUT-0010"@,
            resource_kind: "container"@,
            field_path: "runtime.startup_health.timeout"@,
            classification: "supported-exact"@,
            planner: "deployment::validate_runtime_settings"@,
            cli_renderer: "render::append_container_runtime_arguments"@,
            libpod_renderer: "render::append_container_runtime_json"@,
            public_contract: "StartupHealthCheck::timeout"@,
            finding: "PLN0046"@,
            positive_test: "tests::runtime::bounded_runtime_intent_plans_and_renders_exactly"@,
            negative_test: "tests::runtime::bounded_runtime_values_reject_invalid_inputs_and_preserve_explicit_false"@,
            targets: target_set(0),
        }
    } else if i == 10 {
        OutputRow {
            id: "PLN-OUT-0011"@,
            resource_kind: "container"@,
            field_path: "runtime.startup_health.retries"@,
            classification: "supported-exact"@,
            planner: "deployment::validate_runtime_settings"@,
            cli_renderer: "render::append_container_runtime_arguments"@,
            libpod_renderer: "render::append_container_runtime_json"@,
            public_contract: "StartupHealthCheck::retries"@,
            finding: "PLN0046"@,
            positive_test: "tests::runtime::bounded_runtime_intent_plans_and_renders_exactly"@,
            negative_test: "tests::runtime::bounded_runtime_values_reject_invalid_inputs_and_preserve_explicit_false"@,
            targets: target_set(0),
        }
    } else if i == 11 {
        OutputRow {
            id: "PLN-OUT-0012"@,
            resource_kind: "container"@,
            field_path: "runtime.startup_health.successes"@,
            classification: "supported-exact"@,
            planner: "deployment::validate_runtime_settings"@,
            cli_renderer: "render::append_container_runtime_arguments"@,
            libpod_renderer: "render::append_container_runtime_json"@,
            public_contract: "StartupHealthCheck::successes"@,
            finding: "PLN0046"@,
            positive_test: "tests::runtime::bounded_runtime_intent_plans_and_renders_exactly"@,
            negative_test: "tests::runtime::bounded_runtime_values_reject_invalid_inputs_and_preserve_explicit_false"@,
            targets: target_set(0),
        }
    } else if i == 12 {
        OutputRow {
            id: "PLN-OUT-0013"@,
            resource_kind: "container"@,
            field_path: "runtime.logging.driver"@,
            classification: "supported-exact"@,
            planner: "deployment::validate_runtime_settings"@,
            cli_renderer: "render::append_container_runtime_arguments"@,
            libpod_renderer: "render::append_container_runtime_json"@,
            public_contract: "LoggingSettings::driver"@,
            finding: "PLN0046"@,
            positive_test: "tests::runtime::bounded_runtime_intent_plans_and_renders_exactly"@,
            negative_test: "tests::runtime::bounded_runtime_values_reject_invalid_inputs_and_preserve_explicit_false"@,
            targets: target_set(0),
        }
    } else if i == 13 {
        OutputRow {
            id: "PLN-OUT-0014"@,
            resource_kind: "container"@,
            field_path: "runtime.logging.max_size"@,
            classification: "supported-exact"@,
            planner: "deployment::validate_runtime_settings"@,
            cli_renderer: "render::append_container_runtime_arguments"@,
            libpod_renderer: "render::append_container_runtime_json"@,
            public_contract: "LoggingSettings::max_size"@,
            finding: "PLN0046"@,
            positive_test: "tests::runtime::bounded_runtime_intent_plans_and_renders_exactly"@,
            negative_test: "tests::runtime::bounded_runtime_values_reject_invalid_inputs_and_preserve_explicit_false"@,
            targets: target_set(0),
        }
    } else if i == 14 {
        OutputRow {
            id: "PLN-OUT-0015"@,
            resource_kind: "container"@,
            field_path: "runtime.logging.journald_labels"@,
            classification: "target-gated"@,
            planner: "deployment::validate_runtime_settings"@,
            cli_renderer: "render::append_container_runtime_arguments"@,
            libpod_renderer: "render::append_container_runtime_json"@,
            public_contract: "LoggingSettings::journald_labels"@,
            finding: "PLN0046"@,
            positive_test: "tests::runtime::journald_labels_are_supported_from_podman_six_in_every_reviewed_target"@,
            negative_test: "tests::runtime::journald_labels_are_supported_from_podman_six_in_every_reviewed_target"@,
            targets: target_set(2),
        }
    } else if i == 15 {
        OutputRow {
            id: "PLN-OUT-0016"@,
            resource_kind: "container"@,
            field_path: "runtime.security.privileged"@,
            classification: "supported-exact"@,
            planner: "deployment::validate_runtime_settings"@,
            cli_renderer: "render::append_container_runtime_arguments"@,
            libpod_renderer: "render::append_container_runtime_json"@,
            public_contract: "SecuritySettings::privileged"@,
            finding: "PLN0046"@,
            positive_test: "tests::runtime::bounded_runtime_intent_plans_and_renders_exactly"@,
            negative_test: "tests::runtime::bounded_runtime_values_reject_invalid_inputs_and_preserve_explicit_false"@,
            targets: target_set(0),
        }
    } else if i == 16 {
        OutputRow {
            id: "PLN-OUT-0017"@,
            resource_kind: "container"@,
            field_path: "runtime.security.cap_add"@,
            classification: "supported-exact"@,
            planner: "deployment::validate_runtime_settings"@,
            cli_renderer: "render::append_container_runtime_arguments"@,
            libpod_renderer: "render::append_container_runtime_json"@,
            public_contract: "SecuritySettings::cap_add"@,
            finding: "PLN0046"@,
            positive_test: "tests::runtime::bounded_runtime_intent_plans_and_renders_exactly"@,
            negative_test: "tests::runtime::bounded_runtime_values_reject_invalid_inputs_and_preserve_explicit_false"@,
            targets: target_set(0),
        }
    } else if i == 17 {
        OutputRow {
            id: "PLN-OUT-0018"@,
            resource_kind: "container"@,
            field_path: "runtime.security.cap_drop"@,
            classification: "supported-exact"@,
            planner: "deployment::validate_runtime_settings"@,
            cli_renderer: "render::append_container_runtime_arguments"@,
            libpod_renderer: "render::append_container_runtime_json"@,
            public_contract: "SecuritySettings::cap_drop"@,
            finding: "PLN0046"@,
            positive_test: "tests::runtime::bounded_runtime_intent_plans_and_renders_exactly"@,
            negative_test: "tests::runtime::bounded_runtime_values_reject_invalid_inputs_and_preserve_explicit_false"@,
            targets: target_set(0),
        }
    } else if i == 18 {
        OutputRow {
            id: "PLN-OUT-0019"@,
            resource_kind: "container"@,
            field_path: "runtime.security.no_new_privileges"@,
            classification: "supported-exact"@,
            planner: "deployment::validate_runtime_settings"@,
            cli_renderer: "render::append_container_runtime_arguments"@,
            libpod_renderer: "render::append_container_runtime_json"@,
            public_contract: "SecuritySettings::no_new_privileges"@,
            finding: "PLN0046"@,
            positive_test: "tests::runtime::bounded_runtime_intent_plans_and_renders_exactly"@,
            negative_test: "tests::runtime::bounded_runtime_values_reject_invalid_inputs_and_preserve_explicit_false"@,
            targets: target_set(0),
        }
    } else if i == 19 {
        OutputRow {
            id: "PLN-OUT-0020"@,
            resource_kind: "container"@,
            field_path: "runtime.security.read_only_filesystem"@,
            classification: "supported-exact"@,
            planner: "deployment::validate_runtime_settings"@,
            cli_renderer: "render::append_container_runtime_arguments"@,
            libpod_renderer: "render::append_container_runtime_json"@,
            public_contract: "SecuritySettings::read_only_filesystem"@,
            finding: "PLN0046"@,
            positive_test: "tests::runtime::bounded_runtime_intent_plans_and_renders_exactly"@,
            negative_test: "tests::runtime::bounded_runtime_values_reject_invalid_inputs_and_preserve_explicit_false"@,
            targets: target_set(0),
        }
    } else if i == 20 {
        OutputRow {
            id: "PLN-OUT-0021"@,
            resource_kind: "container"@,
            field_path: "runtime.security.read_write_tmpfs"@,
            classification: "supported-exact"@,
            planner: "deployment::validate_runtime_settings"@,
            cli_renderer: "render::append_container_runtime_arguments"@,
            libpod_renderer: "render::append_container_runtime_json"@,
            public_contract: "SecuritySettings::read_write_tmpfs"@,
            finding: "PLN0046"@,
            positive_test: "tests::runtime::bounded_runtime_intent_plans_and_renders_exactly"@,
            negative_test: "tests::runtime::bounded_runtime_values_reject_invalid_inputs_and_preserve_explicit_false"@,
            targets: target_set(0),
        }
    } else if i == 21 {
        OutputRow {
            id: "PLN-OUT-0022"@,
            resource_kind: "container"@,
            field_path: "runtime.namespaces.pid"@,
            classification: "supported-exact"@,
            planner: "deployment::validate_runtime_settings"@,
            cli_renderer: "render::append_container_runtime_arguments"@,
            libpod_renderer: "render::append_container_runtime_json"@,
            public_contract: "ContainerNamespaceSettings::pid"@,
            finding: "PLN0046"@,
            positive_test: "tests::runtime::bounded_runtime_intent_plans_and_renders_exactly"@,
            negative_test: "tests::runtime::bounded_runtime_values_reject_invalid_inputs_and_preserve_explicit_false"@,
            targets: target_set(0),
        }
    } else if i == 22 {
        OutputRow {
            id: "PLN-OUT-0023"@,
            resource_kind: "container"@,
            field_path: "runtime.namespaces.ipc"@,
            classification: "supported-exact"@,
            planner: "deployment::validate_runtime_settings"@,
            cli_renderer: "render::append_container_runtime_arguments"@,
            libpod_renderer: "render::append_container_runtime_json"@,
            public_contract: "ContainerNamespaceSettings::ipc"@,
            finding: "PLN0046"@,
            positive_test: "tests::runtime::bounded_runtime_intent_plans_and_renders_exactly"@,
            negative_test: "tests::runtime::bounded_runtime_values_reject_invalid_inputs_and_preserve_explicit_false"@,
            targets: target_set(0),
        }
    } else if i == 23 {
        OutputRow {
            id: "PLN-OUT-0024"@,
            resource_kind: "container"@,
            field_path: "runtime.namespaces.uts"@,
            classification: "supported-exact"@,
            planner: "deployment::validate_runtime_settings"@,
            cli_renderer: "render::append_container_runtime_arguments"@,
            libpod_renderer: "render::append_container_runtime_json"@,
            public_contract: "ContainerNamespaceSettings::uts"@,
            finding: "PLN0046"@,
            positive_test: "tests::runtime::bounded_runtime_intent_plans_and_renders_exactly"@,
            negative_test: "tests::runtime::bounded_runtime_values_reject_invalid_inputs_and_preserve_explicit_false"@,
            targets: target_set(0),
        }
    } else if i == 24 {
        OutputRow {
            id: "PLN-OUT-0025"@,
            resource_kind: "container"@,
            field_path: "runtime.namespaces.cgroup"@,
            classification: "supported-exact"@,
            planner: "deployment::validate_runtime_settings"@,
            cli_renderer: "render::append_container_runtime_arguments"@,
            libpod_renderer: "render::append_container_runtime_json"@,
            public_contract: "ContainerNamespaceSettings::cgroup"@,
            finding: "PLN0046"@,
            positive_test: "tests::runtime::bounded_runtime_intent_plans_and_renders_exactly"@,
            negative_test: "tests::runtime::bounded_runtime_values_reject_invalid_inputs_and_preserve_explicit_false"@,
            targets: target_set(0),
        }
    } else if i == 25 {
        OutputRow {
            id: "PLN-OUT-0026"@,
            resource_kind: "container"@,
            field_path: "runtime.resources.cpu_shares"@,
            classification: "supported-exact"@,
            planner: "deployment::validate_runtime_settings"@,
            cli_renderer: "render::append_container_runtime_arguments"@,
            libpod_renderer: "render::append_container_runtime_json"@,
            public_contract: "ContainerResourceControls::cpu_shares"@,
            finding: "PLN0046"@,
            positive_test: "tests::runtime::bounded_runtime_intent_plans_and_renders_exactly"@,
            negative_test: "tests::runtime::bounded_runtime_values_reject_invalid_inputs_and_preserve_explicit_false"@,
            targets: target_set(0),
        }
    } else if i == 26 {
        OutputRow {
            id: "PLN-OUT-0027"@,
            resource_kind: "container"@,
            field_path: "runtime.resources.cpu_period"@,
            classification: "supported-exact"@,
            planner: "deployment::validate_runtime_settings"@,
            cli_renderer: "render::append_container_runtime_arguments"@,
            libpod_renderer: "render::append_container_runtime_json"@,
            public_contract: "ContainerResourceControls::cpu_period"@,
            finding: "PLN0046"@,
            positive_test: "tests::runtime::bounded_runtime_intent_plans_and_renders_exactly"@,
            negative_test: "tests::runtime::bounded_runtime_values_reject_invalid_inputs_and_preserve_explicit_false"@,
            targets: target_set(0),
        }
    } else if i == 27 {
        OutputRow {
            id: "PLN-OUT-0028"@,
            resource_kind: "container"@,
            field_path: "runtime.resources.cpu_quota"@,
            classification: "supported-exact"@,
            planner: "deployment::validate_runtime_settings"@,
            cli_renderer: "render::append_container_runtime_arguments"@,
            libpod_renderer: "render::append_container_runtime_json"@,
            public_contract: "ContainerResourceControls::cpu_quota"@,
            finding: "PLN0046"@,
            positive_test: "tests::runtime::finite_bounded_runtime_fields_render_for_every_reviewed_target"@,
            negative_test: "tests::runtime::cpu_quota_accepts_only_exact_positive_millisecond_values"@,
            targets: target_set(0),
        }
    } else if i == 28 {
        OutputRow {
            id: "PLN-OUT-0029"@,
            resource_kind: "container"@,
            field_path: "runtime.resources.memory_bytes"@,
            classification: "supported-exact"@,
            planner: "deployment::validate_runtime_settings"@,
            cli_renderer: "render::append_container_runtime_arguments"@,
            libpod_renderer: "render::append_container_runtime_json"@,
            public_contract: "ContainerResourceControls::memory_bytes"@,
            finding: "PLN0046"@,
            positive_test: "tests::runtime::bounded_runtime_intent_plans_and_renders_exactly"@,
            negative_test: "tests::runtime::bounded_runtime_values_reject_invalid_inputs_and_preserve_explicit_false"@,
            targets: target_set(0),
        }
    } else if i == 29 {
        OutputRow {
            id: "PLN-OUT-0030"@,
            resource_kind: "container"@,
            field_path: "runtime.resources.pids"@,
            classification: "supported-exact"@,
            planner: "deployment::validate_runtime_settings"@,
            cli_renderer: "render::append_container_runtime_arguments"@,
            libpod_renderer: "render::append_container_runtime_json"@,
            public_contract: "ContainerResourceControls::pids"@,
            finding: "PLN0046"@,
            positive_test: "tests::runtime::bounded_runtime_intent_plans_and_renders_exactly"@,
            negative_test: "tests::runtime::bounded_runtime_values_reject_invalid_inputs_and_preserve_explicit_false"@,
            targets: target_set(0),
        }
    } else if i == 30 {
        OutputRow {
            id: "PLN-OUT-0031"@,
            resource_kind: "container"@,
            field_path: "runtime.resources.rlimits.finite"@,
            classification: "supported-exact"@,
            planner: "deployment::validate_runtime_settings"@,
            cli_renderer: "render::append_container_runtime_arguments"@,
            libpod_renderer: "render::append_container_runtime_json"@,
            public_contract: "ContainerResourceControls::rlimits"@,
            finding: "PLN0046"@,
            positive_test: "tests::runtime::bounded_runtime_intent_plans_and_renders_exactly"@,
            negative_test: "tests::runtime::bounded_runtime_values_reject_invalid_inputs_and_preserve_explicit_false"@,
            targets: target_set(0),
        }
    } else if i == 31 {
        OutputRow {
            id: "PLN-OUT-0032"@,
            resource_kind: "container"@,
            field_path: "runtime.resources.rlimits.unlimited"@,
            classification: "target-gated"@,
            planner: "deployment::validate_runtime_settings"@,
            cli_renderer: "render::append_container_runtime_arguments"@,
            libpod_renderer: "render::append_container_runtime_json"@,
            public_contract: "ContainerResourceControls::rlimits"@,
            finding: "PLN0046"@,
            positive_test: "tests::runtime::unlimited_rlimits_are_supported_from_podman_five_six_in_every_reviewed_target"@,
            negative_test: "tests::runtime::unlimited_rlimits_are_supported_from_podman_five_six_in_every_reviewed_target"@,
            targets: target_set(1),
        }
    } else if i == 32 {
        OutputRow {
            id: "PLN-OUT-0033"@,
            resource_kind: "container"@,
            field_path: "runtime.health.command.sensitive"@,
            classification: "manual"@,
            planner: "deployment::validate_runtime_settings"@,
            cli_renderer: "render::unsupported_runtime_fields"@,
            libpod_renderer: "render::health_command_json"@,
            public_contract: "HealthCommand"@,
            finding: "PLN0046"@,
            positive_test: "tests::runtime::sensitive_health_command_blocks_the_resource_without_leaking_an_artifact"@,
            negative_test: "tests::runtime::sensitive_health_commands_never_leak_from_runtime_debug"@,
            targets: target_set(0),
        }
    } else if i == 33 {
        OutputRow {
            id: "PLN-OUT-0034"@,
            resource_kind: "container"@,
            field_path: "runtime.startup_health.command.sensitive"@,
            classification: "manual"@,
            planner: "deployment::validate_runtime_settings"@,
            cli_renderer: "render::unsupported_runtime_fields"@,
            libpod_renderer: "render::health_command_json"@,
            public_contract: "HealthCommand"@,
            finding: "PLN0046"@,
            positive_test: "tests::runtime::sensitive_health_command_blocks_the_resource_without_leaking_an_artifact"@,
            negative_test: "tests::runtime::sensitive_health_commands_never_leak_from_runtime_debug"@,
            targets: target_set(0),
        }
    } else if i == 34 {
        OutputRow {
            id: "PLN-OUT-0035"@,
            resource_kind: "container"@,
            field_path: "mount.named_volume.copy"@,
            classification: "supported-exact"@,
            planner: "deployment::validate_mounts"@,
            cli_renderer: "render::append_mount_arguments"@,
            libpod_renderer: "render::mount_json"@,
            public_contract: "MountIntent::NamedVolume"@,
            finding: "PLN0046"@,
            positive_test: "tests::render::b4_bind_tmpfs_ordinary_volume_and_secret_grants_are_exact_on_all_reviewed_targets"@,
            negative_test: "tests::render::b4_version_and_portability_boundaries_block_the_complete_resource_artifact"@,
            targets: target_set(0),
        }
    } else if i == 35 {
        OutputRow {
            id: "PLN-OUT-0036"@,
            resource_kind: "container"@,
            field_path: "mount.named_volume.copy.subpath"@,
            classification: "supported-exact"@,
            planner: "deployment::validate_mounts"@,
            cli_renderer: "render::append_mount_arguments"@,
            libpod_renderer: "render::mount_json"@,
            public_contract: "NamedVolumeMount::set_subpath"@,
            finding: "PLN0046"@,
            positive_test: "tests::render::b4_mounts_secrets_and_volume_ownership_are_exact_on_every_supported_target"@,
            negative_test: "tests::deployment::b4_typed_mounts_volume_ownership_and_secret_grants_preserve_all_optional_states"@,
            targets: target_set(0),
        }
    } else if i == 36 {
        OutputRow {
            id: "PLN-OUT-0037"@,
            resource_kind: "container"@,
            field_path: "mount.named_volume.nocopy"@,
            classification: "supported-exact"@,
            planner: "deployment::validate_mounts"@,
            cli_renderer: "render::append_mount_arguments"@,
            libpod_renderer: "render::mount_json"@,
            public_contract: "MountIntent::NamedVolume"@,
            finding: "PLN0046"@,
            positive_test: "tests::render::b4_bind_tmpfs_ordinary_volume_and_secret_grants_are_exact_on_all_reviewed_targets"@,
            negative_test: "tests::deployment::b4_typed_mounts_volume_ownership_and_secret_grants_preserve_all_optional_states"@,
            targets: target_set(0),
        }
    } else if i == 37 {
        OutputRow {
            id: "PLN-OUT-0038"@,
            resource_kind: "container"@,
            field_path: "mount.named_volume.nocopy.subpath"@,
            classification: "manual"@,
            planner: "deployment::validate_mounts"@,
            cli_renderer: "render::unsupported_fields"@,
            libpod_renderer: "render::mount_json"@,
            public_contract: "NamedVolumeMount::set_subpath"@,
            finding: "PLN0046"@,
            positive_test: "tests::render::b4_version_and_portability_boundaries_block_the_complete_resource_artifact"@,
            negative_test: "tests::deployment::b4_typed_mounts_volume_ownership_and_secret_grants_preserve_all_optional_states"@,
            targets: target_set(0),
        }
    } else if i == 38 {
        OutputRow {
            id: "PLN-OUT-0039"@,
            resource_kind: "container"@,
            field_path: "mount.bind"@,
            classification: "supported-exact"@,
            planner: "deployment::validate_mounts"@,
            cli_renderer: "render::append_mount_arguments"@,
            libpod_renderer: "render::native_mount_json"@,
            public_contract: "MountIntent::Bind"@,
            finding: "PLN0046"@,
            positive_test: "tests::render::b4_bind_tmpfs_ordinary_volume_and_secret_grants_are_exact_on_all_reviewed_targets"@,
            negative_test: "tests::render::b4_version_and_portability_boundaries_block_the_complete_resource_artifact"@,
            targets: target_set(0),
        }
    } else if i == 39 {
        OutputRow {
            id: "PLN-OUT-0040"@,
            resource_kind: "container"@,
            field_path: "mount.tmpfs"@,
            classification: "supported-exact"@,
            planner: "deployment::validate_mounts"@,
            cli_renderer: "render::append_mount_arguments"@,
            libpod_renderer: "render::native_mount_json"@,
            public_contract: "MountIntent::Tmpfs"@,
            finding: "PLN0046"@,
            positive_test: "tests::render::b4_bind_tmpfs_ordinary_volume_and_secret_grants_are_exact_on_all_reviewed_targets"@,
            negative_test: "tests::render::b4_version_and_portability_boundaries_block_the_complete_resource_artifact"@,
            targets: target_set(0),
        }
    } else if i == 40 {
        OutputRow {
            id: "PLN-OUT-0041"@,
            resource_kind: "container"@,
            field_path: "secret_grant.mount"@,
            classification: "supported-exact"@,
            planner: "deployment::validate_secret_grants"@,
            cli_renderer: "render::append_secret_grants_arguments"@,
            libpod_renderer: "render::append_secret_grants_json"@,
            public_contract: "SecretGrant::Mount"@,
            finding: "PLN0046"@,
            positive_test: "tests::render::b4_secret_mount_default_and_explicit_modes_are_exact_on_all_reviewed_targets"@,
            negative_test: "tests::render::b4_version_and_portability_boundaries_block_the_complete_resource_artifact"@,
            targets: target_set(0),
        }
    } else if i == 41 {
        OutputRow {
            id: "PLN-OUT-0042"@,
            resource_kind: "container"@,
            field_path: "secret_grant.environment"@,
            classification: "supported-exact"@,
            planner: "deployment::validate_secret_grants"@,
            cli_renderer: "render::append_secret_grants_arguments"@,
            libpod_renderer: "render::append_secret_grants_json"@,
            public_contract: "SecretGrant::Environment"@,
            finding: "PLN0046"@,
            positive_test: "tests::render::renderer_renders_typed_secret_grants_without_exposing_secret_material"@,
            negative_test: "tests::render::b4_version_and_portability_boundaries_block_the_complete_resource_artifact"@,
            targets: target_set(0),
        }
    } else if i == 42 {
        OutputRow {
            id: "PLN-OUT-0043"@,
            resource_kind: "volume"@,
            field_path: "ownership.uid"@,
            classification: "target-gated"@,
            planner: "deployment::validate_volume_ownership"@,
            cli_renderer: "render::volume_create_cli_arguments"@,
            libpod_renderer: "render::volume_create_json"@,
            public_contract: "VolumeIntent::uid"@,
            finding: "PLN0046"@,
            positive_test: "tests::render::b4_mounts_secrets_and_volume_ownership_are_exact_on_every_supported_target"@,
            negative_test: "tests::render::b4_version_and_portability_boundaries_block_the_complete_resource_artifact"@,
            targets: target_set(3),
        }
    } else if i == 43 {
        OutputRow {
            id: "PLN-OUT-0044"@,
            resource_kind: "volume"@,
            field_path: "ownership.gid"@,
            classification: "target-gated"@,
            planner: "deployment::validate_volume_ownership"@,
            cli_renderer: "render::volume_create_cli_arguments"@,
            libpod_renderer: "render::volume_create_json"@,
            public_contract: "VolumeIntent::gid"@,
            finding: "PLN0046"@,
            positive_test: "tests::render::b4_mounts_secrets_and_volume_ownership_are_exact_on_every_supported_target"@,
            negative_test: "tests::render::b4_version_and_portability_boundaries_block_the_complete_resource_artifact"@,
            targets: target_set(3),
        }
    } else if i == 44 {
        OutputRow {
            id: "PLN-OUT-0045"@,
            resource_kind: "image"@,
            field_path: "pull_policy.always"@,
            classification: "target-gated"@,
            planner: "deployment::validate_image_policy"@,
            cli_renderer: "render::render_operation"@,
            libpod_renderer: "render::render_operation"@,
            public_contract: "ImagePullPolicy::Always"@,
            finding: "PLN0046"@,
            positive_test: "tests::render::b4_image_pull_policies_are_exact_on_every_supported_target"@,
            negative_test: "tests::render::b4_image_pull_policies_are_exact_on_every_supported_target"@,
            targets: target_set(3),
        }
    } else if i == 45 {
        OutputRow {
            id: "PLN-OUT-0046"@,
            resource_kind: "image"@,
            field_path: "pull_policy.missing"@,
            classification: "target-gated"@,
            planner: "deployment::validate_image_policy"@,
            cli_renderer: "render::render_operation"@,
            libpod_renderer: "render::render_operation"@,
            public_contract: "ImagePullPolicy::Missing"@,
            finding: "PLN0046"@,
            positive_test: "tests::render::b4_image_pull_policies_are_exact_on_every_supported_target"@,
            negative_test: "tests::render::b4_image_pull_policies_are_exact_on_every_supported_target"@,
            targets: target_set(3),
        }
    } else if i == 46 {
        OutputRow {
            id: "PLN-OUT-0047"@,
            resource_kind: "image"@,
            field_path: "pull_policy.never"@,
            classification: "target-gated"@,
            planner: "deployment::validate_image_policy"@,
            cli_renderer: "render::render_operation"@,
            libpod_renderer: "render::render_operation"@,
            public_contract: "ImagePullPolicy::Never"@,
            finding: "PLN0046"@,
            positive_test: "tests::render::b4_image_pull_policies_are_exact_on_every_supported_target"@,
            negative_test: "tests::render::b4_image_pull_policies_are_exact_on_every_supported_target"@,
            targets: target_set(3),
        }
    } else if i == 47 {
        OutputRow {
            id: "PLN-OUT-0048"@,
            resource_kind: "image"@,
            field_path: "pull_policy.newer"@,
            classification: "target-gated"@,
            planner: "deployment::validate_image_policy"@,
            cli_renderer: "render::render_operation"@,
            libpod_renderer: "render::render_operation"@,
            public_contract: "ImagePullPolicy::Newer"@,
            finding: "PLN0046"@,
            positive_test: "tests::render::b4_image_pull_policies_are_exact_on_every_supported_target"@,
            negative_test: "tests::render::b4_image_pull_policies_are_exact_on_every_supported_target"@,
            targets: target_set(3),
        }
    } else if i == 48 {
        OutputRow {
            id: "PLN-OUT-0049"@,
            resource_kind: "image"@,
            field_path: "source.portability"@,
            classification: "manual"@,
            planner: "deployment::validate_image_source"@,
            cli_renderer: "render::unsupported_fields"@,
            libpod_renderer: "render::render_operation"@,
            public_contract: "ImageSource::classification"@,
            finding: "PLN0046"@,
            positive_test: "tests::render::b4_image_portability_manual_boundaries_block_the_complete_artifact"@,
            negative_test: "tests::deployment::image_source_classification_requires_explicit_policy_and_preserves_manual_boundaries"@,
            targets: target_set(0),
        }
    } else {
        OutputRow {
            id: "PLN-OUT-0050"@,
            resource_kind: "pod"@,
            field_path: "infra_mounts"@,
            classification: "manual"@,
            planner: "deployment::validate_mounts"@,
            cli_renderer: "render::unsupported_fields"@,
            libpod_renderer: "render::render_operation"@,
            public_contract: "PodIntent::infra_mounts"@,
            finding: "PLN0046"@,
            positive_test: "tests::render::b4_pod_infra_mounts_block_without_a_partial_artifact"@,
            negative_test: "tests::deployment::infra_container_mounts_support_managed_external_and_duplicate_boundaries"@,
            targets: target_set(0),
        }
    }
}

struct ExpectedInputEntry {
    id: &'static str,
    resource_kind: &'static str,
    native_path: &'static str,
    classification: &'static str,
    decoder: &'static str,
    planner: &'static str,
    renderer: &'static str,
    public_contract: &'static str,
    finding: &'static str,
    positive_test: &'static str,
    negative_test: &'static str,
}

struct ExpectedOutputEntry {
    id: &'static str,
    resource_kind: &'static str,
    field_path: &'static str,
    classification: &'static str,
    planner: &'static str,
    cli_renderer: &'static str,
    libpod_renderer: &'static str,
    public_contract: &'static str,
    finding: &'static str,
    positive_test: &'static str,
    negative_test: &'static str,
    targets: u8,
}

spec fn input_view(e: ExpectedInputEntry) -> InputRow {
    InputRow {
        id: e.id@,
        resource_kind: e.resource_kind@,
        native_path: e.native_path@,
        classification: e.classification@,
        decoder: e.decoder@,
        planner: e.planner@,
        renderer: e.renderer@,
        public_contract: e.public_contract@,
        finding: e.finding@,
        positive_test: e.positive_test@,
        negative_test: e.negative_test@,
    }
}

spec fn output_view(e: ExpectedOutputEntry) -> OutputRow {
    OutputRow {
        id: e.id@,
        resource_kind: e.resource_kind@,
        field_path: e.field_path@,
        classification: e.classification@,
        planner: e.planner@,
        cli_renderer: e.cli_renderer@,
        libpod_renderer: e.libpod_renderer@,
        public_contract: e.public_contract@,
        finding: e.finding@,
        positive_test: e.positive_test@,
        negative_test: e.negative_test@,
        targets: target_set(e.targets),
    }
}

fn target_values(code: u8) -> (r: Vec<&'static str>)
    ensures
        r@.map_values(|s: &'static str| s@) == target_set(code),
{
    let mut out: Vec<&'static str> = Vec::new();
    if code == 0 {
        out.push("5.4.0");
        out.push("5.5.0");
        out.push("5.6.0");
        out.push("5.7.0");
        out.push("5.8.6");
        out.push("6.0.0");
        out.push("6.1.0");
    } else if code == 1 {
        out.push("5.6.0");
        out.push("5.7.0");
        out.push("5.8.6");
        out.push("6.0.0");
        out.push("6.1.0");
    } else if code == 2 {
        out.push("6.0.0");
        out.push("6.1.0");
    } else {
        out.push("5.6.0");
        out.push("5.7.0");
        out.push("5.8.6");
        out.push("6.0.0");
        out.push("6.1.0");
    }
    assert(out@.map_values(|s: &'static str| s@) =~= target_set(code));
    out
}

fn input_row_at(i: usize) -> (r: ExpectedInputEntry)
    ensures
        input_view(r) == input_row(i as int),
{
    if i == 0 {
        ExpectedInputEntry {
            id: "PLN-FLD-0001",
            resource_kind: "container",
            native_path: "$.Id",
            classification: "supported-exact",
            decoder: "inventory::decode_container",
            planner: "not_applicable",
            renderer: "not_applicable",
            public_contract: "ObservationHeader::identity",
            finding: "PLN0017",
            positive_test: "tests::inventory::acquisition_probes_lists_every_kind_then_inspects_canonical_stable_ids",
            negative_test: "tests::inventory::every_inspect_status_and_shape_failure_retains_a_partial_stable_identity",
        }
    } else if i == 1 {
        ExpectedInputEntry {
            id: "PLN-FLD-0002",
            resource_kind: "container",
            native_path: "$.Name",
            classification: "supported-exact",
            decoder: "inventory::decode_container",
            planner: "not_applicable",
            renderer: "not_applicable",
            public_contract: "ObservationHeader::identity",
            finding: "PLN0017",
            positive_test: "tests::inventory::acquisition_probes_lists_every_kind_then_inspects_canonical_stable_ids",
            negative_test: "tests::inventory::every_inspect_status_and_shape_failure_retains_a_partial_stable_identity",
        }
    } else if i == 2 {
        ExpectedInputEntry {
            id: "PLN-FLD-0003",
            resource_kind: "container",
            native_path: "$.Config.Labels",
            classification: "observation-only",
            decoder: "inventory::decode_container",
            planner: "not_applicable",
            renderer: "not_applicable",
            public_contract: "ContainerObservation::labels",
            finding: "PLN0017",
            positive_test: "tests::inventory::acquisition_probes_lists_every_kind_then_inspects_canonical_stable_ids",
            negative_test: "tests::inventory::modeled_nested_boundaries_report_the_precise_path_without_hiding_the_record",
        }
    } else if i == 3 {
        ExpectedInputEntry {
            id: "PLN-FLD-0004",
            resource_kind: "container",
            native_path: "$.Config.Env",
            classification: "observation-only",
            decoder: "inventory::decode_container",
            planner: "not_applicable",
            renderer: "not_applicable",
            public_contract: "ContainerObservation::environment",
            finding: "PLN0019",
            positive_test: "tests::inventory::explicit_environment_inclusion_is_opaque_and_preserves_duplicate_order",
            negative_test: "tests::inventory::environment_boundaries_preserve_valid_entries_and_report_every_bad_occurrence",
        }
    } else if i == 4 {
        ExpectedInputEntry {
            id: "PLN-FLD-0005",
            resource_kind: "container",
            native_path: "$.Config.Secrets",
            classification: "observation-only",
            decoder: "inventory::decode_container_secret_grants",
            planner: "not_applicable",
            renderer: "not_applicable",
            public_contract: "ContainerObservation::secret_grants",
            finding: "PLN0017",
            positive_test: "tests::inventory::acquisition_probes_lists_every_kind_then_inspects_canonical_stable_ids",
            negative_test: "tests::inventory::modeled_nested_boundaries_report_the_precise_path_without_hiding_the_record",
        }
    } else if i == 5 {
        ExpectedInputEntry {
            id: "PLN-FLD-0006",
            resource_kind: "container",
            native_path: "$.Image",
            classification: "observation-only",
            decoder: "inventory::decode_container",
            planner: "not_applicable",
            renderer: "not_applicable",
            public_contract: "ContainerObservation::local_image_id",
            finding: "PLN0017",
            positive_test: "tests::inventory::acquisition_probes_lists_every_kind_then_inspects_canonical_stable_ids",
            negative_test: "tests::inventory::modeled_nested_boundaries_report_the_precise_path_without_hiding_the_record",
        }
    } else if i == 6 {
        ExpectedInputEntry {
            id: "PLN-FLD-0007",
            resource_kind: "container",
            native_path: "$.ImageName",
            classification: "observation-only",
            decoder: "inventory::decode_container",
            planner: "not_applicable",
            renderer: "not_applicable",
            public_contract: "ContainerObservation::configured_image",
            finding: "PLN0017",
            positive_test: "tests::inventory::acquisition_probes_lists_every_kind_then_inspects_canonical_stable_ids",
            negative_test: "tests::inventory::modeled_nested_boundaries_report_the_precise_path_without_hiding_the_record",
        }
    } else if i == 7 {
        ExpectedInputEntry {
            id: "PLN-FLD-0008",
            resource_kind: "container",
            native_path: "$.Pod",
            classification: "observation-only",
            decoder: "inventory::decode_native_reference",
            planner: "not_applicable",
            renderer: "not_applicable",
            public_contract: "ContainerObservation::pod_membership",
            finding: "PLN0017",
            positive_test: "tests::inventory::acquisition_probes_lists_every_kind_then_inspects_canonical_stable_ids",
            negative_test: "tests::inventory::modeled_nested_boundaries_report_the_precise_path_without_hiding_the_record",
        }
    } else if i == 8 {
        ExpectedInputEntry {
            id: "PLN-FLD-0009",
            resource_kind: "container",
            native_path: "$.NetworkSettings.Networks",
            classification: "observation-only",
            decoder: "inventory::decode_container_networks",
            planner: "not_applicable",
            renderer: "not_applicable",
            public_contract: "ResourceGraph::dependencies",
            finding: "PLN0017",
            positive_test: "tests::inventory::acquisition_probes_lists_every_kind_then_inspects_canonical_stable_ids",
            negative_test: "tests::inventory::modeled_nested_boundaries_report_the_precise_path_without_hiding_the_record",
        }
    } else if i == 9 {
        ExpectedInputEntry {
            id: "PLN-FLD-0010",
            resource_kind: "container",
            native_path: "$.Mounts",
            classification: "observation-only",
            decoder: "inventory::decode_container_mounts",
            planner: "not_applicable",
            renderer: "not_applicable",
            public_contract: "ContainerObservation::mounts",
            finding: "PLN0017",
            positive_test: "tests::inventory::acquisition_probes_lists_every_kind_then_inspects_canonical_stable_ids",
            negative_test: "tests::inventory::modeled_nested_boundaries_report_the_precise_path_without_hiding_the_record",
        }
    } else if i == 10 {
        ExpectedInputEntry {
            id: "PLN-FLD-0011",
            resource_kind: "container",
            native_path: "$.Dependencies",
            classification: "observation-only",
            decoder: "inventory::decode_native_dependencies",
            planner: "not_applicable",
            renderer: "not_applicable",
            public_contract: "ContainerObservation::native_dependencies",
            finding: "PLN0017",
            positive_test: "tests::inventory::acquisition_probes_lists_every_kind_then_inspects_canonical_stable_ids",
            negative_test: "tests::inventory::modeled_nested_boundaries_report_the_precise_path_without_hiding_the_record",
        }
    } else if i == 11 {
        ExpectedInputEntry {
            id: "PLN-FLD-0012",
            resource_kind: "container",
            native_path: "$.HostConfig.MemorySwappiness",
            classification: "target-gated",
            decoder: "inventory::decode_memory_swappiness",
            planner: "not_applicable",
            renderer: "not_applicable",
            public_contract: "ContainerObservation::memory_swappiness",
            finding: "PLN0022",
            positive_test: "tests::inventory::memory_swappiness_distinguishes_reviewed_null_boundary_and_invalid_values",
            negative_test: "tests::inventory::memory_swappiness_distinguishes_reviewed_null_boundary_and_invalid_values",
        }
    } else if i == 12 {
        ExpectedInputEntry {
            id: "PLN-FLD-0013",
            resource_kind: "container",
            native_path: "$.HostConfig.*",
            classification: "unknown-incomplete",
            decoder: "inventory::unknown_nested_fields",
            planner: "not_applicable",
            renderer: "not_applicable",
            public_contract: "ObservationHeader::unmodelled_fields",
            finding: "PLN0023",
            positive_test: "tests::inventory::host_config_members_not_yet_modeled_are_retained_as_unknown_metadata",
            negative_test: "tests::inventory::unknown_fields_are_bounded_per_record_and_across_the_inventory",
        }
    } else if i == 13 {
        ExpectedInputEntry {
            id: "PLN-FLD-0014",
            resource_kind: "container",
            native_path: "$.IsInfra",
            classification: "observation-only",
            decoder: "inventory::decode_is_infra",
            planner: "not_applicable",
            renderer: "not_applicable",
            public_contract: "ContainerObservation::infra",
            finding: "PLN0017",
            positive_test: "tests::inventory::acquisition_probes_lists_every_kind_then_inspects_canonical_stable_ids",
            negative_test: "tests::inventory::modeled_nested_boundaries_report_the_precise_path_without_hiding_the_record",
        }
    } else if i == 14 {
        ExpectedInputEntry {
            id: "PLN-FLD-0015",
            resource_kind: "pod",
            native_path: "$.Id",
            classification: "supported-exact",
            decoder: "inventory::decode_pod",
            planner: "not_applicable",
            renderer: "not_applicable",
            public_contract: "ObservationHeader::identity",
            finding: "PLN0017",
            positive_test: "tests::inventory::acquisition_probes_lists_every_kind_then_inspects_canonical_stable_ids",
            negative_test: "tests::inventory::every_inspect_status_and_shape_failure_retains_a_partial_stable_identity",
        }
    } else if i == 15 {
        ExpectedInputEntry {
            id: "PLN-FLD-0016",
            resource_kind: "pod",
            native_path: "$.Name",
            classification: "supported-exact",
            decoder: "inventory::decode_pod",
            planner: "not_applicable",
            renderer: "not_applicable",
            public_contract: "ObservationHeader::identity",
            finding: "PLN0017",
            positive_test: "tests::inventory::acquisition_probes_lists_every_kind_then_inspects_canonical_stable_ids",
            negative_test: "tests::inventory::every_inspect_status_and_shape_failure_retains_a_partial_stable_identity",
        }
    } else if i == 16 {
        ExpectedInputEntry {
            id: "PLN-FLD-0017",
            resource_kind: "pod",
            native_path: "$.Labels",
            classification: "observation-only",
            decoder: "inventory::decode_pod",
            planner: "not_applicable",
            renderer: "not_applicable",
            public_contract: "PodObservation::labels",
            finding: "PLN0017",
            positive_test: "tests::inventory::acquisition_probes_lists_every_kind_then_inspects_canonical_stable_ids",
            negative_test: "tests::inventory::modeled_nested_boundaries_report_the_precise_path_without_hiding_the_record",
        }
    } else if i == 17 {
        ExpectedInputEntry {
            id: "PLN-FLD-0018",
            resource_kind: "pod",
            native_path: "$.Containers",
            classification: "observation-only",
            decoder: "inventory::decode_pod_containers",
            planner: "not_applicable",
            renderer: "not_applicable",
            public_contract: "ResourceGraph::dependencies",
            finding: "PLN0017",
            positive_test: "tests::inventory::acquisition_probes_lists_every_kind_then_inspects_canonical_stable_ids",
            negative_test: "tests::inventory::modeled_nested_boundaries_report_the_precise_path_without_hiding_the_record",
        }
    } else if i == 18 {
        ExpectedInputEntry {
            id: "PLN-FLD-0019",
            resource_kind: "pod",
            native_path: "$.Networks",
            classification: "observation-only",
            decoder: "inventory::decode_pod_networks",
            planner: "not_applicable",
            renderer: "not_applicable",
            public_contract: "ResourceGraph::dependencies",
            finding: "PLN0017",
            positive_test: "tests::inventory::acquisition_probes_lists_every_kind_then_inspects_canonical_stable_ids",
            negative_test: "tests::inventory::modeled_nested_boundaries_report_the_precise_path_without_hiding_the_record",
        }
    } else if i == 19 {
        ExpectedInputEntry {
            id: "PLN-FLD-0020",
            resource_kind: "network",
            native_path: "$.id",
            classification: "supported-exact",
            decoder: "inventory::decode_network",
            planner: "not_applicable",
            renderer: "not_applicable",
            public_contract: "ObservationHeader::identity",
            finding: "PLN0017",
            positive_test: "tests::inventory::acquisition_probes_lists_every_kind_then_inspects_canonical_stable_ids",
            negative_test: "tests::inventory::every_inspect_status_and_shape_failure_retains_a_partial_stable_identity",
        }
    } else if i == 20 {
        ExpectedInputEntry {
            id: "PLN-FLD-0021",
            resource_kind: "network",
            native_path: "$.name",
            classification: "supported-exact",
            decoder: "inventory::decode_network",
            planner: "not_applicable",
            renderer: "not_applicable",
            public_contract: "ObservationHeader::identity",
            finding: "PLN0017",
            positive_test: "tests::inventory::acquisition_probes_lists_every_kind_then_inspects_canonical_stable_ids",
            negative_test: "tests::inventory::every_inspect_status_and_shape_failure_retains_a_partial_stable_identity",
        }
    } else if i == 21 {
        ExpectedInputEntry {
            id: "PLN-FLD-0022",
            resource_kind: "network",
            native_path: "$.labels",
            classification: "observation-only",
            decoder: "inventory::decode_network",
            planner: "not_applicable",
            renderer: "not_applicable",
            public_contract: "NetworkObservation::labels",
            finding: "PLN0017",
            positive_test: "tests::inventory::acquisition_probes_lists_every_kind_then_inspects_canonical_stable_ids",
            negative_test: "tests::inventory::modeled_nested_boundaries_report_the_precise_path_without_hiding_the_record",
        }
    } else if i == 22 {
        ExpectedInputEntry {
            id: "PLN-FLD-0023",
            resource_kind: "network",
            native_path: "$.internal",
            classification: "observation-only",
            decoder: "inventory::decode_network_details",
            planner: "not_applicable",
            renderer: "not_applicable",
            public_contract: "NetworkObservation::internal",
            finding: "PLN0017",
            positive_test: "tests::inventory::acquisition_probes_lists_every_kind_then_inspects_canonical_stable_ids",
            negative_test: "tests::inventory::modeled_nested_boundaries_report_the_precise_path_without_hiding_the_record",
        }
    } else if i == 23 {
        ExpectedInputEntry {
            id: "PLN-FLD-0024",
            resource_kind: "network",
            native_path: "$.options",
            classification: "observation-only",
            decoder: "inventory::decode_network_details",
            planner: "not_applicable",
            renderer: "not_applicable",
            public_contract: "NetworkObservation::options",
            finding: "PLN0017",
            positive_test: "tests::inventory::acquisition_probes_lists_every_kind_then_inspects_canonical_stable_ids",
            negative_test: "tests::inventory::modeled_nested_boundaries_report_the_precise_path_without_hiding_the_record",
        }
    } else if i == 24 {
        ExpectedInputEntry {
            id: "PLN-FLD-0025",
            resource_kind: "network",
            native_path: "$.subnets",
            classification: "observation-only",
            decoder: "inventory::decode_network_details",
            planner: "not_applicable",
            renderer: "not_applicable",
            public_contract: "NetworkObservation::subnets",
            finding: "PLN0017",
            positive_test: "tests::inventory::acquisition_probes_lists_every_kind_then_inspects_canonical_stable_ids",
            negative_test: "tests::inventory::modeled_nested_boundaries_report_the_precise_path_without_hiding_the_record",
        }
    } else if i == 25 {
        ExpectedInputEntry {
            id: "PLN-FLD-0026",
            resource_kind: "volume",
            native_path: "$.Name",
            classification: "supported-exact",
            decoder: "inventory::decode_volume",
            planner: "not_applicable",
            renderer: "not_applicable",
            public_contract: "ObservationHeader::identity",
            finding: "PLN0017",
            positive_test: "tests::inventory::acquisition_probes_lists_every_kind_then_inspects_canonical_stable_ids",
            negative_test: "tests::inventory::every_inspect_status_and_shape_failure_retains_a_partial_stable_identity",
        }
    } else if i == 26 {
        ExpectedInputEntry {
            id: "PLN-FLD-0027",
            resource_kind: "volume",
            native_path: "$.Labels",
            classification: "observation-only",
            decoder: "inventory::decode_volume",
            planner: "not_applicable",
            renderer: "not_applicable",
            public_contract: "VolumeObservation::labels",
            finding: "PLN0017",
            positive_test: "tests::inventory::acquisition_probes_lists_every_kind_then_inspects_canonical_stable_ids",
            negative_test: "tests::inventory::modeled_nested_boundaries_report_the_precise_path_without_hiding_the_record",
        }
    } else if i == 27 {
        ExpectedInputEntry {
            id: "PLN-FLD-0028",
            resource_kind: "image",
            native_path: "$.Id",
            classification: "supported-exact",
            decoder: "inventory::decode_image",
            planner: "not_applicable",
            renderer: "not_applicable",
            public_contract: "ObservationHeader::identity",
            finding: "PLN0017",
            positive_test: "tests::inventory::acquisition_probes_lists_every_kind_then_inspects_canonical_stable_ids",
            negative_test: "tests::inventory::every_inspect_status_and_shape_failure_retains_a_partial_stable_identity",
        }
    } else if i == 28 {
        ExpectedInputEntry {
            id: "PLN-FLD-0029",
            resource_kind: "image",
            native_path: "$.Names",
            classification: "observation-only",
            decoder: "inventory::decode_image",
            planner: "not_applicable",
            renderer: "not_applicable",
            public_contract: "ImageObservation::aliases",
            finding: "PLN0017",
            positive_test: "tests::inventory::acquisition_probes_lists_every_kind_then_inspects_canonical_stable_ids",
            negative_test: "tests::inventory::modeled_nested_boundaries_report_the_precise_path_without_hiding_the_record",
        }
    } else if i == 29 {
        ExpectedInputEntry {
            id: "PLN-FLD-0030",
            resource_kind: "image",
            native_path: "$.Labels",
            classification: "observation-only",
            decoder: "inventory::decode_image",
            planner: "not_applicable",
            renderer: "not_applicable",
            public_contract: "ImageObservation::labels",
            finding: "PLN0017",
            positive_test: "tests::inventory::acquisition_probes_lists_every_kind_then_inspects_canonical_stable_ids",
            negative_test: "tests::inventory::modeled_nested_boundaries_report_the_precise_path_without_hiding_the_record",
        }
    } else if i == 30 {
        ExpectedInputEntry {
            id: "PLN-FLD-0031",
            resource_kind: "image",
            native_path: "$.Config.Env",
            classification: "observation-only",
            decoder: "inventory::decode_image",
            planner: "not_applicable",
            renderer: "not_applicable",
            public_contract: "ImageObservation::environment",
            finding: "PLN0019",
            positive_test: "tests::inventory::explicit_environment_inclusion_is_opaque_and_preserves_duplicate_order",
            negative_test: "tests::inventory::environment_boundaries_preserve_valid_entries_and_report_every_bad_occurrence",
        }
    } else if i == 31 {
        ExpectedInputEntry {
            id: "PLN-FLD-0032",
            resource_kind: "secret",
            native_path: "$.ID",
            classification: "supported-exact",
            decoder: "inventory::decode_secret",
            planner: "not_applicable",
            renderer: "not_applicable",
            public_contract: "ObservationHeader::identity",
            finding: "PLN0017",
            positive_test: "tests::inventory::acquisition_probes_lists_every_kind_then_inspects_canonical_stable_ids",
            negative_test: "tests::inventory::every_inspect_status_and_shape_failure_retains_a_partial_stable_identity",
        }
    } else if i == 32 {
        ExpectedInputEntry {
            id: "PLN-FLD-0033",
            resource_kind: "secret",
            native_path: "$.Spec.Name",
            classification: "supported-exact",
            decoder: "inventory::decode_secret",
            planner: "not_applicable",
            renderer: "not_applicable",
            public_contract: "ObservationHeader::identity",
            finding: "PLN0017",
            positive_test: "tests::inventory::acquisition_probes_lists_every_kind_then_inspects_canonical_stable_ids",
            negative_test: "tests::inventory::every_inspect_status_and_shape_failure_retains_a_partial_stable_identity",
        }
    } else if i == 33 {
        ExpectedInputEntry {
            id: "PLN-FLD-0034",
            resource_kind: "secret",
            native_path: "$.Spec.Labels",
            classification: "observation-only",
            decoder: "inventory::decode_secret",
            planner: "not_applicable",
            renderer: "not_applicable",
            public_contract: "SecretObservation::labels",
            finding: "PLN0017",
            positive_test: "tests::inventory::acquisition_probes_lists_every_kind_then_inspects_canonical_stable_ids",
            negative_test: "tests::inventory::modeled_nested_boundaries_report_the_precise_path_without_hiding_the_record",
        }
    } else if i == 34 {
        ExpectedInputEntry {
            id: "PLN-FLD-0035",
            resource_kind: "secret",
            native_path: "$.Spec.Driver",
            classification: "observation-only",
            decoder: "inventory::decode_secret",
            planner: "not_applicable",
            renderer: "not_applicable",
            public_contract: "SecretObservation::driver",
            finding: "PLN0017",
            positive_test: "tests::inventory::secret_driver_is_modeled_without_unsupported_metadata",
            negative_test: "tests::inventory::modeled_nested_boundaries_report_the_precise_path_without_hiding_the_record",
        }
    } else if i == 35 {
        ExpectedInputEntry {
            id: "PLN-FLD-0036",
            resource_kind: "secret",
            native_path: "$.SecretData",
            classification: "manual",
            decoder: "inventory::decode_secret",
            planner: "not_applicable",
            renderer: "not_applicable",
            public_contract: "ObservationHeader::findings",
            finding: "PLN0018",
            positive_test: "tests::inventory::secret_payload_is_discarded_from_metadata_inspection",
            negative_test: "tests::inventory::secret_payload_is_discarded_from_metadata_inspection",
        }
    } else if i == 36 {
        ExpectedInputEntry {
            id: "PLN-FLD-0037",
            resource_kind: "secret",
            native_path: "$.Spec.SecretData",
            classification: "manual",
            decoder: "inventory::decode_secret",
            planner: "not_applicable",
            renderer: "not_applicable",
            public_contract: "ObservationHeader::findings",
            finding: "PLN0018",
            positive_test: "tests::inventory::secret_payload_is_discarded_from_metadata_inspection",
            negative_test: "tests::inventory::secret_payload_is_discarded_from_metadata_inspection",
        }
    } else if i == 37 {
        ExpectedInputEntry {
            id: "PLN-FLD-0038",
            resource_kind: "all",
            native_path: "$.<unknown>",
            classification: "unknown-incomplete",
            decoder: "inventory::unknown_top_level",
            planner: "not_applicable",
            renderer: "not_applicable",
            public_contract: "ObservationHeader::unmodelled_completeness",
            finding: "PLN0021",
            positive_test: "tests::inventory::unknown_fields_are_bounded_per_record_and_across_the_inventory",
            negative_test: "tests::input_corpus::malformed_corpus_is_structured_and_bounded_never_panics",
        }
    } else if i == 38 {
        ExpectedInputEntry {
            id: "PLN-FLD-0039",
            resource_kind: "container",
            native_path: "$.Config.Cmd",
            classification: "observation-only",
            decoder: "inventory::decode_container_configuration",
            planner: "not_applicable",
            renderer: "not_applicable",
            public_contract: "ContainerObservation::command",
            finding: "PLN0017",
            positive_test: "tests::inventory::container_core_mount_and_secret_observations_are_typed_and_redacted",
            negative_test: "tests::inventory::malformed_enclosing_config_marks_every_modeled_child_malformed",
        }
    } else if i == 39 {
        ExpectedInputEntry {
            id: "PLN-FLD-0040",
            resource_kind: "container",
            native_path: "$.Config.Entrypoint",
            classification: "observation-only",
            decoder: "inventory::decode_container_configuration",
            planner: "not_applicable",
            renderer: "not_applicable",
            public_contract: "ContainerObservation::entrypoint",
            finding: "PLN0017",
            positive_test: "tests::inventory::container_core_mount_and_secret_observations_are_typed_and_redacted",
            negative_test: "tests::inventory::malformed_enclosing_config_marks_every_modeled_child_malformed",
        }
    } else if i == 40 {
        ExpectedInputEntry {
            id: "PLN-FLD-0041",
            resource_kind: "container",
            native_path: "$.Config.User",
            classification: "observation-only",
            decoder: "inventory::decode_container_configuration",
            planner: "not_applicable",
            renderer: "not_applicable",
            public_contract: "ContainerObservation::user",
            finding: "PLN0017",
            positive_test: "tests::inventory::container_core_mount_and_secret_observations_are_typed_and_redacted",
            negative_test: "tests::inventory::malformed_enclosing_config_marks_every_modeled_child_malformed",
        }
    } else if i == 41 {
        ExpectedInputEntry {
            id: "PLN-FLD-0042",
            resource_kind: "container",
            native_path: "$.Config.WorkingDir",
            classification: "observation-only",
            decoder: "inventory::decode_container_configuration",
            planner: "not_applicable",
            renderer: "not_applicable",
            public_contract: "ContainerObservation::working_directory",
            finding: "PLN0017",
            positive_test: "tests::inventory::container_core_mount_and_secret_observations_are_typed_and_redacted",
            negative_test: "tests::inventory::malformed_enclosing_config_marks_every_modeled_child_malformed",
        }
    } else if i == 42 {
        ExpectedInputEntry {
            id: "PLN-FLD-0043",
            resource_kind: "container",
            native_path: "$.Config.Hostname",
            classification: "observation-only",
            decoder: "inventory::decode_container_configuration",
            planner: "not_applicable",
            renderer: "not_applicable",
            public_contract: "ContainerObservation::hostname",
            finding: "PLN0017",
            positive_test: "tests::inventory::container_core_mount_and_secret_observations_are_typed_and_redacted",
            negative_test: "tests::inventory::malformed_enclosing_config_marks_every_modeled_child_malformed",
        }
    } else if i == 43 {
        ExpectedInputEntry {
            id: "PLN-FLD-0046",
            resource_kind: "container",
            native_path: "$.Mounts.Type",
            classification: "observation-only",
            decoder: "inventory::decode_container_mounts",
            planner: "not_applicable",
            renderer: "not_applicable",
            public_contract: "ContainerObservation::mounts",
            finding: "PLN0023",
            positive_test: "tests::inventory::container_core_mount_and_secret_observations_are_typed_and_redacted",
            negative_test: "tests::inventory::malformed_secret_aliases_and_unsupported_mounts_remain_non_deployable_evidence",
        }
    } else if i == 44 {
        ExpectedInputEntry {
            id: "PLN-FLD-0047",
            resource_kind: "container",
            native_path: "$.Mounts.Name",
            classification: "observation-only",
            decoder: "inventory::decode_container_mounts",
            planner: "not_applicable",
            renderer: "not_applicable",
            public_contract: "ContainerMountObservation::source",
            finding: "PLN0017",
            positive_test: "tests::inventory::container_core_mount_and_secret_observations_are_typed_and_redacted",
            negative_test: "tests::inventory::modeled_nested_boundaries_report_the_precise_path_without_hiding_the_record",
        }
    } else if i == 45 {
        ExpectedInputEntry {
            id: "PLN-FLD-0048",
            resource_kind: "container",
            native_path: "$.Mounts.Source",
            classification: "observation-only",
            decoder: "inventory::decode_container_mounts",
            planner: "not_applicable",
            renderer: "not_applicable",
            public_contract: "ContainerMountObservation::source",
            finding: "PLN0017",
            positive_test: "tests::inventory::container_core_mount_and_secret_observations_are_typed_and_redacted",
            negative_test: "tests::inventory::malformed_mount_destination_or_local_backing_path_invalidates_the_complete_mount_family",
        }
    } else if i == 46 {
        ExpectedInputEntry {
            id: "PLN-FLD-0049",
            resource_kind: "container",
            native_path: "$.Mounts.Destination",
            classification: "observation-only",
            decoder: "inventory::decode_container_mounts",
            planner: "not_applicable",
            renderer: "not_applicable",
            public_contract: "ContainerMountObservation::destination",
            finding: "PLN0017",
            positive_test: "tests::inventory::container_core_mount_and_secret_observations_are_typed_and_redacted",
            negative_test: "tests::inventory::malformed_mount_destination_or_local_backing_path_invalidates_the_complete_mount_family",
        }
    } else if i == 47 {
        ExpectedInputEntry {
            id: "PLN-FLD-0050",
            resource_kind: "container",
            native_path: "$.Mounts.RW",
            classification: "observation-only",
            decoder: "inventory::decode_container_mounts",
            planner: "not_applicable",
            renderer: "not_applicable",
            public_contract: "ContainerMountObservation::writable",
            finding: "PLN0017",
            positive_test: "tests::inventory::container_core_mount_and_secret_observations_are_typed_and_redacted",
            negative_test: "tests::inventory::modeled_nested_boundaries_report_the_precise_path_without_hiding_the_record",
        }
    } else if i == 48 {
        ExpectedInputEntry {
            id: "PLN-FLD-0051",
            resource_kind: "container",
            native_path: "$.Mounts.Options",
            classification: "observation-only",
            decoder: "inventory::decode_container_mounts",
            planner: "not_applicable",
            renderer: "not_applicable",
            public_contract: "ContainerMountObservation::options",
            finding: "PLN0017",
            positive_test: "tests::inventory::container_core_mount_and_secret_observations_are_typed_and_redacted",
            negative_test: "tests::inventory::modeled_nested_boundaries_report_the_precise_path_without_hiding_the_record",
        }
    } else if i == 49 {
        ExpectedInputEntry {
            id: "PLN-FLD-0052",
            resource_kind: "container",
            native_path: "$.Mounts.Propagation",
            classification: "observation-only",
            decoder: "inventory::decode_container_mounts",
            planner: "not_applicable",
            renderer: "not_applicable",
            public_contract: "ContainerMountObservation::propagation",
            finding: "PLN0017",
            positive_test: "tests::inventory::container_core_mount_and_secret_observations_are_typed_and_redacted",
            negative_test: "tests::inventory::modeled_nested_boundaries_report_the_precise_path_without_hiding_the_record",
        }
    } else if i == 50 {
        ExpectedInputEntry {
            id: "PLN-FLD-0053",
            resource_kind: "container",
            native_path: "$.Mounts.SubPath",
            classification: "observation-only",
            decoder: "inventory::decode_container_mounts",
            planner: "not_applicable",
            renderer: "not_applicable",
            public_contract: "ContainerMountObservation::subpath",
            finding: "PLN0017",
            positive_test: "tests::inventory::container_core_mount_and_secret_observations_are_typed_and_redacted",
            negative_test: "tests::inventory::modeled_nested_boundaries_report_the_precise_path_without_hiding_the_record",
        }
    } else if i == 51 {
        ExpectedInputEntry {
            id: "PLN-FLD-0054",
            resource_kind: "container",
            native_path: "$.Config.Secrets.ID",
            classification: "observation-only",
            decoder: "inventory::decode_container_secret_grants",
            planner: "not_applicable",
            renderer: "not_applicable",
            public_contract: "ContainerSecretGrantObservation::reference",
            finding: "PLN0017",
            positive_test: "tests::inventory::container_core_mount_and_secret_observations_are_typed_and_redacted",
            negative_test: "tests::inventory::malformed_secret_aliases_and_unsupported_mounts_remain_non_deployable_evidence",
        }
    } else if i == 52 {
        ExpectedInputEntry {
            id: "PLN-FLD-0055",
            resource_kind: "container",
            native_path: "$.Config.Secrets.Name",
            classification: "observation-only",
            decoder: "inventory::decode_container_secret_grants",
            planner: "not_applicable",
            renderer: "not_applicable",
            public_contract: "ContainerSecretGrantObservation::reference",
            finding: "PLN0017",
            positive_test: "tests::inventory::container_core_mount_and_secret_observations_are_typed_and_redacted",
            negative_test: "tests::inventory::malformed_secret_aliases_and_unsupported_mounts_remain_non_deployable_evidence",
        }
    } else if i == 53 {
        ExpectedInputEntry {
            id: "PLN-FLD-0056",
            resource_kind: "container",
            native_path: "$.Config.Secrets.UID",
            classification: "observation-only",
            decoder: "inventory::decode_container_secret_grants",
            planner: "not_applicable",
            renderer: "not_applicable",
            public_contract: "ContainerSecretGrantObservation::uid",
            finding: "PLN0017",
            positive_test: "tests::inventory::canonical_direct_secret_metadata_preserves_effective_zero_and_configured_aliases",
            negative_test: "tests::inventory::malformed_direct_secret_effective_metadata_invalidates_the_grant_family",
        }
    } else if i == 54 {
        ExpectedInputEntry {
            id: "PLN-FLD-0057",
            resource_kind: "container",
            native_path: "$.Config.Secrets.GID",
            classification: "observation-only",
            decoder: "inventory::decode_container_secret_grants",
            planner: "not_applicable",
            renderer: "not_applicable",
            public_contract: "ContainerSecretGrantObservation::gid",
            finding: "PLN0017",
            positive_test: "tests::inventory::canonical_direct_secret_metadata_preserves_effective_zero_and_configured_aliases",
            negative_test: "tests::inventory::malformed_direct_secret_effective_metadata_invalidates_the_grant_family",
        }
    } else {
        ExpectedInputEntry {
            id: "PLN-FLD-0058",
            resource_kind: "container",
            native_path: "$.Config.Secrets.Mode",
            classification: "observation-only",
            decoder: "inventory::decode_container_secret_grants",
            planner: "not_applicable",
            renderer: "not_applicable",
            public_contract: "ContainerSecretGrantObservation::mode",
            finding: "PLN0017",
            positive_test: "tests::inventory::canonical_direct_secret_metadata_preserves_effective_zero_and_configured_aliases",
            negative_test: "tests::inventory::malformed_direct_secret_effective_metadata_invalidates_the_grant_family",
        }
    }
}

fn output_row_at(i: usize) -> (r: ExpectedOutputEntry)
    ensures
        output_view(r) == output_row(i as int),
{
    if i == 0 {
        ExpectedOutputEntry {
            id: "PLN-OUT-0001",
            resource_kind: "container",
            field_path: "runtime.health.disabled",
            classification: "supported-exact",
            planner: "deployment::validate_runtime_settings",
            cli_renderer: "render::append_container_runtime_arguments",
            libpod_renderer: "render::append_container_runtime_json",
            public_contract: "ContainerRuntimeSettings::health",
            finding: "PLN0046",
            positive_test: "tests::runtime::bounded_runtime_intent_plans_and_renders_exactly",
            negative_test: "tests::runtime::bounded_runtime_values_reject_invalid_inputs_and_preserve_explicit_false",
            targets: 0,
        }
    } else if i == 1 {
        ExpectedOutputEntry {
            id: "PLN-OUT-0002",
            resource_kind: "container",
            field_path: "runtime.health.command.public",
            classification: "supported-exact",
            planner: "deployment::validate_runtime_settings",
            cli_renderer: "render::append_container_runtime_arguments",
            libpod_renderer: "render::append_container_runtime_json",
            public_contract: "ConfiguredHealthCheck::command",
            finding: "PLN0046",
            positive_test: "tests::runtime::bounded_runtime_intent_plans_and_renders_exactly",
            negative_test: "tests::runtime::bounded_runtime_values_reject_invalid_inputs_and_preserve_explicit_false",
            targets: 0,
        }
    } else if i == 2 {
        ExpectedOutputEntry {
            id: "PLN-OUT-0003",
            resource_kind: "container",
            field_path: "runtime.health.interval",
            classification: "supported-exact",
            planner: "deployment::validate_runtime_settings",
            cli_renderer: "render::append_container_runtime_arguments",
            libpod_renderer: "render::append_container_runtime_json",
            public_contract: "ConfiguredHealthCheck::interval",
            finding: "PLN0046",
            positive_test: "tests::runtime::bounded_runtime_intent_plans_and_renders_exactly",
            negative_test: "tests::runtime::bounded_runtime_values_reject_invalid_inputs_and_preserve_explicit_false",
            targets: 0,
        }
    } else if i == 3 {
        ExpectedOutputEntry {
            id: "PLN-OUT-0004",
            resource_kind: "container",
            field_path: "runtime.health.timeout",
            classification: "supported-exact",
            planner: "deployment::validate_runtime_settings",
            cli_renderer: "render::append_container_runtime_arguments",
            libpod_renderer: "render::append_container_runtime_json",
            public_contract: "ConfiguredHealthCheck::timeout",
            finding: "PLN0046",
            positive_test: "tests::runtime::bounded_runtime_intent_plans_and_renders_exactly",
            negative_test: "tests::runtime::bounded_runtime_values_reject_invalid_inputs_and_preserve_explicit_false",
            targets: 0,
        }
    } else if i == 4 {
        ExpectedOutputEntry {
            id: "PLN-OUT-0005",
            resource_kind: "container",
            field_path: "runtime.health.retries",
            classification: "supported-exact",
            planner: "deployment::validate_runtime_settings",
            cli_renderer: "render::append_container_runtime_arguments",
            libpod_renderer: "render::append_container_runtime_json",
            public_contract: "ConfiguredHealthCheck::retries",
            finding: "PLN0046",
            positive_test: "tests::runtime::bounded_runtime_intent_plans_and_renders_exactly",
            negative_test: "tests::runtime::bounded_runtime_values_reject_invalid_inputs_and_preserve_explicit_false",
            targets: 0,
        }
    } else if i == 5 {
        ExpectedOutputEntry {
            id: "PLN-OUT-0006",
            resource_kind: "container",
            field_path: "runtime.health.start_period",
            classification: "supported-exact",
            planner: "deployment::validate_runtime_settings",
            cli_renderer: "render::append_container_runtime_arguments",
            libpod_renderer: "render::append_container_runtime_json",
            public_contract: "ConfiguredHealthCheck::start_period",
            finding: "PLN0046",
            positive_test: "tests::runtime::bounded_runtime_intent_plans_and_renders_exactly",
            negative_test: "tests::runtime::bounded_runtime_values_reject_invalid_inputs_and_preserve_explicit_false",
            targets: 0,
        }
    } else if i == 6 {
        ExpectedOutputEntry {
            id: "PLN-OUT-0007",
            resource_kind: "container",
            field_path: "runtime.health.on_failure",
            classification: "supported-exact",
            planner: "deployment::validate_runtime_settings",
            cli_renderer: "render::append_container_runtime_arguments",
            libpod_renderer: "render::append_container_runtime_json",
            public_contract: "ConfiguredHealthCheck::on_failure",
            finding: "PLN0046",
            positive_test: "tests::runtime::bounded_runtime_intent_plans_and_renders_exactly",
            negative_test: "tests::runtime::bounded_runtime_values_reject_invalid_inputs_and_preserve_explicit_false",
            targets: 0,
        }
    } else if i == 7 {
        ExpectedOutputEntry {
            id: "PLN-OUT-0008",
            resource_kind: "container",
            field_path: "runtime.startup_health.command.public",
            classification: "supported-exact",
            planner: "deployment::validate_runtime_settings",
            cli_renderer: "render::append_container_runtime_arguments",
            libpod_renderer: "render::append_container_runtime_json",
            public_contract: "StartupHealthCheck::command",
            finding: "PLN0046",
            positive_test: "tests::runtime::bounded_runtime_intent_plans_and_renders_exactly",
            negative_test: "tests::runtime::bounded_runtime_values_reject_invalid_inputs_and_preserve_explicit_false",
            targets: 0,
        }
    } else if i == 8 {
        ExpectedOutputEntry {
            id: "PLN-OUT-0009",
            resource_kind: "container",
            field_path: "runtime.startup_health.interval",
            classification: "supported-exact",
            planner: "deployment::validate_runtime_settings",
            cli_renderer: "render::append_container_runtime_arguments",
            libpod_renderer: "render::append_container_runtime_json",
            public_contract: "StartupHealthCheck::interval",
            finding: "PLN0046",
            positive_test: "tests::runtime::bounded_runtime_intent_plans_and_renders_exactly",
            negative_test: "tests::runtime::bounded_runtime_values_reject_invalid_inputs_and_preserve_explicit_false",
            targets: 0,
        }
    } else if i == 9 {
        ExpectedOutputEntry {
            id: "PLN-OUT-0010",
            resource_kind: "container",
            field_path: "runtime.startup_health.timeout",
            classification: "supported-exact",
            planner: "deployment::validate_runtime_settings",
            cli_renderer: "render::append_container_runtime_arguments",
            libpod_renderer: "render::append_container_runtime_json",
            public_contract: "StartupHealthCheck::timeout",
            finding: "PLN0046",
            positive_test: "tests::runtime::bounded_runtime_intent_plans_and_renders_exactly",
            negative_test: "tests::runtime::bounded_runtime_values_reject_invalid_inputs_and_preserve_explicit_false",
            targets: 0,
        }
    } else if i == 10 {
        ExpectedOutputEntry {
            id: "PLN-OUT-0011",
            resource_kind: "container",
            field_path: "runtime.startup_health.retries",
            classification: "supported-exact",
            planner: "deployment::validate_runtime_settings",
            cli_renderer: "render::append_container_runtime_arguments",
            libpod_renderer: "render::append_container_runtime_json",
            public_contract: "StartupHealthCheck::retries",
            finding: "PLN0046",
            positive_test: "tests::runtime::bounded_runtime_intent_plans_and_renders_exactly",
            negative_test: "tests::runtime::bounded_runtime_values_reject_invalid_inputs_and_preserve_explicit_false",
            targets: 0,
        }
    } else if i == 11 {
        ExpectedOutputEntry {
            id: "PLN-OUT-0012",
            resource_kind: "container",
            field_path: "runtime.startup_health.successes",
            classification: "supported-exact",
            planner: "deployment::validate_runtime_settings",
            cli_renderer: "render::append_container_runtime_arguments",
            libpod_renderer: "render::append_container_runtime_json",
            public_contract: "StartupHealthCheck::successes",
            finding: "PLN0046",
            positive_test: "tests::runtime::bounded_runtime_intent_plans_and_renders_exactly",
            negative_test: "tests::runtime::bounded_runtime_values_reject_invalid_inputs_and_preserve_explicit_false",
            targets: 0,
        }
    } else if i == 12 {
        ExpectedOutputEntry {
            id: "PLN-OUT-0013",
            resource_kind: "container",
            field_path: "runtime.logging.driver",
            classification: "supported-exact",
            planner: "deployment::validate_runtime_settings",
            cli_renderer: "render::append_container_runtime_arguments",
            libpod_renderer: "render::append_container_runtime_json",
            public_contract: "LoggingSettings::driver",
            finding: "PLN0046",
            positive_test: "tests::runtime::bounded_runtime_intent_plans_and_renders_exactly",
            negative_test: "tests::runtime::bounded_runtime_values_reject_invalid_inputs_and_preserve_explicit_false",
            targets: 0,
        }
    } else if i == 13 {
        ExpectedOutputEntry {
            id: "PLN-OUT-0014",
            resource_kind: "container",
            field_path: "runtime.logging.max_size",
            classification: "supported-exact",
            planner: "deployment::validate_runtime_settings",
            cli_renderer: "render::append_container_runtime_arguments",
            libpod_renderer: "render::append_container_runtime_json",
            public_contract: "LoggingSettings::max_size",
            finding: "PLN0046",
            positive_test: "tests::runtime::bounded_runtime_intent_plans_and_renders_exactly",
            negative_test: "tests::runtime::bounded_runtime_values_reject_invalid_inputs_and_preserve_explicit_false",
            targets: 0,
        }
    } else if i == 14 {
        ExpectedOutputEntry {
            id: "PLN-OUT-0015",
            resource_kind: "container",
            field_path: "runtime.logging.journald_labels",
            classification: "target-gated",
            planner: "deployment::validate_runtime_settings",
            cli_renderer: "render::append_container_runtime_arguments",
            libpod_renderer: "render::append_container_runtime_json",
            public_contract: "LoggingSettings::journald_labels",
            finding: "PLN0046",
            positive_test: "tests::runtime::journald_labels_are_supported_from_podman_six_in_every_reviewed_target",
            negative_test: "tests::runtime::journald_labels_are_supported_from_podman_six_in_every_reviewed_target",
            targets: 2,
        }
    } else if i == 15 {
        ExpectedOutputEntry {
            id: "PLN-OUT-0016",
            resource_kind: "container",
            field_path: "runtime.security.privileged",
            classification: "supported-exact",
            planner: "deployment::validate_runtime_settings",
            cli_renderer: "render::append_container_runtime_arguments",
            libpod_renderer: "render::append_container_runtime_json",
            public_contract: "SecuritySettings::privileged",
            finding: "PLN0046",
            positive_test: "tests::runtime::bounded_runtime_intent_plans_and_renders_exactly",
            negative_test: "tests::runtime::bounded_runtime_values_reject_invalid_inputs_and_preserve_explicit_false",
            targets: 0,
        }
    } else if i == 16 {
        ExpectedOutputEntry {
            id: "PLN-OUT-0017",
            resource_kind: "container",
            field_path: "runtime.security.cap_add",
            classification: "supported-exact",
            planner: "deployment::validate_runtime_settings",
            cli_renderer: "render::append_container_runtime_arguments",
            libpod_renderer: "render::append_container_runtime_json",
            public_contract: "SecuritySettings::cap_add",
            finding: "PLN0046",
            positive_test: "tests::runtime::bounded_runtime_intent_plans_and_renders_exactly",
            negative_test: "tests::runtime::bounded_runtime_values_reject_invalid_inputs_and_preserve_explicit_false",
            targets: 0,
        }
    } else if i == 17 {
        ExpectedOutputEntry {
            id: "PLN-OUT-0018",
            resource_kind: "container",
            field_path: "runtime.security.cap_drop",
            classification: "supported-exact",
            planner: "deployment::validate_runtime_settings",
            cli_renderer: "render::append_container_runtime_arguments",
            libpod_renderer: "render::append_container_runtime_json",
            public_contract: "SecuritySettings::cap_drop",
            finding: "PLN0046",
            positive_test: "tests::runtime::bounded_runtime_intent_plans_and_renders_exactly",
            negative_test: "tests::runtime::bounded_runtime_values_reject_invalid_inputs_and_preserve_explicit_false",
            targets: 0,
        }
    } else if i == 18 {
        ExpectedOutputEntry {
            id: "PLN-OUT-0019",
            resource_kind: "container",
            field_path: "runtime.security.no_new_privileges",
            classification: "supported-exact",
            planner: "deployment::validate_runtime_settings",
            cli_renderer: "render::append_container_runtime_arguments",
            libpod_renderer: "render::append_container_runtime_json",
            public_contract: "SecuritySettings::no_new_privileges",
            finding: "PLN0046",
            positive_test: "tests::runtime::bounded_runtime_intent_plans_and_renders_exactly",
            negative_test: "tests::runtime::bounded_runtime_values_reject_invalid_inputs_and_preserve_explicit_false",
            targets: 0,
        }
    } else if i == 19 {
        ExpectedOutputEntry {
            id: "PLN-OUT-0020",
            resource_kind: "container",
            field_path: "runtime.security.read_only_filesystem",
            classification: "supported-exact",
            planner: "deployment::validate_runtime_settings",
            cli_renderer: "render::append_container_runtime_arguments",
            libpod_renderer: "render::append_container_runtime_json",
            public_contract: "SecuritySettings::read_only_filesystem",
            finding: "PLN0046",
            positive_test: "tests::runtime::bounded_runtime_intent_plans_and_renders_exactly",
            negative_test: "tests::runtime::bounded_runtime_values_reject_invalid_inputs_and_preserve_explicit_false",
            targets: 0,
        }
    } else if i == 20 {
        ExpectedOutputEntry {
            id: "PLN-OUT-0021",
            resource_kind: "container",
            field_path: "runtime.security.read_write_tmpfs",
            classification: "supported-exact",
            planner: "deployment::validate_runtime_settings",
            cli_renderer: "render::append_container_runtime_arguments",
            libpod_renderer: "render::append_container_runtime_json",
            public_contract: "SecuritySettings::read_write_tmpfs",
            finding: "PLN0046",
            positive_test: "tests::runtime::bounded_runtime_intent_plans_and_renders_exactly",
            negative_test: "tests::runtime::bounded_runtime_values_reject_invalid_inputs_and_preserve_explicit_false",
            targets: 0,
        }
    } else if i == 21 {
        ExpectedOutputEntry {
            id: "PLN-OUT-0022",
            resource_kind: "container",
            field_path: "runtime.namespaces.pid",
            classification: "supported-exact",
            planner: "deployment::validate_runtime_settings",
            cli_renderer: "render::append_container_runtime_arguments",
            libpod_renderer: "render::append_container_runtime_json",
            public_contract: "ContainerNamespaceSettings::pid",
            finding: "PLN0046",
            positive_test: "tests::runtime::bounded_runtime_intent_plans_and_renders_exactly",
            negative_test: "tests::runtime::bounded_runtime_values_reject_invalid_inputs_and_preserve_explicit_false",
            targets: 0,
        }
    } else if i == 22 {
        ExpectedOutputEntry {
            id: "PLN-OUT-0023",
            resource_kind: "container",
            field_path: "runtime.namespaces.ipc",
            classification: "supported-exact",
            planner: "deployment::validate_runtime_settings",
            cli_renderer: "render::append_container_runtime_arguments",
            libpod_renderer: "render::append_container_runtime_json",
            public_contract: "ContainerNamespaceSettings::ipc",
            finding: "PLN0046",
            positive_test: "tests::runtime::bounded_runtime_intent_plans_and_renders_exactly",
            negative_test: "tests::runtime::bounded_runtime_values_reject_invalid_inputs_and_preserve_explicit_false",
            targets: 0,
        }
    } else if i == 23 {
        ExpectedOutputEntry {
            id: "PLN-OUT-0024",
            resource_kind: "container",
            field_path: "runtime.namespaces.uts",
            classification: "supported-exact",
            planner: "deployment::validate_runtime_settings",
            cli_renderer: "render::append_container_runtime_arguments",
            libpod_renderer: "render::append_container_runtime_json",
            public_contract: "ContainerNamespaceSettings::uts",
            finding: "PLN0046",
            positive_test: "tests::runtime::bounded_runtime_intent_plans_and_renders_exactly",
            negative_test: "tests::runtime::bounded_runtime_values_reject_invalid_inputs_and_preserve_explicit_false",
            targets: 0,
        }
    } else if i == 24 {
        ExpectedOutputEntry {
            id: "PLN-OUT-0025",
            resource_kind: "container",
            field_path: "runtime.namespaces.cgroup",
            classification: "supported-exact",
            planner: "deployment::validate_runtime_settings",
            cli_renderer: "render::append_container_runtime_arguments",
            libpod_renderer: "render::append_container_runtime_json",
            public_contract: "ContainerNamespaceSettings::cgroup",
            finding: "PLN0046",
            positive_test: "tests::runtime::bounded_runtime_intent_plans_and_renders_exactly",
            negative_test: "tests::runtime::bounded_runtime_values_reject_invalid_inputs_and_preserve_explicit_false",
            targets: 0,
        }
    } else if i == 25 {
        ExpectedOutputEntry {
            id: "PLN-OUT-0026",
            resource_kind: "container",
            field_path: "runtime.resources.cpu_shares",
            classification: "supported-exact",
            planner: "deployment::validate_runtime_settings",
            cli_renderer: "render::append_container_runtime_arguments",
            libpod_renderer: "render::append_container_runtime_json",
            public_contract: "ContainerResourceControls::cpu_shares",
            finding: "PLN0046",
            positive_test: "tests::runtime::bounded_runtime_intent_plans_and_renders_exactly",
            negative_test: "tests::runtime::bounded_runtime_values_reject_invalid_inputs_and_preserve_explicit_false",
            targets: 0,
        }
    } else if i == 26 {
        ExpectedOutputEntry {
            id: "PLN-OUT-0027",
            resource_kind: "container",
            field_path: "runtime.resources.cpu_period",
            classification: "supported-exact",
            planner: "deployment::validate_runtime_settings",
            cli_renderer: "render::append_container_runtime_arguments",
            libpod_renderer: "render::append_container_runtime_json",
            public_contract: "ContainerResourceControls::cpu_period",
            finding: "PLN0046",
            positive_test: "tests::runtime::bounded_runtime_intent_plans_and_renders_exactly",
            negative_test: "tests::runtime::bounded_runtime_values_reject_invalid_inputs_and_preserve_explicit_false",
            targets: 0,
        }
    } else if i == 27 {
        ExpectedOutputEntry {
            id: "PLN-OUT-0028",
            resource_kind: "container",
            field_path: "runtime.resources.cpu_quota",
            classification: "supported-exact",
            planner: "deployment::validate_runtime_settings",
            cli_renderer: "render::append_container_runtime_arguments",
            libpod_renderer: "render::append_container_runtime_json",
            public_contract: "ContainerResourceControls::cpu_quota",
            finding: "PLN0046",
            positive_test: "tests::runtime::finite_bounded_runtime_fields_render_for_every_reviewed_target",
            negative_test: "tests::runtime::cpu_quota_accepts_only_exact_positive_millisecond_values",
            targets: 0,
        }
    } else if i == 28 {
        ExpectedOutputEntry {
            id: "PLN-OUT-0029",
            resource_kind: "container",
            field_path: "runtime.resources.memory_bytes",
            classification: "supported-exact",
            planner: "deployment::validate_runtime_settings",
            cli_renderer: "render::append_container_runtime_arguments",
            libpod_renderer: "render::append_container_runtime_json",
            public_contract: "ContainerResourceControls::memory_bytes",
            finding: "PLN0046",
            positive_test: "tests::runtime::bounded_runtime_intent_plans_and_renders_exactly",
            negative_test: "tests::runtime::bounded_runtime_values_reject_invalid_inputs_and_preserve_explicit_false",
            targets: 0,
        }
    } else if i == 29 {
        ExpectedOutputEntry {
            id: "PLN-OUT-0030",
            resource_kind: "container",
            field_path: "runtime.resources.pids",
            classification: "supported-exact",
            planner: "deployment::validate_runtime_settings",
            cli_renderer: "render::append_container_runtime_arguments",
            libpod_renderer: "render::append_container_runtime_json",
            public_contract: "ContainerResourceControls::pids",
            finding: "PLN0046",
            positive_test: "tests::runtime::bounded_runtime_intent_plans_and_renders_exactly",
            negative_test: "tests::runtime::bounded_runtime_values_reject_invalid_inputs_and_preserve_explicit_false",
            targets: 0,
        }
    } else if i == 30 {
        ExpectedOutputEntry {
            id: "PLN-OUT-0031",
            resource_kind: "container",
            field_path: "runtime.resources.rlimits.finite",
            classification: "supported-exact",
            planner: "deployment::validate_runtime_settings",
            cli_renderer: "render::append_container_runtime_arguments",
            libpod_renderer: "render::append_container_runtime_json",
            public_contract: "ContainerResourceControls::rlimits",
            finding: "PLN0046",
            positive_test: "tests::runtime::bounded_runtime_intent_plans_and_renders_exactly",
            negative_test: "tests::runtime::bounded_runtime_values_reject_invalid_inputs_and_preserve_explicit_false",
            targets: 0,
        }
    } else if i == 31 {
        ExpectedOutputEntry {
            id: "PLN-OUT-0032",
            resource_kind: "container",
            field_path: "runtime.resources.rlimits.unlimited",
            classification: "target-gated",
            planner: "deployment::validate_runtime_settings",
            cli_renderer: "render::append_container_runtime_arguments",
            libpod_renderer: "render::append_container_runtime_json",
            public_contract: "ContainerResourceControls::rlimits",
            finding: "PLN0046",
            positive_test: "tests::runtime::unlimited_rlimits_are_supported_from_podman_five_six_in_every_reviewed_target",
            negative_test: "tests::runtime::unlimited_rlimits_are_supported_from_podman_five_six_in_every_reviewed_target",
            targets: 1,
        }
    } else if i == 32 {
        ExpectedOutputEntry {
            id: "PLN-OUT-0033",
            resource_kind: "container",
            field_path: "runtime.health.command.sensitive",
            classification: "manual",
            planner: "deployment::validate_runtime_settings",
            cli_renderer: "render::unsupported_runtime_fields",
            libpod_renderer: "render::health_command_json",
            public_contract: "HealthCommand",
            finding: "PLN0046",
            positive_test: "tests::runtime::sensitive_health_command_blocks_the_resource_without_leaking_an_artifact",
            negative_test: "tests::runtime::sensitive_health_commands_never_leak_from_runtime_debug",
            targets: 0,
        }
    } else if i == 33 {
        ExpectedOutputEntry {
            id: "PLN-OUT-0034",
            resource_kind: "container",
            field_path: "runtime.startup_health.command.sensitive",
            classification: "manual",
            planner: "deployment::validate_runtime_settings",
            cli_renderer: "render::unsupported_runtime_fields",
            libpod_renderer: "render::health_command_json",
            public_contract: "HealthCommand",
            finding: "PLN0046",
            positive_test: "tests::runtime::sensitive_health_command_blocks_the_resource_without_leaking_an_artifact",
            negative_test: "tests::runtime::sensitive_health_commands_never_leak_from_runtime_debug",
            targets: 0,
        }
    } else if i == 34 {
        ExpectedOutputEntry {
            id: "PLN-OUT-0035",
            resource_kind: "container",
            field_path: "mount.named_volume.copy",
            classification: "supported-exact",
            planner: "deployment::validate_mounts",
            cli_renderer: "render::append_mount_arguments",
            libpod_renderer: "render::mount_json",
            public_contract: "MountIntent::NamedVolume",
            finding: "PLN0046",
            positive_test: "tests::render::b4_bind_tmpfs_ordinary_volume_and_secret_grants_are_exact_on_all_reviewed_targets",
            negative_test: "tests::render::b4_version_and_portability_boundaries_block_the_complete_resource_artifact",
            targets: 0,
        }
    } else if i == 35 {
        ExpectedOutputEntry {
            id: "PLN-OUT-0036",
            resource_kind: "container",
            field_path: "mount.named_volume.copy.subpath",
            classification: "supported-exact",
            planner: "deployment::validate_mounts",
            cli_renderer: "render::append_mount_arguments",
            libpod_renderer: "render::mount_json",
            public_contract: "NamedVolumeMount::set_subpath",
            finding: "PLN0046",
            positive_test: "tests::render::b4_mounts_secrets_and_volume_ownership_are_exact_on_every_supported_target",
            negative_test: "tests::deployment::b4_typed_mounts_volume_ownership_and_secret_grants_preserve_all_optional_states",
            targets: 0,
        }
    } else if i == 36 {
        ExpectedOutputEntry {
            id: "PLN-OUT-0037",
            resource_kind: "container",
            field_path: "mount.named_volume.nocopy",
            classification: "supported-exact",
            planner: "deployment::validate_mounts",
            cli_renderer: "render::append_mount_arguments",
            libpod_renderer: "render::mount_json",
            public_contract: "MountIntent::NamedVolume",
            finding: "PLN0046",
            positive_test: "tests::render::b4_bind_tmpfs_ordinary_volume_and_secret_grants_are_exact_on_all_reviewed_targets",
            negative_test: "tests::deployment::b4_typed_mounts_volume_ownership_and_secret_grants_preserve_all_optional_states",
            targets: 0,
        }
    } else if i == 37 {
        ExpectedOutputEntry {
            id: "PLN-OUT-0038",
            resource_kind: "container",
            field_path: "mount.named_volume.nocopy.subpath",
            classification: "manual",
            planner: "deployment::validate_mounts",
            cli_renderer: "render::unsupported_fields",
            libpod_renderer: "render::mount_json",
            public_contract: "NamedVolumeMount::set_subpath",
            finding: "PLN0046",
            positive_test: "tests::render::b4_version_and_portability_boundaries_block_the_complete_resource_artifact",
            negative_test: "tests::deployment::b4_typed_mounts_volume_ownership_and_secret_grants_preserve_all_optional_states",
            targets: 0,
        }
    } else if i == 38 {
        ExpectedOutputEntry {
            id: "PLN-OUT-0039",
            resource_kind: "container",
            field_path: "mount.bind",
            classification: "supported-exact",
            planner: "deployment::validate_mounts",
            cli_renderer: "render::append_mount_arguments",
            libpod_renderer: "render::native_mount_json",
            public_contract: "MountIntent::Bind",
            finding: "PLN0046",
            positive_test: "tests::render::b4_bind_tmpfs_ordinary_volume_and_secret_grants_are_exact_on_all_reviewed_targets",
            negative_test: "tests::render::b4_version_and_portability_boundaries_block_the_complete_resource_artifact",
            targets: 0,
        }
    } else if i == 39 {
        ExpectedOutputEntry {
            id: "PLN-OUT-0040",
            resource_kind: "container",
            field_path: "mount.tmpfs",
            classification: "supported-exact",
            planner: "deployment::validate_mounts",
            cli_renderer: "render::append_mount_arguments",
            libpod_renderer: "render::native_mount_json",
            public_contract: "MountIntent::Tmpfs",
            finding: "PLN0046",
            positive_test: "tests::render::b4_bind_tmpfs_ordinary_volume_and_secret_grants_are_exact_on_all_reviewed_targets",
            negative_test: "tests::render::b4_version_and_portability_boundaries_block_the_complete_resource_artifact",
            targets: 0,
        }
    } else if i == 40 {
        ExpectedOutputEntry {
            id: "PLN-OUT-0041",
            resource_kind: "container",
            field_path: "secret_grant.mount",
            classification: "supported-exact",
            planner: "deployment::validate_secret_grants",
            cli_renderer: "render::append_secret_grants_arguments",
            libpod_renderer: "render::append_secret_grants_json",
            public_contract: "SecretGrant::Mount",
            finding: "PLN0046",
            positive_test: "tests::render::b4_secret_mount_default_and_explicit_modes_are_exact_on_all_reviewed_targets",
            negative_test: "tests::render::b4_version_and_portability_boundaries_block_the_complete_resource_artifact",
            targets: 0,
        }
    } else if i == 41 {
        ExpectedOutputEntry {
            id: "PLN-OUT-0042",
            resource_kind: "container",
            field_path: "secret_grant.environment",
            classification: "supported-exact",
            planner: "deployment::validate_secret_grants",
            cli_renderer: "render::append_secret_grants_arguments",
            libpod_renderer: "render::append_secret_grants_json",
            public_contract: "SecretGrant::Environment",
            finding: "PLN0046",
            positive_test: "tests::render::renderer_renders_typed_secret_grants_without_exposing_secret_material",
            negative_test: "tests::render::b4_version_and_portability_boundaries_block_the_complete_resource_artifact",
            targets: 0,
        }
    } else if i == 42 {
        ExpectedOutputEntry {
            id: "PLN-OUT-0043",
            resource_kind: "volume",
            field_path: "ownership.uid",
            classification: "target-gated",
            planner: "deployment::validate_volume_ownership",
            cli_renderer: "render::volume_create_cli_arguments",
            libpod_renderer: "render::volume_create_json",
            public_contract: "VolumeIntent::uid",
            finding: "PLN0046",
            positive_test: "tests::render::b4_mounts_secrets_and_volume_ownership_are_exact_on_every_supported_target",
            negative_test: "tests::render::b4_version_and_portability_boundaries_block_the_complete_resource_artifact",
            targets: 3,
        }
    } else if i == 43 {
        ExpectedOutputEntry {
            id: "PLN-OUT-0044",
            resource_kind: "volume",
            field_path: "ownership.gid",
            classification: "target-gated",
            planner: "deployment::validate_volume_ownership",
            cli_renderer: "render::volume_create_cli_arguments",
            libpod_renderer: "render::volume_create_json",
            public_contract: "VolumeIntent::gid",
            finding: "PLN0046",
            positive_test: "tests::render::b4_mounts_secrets_and_volume_ownership_are_exact_on_every_supported_target",
            negative_test: "tests::render::b4_version_and_portability_boundaries_block_the_complete_resource_artifact",
            targets: 3,
        }
    } else if i == 44 {
        ExpectedOutputEntry {
            id: "PLN-OUT-0045",
            resource_kind: "image",
            field_path: "pull_policy.always",
            classification: "target-gated",
            planner: "deployment::validate_image_policy",
            cli_renderer: "render::render_operation",
            libpod_renderer: "render::render_operation",
            public_contract: "ImagePullPolicy::Always",
            finding: "PLN0046",
            positive_test: "tests::render::b4_image_pull_policies_are_exact_on_every_supported_target",
            negative_test: "tests::render::b4_image_pull_policies_are_exact_on_every_supported_target",
            targets: 3,
        }
    } else if i == 45 {
        ExpectedOutputEntry {
            id: "PLN-OUT-0046",
            resource_kind: "image",
            field_path: "pull_policy.missing",
            classification: "target-gated",
            planner: "deployment::validate_image_policy",
            cli_renderer: "render::render_operation",
            libpod_renderer: "render::render_operation",
            public_contract: "ImagePullPolicy::Missing",
            finding: "PLN0046",
            positive_test: "tests::render::b4_image_pull_policies_are_exact_on_every_supported_target",
            negative_test: "tests::render::b4_image_pull_policies_are_exact_on_every_supported_target",
            targets: 3,
        }
    } else if i == 46 {
        ExpectedOutputEntry {
            id: "PLN-OUT-0047",
            resource_kind: "image",
            field_path: "pull_policy.never",
            classification: "target-gated",
            planner: "deployment::validate_image_policy",
            cli_renderer: "render::render_operation",
            libpod_renderer: "render::render_operation",
            public_contract: "ImagePullPolicy::Never",
            finding: "PLN0046",
            positive_test: "tests::render::b4_image_pull_policies_are_exact_on_every_supported_target",
            negative_test: "tests::render::b4_image_pull_policies_are_exact_on_every_supported_target",
            targets: 3,
        }
    } else if i == 47 {
        ExpectedOutputEntry {
            id: "PLN-OUT-0048",
            resource_kind: "image",
            field_path: "pull_policy.newer",
            classification: "target-gated",
            planner: "deployment::validate_image_policy",
            cli_renderer: "render::render_operation",
            libpod_renderer: "render::render_operation",
            public_contract: "ImagePullPolicy::Newer",
            finding: "PLN0046",
            positive_test: "tests::render::b4_image_pull_policies_are_exact_on_every_supported_target",
            negative_test: "tests::render::b4_image_pull_policies_are_exact_on_every_supported_target",
            targets: 3,
        }
    } else if i == 48 {
        ExpectedOutputEntry {
            id: "PLN-OUT-0049",
            resource_kind: "image",
            field_path: "source.portability",
            classification: "manual",
            planner: "deployment::validate_image_source",
            cli_renderer: "render::unsupported_fields",
            libpod_renderer: "render::render_operation",
            public_contract: "ImageSource::classification",
            finding: "PLN0046",
            positive_test: "tests::render::b4_image_portability_manual_boundaries_block_the_complete_artifact",
            negative_test: "tests::deployment::image_source_classification_requires_explicit_policy_and_preserves_manual_boundaries",
            targets: 0,
        }
    } else {
        ExpectedOutputEntry {
            id: "PLN-OUT-0050",
            resource_kind: "pod",
            field_path: "infra_mounts",
            classification: "manual",
            planner: "deployment::validate_mounts",
            cli_renderer: "render::unsupported_fields",
            libpod_renderer: "render::render_operation",
            public_contract: "PodIntent::infra_mounts",
            finding: "PLN0046",
            positive_test: "tests::render::b4_pod_infra_mounts_block_without_a_partial_artifact",
            negative_test: "tests::deployment::infra_container_mounts_support_managed_external_and_duplicate_boundaries",
            targets: 0,
        }
    }
}

// ---------------------------------------------------------------------------------------------
// The rules a row must obey.
// ---------------------------------------------------------------------------------------------
/// A code reference: non-empty, at most 160 bytes, starting with `prefix`, and made of ASCII
/// letters, digits, `:`, `_` and `-`.
pub open spec fn reference_ok(value: Seq<char>, prefix: Seq<char>) -> bool {
    &&& value.len() > 0
    &&& byte_len(value) <= 160
    &&& starts_with(value, prefix)
    &&& alnum_or(value, ":_-"@)
}

/// A field path: starting with `prefix`, at most 160 bytes, and made of ASCII letters, digits,
/// `$`, `.`, `_`, `<`, `>` and `*`.
pub open spec fn field_path_ok(value: Seq<char>, prefix: Seq<char>) -> bool {
    &&& starts_with(value, prefix)
    &&& byte_len(value) <= 160
    &&& alnum_or(value, "$._<>*"@)
}

/// A diagnostic rule: `PLN` followed by four ASCII digits.
pub open spec fn diagnostic_ok(value: Seq<char>) -> bool {
    &&& value.len() == 7
    &&& starts_with(value, "PLN"@)
    &&& forall|k: int| 3 <= k < 7 ==> is_ascii_digit(#[trigger] value[k])
}

/// The links every row carries: its public contract, its diagnostic rule, its two focused
/// tests, and only reviewed targets.
pub open spec fn semantic_links_ok(e: CoverageEntryView) -> bool {
    &&& reference_ok(e.public_contract, ""@)
    &&& diagnostic_ok(e.finding)
    &&& reference_ok(e.positive_test, "tests::"@)
    &&& reference_ok(e.negative_test, "tests::"@)
    &&& forall|k: int| 0 <= k < e.target_versions.len() ==> target_set(0).contains(#[trigger] e.target_versions[k])
}

/// An input row states exactly the reviewed `row`, applies to no target list, and keeps the
/// shape rules.
pub open spec fn input_entry_ok(e: CoverageEntryView, row: InputRow) -> bool {
    &&& e.plane == NativeFieldCoveragePlane::InputObservation
    &&& e.id == row.id
    &&& e.resource_kind == row.resource_kind
    &&& e.field_path == row.native_path
    &&& classification_text(e.classification) == row.classification
    &&& e.observation == row.decoder
    &&& e.planner == row.planner
    &&& e.cli_renderer == row.renderer
    &&& e.libpod_renderer == row.renderer
    &&& e.target_versions.len() == 0
    &&& e.public_contract == row.public_contract
    &&& e.finding == row.finding
    &&& e.positive_test == row.positive_test
    &&& e.negative_test == row.negative_test
    &&& reference_ok(e.observation, "inventory::"@)
    &&& reference_ok(e.planner, ""@)
    &&& reference_ok(e.cli_renderer, ""@)
    &&& reference_ok(e.libpod_renderer, ""@)
    &&& field_path_ok(e.field_path, "$"@)
    &&& semantic_links_ok(e)
}

/// The prefix an output row's field path must carry, chosen by the reviewed row's resource
/// kind and path; none for a kind the ledger does not cover.
pub open spec fn output_prefix(row: OutputRow) -> Option<Seq<char>> {
    if row.resource_kind == "container"@ {
        if starts_with(row.field_path, "runtime."@) {
            Some("runtime."@)
        } else if starts_with(row.field_path, "mount."@) {
            Some("mount."@)
        } else {
            Some("secret_grant."@)
        }
    } else if row.resource_kind == "volume"@ {
        Some("ownership."@)
    } else if row.resource_kind == "image"@ {
        if starts_with(row.field_path, "pull_policy."@) {
            Some("pull_policy."@)
        } else {
            Some("source."@)
        }
    } else if row.resource_kind == "pod"@ {
        Some("infra_mounts"@)
    } else {
        None
    }
}

/// An output row states exactly the reviewed `row`, including its target list, and keeps the
/// shape rules.
pub open spec fn output_entry_ok(e: CoverageEntryView, row: OutputRow) -> bool {
    &&& e.plane == NativeFieldCoveragePlane::OutputIntent
    &&& e.id == row.id
    &&& e.resource_kind == row.resource_kind
    &&& e.field_path == row.field_path
    &&& classification_text(e.classification) == row.classification
    &&& e.observation == "not_applicable"@
    &&& e.planner == row.planner
    &&& e.cli_renderer == row.cli_renderer
    &&& e.libpod_renderer == row.libpod_renderer
    &&& e.target_versions == row.targets
    &&& e.public_contract == row.public_contract
    &&& e.finding == row.finding
    &&& e.positive_test == row.positive_test
    &&& e.negative_test == row.negative_test
    &&& match output_prefix(row) {
        Some(prefix) => field_path_ok(e.field_path, prefix),
        None => false,
    }
    &&& semantic_links_ok(e)
}

/// A ledger states every reviewed input row and then every reviewed output row, in order,
/// and nothing more.
pub open spec fn valid_entries(entries: Seq<CoverageEntryView>) -> bool {
    &&& entries.len() == INPUT_ROWS + OUTPUT_ROWS
    &&& forall|i: int| 0 <= i < INPUT_ROWS ==> input_entry_ok(#[trigger] entries[i], input_row(i))
    &&& forall|j: int|
        0 <= j < OUTPUT_ROWS ==> output_entry_ok(#[trigger] entries[INPUT_ROWS + j], output_row(j))
}

/// A classification is determined by its spelling.
proof fn lemma_classification_text_injective(c: NativeFieldCoverageClassification, d: NativeFieldCoverageClassification)
    requires
        classification_text(c) == classification_text(d),
    ensures
        c == d,
{
    reveal_strlit("supported-exact");
    reveal_strlit("target-gated");
    reveal_strlit("manual");
    reveal_strlit("observation-only");
    reveal_strlit("unknown-incomplete");
    assert(classification_text(c).len() == classification_text(d).len());
    assert("supported-exact"@.len() == 15);
    assert("target-gated"@.len() == 12);
    assert("manual"@.len() == 6);
    assert("observation-only"@.len() == 16);
    assert("unknown-incomplete"@.len() == 18);
}

/// The ledger is pinned row by row: any two ledgers that both obey the reviewed rows state
/// exactly the same rows, so no field, link, classification or target list of an accepted
/// ledger can differ from the reviewed one.
pub proof fn lemma_valid_ledger_is_unique(a: Seq<CoverageEntryView>, b: Seq<CoverageEntryView>)
    requires
        valid_entries(a),
        valid_entries(b),
    ensures
        a == b,
{
    assert forall|i: int| 0 <= i < a.len() implies a[i] == b[i] by {
        if i < INPUT_ROWS {
            assert(input_entry_ok(a[i], input_row(i)));
            assert(input_entry_ok(b[i], input_row(i)));
            lemma_classification_text_injective(a[i].classification, b[i].classification);
            assert(a[i].target_versions =~= b[i].target_versions);
        } else {
            let j = i - INPUT_ROWS;
            assert(output_entry_ok(a[INPUT_ROWS + j], output_row(j)));
            assert(output_entry_ok(b[INPUT_ROWS + j], output_row(j)));
            lemma_classification_text_injective(a[i].classification, b[i].classification);
        }
    }
    assert(a =~= b);
}

/// The scope a coverage ledger must declare.
pub open spec fn coverage_scope() -> Seq<char> {
    "m2-input-observation-and-m6-b3-b4-output-intent"@
}

fn reference_valid(value: &str, prefix: &str) -> (r: bool)
    ensures
        r == reference_ok(value@, prefix@),
{
    let cs = to_chars(value);
    let extra = to_chars(":_-");
    cs.len() > 0 && byte_len_at_most(&cs, 160) && has_prefix(value, prefix) && all_alnum_or(&cs, &extra)
}

fn field_path_valid(value: &str, prefix: &str) -> (r: bool)
    ensures
        r == field_path_ok(value@, prefix@),
{
    let cs = to_chars(value);
    let extra = to_chars("$._<>*");
    has_prefix(value, prefix) && byte_len_at_most(&cs, 160) && all_alnum_or(&cs, &extra)
}

fn diagnostic_valid(value: &str) -> (r: bool)
    ensures
        r == diagnostic_ok(value@),
{
    let cs = to_chars(value);
    if cs.len() != 7 || !has_prefix(value, "PLN") {
        return false;
    }
    let mut k: usize = 3;
    while k < 7
        invariant
            3 <= k <= 7,
            cs@ == value@,
            cs.len() == 7,
            forall|j: int| 3 <= j < k ==> is_ascii_digit(#[trigger] cs@[j]),
        decreases 7 - k,
    {
        if cs[k] < '0' || cs[k] > '9' {
            return false;
        }
        k = k + 1;
    }
    true
}

fn is_reviewed_target(value: &str) -> (r: bool)
    ensures
        r == target_set(0).contains(value@),
{
    let reviewed = target_values(0);
    let ghost want = target_set(0);
    let mut k: usize = 0;
    while k < reviewed.len()
        invariant
            k <= reviewed.len(),
            reviewed@.map_values(|s: &'static str| s@) == want,
            want == target_set(0),
            forall|j: int| 0 <= j < k ==> want[j] != value@,
        decreases reviewed.len() - k,
    {
        assert(want[k as int] == reviewed@[k as int]@);
        if str_eq(reviewed[k], value) {
            assert(want.len() == reviewed@.len());
            assert(want[k as int] == value@);
            assert(want.contains(value@));
            return true;
        }
        k = k + 1;
    }
    proof {
        if want.contains(value@) {
            let j = choose|j: int| 0 <= j < want.len() && want[j] == value@;
            assert(want[j] != value@);
        }
    }
    false
}

fn all_reviewed(versions: &Vec<String>) -> (r: bool)
    ensures
        r == (forall|k: int| 0 <= k < versions@.len() ==> target_set(0).contains(#[trigger] views(versions@)[k])),
{
    let mut k: usize = 0;
    while k < versions.len()
        invariant
            k <= versions.len(),
            forall|j: int| 0 <= j < k ==> target_set(0).contains(#[trigger] views(versions@)[j]),
        decreases versions.len() - k,
    {
        assert(views(versions@)[k as int] == versions@[k as int]@);
        if !is_reviewed_target(versions[k].as_str()) {
            return false;
        }
        k = k + 1;
    }
    true
}

fn semantic_links_valid(e: &NativeFieldCoverageEntry) -> (r: bool)
    ensures
        r == semantic_links_ok(e@),
{
    assert(views(e.target_versions@).len() == e.target_versions@.len());
    let targets_ok = all_reviewed(&e.target_versions);
    proof {
        let t = e@.target_versions;
        assert(t == views(e.target_versions@));
        assert(targets_ok == (forall|k: int| 0 <= k < t.len() ==> target_set(0).contains(#[trigger] t[k])));
    }
    reference_valid(e.public_contract.as_str(), "") && diagnostic_valid(e.finding.as_str()) && reference_valid(
        e.positive_test.as_str(),
        "tests::",
    ) && reference_valid(e.negative_test.as_str(), "tests::") && targets_ok
}

fn same_targets(versions: &Vec<String>, code: u8) -> (r: bool)
    ensures
        r == (views(versions@) == target_set(code)),
{
    let expected = target_values(code);
    let ghost want = target_set(code);
    if versions.len() != expected.len() {
        proof {
            if views(versions@) == want {
                assert(views(versions@).len() == versions@.len());
            }
        }
        return false;
    }
    let mut k: usize = 0;
    while k < versions.len()
        invariant
            k <= versions.len(),
            versions.len() == expected.len(),
            expected@.map_values(|s: &'static str| s@) == want,
            want == target_set(code),
            forall|j: int| 0 <= j < k ==> views(versions@)[j] == want[j],
        decreases versions.len() - k,
    {
        assert(views(versions@)[k as int] == versions@[k as int]@);
        assert(want[k as int] == expected@[k as int]@);
        if !str_eq(versions[k].as_str(), expected[k]) {
            assert(views(versions@)[k as int] != want[k as int]);
            return false;
        }
        k = k + 1;
    }
    assert(views(versions@) =~= want);
    true
}

fn input_entry_valid(e: &NativeFieldCoverageEntry, i: usize) -> (r: bool)
    ensures
        r == input_entry_ok(e@, input_row(i as int)),
{
    let row = input_row_at(i);
    assert(views(e.target_versions@).len() == e.target_versions@.len());
    e.plane == NativeFieldCoveragePlane::InputObservation && str_eq(e.id.as_str(), row.id) && str_eq(
        e.resource_kind.as_str(),
        row.resource_kind,
    ) && str_eq(e.field_path.as_str(), row.native_path) && str_eq(e.classification.as_str(), row.classification)
        && str_eq(e.observation.as_str(), row.decoder) && str_eq(e.planner.as_str(), row.planner) && str_eq(
        e.cli_renderer.as_str(),
        row.renderer,
    ) && str_eq(e.libpod_renderer.as_str(), row.renderer) && e.target_versions.len() == 0 && str_eq(
        e.public_contract.as_str(),
        row.public_contract,
    ) && str_eq(e.finding.as_str(), row.finding) && str_eq(e.positive_test.as_str(), row.positive_test) && str_eq(
        e.negative_test.as_str(),
        row.negative_test,
    ) && reference_valid(e.observation.as_str(), "inventory::") && reference_valid(e.planner.as_str(), "")
        && reference_valid(e.cli_renderer.as_str(), "") && reference_valid(e.libpod_renderer.as_str(), "")
        && field_path_valid(e.field_path.as_str(), "$") && semantic_links_valid(e)
}

fn output_prefix_of(row: &ExpectedOutputEntry) -> (r: Option<&'static str>)
    ensures
        match (r, output_prefix(output_view(*row))) {
            (Some(p), Some(q)) => p@ == q,
            (None, None) => true,
            _ => false,
        },
{
    if str_eq(row.resource_kind, "container") {
        if has_prefix(row.field_path, "runtime.") {
            Some("runtime.")
        } else if has_prefix(row.field_path, "mount.") {
            Some("mount.")
        } else {
            Some("secret_grant.")
        }
    } else if str_eq(row.resource_kind, "volume") {
        Some("ownership.")
    } else if str_eq(row.resource_kind, "image") {
        if has_prefix(row.field_path, "pull_policy.") {
            Some("pull_policy.")
        } else {
            Some("source.")
        }
    } else if str_eq(row.resource_kind, "pod") {
        Some("infra_mounts")
    } else {
        None
    }
}

fn output_entry_valid(e: &NativeFieldCoverageEntry, i: usize) -> (r: bool)
    ensures
        r == output_entry_ok(e@, output_row(i as int)),
{
    let row = output_row_at(i);
    let path_ok = match output_prefix_of(&row) {
        Some(prefix) => field_path_valid(e.field_path.as_str(), prefix),
        None => false,
    };
    e.plane == NativeFieldCoveragePlane::OutputIntent && str_eq(e.id.as_str(), row.id) && str_eq(
        e.resource_kind.as_str(),
        row.resource_kind,
    ) && str_eq(e.field_path.as_str(), row.field_path) && str_eq(e.classification.as_str(), row.classification)
        && str_eq(e.observation.as_str(), "not_applicable") && str_eq(e.planner.as_str(), row.planner) && str_eq(
        e.cli_renderer.as_str(),
        row.cli_renderer,
    ) && str_eq(e.libpod_renderer.as_str(), row.libpod_renderer) && same_targets(&e.target_versions, row.targets)
        && str_eq(e.public_contract.as_str(), row.public_contract) && str_eq(e.finding.as_str(), row.finding)
        && str_eq(e.positive_test.as_str(), row.positive_test) && str_eq(e.negative_test.as_str(), row.negative_test)
        && path_ok && semantic_links_valid(e)
}

fn valid_entries_of(entries: &[NativeFieldCoverageEntry]) -> (r: bool)
    ensures
        r == valid_entries(views(entries@)),
{
    let ghost s = views(entries@);
    if entries.len() != INPUT_ROWS + OUTPUT_ROWS {
        return false;
    }
    let mut i: usize = 0;
    while i < INPUT_ROWS
        invariant
            i <= INPUT_ROWS,
            entries.len() == INPUT_ROWS + OUTPUT_ROWS,
            s == views(entries@),
            forall|k: int| 0 <= k < i ==> input_entry_ok(#[trigger] s[k], input_row(k)),
        decreases INPUT_ROWS - i,
    {
        assert(s[i as int] == entries@[i as int]@);
        if !input_entry_valid(&entries[i], i) {
            return false;
        }
        i = i + 1;
    }
    let mut j: usize = 0;
    while j < OUTPUT_ROWS
        invariant
            j <= OUTPUT_ROWS,
            entries.len() == INPUT_ROWS + OUTPUT_ROWS,
            s == views(entries@),
            forall|k: int| 0 <= k < INPUT_ROWS ==> input_entry_ok(#[trigger] s[k], input_row(k)),
            forall|k: int| 0 <= k < j ==> output_entry_ok(#[trigger] s[INPUT_ROWS + k], output_row(k)),
        decreases OUTPUT_ROWS - j,
    {
        assert(s[INPUT_ROWS + j] == entries@[INPUT_ROWS + j]@);
        if !output_entry_valid(&entries[INPUT_ROWS + j], j) {
            return false;
        }
        j = j + 1;
    }
    true
}

/// Holds a decoded coverage ledger to its schema version, its declared scope and the reviewed
/// rows, and hands it back when it obeys them.
///
/// Fails with `NativeFieldCoverageUnavailable` (`PLN0047`) when the ledger is of another
/// schema version or scope, or is incomplete or inconsistent with the boundary it covers.
pub fn validate_coverage_catalogue(schema_version: u8, scope: &str, entries: Vec<NativeFieldCoverageEntry>) -> (r:
    PodmanLensResult<Vec<NativeFieldCoverageEntry>>)
    ensures
        r is Ok <==> (schema_version == 3 && scope@ == coverage_scope() && valid_entries(views(entries@))),
        r matches Ok(v) ==> v@ == entries@,
        r is Err ==> fails_with(r, DiagnosticCode::NativeFieldCoverageUnavailable),
{
    if schema_version != 3 || !str_eq(scope, "m2-input-observation-and-m6-b3-b4-output-intent")
        || !valid_entries_of(entries.as_slice()) {
        return Err(Diagnostic::new(DiagnosticCode::NativeFieldCoverageUnavailable));
    }
    Ok(entries)
}

} // verus!
