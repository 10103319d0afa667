use podman_lens::{
    validate_coverage_catalogue, DiagnosticCode, NativeFieldCoverageClassification, NativeFieldCoverageEntry,
    NativeFieldCoveragePlane, PodmanLensResult,
};
use serde_json::Value;

const INPUT_ROWS: &[[&str; 11]] = &[
    [
        "PLN-FLD-0001",
        "container",
        "$.Id",
        "supported-exact",
        "inventory::decode_container",
        "not_applicable",
        "not_applicable",
        "ObservationHeader::identity",
        "PLN0017",
        "tests::inventory::acquisition_probes_lists_every_kind_then_inspects_canonical_stable_ids",
        "tests::inventory::every_inspect_status_and_shape_failure_retains_a_partial_stable_identity",
    ],
    [
        "PLN-FLD-0002",
        "container",
        "$.Name",
        "supported-exact",
        "inventory::decode_container",
        "not_applicable",
        "not_applicable",
        "ObservationHeader::identity",
        "PLN0017",
        "tests::inventory::acquisition_probes_lists_every_kind_then_inspects_canonical_stable_ids",
        "tests::inventory::every_inspect_status_and_shape_failure_retains_a_partial_stable_identity",
    ],
    [
        "PLN-FLD-0003",
        "container",
        "$.Config.Labels",
        "observation-only",
        "inventory::decode_container",
        "not_applicable",
        "not_applicable",
        "ContainerObservation::labels",
        "PLN0017",
        "tests::inventory::acquisition_probes_lists_every_kind_then_inspects_canonical_stable_ids",
        "tests::inventory::modeled_nested_boundaries_report_the_precise_path_without_hiding_the_record",
    ],
    [
        "PLN-FLD-0004",
        "container",
        "$.Config.Env",
        "observation-only",
        "inventory::decode_container",
        "not_applicable",
        "not_applicable",
        "ContainerObservation::environment",
        "PLN0019",
        "tests::inventory::explicit_environment_inclusion_is_opaque_and_preserves_duplicate_order",
        "tests::inventory::environment_boundaries_preserve_valid_entries_and_report_every_bad_occurrence",
    ],
    [
        "PLN-FLD-0005",
        "container",
        "$.Config.Secrets",
        "observation-only",
        "inventory::decode_container_secret_grants",
        "not_applicable",
        "not_applicable",
        "ContainerObservation::secret_grants",
        "PLN0017",
        "tests::inventory::acquisition_probes_lists_every_kind_then_inspects_canonical_stable_ids",
        "tests::inventory::modeled_nested_boundaries_report_the_precise_path_without_hiding_the_record",
    ],
    [
        "PLN-FLD-0006",
        "container",
        "$.Image",
        "observation-only",
        "inventory::decode_container",
        "not_applicable",
        "not_applicable",
        "ContainerObservation::local_image_id",
        "PLN0017",
        "tests::inventory::acquisition_probes_lists_every_kind_then_inspects_canonical_stable_ids",
        "tests::inventory::modeled_nested_boundaries_report_the_precise_path_without_hiding_the_record",
    ],
    [
        "PLN-FLD-0007",
        "container",
        "$.ImageName",
        "observation-only",
        "inventory::decode_container",
        "not_applicable",
        "not_applicable",
        "ContainerObservation::configured_image",
        "PLN0017",
        "tests::inventory::acquisition_probes_lists_every_kind_then_inspects_canonical_stable_ids",
        "tests::inventory::modeled_nested_boundaries_report_the_precise_path_without_hiding_the_record",
    ],
    [
        "PLN-FLD-0008",
        "container",
        "$.Pod",
        "observation-only",
        "inventory::decode_native_reference",
        "not_applicable",
        "not_applicable",
        "ContainerObservation::pod_membership",
        "PLN0017",
        "tests::inventory::acquisition_probes_lists_every_kind_then_inspects_canonical_stable_ids",
        "tests::inventory::modeled_nested_boundaries_report_the_precise_path_without_hiding_the_record",
    ],
    [
        "PLN-FLD-0009",
        "container",
        "$.NetworkSettings.Networks",
        "observation-only",
        "inventory::decode_container_networks",
        "not_applicable",
        "not_applicable",
        "ResourceGraph::dependencies",
        "PLN0017",
        "tests::inventory::acquisition_probes_lists_every_kind_then_inspects_canonical_stable_ids",
        "tests::inventory::modeled_nested_boundaries_report_the_precise_path_without_hiding_the_record",
    ],
    [
        "PLN-FLD-0010",
        "container",
        "$.Mounts",
        "observation-only",
        "inventory::decode_container_mounts",
        "not_applicable",
        "not_applicable",
        "ContainerObservation::mounts",
        "PLN0017",
        "tests::inventory::acquisition_probes_lists_every_kind_then_inspects_canonical_stable_ids",
        "tests::inventory::modeled_nested_boundaries_report_the_precise_path_without_hiding_the_record",
    ],
    [
        "PLN-FLD-0011",
        "container",
        "$.Dependencies",
        "observation-only",
        "inventory::decode_native_dependencies",
        "not_applicable",
        "not_applicable",
        "ContainerObservation::native_dependencies",
        "PLN0017",
        "tests::inventory::acquisition_probes_lists_every_kind_then_inspects_canonical_stable_ids",
        "tests::inventory::modeled_nested_boundaries_report_the_precise_path_without_hiding_the_record",
    ],
    [
        "PLN-FLD-0012",
        "container",
        "$.HostConfig.MemorySwappiness",
        "target-gated",
        "inventory::decode_memory_swappiness",
        "not_applicable",
        "not_applicable",
        "ContainerObservation::memory_swappiness",
        "PLN0022",
        "tests::inventory::memory_swappiness_distinguishes_reviewed_null_boundary_and_invalid_values",
        "tests::inventory::memory_swappiness_distinguishes_reviewed_null_boundary_and_invalid_values",
    ],
    [
        "PLN-FLD-0013",
        "container",
        "$.HostConfig.*",
        "unknown-incomplete",
        "inventory::unknown_nested_fields",
        "not_applicable",
        "not_applicable",
        "ObservationHeader::unmodelled_fields",
        "PLN0023",
        "tests::inventory::host_config_members_not_yet_modeled_are_retained_as_unknown_metadata",
        "tests::inventory::unknown_fields_are_bounded_per_record_and_across_the_inventory",
    ],
    [
        "PLN-FLD-0014",
        "container",
        "$.IsInfra",
        "observation-only",
        "inventory::decode_is_infra",
        "not_applicable",
        "not_applicable",
        "ContainerObservation::infra",
        "PLN0017",
        "tests::inventory::acquisition_probes_lists_every_kind_then_inspects_canonical_stable_ids",
        "tests::inventory::modeled_nested_boundaries_report_the_precise_path_without_hiding_the_record",
    ],
    [
        "PLN-FLD-0015",
        "pod",
        "$.Id",
        "supported-exact",
        "inventory::decode_pod",
        "not_applicable",
        "not_applicable",
        "ObservationHeader::identity",
        "PLN0017",
        "tests::inventory::acquisition_probes_lists_every_kind_then_inspects_canonical_stable_ids",
        "tests::inventory::every_inspect_status_and_shape_failure_retains_a_partial_stable_identity",
    ],
    [
        "PLN-FLD-0016",
        "pod",
        "$.Name",
        "supported-exact",
        "inventory::decode_pod",
        "not_applicable",
        "not_applicable",
        "ObservationHeader::identity",
        "PLN0017",
        "tests::inventory::acquisition_probes_lists_every_kind_then_inspects_canonical_stable_ids",
        "tests::inventory::every_inspect_status_and_shape_failure_retains_a_partial_stable_identity",
    ],
    [
        "PLN-FLD-0017",
        "pod",
        "$.Labels",
        "observation-only",
        "inventory::decode_pod",
        "not_applicable",
        "not_applicable",
        "PodObservation::labels",
        "PLN0017",
        "tests::inventory::acquisition_probes_lists_every_kind_then_inspects_canonical_stable_ids",
        "tests::inventory::modeled_nested_boundaries_report_the_precise_path_without_hiding_the_record",
    ],
    [
        "PLN-FLD-0018",
        "pod",
        "$.Containers",
        "observation-only",
        "inventory::decode_pod_containers",
        "not_applicable",
        "not_applicable",
        "ResourceGraph::dependencies",
        "PLN0017",
        "tests::inventory::acquisition_probes_lists_every_kind_then_inspects_canonical_stable_ids",
        "tests::inventory::modeled_nested_boundaries_report_the_precise_path_without_hiding_the_record",
    ],
    [
        "PLN-FLD-0019",
        "pod",
        "$.Networks",
        "observation-only",
        "inventory::decode_pod_networks",
        "not_applicable",
        "not_applicable",
        "ResourceGraph::dependencies",
        "PLN0017",
        "tests::inventory::acquisition_probes_lists_every_kind_then_inspects_canonical_stable_ids",
        "tests::inventory::modeled_nested_boundaries_report_the_precise_path_without_hiding_the_record",
    ],
    [
        "PLN-FLD-0020",
        "network",
        "$.id",
        "supported-exact",
        "inventory::decode_network",
        "not_applicable",
        "not_applicable",
        "ObservationHeader::identity",
        "PLN0017",
        "tests::inventory::acquisition_probes_lists_every_kind_then_inspects_canonical_stable_ids",
        "tests::inventory::every_inspect_status_and_shape_failure_retains_a_partial_stable_identity",
    ],
    [
        "PLN-FLD-0021",
        "network",
        "$.name",
        "supported-exact",
        "inventory::decode_network",
        "not_applicable",
        "not_applicable",
        "ObservationHeader::identity",
        "PLN0017",
        "tests::inventory::acquisition_probes_lists_every_kind_then_inspects_canonical_stable_ids",
        "tests::inventory::every_inspect_status_and_shape_failure_retains_a_partial_stable_identity",
    ],
    [
        "PLN-FLD-0022",
        "network",
        "$.labels",
        "observation-only",
        "inventory::decode_network",
        "not_applicable",
        "not_applicable",
        "NetworkObservation::labels",
        "PLN0017",
        "tests::inventory::acquisition_probes_lists_every_kind_then_inspects_canonical_stable_ids",
        "tests::inventory::modeled_nested_boundaries_report_the_precise_path_without_hiding_the_record",
    ],
    [
        "PLN-FLD-0023",
        "network",
        "$.internal",
        "observation-only",
        "inventory::decode_network_details",
        "not_applicable",
        "not_applicable",
        "NetworkObservation::internal",
        "PLN0017",
        "tests::inventory::acquisition_probes_lists_every_kind_then_inspects_canonical_stable_ids",
        "tests::inventory::modeled_nested_boundaries_report_the_precise_path_without_hiding_the_record",
    ],
    [
        "PLN-FLD-0024",
        "network",
        "$.options",
        "observation-only",
        "inventory::decode_network_details",
        "not_applicable",
        "not_applicable",
        "NetworkObservation::options",
        "PLN0017",
        "tests::inventory::acquisition_probes_lists_every_kind_then_inspects_canonical_stable_ids",
        "tests::inventory::modeled_nested_boundaries_report_the_precise_path_without_hiding_the_record",
    ],
    [
        "PLN-FLD-0025",
        "network",
        "$.subnets",
        "observation-only",
        "inventory::decode_network_details",
        "not_applicable",
        "not_applicable",
        "NetworkObservation::subnets",
        "PLN0017",
        "tests::inventory::acquisition_probes_lists_every_kind_then_inspects_canonical_stable_ids",
        "tests::inventory::modeled_nested_boundaries_report_the_precise_path_without_hiding_the_record",
    ],
    [
        "PLN-FLD-0026",
        "volume",
        "$.Name",
        "supported-exact",
        "inventory::decode_volume",
        "not_applicable",
        "not_applicable",
        "ObservationHeader::identity",
        "PLN0017",
        "tests::inventory::acquisition_probes_lists_every_kind_then_inspects_canonical_stable_ids",
        "tests::inventory::every_inspect_status_and_shape_failure_retains_a_partial_stable_identity",
    ],
    [
        "PLN-FLD-0027",
        "volume",
        "$.Labels",
        "observation-only",
        "inventory::decode_volume",
        "not_applicable",
        "not_applicable",
        "VolumeObservation::labels",
        "PLN0017",
        "tests::inventory::acquisition_probes_lists_every_kind_then_inspects_canonical_stable_ids",
        "tests::inventory::modeled_nested_boundaries_report_the_precise_path_without_hiding_the_record",
    ],
    [
        "PLN-FLD-0028",
        "image",
        "$.Id",
        "supported-exact",
        "inventory::decode_image",
        "not_applicable",
        "not_applicable",
        "ObservationHeader::identity",
        "PLN0017",
        "tests::inventory::acquisition_probes_lists_every_kind_then_inspects_canonical_stable_ids",
        "tests::inventory::every_inspect_status_and_shape_failure_retains_a_partial_stable_identity",
    ],
    [
        "PLN-FLD-0029",
        "image",
        "$.Names",
        "observation-only",
        "inventory::decode_image",
        "not_applicable",
        "not_applicable",
        "ImageObservation::aliases",
        "PLN0017",
        "tests::inventory::acquisition_probes_lists_every_kind_then_inspects_canonical_stable_ids",
        "tests::inventory::modeled_nested_boundaries_report_the_precise_path_without_hiding_the_record",
    ],
    [
        "PLN-FLD-0030",
        "image",
        "$.Labels",
        "observation-only",
        "inventory::decode_image",
        "not_applicable",
        "not_applicable",
        "ImageObservation::labels",
        "PLN0017",
        "tests::inventory::acquisition_probes_lists_every_kind_then_inspects_canonical_stable_ids",
        "tests::inventory::modeled_nested_boundaries_report_the_precise_path_without_hiding_the_record",
    ],
    [
        "PLN-FLD-0031",
        "image",
        "$.Config.Env",
        "observation-only",
        "inventory::decode_image",
        "not_applicable",
        "not_applicable",
        "ImageObservation::environment",
        "PLN0019",
        "tests::inventory::explicit_environment_inclusion_is_opaque_and_preserves_duplicate_order",
        "tests::inventory::environment_boundaries_preserve_valid_entries_and_report_every_bad_occurrence",
    ],
    [
        "PLN-FLD-0032",
        "secret",
        "$.ID",
        "supported-exact",
        "inventory::decode_secret",
        "not_applicable",
        "not_applicable",
        "ObservationHeader::identity",
        "PLN0017",
        "tests::inventory::acquisition_probes_lists_every_kind_then_inspects_canonical_stable_ids",
        "tests::inventory::every_inspect_status_and_shape_failure_retains_a_partial_stable_identity",
    ],
    [
        "PLN-FLD-0033",
        "secret",
        "$.Spec.Name",
        "supported-exact",
        "inventory::decode_secret",
        "not_applicable",
        "not_applicable",
        "ObservationHeader::identity",
        "PLN0017",
        "tests::inventory::acquisition_probes_lists_every_kind_then_inspects_canonical_stable_ids",
        "tests::inventory::every_inspect_status_and_shape_failure_retains_a_partial_stable_identity",
    ],
    [
        "PLN-FLD-0034",
        "secret",
        "$.Spec.Labels",
        "observation-only",
        "inventory::decode_secret",
        "not_applicable",
        "not_applicable",
        "SecretObservation::labels",
        "PLN0017",
        "tests::inventory::acquisition_probes_lists_every_kind_then_inspects_canonical_stable_ids",
        "tests::inventory::modeled_nested_boundaries_report_the_precise_path_without_hiding_the_record",
    ],
    [
        "PLN-FLD-0035",
        "secret",
        "$.Spec.Driver",
        "observation-only",
        "inventory::decode_secret",
        "not_applicable",
        "not_applicable",
        "SecretObservation::driver",
        "PLN0017",
        "tests::inventory::secret_driver_is_modeled_without_unsupported_metadata",
        "tests::inventory::modeled_nested_boundaries_report_the_precise_path_without_hiding_the_record",
    ],
    [
        "PLN-FLD-0036",
        "secret",
        "$.SecretData",
        "manual",
        "inventory::decode_secret",
        "not_applicable",
        "not_applicable",
        "ObservationHeader::findings",
        "PLN0018",
        "tests::inventory::secret_payload_is_discarded_from_metadata_inspection",
        "tests::inventory::secret_payload_is_discarded_from_metadata_inspection",
    ],
    [
        "PLN-FLD-0037",
        "secret",
        "$.Spec.SecretData",
        "manual",
        "inventory::decode_secret",
        "not_applicable",
        "not_applicable",
        "ObservationHeader::findings",
        "PLN0018",
        "tests::inventory::secret_payload_is_discarded_from_metadata_inspection",
        "tests::inventory::secret_payload_is_discarded_from_metadata_inspection",
    ],
    [
        "PLN-FLD-0038",
        "all",
        "$.<unknown>",
        "unknown-incomplete",
        "inventory::unknown_top_level",
        "not_applicable",
        "not_applicable",
        "ObservationHeader::unmodelled_completeness",
        "PLN0021",
        "tests::inventory::unknown_fields_are_bounded_per_record_and_across_the_inventory",
        "tests::input_corpus::malformed_corpus_is_structured_and_bounded_never_panics",
    ],
    [
        "PLN-FLD-0039",
        "container",
        "$.Config.Cmd",
        "observation-only",
        "inventory::decode_container_configuration",
        "not_applicable",
        "not_applicable",
        "ContainerObservation::command",
        "PLN0017",
        "tests::inventory::container_core_mount_and_secret_observations_are_typed_and_redacted",
        "tests::inventory::malformed_enclosing_config_marks_every_modeled_child_malformed",
    ],
    [
        "PLN-FLD-0040",
        "container",
        "$.Config.Entrypoint",
        "observation-only",
        "inventory::decode_container_configuration",
        "not_applicable",
        "not_applicable",
        "ContainerObservation::entrypoint",
        "PLN0017",
        "tests::inventory::container_core_mount_and_secret_observations_are_typed_and_redacted",
        "tests::inventory::malformed_enclosing_config_marks_every_modeled_child_malformed",
    ],
    [
        "PLN-FLD-0041",
        "container",
        "$.Config.User",
        "observation-only",
        "inventory::decode_container_configuration",
        "not_applicable",
        "not_applicable",
        "ContainerObservation::user",
        "PLN0017",
        "tests::inventory::container_core_mount_and_secret_observations_are_typed_and_redacted",
        "tests::inventory::malformed_enclosing_config_marks_every_modeled_child_malformed",
    ],
    [
        "PLN-FLD-0042",
        "container",
        "$.Config.WorkingDir",
        "observation-only",
        "inventory::decode_container_configuration",
        "not_applicable",
        "not_applicable",
        "ContainerObservation::working_directory",
        "PLN0017",
        "tests::inventory::container_core_mount_and_secret_observations_are_typed_and_redacted",
        "tests::inventory::malformed_enclosing_config_marks_every_modeled_child_malformed",
    ],
    [
        "PLN-FLD-0043",
        "container",
        "$.Config.Hostname",
        "observation-only",
        "inventory::decode_container_configuration",
        "not_applicable",
        "not_applicable",
        "ContainerObservation::hostname",
        "PLN0017",
        "tests::inventory::container_core_mount_and_secret_observations_are_typed_and_redacted",
        "tests::inventory::malformed_enclosing_config_marks_every_modeled_child_malformed",
    ],
    [
        "PLN-FLD-0046",
        "container",
        "$.Mounts.Type",
        "observation-only",
        "inventory::decode_container_mounts",
        "not_applicable",
        "not_applicable",
        "ContainerObservation::mounts",
        "PLN0023",
        "tests::inventory::container_core_mount_and_secret_observations_are_typed_and_redacted",
        "tests::inventory::malformed_secret_aliases_and_unsupported_mounts_remain_non_deployable_evidence",
    ],
    [
        "PLN-FLD-0047",
        "container",
        "$.Mounts.Name",
        "observation-only",
        "inventory::decode_container_mounts",
        "not_applicable",
        "not_applicable",
        "ContainerMountObservation::source",
        "PLN0017",
        "tests::inventory::container_core_mount_and_secret_observations_are_typed_and_redacted",
        "tests::inventory::modeled_nested_boundaries_report_the_precise_path_without_hiding_the_record",
    ],
    [
        "PLN-FLD-0048",
        "container",
        "$.Mounts.Source",
        "observation-only",
        "inventory::decode_container_mounts",
        "not_applicable",
        "not_applicable",
        "ContainerMountObservation::source",
        "PLN0017",
        "tests::inventory::container_core_mount_and_secret_observations_are_typed_and_redacted",
        "tests::inventory::malformed_mount_destination_or_local_backing_path_invalidates_the_complete_mount_family",
    ],
    [
        "PLN-FLD-0049",
        "container",
        "$.Mounts.Destination",
        "observation-only",
        "inventory::decode_container_mounts",
        "not_applicable",
        "not_applicable",
        "ContainerMountObservation::destination",
        "PLN0017",
        "tests::inventory::container_core_mount_and_secret_observations_are_typed_and_redacted",
        "tests::inventory::malformed_mount_destination_or_local_backing_path_invalidates_the_complete_mount_family",
    ],
    [
        "PLN-FLD-0050",
        "container",
        "$.Mounts.RW",
        "observation-only",
        "inventory::decode_container_mounts",
        "not_applicable",
        "not_applicable",
        "ContainerMountObservation::writable",
        "PLN0017",
        "tests::inventory::container_core_mount_and_secret_observations_are_typed_and_redacted",
        "tests::inventory::modeled_nested_boundaries_report_the_precise_path_without_hiding_the_record",
    ],
    [
        "PLN-FLD-0051",
        "container",
        "$.Mounts.Options",
        "observation-only",
        "inventory::decode_container_mounts",
        "not_applicable",
        "not_applicable",
        "ContainerMountObservation::options",
        "PLN0017",
        "tests::inventory::container_core_mount_and_secret_observations_are_typed_and_redacted",
        "tests::inventory::modeled_nested_boundaries_report_the_precise_path_without_hiding_the_record",
    ],
    [
        "PLN-FLD-0052",
        "container",
        "$.Mounts.Propagation",
        "observation-only",
        "inventory::decode_container_mounts",
        "not_applicable",
        "not_applicable",
        "ContainerMountObservation::propagation",
        "PLN0017",
        "tests::inventory::container_core_mount_and_secret_observations_are_typed_and_redacted",
        "tests::inventory::modeled_nested_boundaries_report_the_precise_path_without_hiding_the_record",
    ],
    [
        "PLN-FLD-0053",
        "container",
        "$.Mounts.SubPath",
        "observation-only",
        "inventory::decode_container_mounts",
        "not_applicable",
        "not_applicable",
        "ContainerMountObservation::subpath",
        "PLN0017",
        "tests::inventory::container_core_mount_and_secret_observations_are_typed_and_redacted",
        "tests::inventory::modeled_nested_boundaries_report_the_precise_path_without_hiding_the_record",
    ],
    [
        "PLN-FLD-0054",
        "container",
        "$.Config.Secrets.ID",
        "observation-only",
        "inventory::decode_container_secret_grants",
        "not_applicable",
        "not_applicable",
        "ContainerSecretGrantObservation::reference",
        "PLN0017",
        "tests::inventory::container_core_mount_and_secret_observations_are_typed_and_redacted",
        "tests::inventory::malformed_secret_aliases_and_unsupported_mounts_remain_non_deployable_evidence",
    ],
    [
        "PLN-FLD-0055",
        "container",
        "$.Config.Secrets.Name",
        "observation-only",
        "inventory::decode_container_secret_grants",
        "not_applicable",
        "not_applicable",
        "ContainerSecretGrantObservation::reference",
        "PLN0017",
        "tests::inventory::container_core_mount_and_secret_observations_are_typed_and_redacted",
        "tests::inventory::malformed_secret_aliases_and_unsupported_mounts_remain_non_deployable_evidence",
    ],
    [
        "PLN-FLD-0056",
        "container",
        "$.Config.Secrets.UID",
        "observation-only",
        "inventory::decode_container_secret_grants",
        "not_applicable",
        "not_applicable",
        "ContainerSecretGrantObservation::uid",
        "PLN0017",
        "tests::inventory::canonical_direct_secret_metadata_preserves_effective_zero_and_configured_aliases",
        "tests::inventory::malformed_direct_secret_effective_metadata_invalidates_the_grant_family",
    ],
    [
        "PLN-FLD-0057",
        "container",
        "$.Config.Secrets.GID",
        "observation-only",
        "inventory::decode_container_secret_grants",
        "not_applicable",
        "not_applicable",
        "ContainerSecretGrantObservation::gid",
        "PLN0017",
        "tests::inventory::canonical_direct_secret_metadata_preserves_effective_zero_and_configured_aliases",
        "tests::inventory::malformed_direct_secret_effective_metadata_invalidates_the_grant_family",
    ],
    [
        "PLN-FLD-0058",
        "container",
        "$.Config.Secrets.Mode",
        "observation-only",
        "inventory::decode_container_secret_grants",
        "not_applicable",
        "not_applicable",
        "ContainerSecretGrantObservation::mode",
        "PLN0017",
        "tests::inventory::canonical_direct_secret_metadata_preserves_effective_zero_and_configured_aliases",
        "tests::inventory::malformed_direct_secret_effective_metadata_invalidates_the_grant_family",
    ],
];

const ALL_REVIEWED_TARGETS: &[&str] = &["5.4.0", "5.5.0", "5.6.0", "5.7.0", "5.8.6", "6.0.0", "6.1.0"];
const UNLIMITED_RLIMIT_TARGETS: &[&str] = &["5.6.0", "5.7.0", "5.8.6", "6.0.0", "6.1.0"];
const JOURNALD_LABEL_TARGETS: &[&str] = &["6.0.0", "6.1.0"];
const B4_VERSIONED_TARGETS: &[&str] = &["5.6.0", "5.7.0", "5.8.6", "6.0.0", "6.1.0"];

const OUTPUT_ROWS: &[([&str; 11], &[&str])] = &[
    (
        [
            "PLN-OUT-0001",
            "container",
            "runtime.health.disabled",
            "supported-exact",
            "deployment::validate_runtime_settings",
            "render::append_container_runtime_arguments",
            "render::append_container_runtime_json",
            "ContainerRuntimeSettings::health",
            "PLN0046",
            "tests::runtime::bounded_runtime_intent_plans_and_renders_exactly",
            "tests::runtime::bounded_runtime_values_reject_invalid_inputs_and_preserve_explicit_false",
        ],
        ALL_REVIEWED_TARGETS,
    ),
    (
        [
            "PLN-OUT-0002",
            "container",
            "runtime.health.command.public",
            "supported-exact",
            "deployment::validate_runtime_settings",
            "render::append_container_runtime_arguments",
            "render::append_container_runtime_json",
            "ConfiguredHealthCheck::command",
            "PLN0046",
            "tests::runtime::bounded_runtime_intent_plans_and_renders_exactly",
            "tests::runtime::bounded_runtime_values_reject_invalid_inputs_and_preserve_explicit_false",
        ],
        ALL_REVIEWED_TARGETS,
    ),
    (
        [
            "PLN-OUT-0003",
            "container",
            "runtime.health.interval",
            "supported-exact",
            "deployment::validate_runtime_settings",
            "render::append_container_runtime_arguments",
            "render::append_container_runtime_json",
            "ConfiguredHealthCheck::interval",
            "PLN0046",
            "tests::runtime::bounded_runtime_intent_plans_and_renders_exactly",
            "tests::runtime::bounded_runtime_values_reject_invalid_inputs_and_preserve_explicit_false",
        ],
        ALL_REVIEWED_TARGETS,
    ),
    (
        [
            "PLN-OUT-0004",
            "container",
            "runtime.health.timeout",
            "supported-exact",
            "deployment::validate_runtime_settings",
            "render::append_container_runtime_arguments",
            "render::append_container_runtime_json",
            "ConfiguredHealthCheck::timeout",
            "PLN0046",
            "tests::runtime::bounded_runtime_intent_plans_and_renders_exactly",
            "tests::runtime::bounded_runtime_values_reject_invalid_inputs_and_preserve_explicit_false",
        ],
        ALL_REVIEWED_TARGETS,
    ),
    (
        [
            "PLN-OUT-0005",
            "container",
            "runtime.health.retries",
            "supported-exact",
            "deployment::validate_runtime_settings",
            "render::append_container_runtime_arguments",
            "render::append_container_runtime_json",
            "ConfiguredHealthCheck::retries",
            "PLN0046",
            "tests::runtime::bounded_runtime_intent_plans_and_renders_exactly",
            "tests::runtime::bounded_runtime_values_reject_invalid_inputs_and_preserve_explicit_false",
        ],
        ALL_REVIEWED_TARGETS,
    ),
    (
        [
            "PLN-OUT-0006",
            "container",
            "runtime.health.start_period",
            "supported-exact",
            "deployment::validate_runtime_settings",
            "render::append_container_runtime_arguments",
            "render::append_container_runtime_json",
            "ConfiguredHealthCheck::start_period",
            "PLN0046",
            "tests::runtime::bounded_runtime_intent_plans_and_renders_exactly",
            "tests::runtime::bounded_runtime_values_reject_invalid_inputs_and_preserve_explicit_false",
        ],
        ALL_REVIEWED_TARGETS,
    ),
    (
        [
            "PLN-OUT-0007",
            "container",
            "runtime.health.on_failure",
            "supported-exact",
            "deployment::validate_runtime_settings",
            "render::append_container_runtime_arguments",
            "render::append_container_runtime_json",
            "ConfiguredHealthCheck::on_failure",
            "PLN0046",
            "tests::runtime::bounded_runtime_intent_plans_and_renders_exactly",
            "tests::runtime::bounded_runtime_values_reject_invalid_inputs_and_preserve_explicit_false",
        ],
        ALL_REVIEWED_TARGETS,
    ),
    (
        [
            "PLN-OUT-0008",
            "container",
            "runtime.startup_health.command.public",
            "supported-exact",
            "deployment::validate_runtime_settings",
            "render::append_container_runtime_arguments",
            "render::append_container_runtime_json",
            "StartupHealthCheck::command",
            "PLN0046",
            "tests::runtime::bounded_runtime_intent_plans_and_renders_exactly",
            "tests::runtime::bounded_runtime_values_reject_invalid_inputs_and_preserve_explicit_false",
        ],
        ALL_REVIEWED_TARGETS,
    ),
    (
        [
            "PLN-OUT-0009",
            "container",
            "runtime.startup_health.interval",
            "supported-exact",
            "deployment::validate_runtime_settings",
            "render::append_container_runtime_arguments",
            "render::append_container_runtime_json",
            "StartupHealthCheck::interval",
            "PLN0046",
            "tests::runtime::bounded_runtime_intent_plans_and_renders_exactly",
            "tests::runtime::bounded_runtime_values_reject_invalid_inputs_and_preserve_explicit_false",
        ],
        ALL_REVIEWED_TARGETS,
    ),
    (
        [
            "PLN-OUT-0010",
            "container",
            "runtime.startup_health.timeout",
            "supported-exact",
            "deployment::validate_runtime_settings",
            "render::append_container_runtime_arguments",
            "render::append_container_runtime_json",
            "StartupHealthCheck::timeout",
            "PLN0046",
            "tests::runtime::bounded_runtime_intent_plans_and_renders_exactly",
            "tests::runtime::bounded_runtime_values_reject_invalid_inputs_and_preserve_explicit_false",
        ],
        ALL_REVIEWED_TARGETS,
    ),
    (
        [
            "PLN-OUT-0011",
            "container",
            "runtime.startup_health.retries",
            "supported-exact",
            "deployment::validate_runtime_settings",
            "render::append_container_runtime_arguments",
            "render::append_container_runtime_json",
            "StartupHealthCheck::retries",
            "PLN0046",
            "tests::runtime::bounded_runtime_intent_plans_and_renders_exactly",
            "tests::runtime::bounded_runtime_values_reject_invalid_inputs_and_preserve_explicit_false",
        ],
        ALL_REVIEWED_TARGETS,
    ),
    (
        [
            "PLN-OUT-0012",
            "container",
            "runtime.startup_health.successes",
            "supported-exact",
            "deployment::validate_runtime_settings",
            "render::append_container_runtime_arguments",
            "render::append_container_runtime_json",
            "StartupHealthCheck::successes",
            "PLN0046",
            "tests::runtime::bounded_runtime_intent_plans_and_renders_exactly",
            "tests::runtime::bounded_runtime_values_reject_invalid_inputs_and_preserve_explicit_false",
        ],
        ALL_REVIEWED_TARGETS,
    ),
    (
        [
            "PLN-OUT-0013",
            "container",
            "runtime.logging.driver",
            "supported-exact",
            "deployment::validate_runtime_settings",
            "render::append_container_runtime_arguments",
            "render::append_container_runtime_json",
            "LoggingSettings::driver",
            "PLN0046",
            "tests::runtime::bounded_runtime_intent_plans_and_renders_exactly",
            "tests::runtime::bounded_runtime_values_reject_invalid_inputs_and_preserve_explicit_false",
        ],
        ALL_REVIEWED_TARGETS,
    ),
    (
        [
            "PLN-OUT-0014",
            "container",
            "runtime.logging.max_size",
            "supported-exact",
            "deployment::validate_runtime_settings",
            "render::append_container_runtime_arguments",
            "render::append_container_runtime_json",
            "LoggingSettings::max_size",
            "PLN0046",
            "tests::runtime::bounded_runtime_intent_plans_and_renders_exactly",
            "tests::runtime::bounded_runtime_values_reject_invalid_inputs_and_preserve_explicit_false",
        ],
        ALL_REVIEWED_TARGETS,
    ),
    (
        [
            "PLN-OUT-0015",
            "container",
            "runtime.logging.journald_labels",
            "target-gated",
            "deployment::validate_runtime_settings",
            "render::append_container_runtime_arguments",
            "render::append_container_runtime_json",
            "LoggingSettings::journald_labels",
            "PLN0046",
            "tests::runtime::journald_labels_are_supported_from_podman_six_in_every_reviewed_target",
            "tests::runtime::journald_labels_are_supported_from_podman_six_in_every_reviewed_target",
        ],
        JOURNALD_LABEL_TARGETS,
    ),
    (
        [
            "PLN-OUT-0016",
            "container",
            "runtime.security.privileged",
            "supported-exact",
            "deployment::validate_runtime_settings",
            "render::append_container_runtime_arguments",
            "render::append_container_runtime_json",
            "SecuritySettings::privileged",
            "PLN0046",
            "tests::runtime::bounded_runtime_intent_plans_and_renders_exactly",
            "tests::runtime::bounded_runtime_values_reject_invalid_inputs_and_preserve_explicit_false",
        ],
        ALL_REVIEWED_TARGETS,
    ),
    (
        [
            "PLN-OUT-0017",
            "container",
            "runtime.security.cap_add",
            "supported-exact",
            "deployment::validate_runtime_settings",
            "render::append_container_runtime_arguments",
            "render::append_container_runtime_json",
            "SecuritySettings::cap_add",
            "PLN0046",
            "tests::runtime::bounded_runtime_intent_plans_and_renders_exactly",
            "tests::runtime::bounded_runtime_values_reject_invalid_inputs_and_preserve_explicit_false",
        ],
        ALL_REVIEWED_TARGETS,
    ),
    (
        [
            "PLN-OUT-0018",
            "container",
            "runtime.security.cap_drop",
            "supported-exact",
            "deployment::validate_runtime_settings",
            "render::append_container_runtime_arguments",
            "render::append_container_runtime_json",
            "SecuritySettings::cap_drop",
            "PLN0046",
            "tests::runtime::bounded_runtime_intent_plans_and_renders_exactly",
            "tests::runtime::bounded_runtime_values_reject_invalid_inputs_and_preserve_explicit_false",
        ],
        ALL_REVIEWED_TARGETS,
    ),
    (
        [
            "PLN-OUT-0019",
            "container",
            "runtime.security.no_new_privileges",
            "supported-exact",
            "deployment::validate_runtime_settings",
            "render::append_container_runtime_arguments",
            "render::append_container_runtime_json",
            "SecuritySettings::no_new_privileges",
            "PLN0046",
            "tests::runtime::bounded_runtime_intent_plans_and_renders_exactly",
            "tests::runtime::bounded_runtime_values_reject_invalid_inputs_and_preserve_explicit_false",
        ],
        ALL_REVIEWED_TARGETS,
    ),
    (
        [
            "PLN-OUT-0020",
            "container",
            "runtime.security.read_only_filesystem",
            "supported-exact",
            "deployment::validate_runtime_settings",
            "render::append_container_runtime_arguments",
            "render::append_container_runtime_json",
            "SecuritySettings::read_only_filesystem",
            "PLN0046",
            "tests::runtime::bounded_runtime_intent_plans_and_renders_exactly",
            "tests::runtime::bounded_runtime_values_reject_invalid_inputs_and_preserve_explicit_false",
        ],
        ALL_REVIEWED_TARGETS,
    ),
    (
        [
            "PLN-OUT-0021",
            "container",
            "runtime.security.read_write_tmpfs",
            "supported-exact",
            "deployment::validate_runtime_settings",
            "render::append_container_runtime_arguments",
            "render::append_container_runtime_json",
            "SecuritySettings::read_write_tmpfs",
            "PLN0046",
            "tests::runtime::bounded_runtime_intent_plans_and_renders_exactly",
            "tests::runtime::bounded_runtime_values_reject_invalid_inputs_and_preserve_explicit_false",
        ],
        ALL_REVIEWED_TARGETS,
    ),
    (
        [
            "PLN-OUT-0022",
            "container",
            "runtime.namespaces.pid",
            "supported-exact",
            "deployment::validate_runtime_settings",
            "render::append_container_runtime_arguments",
            "render::append_container_runtime_json",
            "ContainerNamespaceSettings::pid",
            "PLN0046",
            "tests::runtime::bounded_runtime_intent_plans_and_renders_exactly",
            "tests::runtime::bounded_runtime_values_reject_invalid_inputs_and_preserve_explicit_false",
        ],
        ALL_REVIEWED_TARGETS,
    ),
    (
        [
            "PLN-OUT-0023",
            "container",
            "runtime.namespaces.ipc",
            "supported-exact",
            "deployment::validate_runtime_settings",
            "render::append_container_runtime_arguments",
            "render::append_container_runtime_json",
            "ContainerNamespaceSettings::ipc",
            "PLN0046",
            "tests::runtime::bounded_runtime_intent_plans_and_renders_exactly",
            "tests::runtime::bounded_runtime_values_reject_invalid_inputs_and_preserve_explicit_false",
        ],
        ALL_REVIEWED_TARGETS,
    ),
    (
        [
            "PLN-OUT-0024",
            "container",
            "runtime.namespaces.uts",
            "supported-exact",
            "deployment::validate_runtime_settings",
            "render::append_container_runtime_arguments",
            "render::append_container_runtime_json",
            "ContainerNamespaceSettings::uts",
            "PLN0046",
            "tests::runtime::bounded_runtime_intent_plans_and_renders_exactly",
            "tests::runtime::bounded_runtime_values_reject_invalid_inputs_and_preserve_explicit_false",
        ],
        ALL_REVIEWED_TARGETS,
    ),
    (
        [
            "PLN-OUT-0025",
            "container",
            "runtime.namespaces.cgroup",
            "supported-exact",
            "deployment::validate_runtime_settings",
            "render::append_container_runtime_arguments",
            "render::append_container_runtime_json",
            "ContainerNamespaceSettings::cgroup",
            "PLN0046",
            "tests::runtime::bounded_runtime_intent_plans_and_renders_exactly",
            "tests::runtime::bounded_runtime_values_reject_invalid_inputs_and_preserve_explicit_false",
        ],
        ALL_REVIEWED_TARGETS,
    ),
    (
        [
            "PLN-OUT-0026",
            "container",
            "runtime.resources.cpu_shares",
            "supported-exact",
            "deployment::validate_runtime_settings",
            "render::append_container_runtime_arguments",
            "render::append_container_runtime_json",
            "ContainerResourceControls::cpu_shares",
            "PLN0046",
            "tests::runtime::bounded_runtime_intent_plans_and_renders_exactly",
            "tests::runtime::bounded_runtime_values_reject_invalid_inputs_and_preserve_explicit_false",
        ],
        ALL_REVIEWED_TARGETS,
    ),
    (
        [
            "PLN-OUT-0027",
            "container",
            "runtime.resources.cpu_period",
            "supported-exact",
            "deployment::validate_runtime_settings",
            "render::append_container_runtime_arguments",
            "render::append_container_runtime_json",
            "ContainerResourceControls::cpu_period",
            "PLN0046",
            "tests::runtime::bounded_runtime_intent_plans_and_renders_exactly",
            "tests::runtime::bounded_runtime_values_reject_invalid_inputs_and_preserve_explicit_false",
        ],
        ALL_REVIEWED_TARGETS,
    ),
    (
        [
            "PLN-OUT-0028",
            "container",
            "runtime.resources.cpu_quota",
            "supported-exact",
            "deployment::validate_runtime_settings",
            "render::append_container_runtime_arguments",
            "render::append_container_runtime_json",
            "ContainerResourceControls::cpu_quota",
            "PLN0046",
            "tests::runtime::finite_bounded_runtime_fields_render_for_every_reviewed_target",
            "tests::runtime::cpu_quota_accepts_only_exact_positive_millisecond_values",
        ],
        ALL_REVIEWED_TARGETS,
    ),
    (
        [
            "PLN-OUT-0029",
            "container",
            "runtime.resources.memory_bytes",
            "supported-exact",
            "deployment::validate_runtime_settings",
            "render::append_container_runtime_arguments",
            "render::append_container_runtime_json",
            "ContainerResourceControls::memory_bytes",
            "PLN0046",
            "tests::runtime::bounded_runtime_intent_plans_and_renders_exactly",
            "tests::runtime::bounded_runtime_values_reject_invalid_inputs_and_preserve_explicit_false",
        ],
        ALL_REVIEWED_TARGETS,
    ),
    (
        [
            "PLN-OUT-0030",
            "container",
            "runtime.resources.pids",
            "supported-exact",
            "deployment::validate_runtime_settings",
            "render::append_container_runtime_arguments",
            "render::append_container_runtime_json",
            "ContainerResourceControls::pids",
            "PLN0046",
            "tests::runtime::bounded_runtime_intent_plans_and_renders_exactly",
            "tests::runtime::bounded_runtime_values_reject_invalid_inputs_and_preserve_explicit_false",
        ],
        ALL_REVIEWED_TARGETS,
    ),
    (
        [
            "PLN-OUT-0031",
            "container",
            "runtime.resources.rlimits.finite",
            "supported-exact",
            "deployment::validate_runtime_settings",
            "render::append_container_runtime_arguments",
            "render::append_container_runtime_json",
            "ContainerResourceControls::rlimits",
            "PLN0046",
            "tests::runtime::bounded_runtime_intent_plans_and_renders_exactly",
            "tests::runtime::bounded_runtime_values_reject_invalid_inputs_and_preserve_explicit_false",
        ],
        ALL_REVIEWED_TARGETS,
    ),
    (
        [
            "PLN-OUT-0032",
            "container",
            "runtime.resources.rlimits.unlimited",
            "target-gated",
            "deployment::validate_runtime_settings",
            "render::append_container_runtime_arguments",
            "render::append_container_runtime_json",
            "ContainerResourceControls::rlimits",
            "PLN0046",
            "tests::runtime::unlimited_rlimits_are_supported_from_podman_five_six_in_every_reviewed_target",
            "tests::runtime::unlimited_rlimits_are_supported_from_podman_five_six_in_every_reviewed_target",
        ],
        UNLIMITED_RLIMIT_TARGETS,
    ),
    (
        [
            "PLN-OUT-0033",
            "container",
            "runtime.health.command.sensitive",
            "manual",
            "deployment::validate_runtime_settings",
            "render::unsupported_runtime_fields",
            "render::health_command_json",
            "HealthCommand",
            "PLN0046",
            "tests::runtime::sensitive_health_command_blocks_the_resource_without_leaking_an_artifact",
            "tests::runtime::sensitive_health_commands_never_leak_from_runtime_debug",
        ],
        ALL_REVIEWED_TARGETS,
    ),
    (
        [
            "PLN-OUT-0034",
            "container",
            "runtime.startup_health.command.sensitive",
            "manual",
            "deployment::validate_runtime_settings",
            "render::unsupported_runtime_fields",
            "render::health_command_json",
            "HealthCommand",
            "PLN0046",
            "tests::runtime::sensitive_health_command_blocks_the_resource_without_leaking_an_artifact",
            "tests::runtime::sensitive_health_commands_never_leak_from_runtime_debug",
        ],
        ALL_REVIEWED_TARGETS,
    ),
    (
        [
            "PLN-OUT-0035",
            "container",
            "mount.named_volume.copy",
            "supported-exact",
            "deployment::validate_mounts",
            "render::append_mount_arguments",
            "render::mount_json",
            "MountIntent::NamedVolume",
            "PLN0046",
            "tests::render::b4_bind_tmpfs_ordinary_volume_and_secret_grants_are_exact_on_all_reviewed_targets",
            "tests::render::b4_version_and_portability_boundaries_block_the_complete_resource_artifact",
        ],
        ALL_REVIEWED_TARGETS,
    ),
    (
        [
            "PLN-OUT-0036",
            "container",
            "mount.named_volume.copy.subpath",
            "supported-exact",
            "deployment::validate_mounts",
            "render::append_mount_arguments",
            "render::mount_json",
            "NamedVolumeMount::set_subpath",
            "PLN0046",
            "tests::render::b4_mounts_secrets_and_volume_ownership_are_exact_on_every_supported_target",
            "tests::deployment::b4_typed_mounts_volume_ownership_and_secret_grants_preserve_all_optional_states",
        ],
        ALL_REVIEWED_TARGETS,
    ),
    (
        [
            "PLN-OUT-0037",
            "container",
            "mount.named_volume.nocopy",
            "supported-exact",
            "deployment::validate_mounts",
            "render::append_mount_arguments",
            "render::mount_json",
            "MountIntent::NamedVolume",
            "PLN0046",
            "tests::render::b4_bind_tmpfs_ordinary_volume_and_secret_grants_are_exact_on_all_reviewed_targets",
            "tests::deployment::b4_typed_mounts_volume_ownership_and_secret_grants_preserve_all_optional_states",
        ],
        ALL_REVIEWED_TARGETS,
    ),
    (
        [
            "PLN-OUT-0038",
            "container",
            "mount.named_volume.nocopy.subpath",
            "manual",
            "deployment::validate_mounts",
            "render::unsupported_fields",
            "render::mount_json",
            "NamedVolumeMount::set_subpath",
            "PLN0046",
            "tests::render::b4_version_and_portability_boundaries_block_the_complete_resource_artifact",
            "tests::deployment::b4_typed_mounts_volume_ownership_and_secret_grants_preserve_all_optional_states",
        ],
        ALL_REVIEWED_TARGETS,
    ),
    (
        [
            "PLN-OUT-0039",
            "container",
            "mount.bind",
            "supported-exact",
            "deployment::validate_mounts",
            "render::append_mount_arguments",
            "render::native_mount_json",
            "MountIntent::Bind",
            "PLN0046",
            "tests::render::b4_bind_tmpfs_ordinary_volume_and_secret_grants_are_exact_on_all_reviewed_targets",
            "tests::render::b4_version_and_portability_boundaries_block_the_complete_resource_artifact",
        ],
        ALL_REVIEWED_TARGETS,
    ),
    (
        [
            "PLN-OUT-0040",
            "container",
            "mount.tmpfs",
            "supported-exact",
            "deployment::validate_mounts",
            "render::append_mount_arguments",
            "render::native_mount_json",
            "MountIntent::Tmpfs",
            "PLN0046",
            "tests::render::b4_bind_tmpfs_ordinary_volume_and_secret_grants_are_exact_on_all_reviewed_targets",
            "tests::render::b4_version_and_portability_boundaries_block_the_complete_resource_artifact",
        ],
        ALL_REVIEWED_TARGETS,
    ),
    (
        [
            "PLN-OUT-0041",
            "container",
            "secret_grant.mount",
            "supported-exact",
            "deployment::validate_secret_grants",
            "render::append_secret_grants_arguments",
            "render::append_secret_grants_json",
            "SecretGrant::Mount",
            "PLN0046",
            "tests::render::b4_secret_mount_default_and_explicit_modes_are_exact_on_all_reviewed_targets",
            "tests::render::b4_version_and_portability_boundaries_block_the_complete_resource_artifact",
        ],
        ALL_REVIEWED_TARGETS,
    ),
    (
        [
            "PLN-OUT-0042",
            "container",
            "secret_grant.environment",
            "supported-exact",
            "deployment::validate_secret_grants",
            "render::append_secret_grants_arguments",
            "render::append_secret_grants_json",
            "SecretGrant::Environment",
            "PLN0046",
            "tests::render::renderer_renders_typed_secret_grants_without_exposing_secret_material",
            "tests::render::b4_version_and_portability_boundaries_block_the_complete_resource_artifact",
        ],
        ALL_REVIEWED_TARGETS,
    ),
    (
        [
            "PLN-OUT-0043",
            "volume",
            "ownership.uid",
            "target-gated",
            "deployment::validate_volume_ownership",
            "render::volume_create_cli_arguments",
            "render::volume_create_json",
            "VolumeIntent::uid",
            "PLN0046",
            "tests::render::b4_mounts_secrets_and_volume_ownership_are_exact_on_every_supported_target",
            "tests::render::b4_version_and_portability_boundaries_block_the_complete_resource_artifact",
        ],
        B4_VERSIONED_TARGETS,
    ),
    (
        [
            "PLN-OUT-0044",
            "volume",
            "ownership.gid",
            "target-gated",
            "deployment::validate_volume_ownership",
            "render::volume_create_cli_arguments",
            "render::volume_create_json",
            "VolumeIntent::gid",
            "PLN0046",
            "tests::render::b4_mounts_secrets_and_volume_ownership_are_exact_on_every_supported_target",
            "tests::render::b4_version_and_portability_boundaries_block_the_complete_resource_artifact",
        ],
        B4_VERSIONED_TARGETS,
    ),
    (
        [
            "PLN-OUT-0045",
            "image",
            "pull_policy.always",
            "target-gated",
            "deployment::validate_image_policy",
            "render::render_operation",
            "render::render_operation",
            "ImagePullPolicy::Always",
            "PLN0046",
            "tests::render::b4_image_pull_policies_are_exact_on_every_supported_target",
            "tests::render::b4_image_pull_policies_are_exact_on_every_supported_target",
        ],
        B4_VERSIONED_TARGETS,
    ),
    (
        [
            "PLN-OUT-0046",
            "image",
            "pull_policy.missing",
            "target-gated",
            "deployment::validate_image_policy",
            "render::render_operation",
            "render::render_operation",
            "ImagePullPolicy::Missing",
            "PLN0046",
            "tests::render::b4_image_pull_policies_are_exact_on_every_supported_target",
            "tests::render::b4_image_pull_policies_are_exact_on_every_supported_target",
        ],
        B4_VERSIONED_TARGETS,
    ),
    (
        [
            "PLN-OUT-0047",
            "image",
            "pull_policy.never",
            "target-gated",
            "deployment::validate_image_policy",
            "render::render_operation",
            "render::render_operation",
            "ImagePullPolicy::Never",
            "PLN0046",
            "tests::render::b4_image_pull_policies_are_exact_on_every_supported_target",
            "tests::render::b4_image_pull_policies_are_exact_on_every_supported_target",
        ],
        B4_VERSIONED_TARGETS,
    ),
    (
        [
            "PLN-OUT-0048",
            "image",
            "pull_policy.newer",
            "target-gated",
            "deployment::validate_image_policy",
            "render::render_operation",
            "render::render_operation",
            "ImagePullPolicy::Newer",
            "PLN0046",
            "tests::render::b4_image_pull_policies_are_exact_on_every_supported_target",
            "tests::render::b4_image_pull_policies_are_exact_on_every_supported_target",
        ],
        B4_VERSIONED_TARGETS,
    ),
    (
        [
            "PLN-OUT-0049",
            "image",
            "source.portability",
            "manual",
            "deployment::validate_image_source",
            "render::unsupported_fields",
            "render::render_operation",
            "ImageSource::classification",
            "PLN0046",
            "tests::render::b4_image_portability_manual_boundaries_block_the_complete_artifact",
            "tests::deployment::image_source_classification_requires_explicit_policy_and_preserves_manual_boundaries",
        ],
        ALL_REVIEWED_TARGETS,
    ),
    (
        [
            "PLN-OUT-0050",
            "pod",
            "infra_mounts",
            "manual",
            "deployment::validate_mounts",
            "render::unsupported_fields",
            "render::render_operation",
            "PodIntent::infra_mounts",
            "PLN0046",
            "tests::render::b4_pod_infra_mounts_block_without_a_partial_artifact",
            "tests::deployment::infra_container_mounts_support_managed_external_and_duplicate_boundaries",
        ],
        ALL_REVIEWED_TARGETS,
    ),
];

const ENTRY_KEYS: [&str; 14] = [
    "id",
    "plane",
    "resource_kind",
    "field_path",
    "classification",
    "observation",
    "planner",
    "cli_renderer",
    "libpod_renderer",
    "target_versions",
    "public_contract",
    "finding",
    "positive_test",
    "negative_test",
];

fn text(value: &str) -> Value {
    Value::String(value.to_owned())
}

fn texts(values: &[&str]) -> Value {
    Value::Array(values.iter().map(|value| text(value)).collect())
}

fn entry(
    plane: &str,
    row: [&str; 11],
    field_path: &str,
    observation: &str,
    planner: &str,
    cli: &str,
    libpod: &str,
    targets: &[&str],
) -> Value {
    let mut object = serde_json::Map::new();
    object.insert("id".to_owned(), text(row[0]));
    object.insert("plane".to_owned(), text(plane));
    object.insert("resource_kind".to_owned(), text(row[1]));
    object.insert("field_path".to_owned(), text(field_path));
    object.insert("classification".to_owned(), text(row[3]));
    object.insert("observation".to_owned(), text(observation));
    object.insert("planner".to_owned(), text(planner));
    object.insert("cli_renderer".to_owned(), text(cli));
    object.insert("libpod_renderer".to_owned(), text(libpod));
    object.insert("target_versions".to_owned(), texts(targets));
    object.insert("public_contract".to_owned(), text(row[7]));
    object.insert("finding".to_owned(), text(row[8]));
    object.insert("positive_test".to_owned(), text(row[9]));
    object.insert("negative_test".to_owned(), text(row[10]));
    Value::Object(object)
}

/// The reviewed ledger document: every row as the reviewed tables pin it.
fn reviewed_ledger() -> Value {
    let mut entries = Vec::new();
    for row in INPUT_ROWS {
        entries.push(entry("input-observation", *row, row[2], row[4], row[5], row[6], row[6], &[]));
    }
    for (row, targets) in OUTPUT_ROWS {
        entries.push(entry("output-intent", *row, row[2], "not_applicable", row[4], row[5], row[6], targets));
    }
    let mut document = serde_json::Map::new();
    document.insert("schema_version".to_owned(), Value::from(3u8));
    document.insert("scope".to_owned(), text("m2-input-observation-and-m6-b3-b4-output-intent"));
    document.insert("entries".to_owned(), Value::Array(entries));
    Value::Object(document)
}

fn classification(value: &str) -> Option<NativeFieldCoverageClassification> {
    match value {
        "supported-exact" => Some(NativeFieldCoverageClassification::SupportedExact),
        "target-gated" => Some(NativeFieldCoverageClassification::TargetGated),
        "manual" => Some(NativeFieldCoverageClassification::Manual),
        "observation-only" => Some(NativeFieldCoverageClassification::ObservationOnly),
        "unknown-incomplete" => Some(NativeFieldCoverageClassification::UnknownIncomplete),
        _ => None,
    }
}

fn plane(value: &str) -> Option<NativeFieldCoveragePlane> {
    match value {
        "input-observation" => Some(NativeFieldCoveragePlane::InputObservation),
        "output-intent" => Some(NativeFieldCoveragePlane::OutputIntent),
        _ => None,
    }
}

/// A strict reading of one ledger row: exactly the known members, each of its type.
fn read_entry(value: &Value) -> Option<NativeFieldCoverageEntry> {
    let object = value.as_object()?;
    if object.len() != ENTRY_KEYS.len() || ENTRY_KEYS.iter().any(|key| !object.contains_key(*key)) {
        return None;
    }
    let field = |key: &str| object.get(key).and_then(Value::as_str).map(str::to_owned);
    let mut targets = Vec::new();
    for target in object.get("target_versions")?.as_array()? {
        targets.push(target.as_str()?.to_owned());
    }
    Some(NativeFieldCoverageEntry::new(
        field("id")?,
        plane(object.get("plane")?.as_str()?)?,
        field("resource_kind")?,
        field("field_path")?,
        classification(object.get("classification")?.as_str()?)?,
        field("observation")?,
        field("planner")?,
        field("cli_renderer")?,
        field("libpod_renderer")?,
        targets,
        field("public_contract")?,
        field("finding")?,
        field("positive_test")?,
        field("negative_test")?,
    ))
}

/// Reads a ledger document strictly and holds it to the reviewed rows.
fn parse_ledger(source: &str) -> PodmanLensResult<Vec<NativeFieldCoverageEntry>> {
    let unavailable = podman_lens::Diagnostic::new(DiagnosticCode::NativeFieldCoverageUnavailable);
    let document: Value = serde_json::from_str(source).map_err(|_| unavailable.clone())?;
    let object = document.as_object().ok_or_else(|| unavailable.clone())?;
    if object.len() != 3 {
        return Err(unavailable);
    }
    let schema = object.get("schema_version").and_then(Value::as_u64).and_then(|v| u8::try_from(v).ok());
    let scope = object.get("scope").and_then(Value::as_str);
    let rows = object.get("entries").and_then(Value::as_array);
    let (Some(schema), Some(scope), Some(rows)) = (schema, scope, rows) else {
        return Err(unavailable);
    };
    let mut entries = Vec::new();
    for row in rows {
        entries.push(read_entry(row).ok_or_else(|| unavailable.clone())?);
    }
    validate_coverage_catalogue(schema, scope, entries)
}

fn reviewed_source() -> String {
    serde_json::to_string_pretty(&reviewed_ledger()).expect("the reviewed ledger serialises")
}

fn mutate_first_entry(field: &str, value: &str) -> String {
    let mut catalogue = reviewed_ledger();
    catalogue["entries"][0][field] = Value::String(value.to_owned());
    serde_json::to_string(&catalogue).expect("the mutated ledger serialises")
}

fn is_unavailable(result: &PodmanLensResult<Vec<NativeFieldCoverageEntry>>) -> bool {
    matches!(result, Err(diagnostic) if diagnostic.code() == DiagnosticCode::NativeFieldCoverageUnavailable)
}

#[test]
fn embedded_coverage_catalogue_is_strict_and_complete() {
    let entries = parse_ledger(&reviewed_source()).expect("the reviewed ledger is accepted");
    assert_eq!(entries.len(), INPUT_ROWS.len() + OUTPUT_ROWS.len());
    assert_eq!(entries[0].id(), "PLN-FLD-0001");
    assert_eq!(entries[0].plane(), NativeFieldCoveragePlane::InputObservation);
    assert_eq!(entries[INPUT_ROWS.len()].plane(), NativeFieldCoveragePlane::OutputIntent);
    assert_eq!(entries[INPUT_ROWS.len()].observation(), "not_applicable");
}

#[test]
fn malformed_or_incomplete_coverage_catalogue_is_rejected() {
    let source = reviewed_source();
    for (from, to) in [
        ("\"schema_version\": 3", "\"schema_version\": 1"),
        ("\"PLN-FLD-0037\"", "\"PLN-FLD-9999\""),
        ("\"observation\"", "\"unknown_observation\""),
    ] {
        assert!(source.contains(from), "the reviewed ledger must hold {from}");
        assert!(is_unavailable(&parse_ledger(&source.replacen(from, to, 1))), "mutation {from} -> {to} must fail");
    }
}

#[test]
fn every_semantic_ledger_link_is_pinned_to_the_expected_row() {
    for (field, value) in [
        ("classification", "manual"),
        ("observation", "inventory::decode_pod"),
        ("planner", "deployment::plan"),
        ("cli_renderer", "render::deployment"),
        ("libpod_renderer", "render::deployment"),
        ("public_contract", "ObservationHeader::findings"),
        ("finding", "PLN0046"),
        (
            "positive_test",
            "tests::inventory::memory_swappiness_distinguishes_reviewed_null_boundary_and_invalid_values",
        ),
        (
            "negative_test",
            "tests::inventory::modeled_nested_boundaries_report_the_precise_path_without_hiding_the_record",
        ),
    ] {
        assert!(is_unavailable(&parse_ledger(&mutate_first_entry(field, value))), "altered {field} must fail");
    }
}

#[test]
fn plausible_target_availability_swaps_are_rejected() {
    let mut catalogue = reviewed_ledger();
    let position = |catalogue: &Value, id: &str| -> usize {
        catalogue["entries"]
            .as_array()
            .and_then(|entries| entries.iter().position(|entry| entry["id"] == id))
            .unwrap_or_else(|| panic!("the reviewed ledger must contain {id}"))
    };
    let journald = position(&catalogue, "PLN-OUT-0015");
    let unlimited_rlimit = position(&catalogue, "PLN-OUT-0032");
    let journald_versions = catalogue["entries"][journald]["target_versions"].clone();
    catalogue["entries"][journald]["target_versions"] = catalogue["entries"][unlimited_rlimit]["target_versions"].clone();
    catalogue["entries"][unlimited_rlimit]["target_versions"] = journald_versions;
    let source = serde_json::to_string(&catalogue).expect("the swapped ledger serialises");
    assert!(is_unavailable(&parse_ledger(&source)));
}

#[test]
fn coverage_rows_reject_malformed_links_and_unreviewed_targets() {
    // A malformed diagnostic rule in place of the reviewed one.
    assert!(is_unavailable(&parse_ledger(&mutate_first_entry("finding", "PLN017"))));
    // A row of the input plane applies to no target list.
    let mut catalogue = reviewed_ledger();
    catalogue["entries"][0]["target_versions"] = texts(&["6.1.0"]);
    assert!(is_unavailable(&parse_ledger(&serde_json::to_string(&catalogue).expect("serialises"))));
    // The ledger must declare its scope and state every row.
    let mut catalogue = reviewed_ledger();
    catalogue["scope"] = text("m2-input-observation");
    assert!(is_unavailable(&parse_ledger(&serde_json::to_string(&catalogue).expect("serialises"))));
    let mut catalogue = reviewed_ledger();
    if let Some(entries) = catalogue["entries"].as_array_mut() {
        entries.pop();
    }
    assert!(is_unavailable(&parse_ledger(&serde_json::to_string(&catalogue).expect("serialises"))));
}

#[test]
fn classification_spelling_follows_the_ledger() {
    assert_eq!(NativeFieldCoverageClassification::SupportedExact.as_str(), "supported-exact");
    assert_eq!(NativeFieldCoverageClassification::TargetGated.as_str(), "target-gated");
    assert_eq!(NativeFieldCoverageClassification::Manual.as_str(), "manual");
    assert_eq!(NativeFieldCoverageClassification::ObservationOnly.as_str(), "observation-only");
    assert_eq!(NativeFieldCoverageClassification::UnknownIncomplete.as_str(), "unknown-incomplete");
}
