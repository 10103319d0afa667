use podman_lens::probe::{engine_version, ping_api_version, require_json_content_type, require_ok_status, version_probe_path};
use podman_lens::ObservedApiVersion;
use podman_lens::MAX_PROBE_JSON_BYTES;
use podman_lens::transport::{LibpodHeader, LibpodHeaders};
use podman_lens::DiagnosticCode;

#[test]
fn content_type_is_case_insensitive_and_allows_parameters() -> Result<(), Box<dyn std::error::Error>> {
    let headers = LibpodHeaders::new(vec![LibpodHeader::new("Content-Type", "Application/Json; charset=utf-8")
        .map_err(|e| std::io::Error::other(e.code().as_str()))?]);
    assert!(require_json_content_type(&headers).is_ok());
    Ok(())
}

#[test]
fn content_type_other_than_json_is_rejected() {
    let headers = LibpodHeaders::new(vec![LibpodHeader::new("content-type", "text/plain").unwrap()]);
    assert_eq!(require_json_content_type(&headers).unwrap_err().code(), DiagnosticCode::ProbeHeader);
}

#[test]
fn missing_or_repeated_content_type_is_rejected() {
    let none = LibpodHeaders::new(vec![]);
    assert_eq!(require_json_content_type(&none).unwrap_err().code(), DiagnosticCode::ProbeHeader);
    let twice = LibpodHeaders::new(vec![
        LibpodHeader::new("Content-Type", "application/json").unwrap(),
        LibpodHeader::new("CONTENT-TYPE", "application/json").unwrap(),
    ]);
    assert_eq!(require_json_content_type(&twice).unwrap_err().code(), DiagnosticCode::ProbeHeader);
}

#[test]
fn content_type_whitespace_around_media_type_is_ignored() {
    let headers = LibpodHeaders::new(vec![LibpodHeader::new("Content-Type", "  application/JSON ;x=1").unwrap()]);
    assert!(require_json_content_type(&headers).is_ok());
}

#[test]
fn header_names_must_be_tokens_and_values_free_of_controls() {
    assert_eq!(LibpodHeader::new("", "v").unwrap_err().code(), DiagnosticCode::InvalidTransportMessage);
    assert_eq!(LibpodHeader::new("Bad Name", "v").unwrap_err().code(), DiagnosticCode::InvalidTransportMessage);
    assert_eq!(LibpodHeader::new("X", "a\nb").unwrap_err().code(), DiagnosticCode::InvalidTransportMessage);
    assert!(LibpodHeader::new("X", "a\tb").is_ok());
}

#[test]
fn header_values_are_collected_in_order_ignoring_name_case() {
    let headers = LibpodHeaders::new(vec![
        LibpodHeader::new("Via", "one").unwrap(),
        LibpodHeader::new("Other", "x").unwrap(),
        LibpodHeader::new("VIA", "two").unwrap(),
    ]);
    assert_eq!(headers.values("via"), vec!["one", "two"]);
}

#[test]
fn probe_json_is_bounded_before_decode() -> Result<(), Box<dyn std::error::Error>> {
    let body = vec![b' '; MAX_PROBE_JSON_BYTES + 1];
    let error = engine_version(&body)
        .err()
        .ok_or_else(|| std::io::Error::other("oversized probe JSON was unexpectedly accepted"))?;
    assert_eq!(error.code(), DiagnosticCode::ProbeJson);
    Ok(())
}

#[test]
fn engine_version_is_read_from_the_single_engine_component() {
    let body = br#"{"Components":[{"Name":"Conmon","Version":"2.1"},{"Name":"Podman Engine","Version":"5.4.2"}]}"#;
    let version = engine_version(body).unwrap();
    assert_eq!(version.original(), "5.4.2");
    assert_eq!(version.as_semver().major, 5);
}

#[test]
fn malformed_version_documents_are_classified() {
    assert_eq!(engine_version(b"not json").unwrap_err().code(), DiagnosticCode::ProbeJson);
    assert_eq!(engine_version(b"[1,2]").unwrap_err().code(), DiagnosticCode::ProbeShape);
    assert_eq!(engine_version(br#"{"Components":{}}"#).unwrap_err().code(), DiagnosticCode::ProbeShape);
    assert_eq!(engine_version(br#"{"Components":[]}"#).unwrap_err().code(), DiagnosticCode::ProbeComponent);
    let twice = br#"{"Components":[{"Name":"Podman Engine","Version":"5.4.2"},{"Name":"Podman Engine","Version":"5.4.3"}]}"#;
    assert_eq!(engine_version(twice).unwrap_err().code(), DiagnosticCode::ProbeComponent);
    let no_version = br#"{"Components":[{"Name":"Podman Engine","Version":5}]}"#;
    assert_eq!(engine_version(no_version).unwrap_err().code(), DiagnosticCode::ProbeComponent);
    let not_semver = br#"{"Components":[{"Name":"Podman Engine","Version":"five"}]}"#;
    assert_eq!(engine_version(not_semver).unwrap_err().code(), DiagnosticCode::ProbeComponent);
}

#[test]
fn legacy_probe_uses_the_advertised_podman_three_api_path() {
    assert_eq!(version_probe_path(&ObservedApiVersion::parse("3.0.0").unwrap()), "/v3.0.0/libpod/version");
    assert_eq!(version_probe_path(&ObservedApiVersion::parse("3.4.4").unwrap()), "/v3.4.4/libpod/version");
    assert_eq!(version_probe_path(&ObservedApiVersion::parse("4.9.4").unwrap()), "/v4.0.0/libpod/version");
}

#[test]
fn only_status_ok_passes_the_probe() {
    assert!(require_ok_status(200).is_ok());
    assert_eq!(require_ok_status(404).err().unwrap().code(), DiagnosticCode::ProbeHttpStatus);
}

#[test]
fn the_ping_names_exactly_one_api_version() {
    let one = LibpodHeaders::new(vec![LibpodHeader::new("Libpod-API-Version", "4.9.4").unwrap()]);
    assert_eq!(ping_api_version(&one).unwrap().original(), "4.9.4");
    let none = LibpodHeaders::new(vec![]);
    assert_eq!(ping_api_version(&none).err().unwrap().code(), DiagnosticCode::ProbeHeader);
    let two = LibpodHeaders::new(vec![
        LibpodHeader::new("Libpod-API-Version", "4.9.4").unwrap(),
        LibpodHeader::new("libpod-api-version", "4.9.4").unwrap(),
    ]);
    assert_eq!(ping_api_version(&two).err().unwrap().code(), DiagnosticCode::ProbeHeader);
    let bad = LibpodHeaders::new(vec![LibpodHeader::new("Libpod-API-Version", "four").unwrap()]);
    assert_eq!(ping_api_version(&bad).err().unwrap().code(), DiagnosticCode::ProbeHeader);
}
