use podman_lens::{
    normalized_reported_version, validate_catalogue, CapabilityCatalogueEntry, DiagnosticCode, EvidenceReference,
    ReportedVersionAlias,
};

#[derive(Clone)]
struct Alias {
    podman_version: String,
    libpod_api_version: String,
    image: String,
    package_revision: String,
    root_mode: String,
    evidence: (String, String, String),
}

#[derive(Clone)]
struct Line {
    podman_minor_line: String,
    minimum_podman_version: String,
    maximum_exclusive_podman_version: String,
    minimum_libpod_api_version: String,
    observed_podman_version: String,
    observed_libpod_api_version: String,
    output_supported: bool,
    reported_version_aliases: Vec<Alias>,
    evidence: (String, String, String),
}

fn evidence(e: &(String, String, String)) -> EvidenceReference {
    EvidenceReference::new(e.0.clone(), e.1.clone(), e.2.clone())
}

fn entry(line: &Line) -> CapabilityCatalogueEntry {
    CapabilityCatalogueEntry::new(
        line.podman_minor_line.clone(),
        line.minimum_podman_version.clone(),
        line.maximum_exclusive_podman_version.clone(),
        line.minimum_libpod_api_version.clone(),
        line.observed_podman_version.clone(),
        line.observed_libpod_api_version.clone(),
        line.output_supported,
        line.reported_version_aliases
            .iter()
            .map(|a| {
                ReportedVersionAlias::new(
                    a.podman_version.clone(),
                    a.libpod_api_version.clone(),
                    a.image.clone(),
                    a.package_revision.clone(),
                    a.root_mode.clone(),
                    evidence(&a.evidence),
                )
            })
            .collect(),
        evidence(&line.evidence),
    )
}

fn entries(lines: &[Line]) -> Vec<CapabilityCatalogueEntry> {
    lines.iter().map(entry).collect()
}

fn legacy(min: &str, max: &str, min_api: &str, api: &str, revision: &str, path: &str) -> Line {
    let parts: Vec<&str> = min.split('.').collect();
    Line {
        podman_minor_line: format!("{}.{}", parts[0], parts[1]),
        minimum_podman_version: min.to_string(),
        maximum_exclusive_podman_version: max.to_string(),
        minimum_libpod_api_version: min_api.to_string(),
        observed_podman_version: min.to_string(),
        observed_libpod_api_version: api.to_string(),
        output_supported: false,
        reported_version_aliases: Vec::new(),
        evidence: (
            format!("https://github.com/containers/podman/blob/{revision}/{path}"),
            revision.to_string(),
            format!("v{min}"),
        ),
    }
}

fn output(label: &str, min: &str, max: &str, observed: &str, revision: &str) -> Line {
    Line {
        podman_minor_line: label.to_string(),
        minimum_podman_version: min.to_string(),
        maximum_exclusive_podman_version: max.to_string(),
        minimum_libpod_api_version: "4.0.0".to_string(),
        observed_podman_version: observed.to_string(),
        observed_libpod_api_version: observed.to_string(),
        output_supported: true,
        reported_version_aliases: Vec::new(),
        evidence: (
            format!("https://github.com/containers/podman/blob/{revision}/version/rawversion/rawversion.go"),
            revision.to_string(),
            format!("v{observed}"),
        ),
    }
}

fn catalogue() -> Vec<Line> {
    let mut rhel = legacy(
        "4.9.4",
        "4.9.5",
        "4.0.0",
        "4.9.4",
        "3aceae8ace3c7e3c5591900db32d188cf60be535",
        "version/rawversion/rawversion.go",
    );
    rhel.reported_version_aliases.push(Alias {
        podman_version: "4.9.4-rhel".to_string(),
        libpod_api_version: "4.9.4-rhel".to_string(),
        image: "ghcr.io/strukturpiloten/podman-ubi-8-rootful:v1.0.0@sha256:51dc92fd2165112131a3f070021f7fe382f3fcd541a4f39f7e01fdb8326483fc".to_string(),
        package_revision: "4.9.4-34.module+el8.10.0+24510+6ea3880e.x86_64".to_string(),
        root_mode: "rootful".to_string(),
        evidence: (
            "https://github.com/Strukturpiloten/containers/tree/f0259a080e8a49be43358fc00c4cac89528d4954/images/podman/podman-ubi-8-rootful".to_string(),
            "f0259a080e8a49be43358fc00c4cac89528d4954".to_string(),
            "v1.0.0".to_string(),
        ),
    });
    vec![
        legacy("3.0.1", "3.0.2", "3.0.0", "3.0.0", "c640670e85c4aaaff92741691d6a854a90229d8d", "version/version.go"),
        legacy("3.4.4", "3.4.5", "3.1.0", "3.4.4", "f6526ada1025c2e3f88745ba83b8b461ca659933", "version/version.go"),
        legacy("4.3.1", "4.3.2", "4.0.0", "4.3.1", "814b7b003cc630bf6ab188274706c383f9fb9915", "version/version.go"),
        legacy(
            "4.9.3",
            "4.9.4",
            "4.0.0",
            "4.9.3",
            "8d2b55ddde1bc81f43d018dfc1ac027c06b26a7f",
            "version/rawversion/rawversion.go",
        ),
        rhel,
        output("5.4", "5.4.0", "5.5.0", "5.4.0", "f9f7d48b24b1ca4403f189caaeab1cb8ff4a9aa2"),
        output("5.5", "5.5.0", "5.6.0", "5.5.0", "0123456789abcdef0123456789abcdef01234567"),
        output("5.6", "5.6.0", "5.7.0", "5.6.0", "1123456789abcdef0123456789abcdef01234567"),
        output("5.7", "5.7.0", "5.8.0", "5.7.0", "2123456789abcdef0123456789abcdef01234567"),
        output("5.8", "5.8.0", "6.0.0", "5.8.6", "3123456789abcdef0123456789abcdef01234567"),
        output("6.0", "6.0.0", "6.1.0", "6.0.0", "4123456789abcdef0123456789abcdef01234567"),
        output("6.1", "6.1.0", "6.2.0", "6.1.0", "5123456789abcdef0123456789abcdef01234567"),
    ]
}

fn rejected(lines: &[Line]) -> bool {
    match validate_catalogue(1, entries(lines)) {
        Ok(_) => false,
        Err(error) => error.code() == DiagnosticCode::CatalogueUnavailable,
    }
}

#[test]
fn embedded_catalogue_obeys_the_complete_policy() {
    let accepted = validate_catalogue(1, entries(&catalogue())).unwrap();
    assert_eq!(accepted.len(), 12);
    assert!(rejected(&[]));
    assert!(validate_catalogue(2, entries(&catalogue())).is_err());
}

#[test]
fn malformed_catalogue_policy_is_rejected() {
    let mut lines = catalogue();
    lines[5].maximum_exclusive_podman_version = "5.4.9".to_string();
    assert!(rejected(&lines));
    let mut lines = catalogue();
    lines[6].minimum_podman_version = "5.4.0".to_string();
    assert!(rejected(&lines));
    let mut lines = catalogue();
    lines[5].evidence.0 = lines[5].evidence.0.replacen("f9f7d48b24b1ca4403f189caaeab1cb8ff4a9aa2", "F9f7d48b24b1ca4403f189caaeab1cb8ff4a9aa2", 1);
    assert!(rejected(&lines));
    let mut lines = catalogue();
    lines[5].evidence.2 = "v5.4.1".to_string();
    assert!(rejected(&lines));
    let mut lines = catalogue();
    lines[5].observed_libpod_api_version = "3.9.9".to_string();
    assert!(rejected(&lines));
}

#[test]
fn reordered_catalogue_policy_is_rejected() {
    let mut lines = catalogue();
    lines.swap(0, 1);
    assert!(rejected(&lines));
    let mut lines = catalogue();
    lines.swap(5, 6);
    assert!(rejected(&lines));
}

#[test]
fn individual_evidence_policy_violations_are_rejected() {
    let mut lines = catalogue();
    lines[5].evidence.1.replace_range(0..1, "F");
    assert!(rejected(&lines));
    let mut lines = catalogue();
    lines[5].evidence.0 = "https://example.invalid/mutable".to_string();
    assert!(rejected(&lines));
    let mut lines = catalogue();
    lines[5].observed_podman_version = "5.4.1".to_string();
    assert!(rejected(&lines));
    let mut lines = catalogue();
    lines[0].evidence.0 = "https://example.invalid/mutable".to_string();
    assert!(rejected(&lines));
    let mut lines = catalogue();
    lines[1].observed_libpod_api_version = "3.1.0".to_string();
    assert!(rejected(&lines));
    let mut lines = catalogue();
    lines[4].reported_version_aliases[0].image = "ghcr.io/strukturpiloten/podman-ubi-8-rootful:mutable".to_string();
    assert!(rejected(&lines));
    let mut lines = catalogue();
    lines[4].reported_version_aliases[0].podman_version = "4.9.4-vendor".to_string();
    assert!(rejected(&lines));
}

#[test]
fn vendor_reported_versions_normalize_to_the_observed_release() {
    let accepted = validate_catalogue(1, entries(&catalogue())).unwrap();
    assert_eq!(normalized_reported_version(&accepted, "4.9.4-rhel"), Some("4.9.4".to_string()));
    assert_eq!(normalized_reported_version(&accepted, "5.4.0"), None);
    assert!(accepted[4].matches_reported_podman_version("4.9.4-rhel"));
    assert!(accepted[4].matches_reported_version_pair("4.9.4", "4.9.4"));
    assert!(!accepted[5].matches_reported_version_pair("5.4.0", "4.9.4"));
}
