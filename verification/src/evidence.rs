//! Immutable provenance for reviewed Podman compatibility lines, and the policy every
//! capability catalogue must satisfy before it is used.

use vstd::prelude::*;

use crate::decode::{decimal, decimal_u64};
use crate::diagnostic::{fails_with, Diagnostic, DiagnosticCode, PodmanLensResult};
use crate::once::views;
use crate::text::{append_chars, str_eq, string_from_chars, to_chars};
use crate::version::{semver_parse, parse_semver, SemverParts};

verus! {

// ---------------------------------------------------------------------------------------------
// Catalogue entries.
// ---------------------------------------------------------------------------------------------
/// The content of an evidence reference.
pub struct EvidenceView {
    pub source: Seq<char>,
    pub revision: Seq<char>,
    pub release_tag: Seq<char>,
}

/// Immutable upstream evidence retained for one reviewed Podman line.
#[derive(Clone, Debug)]
pub struct EvidenceReference {
    source: String,
    revision: String,
    release_tag: String,
}

impl View for EvidenceReference {
    type V = EvidenceView;

    closed spec fn view(&self) -> EvidenceView {
        EvidenceView { source: self.source@, revision: self.revision@, release_tag: self.release_tag@ }
    }
}

impl EvidenceReference {
    /// Evidence at an upstream source URL, Git revision, and release tag.
    pub fn new(source: String, revision: String, release_tag: String) -> (r: Self)
        ensures
            r@ == (EvidenceView { source: source@, revision: revision@, release_tag: release_tag@ }),
    {
        EvidenceReference { source, revision, release_tag }
    }

    /// Returns the immutable upstream source URL.
    pub fn source(&self) -> (r: &str)
        ensures
            r@ == self@.source,
    {
        self.source.as_str()
    }

    /// Returns the exact upstream Git revision.
    pub fn revision(&self) -> (r: &str)
        ensures
            r@ == self@.revision,
    {
        self.revision.as_str()
    }

    /// Returns the reviewed upstream release tag.
    pub fn release_tag(&self) -> (r: &str)
        ensures
            r@ == self@.release_tag,
    {
        self.release_tag.as_str()
    }
}

/// The content of a reported-version alias.
pub struct AliasView {
    pub podman_version: Seq<char>,
    pub libpod_api_version: Seq<char>,
    pub image: Seq<char>,
    pub package_revision: Seq<char>,
    pub root_mode: Seq<char>,
    pub evidence: EvidenceView,
}

/// A vendor build that reports its own version spelling for a reviewed line.
#[derive(Clone, Debug)]
pub struct ReportedVersionAlias {
    podman_version: String,
    libpod_api_version: String,
    image: String,
    package_revision: String,
    root_mode: String,
    evidence: EvidenceReference,
}

impl View for ReportedVersionAlias {
    type V = AliasView;

    closed spec fn view(&self) -> AliasView {
        AliasView {
            podman_version: self.podman_version@,
            libpod_api_version: self.libpod_api_version@,
            image: self.image@,
            package_revision: self.package_revision@,
            root_mode: self.root_mode@,
            evidence: self.evidence@,
        }
    }
}

impl ReportedVersionAlias {
    /// An alias: the reported engine and API versions, the image and package it was observed in,
    /// its root mode, and its evidence.
    pub fn new(
        podman_version: String,
        libpod_api_version: String,
        image: String,
        package_revision: String,
        root_mode: String,
        evidence: EvidenceReference,
    ) -> (r: Self)
        ensures
            r@ == (AliasView {
                podman_version: podman_version@,
                libpod_api_version: libpod_api_version@,
                image: image@,
                package_revision: package_revision@,
                root_mode: root_mode@,
                evidence: evidence@,
            }),
    {
        ReportedVersionAlias { podman_version, libpod_api_version, image, package_revision, root_mode, evidence }
    }
}

/// The content of a catalogue entry.
pub struct EntryView {
    pub podman_minor_line: Seq<char>,
    pub minimum_podman_version: Seq<char>,
    pub maximum_exclusive_podman_version: Seq<char>,
    pub minimum_libpod_api_version: Seq<char>,
    pub observed_podman_version: Seq<char>,
    pub observed_libpod_api_version: Seq<char>,
    pub output_supported: bool,
    pub aliases: Seq<AliasView>,
    pub evidence: EvidenceView,
}

/// One reviewed Podman minor line and its Libpod API target version.
#[derive(Clone, Debug)]
pub struct CapabilityCatalogueEntry {
    podman_minor_line: String,
    minimum_podman_version: String,
    maximum_exclusive_podman_version: String,
    minimum_libpod_api_version: String,
    observed_podman_version: String,
    observed_libpod_api_version: String,
    output_supported: bool,
    reported_version_aliases: Vec<ReportedVersionAlias>,
    evidence: EvidenceReference,
}

impl View for CapabilityCatalogueEntry {
    type V = EntryView;

    closed spec fn view(&self) -> EntryView {
        EntryView {
            podman_minor_line: self.podman_minor_line@,
            minimum_podman_version: self.minimum_podman_version@,
            maximum_exclusive_podman_version: self.maximum_exclusive_podman_version@,
            minimum_libpod_api_version: self.minimum_libpod_api_version@,
            observed_podman_version: self.observed_podman_version@,
            observed_libpod_api_version: self.observed_libpod_api_version@,
            output_supported: self.output_supported,
            aliases: views(self.reported_version_aliases@),
            evidence: self.evidence@,
        }
    }
}

impl CapabilityCatalogueEntry {
    /// An entry of a reviewed line: its label, its engine bounds, its minimum API version, the
    /// versions observed in its evidence release, whether it may be a deployment target, the
    /// aliases vendor builds report for it, and its evidence.
    pub fn new(
        podman_minor_line: String,
        minimum_podman_version: String,
        maximum_exclusive_podman_version: String,
        minimum_libpod_api_version: String,
        observed_podman_version: String,
        observed_libpod_api_version: String,
        output_supported: bool,
        reported_version_aliases: Vec<ReportedVersionAlias>,
        evidence: EvidenceReference,
    ) -> (r: Self)
        ensures
            r@ == (EntryView {
                podman_minor_line: podman_minor_line@,
                minimum_podman_version: minimum_podman_version@,
                maximum_exclusive_podman_version: maximum_exclusive_podman_version@,
                minimum_libpod_api_version: minimum_libpod_api_version@,
                observed_podman_version: observed_podman_version@,
                observed_libpod_api_version: observed_libpod_api_version@,
                output_supported,
                aliases: views(reported_version_aliases@),
                evidence: evidence@,
            }),
    {
        CapabilityCatalogueEntry {
            podman_minor_line,
            minimum_podman_version,
            maximum_exclusive_podman_version,
            minimum_libpod_api_version,
            observed_podman_version,
            observed_libpod_api_version,
            output_supported,
            reported_version_aliases,
            evidence,
        }
    }

    /// Returns the reviewed Podman `major.minor` line.
    pub fn podman_minor_line(&self) -> (r: &str)
        ensures
            r@ == self@.podman_minor_line,
    {
        self.podman_minor_line.as_str()
    }

    /// Returns the first supported Podman patch for the line.
    pub fn minimum_podman_version(&self) -> (r: &str)
        ensures
            r@ == self@.minimum_podman_version,
    {
        self.minimum_podman_version.as_str()
    }

    /// Returns the exclusive upper Podman bound for the line.
    pub fn maximum_exclusive_podman_version(&self) -> (r: &str)
        ensures
            r@ == self@.maximum_exclusive_podman_version,
    {
        self.maximum_exclusive_podman_version.as_str()
    }

    /// Returns the reviewed minimum Libpod API version for the line.
    pub fn minimum_libpod_api_version(&self) -> (r: &str)
        ensures
            r@ == self@.minimum_libpod_api_version,
    {
        self.minimum_libpod_api_version.as_str()
    }

    /// Returns the Podman engine version observed in the immutable evidence release.
    pub fn observed_podman_version(&self) -> (r: &str)
        ensures
            r@ == self@.observed_podman_version,
    {
        self.observed_podman_version.as_str()
    }

    /// Returns the Libpod API version observed in the immutable evidence release.
    pub fn observed_libpod_api_version(&self) -> (r: &str)
        ensures
            r@ == self@.observed_libpod_api_version,
    {
        self.observed_libpod_api_version.as_str()
    }

    /// Returns whether this line has reviewed deployment-output evidence; input-only anchors can
    /// be acquired for migration but never selected as a rendering target.
    pub fn output_supported(&self) -> (r: bool)
        ensures
            r == self@.output_supported,
    {
        self.output_supported
    }

    /// Returns the immutable source evidence.
    pub fn evidence(&self) -> (r: &EvidenceReference)
        ensures
            r@ == self@.evidence,
    {
        &self.evidence
    }

    /// Whether a service reporting engine version `value` belongs to this line: the observed
    /// version or one of its aliases.
    pub fn matches_reported_podman_version(&self, value: &str) -> (r: bool)
        ensures
            r == (value@ == self@.observed_podman_version || exists|i: int|
                0 <= i < self@.aliases.len() && (#[trigger] self@.aliases[i]).podman_version == value@),
    {
        if str_eq(value, self.observed_podman_version.as_str()) {
            return true;
        }
        let mut i: usize = 0;
        while i < self.reported_version_aliases.len()
            invariant
                i <= self.reported_version_aliases.len(),
                forall|j: int| 0 <= j < i ==> (#[trigger] self@.aliases[j]).podman_version != value@,
            decreases self.reported_version_aliases.len() - i,
        {
            assert(self@.aliases[i as int] == self.reported_version_aliases@[i as int]@);
            if str_eq(value, self.reported_version_aliases[i].podman_version.as_str()) {
                return true;
            }
            i = i + 1;
        }
        false
    }

    /// Whether a service reporting engine version `podman` and API version `api` belongs to this
    /// line: the observed pair or one alias's pair.
    pub fn matches_reported_version_pair(&self, podman: &str, api: &str) -> (r: bool)
        ensures
            r == ((podman@ == self@.observed_podman_version && api@ == self@.observed_libpod_api_version) || exists|i: int|
                0 <= i < self@.aliases.len() && (#[trigger] self@.aliases[i]).podman_version == podman@
                    && self@.aliases[i].libpod_api_version == api@),
    {
        if str_eq(podman, self.observed_podman_version.as_str()) && str_eq(api, self.observed_libpod_api_version.as_str()) {
            return true;
        }
        let mut i: usize = 0;
        while i < self.reported_version_aliases.len()
            invariant
                i <= self.reported_version_aliases.len(),
                forall|j: int|
                    0 <= j < i ==> !((#[trigger] self@.aliases[j]).podman_version == podman@ && self@.aliases[j].libpod_api_version
                        == api@),
            decreases self.reported_version_aliases.len() - i,
        {
            let alias = &self.reported_version_aliases[i];
            assert(self@.aliases[i as int] == alias@);
            if str_eq(podman, alias.podman_version.as_str()) && str_eq(api, alias.libpod_api_version.as_str()) {
                return true;
            }
            i = i + 1;
        }
        false
    }
}

// ---------------------------------------------------------------------------------------------
// Versions.
// ---------------------------------------------------------------------------------------------
/// The numbers of a version without pre-release or build data.
pub open spec fn plain_version(text: Seq<char>) -> Option<(u64, u64, u64)> {
    match semver_parse(text) {
        Some(p) => if p.plain {
            Some((p.major, p.minor, p.patch))
        } else {
            None
        },
        None => None,
    }
}

/// Semantic-version order of versions without pre-release or build data.
pub open spec fn version_lt(a: (u64, u64, u64), b: (u64, u64, u64)) -> bool {
    a.0 < b.0 || (a.0 == b.0 && (a.1 < b.1 || (a.1 == b.1 && a.2 < b.2)))
}

/// How a version without pre-release or build data is printed.
pub open spec fn version_text(v: (u64, u64, u64)) -> Seq<char> {
    decimal(v.0 as nat) + "."@ + decimal(v.1 as nat) + "."@ + decimal(v.2 as nat)
}

/// The `major.minor` label of a version.
pub open spec fn minor_label(v: (u64, u64, u64)) -> Seq<char> {
    decimal(v.0 as nat) + "."@ + decimal(v.1 as nat)
}

/// The five versions of an entry, when every one parses without pre-release or build data:
/// minimum, exclusive maximum, minimum API, observed engine, observed API.
pub open spec fn parsed_versions(e: EntryView) -> Option<((u64, u64, u64), (u64, u64, u64), (u64, u64, u64), (u64, u64, u64), (u64, u64, u64))> {
    match (
        plain_version(e.minimum_podman_version),
        plain_version(e.maximum_exclusive_podman_version),
        plain_version(e.minimum_libpod_api_version),
        plain_version(e.observed_podman_version),
        plain_version(e.observed_libpod_api_version),
    ) {
        (Some(a), Some(b), Some(c), Some(d), Some(e)) => Some((a, b, c, d, e)),
        _ => None,
    }
}

/// Forty lower-case hexadecimal digits.
pub open spec fn lowercase_sha40(s: Seq<char>) -> bool {
    s.len() == 40 && forall|i: int| 0 <= i < s.len() ==> ('0' <= #[trigger] s[i] <= '9' || 'a' <= s[i] <= 'f')
}

fn version_numbers(text: &str) -> (r: Option<(u64, u64, u64)>)
    ensures
        r == plain_version(text@),
{
    match parse_semver(text) {
        Some(p) => if p.plain {
            Some((p.major, p.minor, p.patch))
        } else {
            None
        },
        None => None,
    }
}

fn same(a: (u64, u64, u64), b: (u64, u64, u64)) -> (r: bool)
    ensures
        r == (a == b),
{
    a.0 == b.0 && a.1 == b.1 && a.2 == b.2
}

fn less(a: (u64, u64, u64), b: (u64, u64, u64)) -> (r: bool)
    ensures
        r == version_lt(a, b),
{
    a.0 < b.0 || (a.0 == b.0 && (a.1 < b.1 || (a.1 == b.1 && a.2 < b.2)))
}

fn versions_of(
    e: &CapabilityCatalogueEntry,
) -> (r: Option<((u64, u64, u64), (u64, u64, u64), (u64, u64, u64), (u64, u64, u64), (u64, u64, u64))>)
    ensures
        r == parsed_versions(e@),
{
    let a = version_numbers(e.minimum_podman_version.as_str());
    let b = version_numbers(e.maximum_exclusive_podman_version.as_str());
    let c = version_numbers(e.minimum_libpod_api_version.as_str());
    let d = version_numbers(e.observed_podman_version.as_str());
    let f = version_numbers(e.observed_libpod_api_version.as_str());
    match (a, b, c, d, f) {
        (Some(a), Some(b), Some(c), Some(d), Some(f)) => Some((a, b, c, d, f)),
        _ => None,
    }
}

pub(crate) fn is_lowercase_sha40(value: &str) -> (r: bool)
    ensures
        r == lowercase_sha40(value@),
{
    let cs = to_chars(value);
    if cs.len() != 40 {
        return false;
    }
    let mut i: usize = 0;
    while i < cs.len()
        invariant
            i <= cs.len(),
            cs@ == value@,
            forall|j: int| 0 <= j < i ==> ('0' <= #[trigger] cs@[j] <= '9' || 'a' <= cs@[j] <= 'f'),
        decreases cs.len() - i,
    {
        let c = cs[i];
        if !(('0' <= c && c <= '9') || ('a' <= c && c <= 'f')) {
            return false;
        }
        i = i + 1;
    }
    true
}

pub(crate) fn version_text_of(v: (u64, u64, u64)) -> (r: Vec<char>)
    ensures
        r@ == version_text(v),
{
    let mut cs = decimal_u64(v.0);
    append_chars(&mut cs, &to_chars("."));
    append_chars(&mut cs, &decimal_u64(v.1));
    append_chars(&mut cs, &to_chars("."));
    append_chars(&mut cs, &decimal_u64(v.2));
    cs
}

fn minor_label_of(v: (u64, u64, u64)) -> (r: Vec<char>)
    ensures
        r@ == minor_label(v),
{
    let mut cs = decimal_u64(v.0);
    append_chars(&mut cs, &to_chars("."));
    append_chars(&mut cs, &decimal_u64(v.1));
    cs
}

/// `text` spells exactly `expected`.
fn spells(text: &str, expected: &Vec<char>) -> (r: bool)
    ensures
        r == (text@ == expected@),
{
    let cs = to_chars(text);
    crate::text::chars_eq(&cs, expected)
}

/// `prefix` followed by `rest`.
fn joined(prefix: &str, rest: &Vec<char>) -> (r: Vec<char>)
    ensures
        r@ == prefix@ + rest@,
{
    let mut cs = to_chars(prefix);
    append_chars(&mut cs, rest);
    cs
}

// ---------------------------------------------------------------------------------------------
// The catalogue policy.
// ---------------------------------------------------------------------------------------------
/// The reviewed input-only anchors, in catalogue order: minimum engine version, exclusive
/// maximum, minimum API version, observed API version, Podman revision, and the path of the
/// version source file at that revision.
pub open spec fn legacy_anchor(j: int) -> (Seq<char>, Seq<char>, Seq<char>, Seq<char>, Seq<char>, Seq<char>) {
    if j == 0 {
        ("3.0.1"@, "3.0.2"@, "3.0.0"@, "3.0.0"@, "c640670e85c4aaaff92741691d6a854a90229d8d"@, "version/version.go"@)
    } else if j == 1 {
        ("3.4.4"@, "3.4.5"@, "3.1.0"@, "3.4.4"@, "f6526ada1025c2e3f88745ba83b8b461ca659933"@, "version/version.go"@)
    } else if j == 2 {
        ("4.3.1"@, "4.3.2"@, "4.0.0"@, "4.3.1"@, "814b7b003cc630bf6ab188274706c383f9fb9915"@, "version/version.go"@)
    } else if j == 3 {
        (
            "4.9.3"@,
            "4.9.4"@,
            "4.0.0"@,
            "4.9.3"@,
            "8d2b55ddde1bc81f43d018dfc1ac027c06b26a7f"@,
            "version/rawversion/rawversion.go"@,
        )
    } else {
        (
            "4.9.4"@,
            "4.9.5"@,
            "4.0.0"@,
            "4.9.4"@,
            "3aceae8ace3c7e3c5591900db32d188cf60be535"@,
            "version/rawversion/rawversion.go"@,
        )
    }
}

fn legacy_anchor_at(j: usize) -> (r: (&'static str, &'static str, &'static str, &'static str, &'static str, &'static str))
    requires
        j < 5,
    ensures
        (r.0@, r.1@, r.2@, r.3@, r.4@, r.5@) == legacy_anchor(j as int),
{
    if j == 0 {
        ("3.0.1", "3.0.2", "3.0.0", "3.0.0", "c640670e85c4aaaff92741691d6a854a90229d8d", "version/version.go")
    } else if j == 1 {
        ("3.4.4", "3.4.5", "3.1.0", "3.4.4", "f6526ada1025c2e3f88745ba83b8b461ca659933", "version/version.go")
    } else if j == 2 {
        ("4.3.1", "4.3.2", "4.0.0", "4.3.1", "814b7b003cc630bf6ab188274706c383f9fb9915", "version/version.go")
    } else if j == 3 {
        ("4.9.3", "4.9.4", "4.0.0", "4.9.3", "8d2b55ddde1bc81f43d018dfc1ac027c06b26a7f", "version/rawversion/rawversion.go")
    } else {
        ("4.9.4", "4.9.5", "4.0.0", "4.9.4", "3aceae8ace3c7e3c5591900db32d188cf60be535", "version/rawversion/rawversion.go")
    }
}

/// The reviewed vendor alias of the 4.9.4 line: reported engine and API versions, image,
/// package revision, evidence source, revision, and release tag.
pub open spec fn rhel_alias() -> (Seq<char>, Seq<char>, Seq<char>, Seq<char>, Seq<char>, Seq<char>, Seq<char>) {
    (
        "4.9.4-rhel"@,
        "4.9.4-rhel"@,
        "ghcr.io/strukturpiloten/podman-ubi-8-rootful:v1.0.0@sha256:51dc92fd2165112131a3f070021f7fe382f3fcd541a4f39f7e01fdb8326483fc"@,
        "4.9.4-34.module+el8.10.0+24510+6ea3880e.x86_64"@,
        "https://github.com/Strukturpiloten/containers/tree/f0259a080e8a49be43358fc00c4cac89528d4954/images/podman/podman-ubi-8-rootful"@,
        "f0259a080e8a49be43358fc00c4cac89528d4954"@,
        "v1.0.0"@,
    )
}

fn rhel_alias_values() -> (r: (&'static str, &'static str, &'static str, &'static str, &'static str, &'static str, &'static str))
    ensures
        (r.0@, r.1@, r.2@, r.3@, r.4@, r.5@, r.6@) == rhel_alias(),
{
    (
        "4.9.4-rhel",
        "4.9.4-rhel",
        "ghcr.io/strukturpiloten/podman-ubi-8-rootful:v1.0.0@sha256:51dc92fd2165112131a3f070021f7fe382f3fcd541a4f39f7e01fdb8326483fc",
        "4.9.4-34.module+el8.10.0+24510+6ea3880e.x86_64",
        "https://github.com/Strukturpiloten/containers/tree/f0259a080e8a49be43358fc00c4cac89528d4954/images/podman/podman-ubi-8-rootful",
        "f0259a080e8a49be43358fc00c4cac89528d4954",
        "v1.0.0",
    )
}

/// The URL of `path` in the Podman repository at `revision`.
pub open spec fn podman_source(revision: Seq<char>, path: Seq<char>) -> Seq<char> {
    "https://github.com/containers/podman/blob/"@ + revision + "/"@ + path
}

/// Exactly the reviewed vendor alias, with a full lower-case revision.
pub open spec fn valid_rhel_aliases(aliases: Seq<AliasView>) -> bool {
    let r = rhel_alias();
    &&& aliases.len() == 1
    &&& aliases[0].podman_version == r.0
    &&& aliases[0].libpod_api_version == r.1
    &&& aliases[0].image == r.2
    &&& aliases[0].package_revision == r.3
    &&& aliases[0].root_mode == "rootful"@
    &&& aliases[0].evidence.source == r.4
    &&& aliases[0].evidence.revision == r.5
    &&& aliases[0].evidence.release_tag == r.6
    &&& lowercase_sha40(aliases[0].evidence.revision)
}

/// The `j`-th input-only entry agrees with its reviewed anchor.
pub open spec fn legacy_entry_ok(e: EntryView, j: int) -> bool {
    let a = legacy_anchor(j);
    &&& parsed_versions(e) matches Some(vs)
    &&& semver_parse(a.3) matches Some(x)
    &&& e.minimum_podman_version == a.0
    &&& e.maximum_exclusive_podman_version == a.1
    &&& e.minimum_libpod_api_version == a.2
    &&& e.observed_podman_version == a.0
    &&& e.observed_libpod_api_version == a.3
    &&& e.evidence.revision == a.4
    &&& e.evidence.source == podman_source(a.4, a.5)
    &&& vs.0 == vs.3
    &&& x.plain && vs.4 == (x.major, x.minor, x.patch)
    &&& version_lt(vs.0, vs.1)
    &&& e.podman_minor_line == minor_label(vs.0)
    &&& e.evidence.release_tag == "v"@ + version_text(vs.3)
    &&& lowercase_sha40(e.evidence.revision)
    &&& if e.observed_podman_version == "4.9.4"@ {
        valid_rhel_aliases(e.aliases)
    } else {
        e.aliases.len() == 0
    }
}

/// The input-only entries, in order.
pub open spec fn legacy_entries(entries: Seq<EntryView>) -> Seq<EntryView>
    decreases entries.len(),
{
    if entries.len() == 0 {
        Seq::empty()
    } else {
        let before = legacy_entries(entries.drop_last());
        if !entries.last().output_supported {
            before.push(entries.last())
        } else {
            before
        }
    }
}

/// Exactly the five reviewed input-only anchors, in order.
pub open spec fn valid_legacy_catalogue(entries: Seq<EntryView>) -> bool {
    let l = legacy_entries(entries);
    l.len() == 5 && forall|j: int| 0 <= j < 5 ==> legacy_entry_ok(#[trigger] l[j], j)
}

/// An output line starting at `expected`: contiguous, with API 4.0.0, an observed release
/// inside the line whose engine and API versions agree, and immutable evidence.
pub open spec fn output_entry_ok(e: EntryView, expected: (u64, u64, u64)) -> bool {
    &&& e.aliases.len() == 0
    &&& parsed_versions(e) matches Some(vs)
    &&& vs.0 == expected
    &&& version_lt(vs.0, vs.1)
    &&& e.podman_minor_line == minor_label(vs.0)
    &&& vs.2 == (4u64, 0u64, 0u64)
    &&& !version_lt(vs.3, vs.0)
    &&& version_lt(vs.3, vs.1)
    &&& !version_lt(vs.4, vs.2)
    &&& !version_lt(vs.3, vs.4)
    &&& vs.3 == vs.4
    &&& e.evidence.release_tag == "v"@ + version_text(vs.3)
    &&& e.evidence.source == podman_source(e.evidence.revision, "version/rawversion/rawversion.go"@)
    &&& lowercase_sha40(e.evidence.revision)
}

/// Walks the output lines from `expected`: the exclusive maximum they reach, or `None` when one
/// breaks the policy.
pub open spec fn output_run(entries: Seq<EntryView>, expected: (u64, u64, u64)) -> Option<(u64, u64, u64)>
    decreases entries.len(),
{
    if entries.len() == 0 {
        Some(expected)
    } else if !entries[0].output_supported {
        output_run(entries.drop_first(), expected)
    } else if output_entry_ok(entries[0], expected) {
        output_run(entries.drop_first(), parsed_versions(entries[0]).unwrap().1)
    } else {
        None
    }
}

/// The output lines cover 5.4.0 up to 6.2.0 without gaps, in order.
pub open spec fn valid_output_catalogue(entries: Seq<EntryView>) -> bool {
    output_run(entries, (5u64, 4u64, 0u64)) == Some((6u64, 2u64, 0u64))
}

/// The complete catalogue policy.
pub open spec fn valid_catalogue(entries: Seq<EntryView>) -> bool {
    valid_legacy_catalogue(entries) && valid_output_catalogue(entries)
}

fn rhel_aliases_valid(aliases: &Vec<ReportedVersionAlias>) -> (r: bool)
    ensures
        r == valid_rhel_aliases(views(aliases@)),
{
    if aliases.len() != 1 {
        return false;
    }
    let a = &aliases[0];
    assert(views(aliases@)[0] == a@);
    let r = rhel_alias_values();
    str_eq(a.podman_version.as_str(), r.0) && str_eq(a.libpod_api_version.as_str(), r.1) && str_eq(a.image.as_str(), r.2)
        && str_eq(a.package_revision.as_str(), r.3) && str_eq(a.root_mode.as_str(), "rootful") && str_eq(
        a.evidence.source.as_str(),
        r.4,
    ) && str_eq(a.evidence.revision.as_str(), r.5) && str_eq(a.evidence.release_tag.as_str(), r.6)
        && is_lowercase_sha40(a.evidence.revision.as_str())
}

fn legacy_entry_valid(e: &CapabilityCatalogueEntry, j: usize) -> (r: bool)
    requires
        j < 5,
    ensures
        r == legacy_entry_ok(e@, j as int),
{
    let vs = match versions_of(e) {
        Some(vs) => vs,
        None => {
            return false;
        },
    };
    let a = legacy_anchor_at(j);
    let x = match parse_semver(a.3) {
        Some(x) => x,
        None => {
            return false;
        },
    };
    let mut source_chars = joined("https://github.com/containers/podman/blob/", &to_chars(a.4));
    append_chars(&mut source_chars, &to_chars("/"));
    append_chars(&mut source_chars, &to_chars(a.5));
    let tag = joined("v", &version_text_of(vs.3));
    let label = minor_label_of(vs.0);
    let aliases_ok = if str_eq(e.observed_podman_version.as_str(), "4.9.4") {
        rhel_aliases_valid(&e.reported_version_aliases)
    } else {
        e.reported_version_aliases.len() == 0
    };
    proof {
        assert(source_chars@ =~= podman_source(a.4@, a.5@));
        assert(views(e.reported_version_aliases@).len() == e.reported_version_aliases@.len());
    }
    str_eq(e.minimum_podman_version.as_str(), a.0) && str_eq(e.maximum_exclusive_podman_version.as_str(), a.1) && str_eq(
        e.minimum_libpod_api_version.as_str(),
        a.2,
    ) && str_eq(e.observed_podman_version.as_str(), a.0) && str_eq(e.observed_libpod_api_version.as_str(), a.3)
        && str_eq(e.evidence.revision.as_str(), a.4) && spells(e.evidence.source.as_str(), &source_chars) && same(vs.0, vs.3)
        && x.plain && same(vs.4, (x.major, x.minor, x.patch)) && less(vs.0, vs.1) && spells(
        e.podman_minor_line.as_str(),
        &label,
    ) && spells(e.evidence.release_tag.as_str(), &tag) && is_lowercase_sha40(e.evidence.revision.as_str()) && aliases_ok
}

fn legacy_catalogue_valid(entries: &[CapabilityCatalogueEntry]) -> (r: bool)
    ensures
        r == valid_legacy_catalogue(views(entries@)),
{
    let ghost all = views(entries@);
    let mut count: usize = 0;
    let mut ok = true;
    let mut i: usize = 0;
    assert(all.len() == entries@.len());
    while i < entries.len()
        invariant
            i <= entries.len(),
            all == views(entries@),
            all.len() == entries@.len(),
            count == legacy_entries(all.take(i as int)).len(),
            count <= i,
            ok == forall|j: int| 0 <= j < count && j < 5 ==> legacy_entry_ok(#[trigger] legacy_entries(all.take(i as int))[j], j),
        decreases entries.len() - i,
    {
        let e = &entries[i];
        let ghost before = legacy_entries(all.take(i as int));
        proof {
            assert(all.take(i + 1).drop_last() =~= all.take(i as int));
            assert(all.take(i + 1).last() == e@);
        }
        if !e.output_supported {
            if count < 5 {
                let good = legacy_entry_valid(e, count);
                proof {
                    let after = legacy_entries(all.take(i + 1));
                    assert(after == before.push(e@));
                    assert forall|j: int| 0 <= j < count implies after[j] == before[j] by {}
                }
                ok = ok && good;
                proof {
                    let after = legacy_entries(all.take(i + 1));
                    assert(ok == forall|j: int| 0 <= j < count + 1 && j < 5 ==> legacy_entry_ok(#[trigger] after[j], j)) by {
                        if ok {
                            assert forall|j: int| 0 <= j < count + 1 && j < 5 implies legacy_entry_ok(#[trigger] after[j], j) by {
                                if j < count {
                                    assert(after[j] == before[j]);
                                }
                            }
                        }
                        if forall|j: int| 0 <= j < count + 1 && j < 5 ==> legacy_entry_ok(#[trigger] after[j], j) {
                            assert(legacy_entry_ok(after[count as int], count as int));
                            assert forall|j: int| 0 <= j < count && j < 5 implies legacy_entry_ok(#[trigger] before[j], j) by {
                                assert(after[j] == before[j]);
                                assert(legacy_entry_ok(after[j], j));
                            }
                        }
                    }
                }
            } else {
                proof {
                    let after = legacy_entries(all.take(i + 1));
                    assert(after == before.push(e@));
                    assert(ok == forall|j: int| 0 <= j < count + 1 && j < 5 ==> legacy_entry_ok(#[trigger] after[j], j)) by {
                        assert forall|j: int| 0 <= j < count && j < 5 implies after[j] == before[j] by {}
                        if ok {
                            assert forall|j: int| 0 <= j < count + 1 && j < 5 implies legacy_entry_ok(#[trigger] after[j], j) by {
                                assert(after[j] == before[j]);
                            }
                        }
                        if forall|j: int| 0 <= j < count + 1 && j < 5 ==> legacy_entry_ok(#[trigger] after[j], j) {
                            assert forall|j: int| 0 <= j < count && j < 5 implies legacy_entry_ok(#[trigger] before[j], j) by {
                                assert(after[j] == before[j]);
                                assert(legacy_entry_ok(after[j], j));
                            }
                        }
                    }
                }
            }
            count = count + 1;
        }
        i = i + 1;
    }
    assert(all.take(entries.len() as int) =~= all);
    count == 5 && ok
}

fn output_catalogue_valid(entries: &[CapabilityCatalogueEntry]) -> (r: bool)
    ensures
        r == valid_output_catalogue(views(entries@)),
{
    let ghost all = views(entries@);
    let mut expected: (u64, u64, u64) = (5, 4, 0);
    let mut i: usize = 0;
    assert(all.skip(0) =~= all);
    while i < entries.len()
        invariant
            i <= entries.len(),
            all == views(entries@),
            all.len() == entries@.len(),
            output_run(all, (5u64, 4u64, 0u64)) == output_run(all.skip(i as int), expected),
        decreases entries.len() - i,
    {
        let e = &entries[i];
        proof {
            assert(all.skip(i as int)[0] == e@);
            assert(all.skip(i as int).drop_first() =~= all.skip(i + 1));
        }
        if e.output_supported {
            if e.reported_version_aliases.len() != 0 {
                assert(views(e.reported_version_aliases@).len() == e.reported_version_aliases@.len());
                return false;
            }
            assert(views(e.reported_version_aliases@).len() == 0);
            let vs = match versions_of(e) {
                Some(vs) => vs,
                None => {
                    return false;
                },
            };
            let label = minor_label_of(vs.0);
            let tag = joined("v", &version_text_of(vs.3));
            let mut source = to_chars("https://github.com/containers/podman/blob/");
            append_chars(&mut source, &to_chars(e.evidence.revision.as_str()));
            append_chars(&mut source, &to_chars("/version/rawversion/rawversion.go"));
            proof {
                assert(source@ =~= podman_source(e@.evidence.revision, "version/rawversion/rawversion.go"@)) by {
                    reveal_strlit("/");
                    reveal_strlit("/version/rawversion/rawversion.go");
                    reveal_strlit("version/rawversion/rawversion.go");
                }
            }
            let good = same(vs.0, expected) && less(vs.0, vs.1) && spells(e.podman_minor_line.as_str(), &label) && same(
                vs.2,
                (4u64, 0u64, 0u64),
            ) && !less(vs.3, vs.0) && less(vs.3, vs.1) && !less(vs.4, vs.2) && !less(vs.3, vs.4) && same(vs.3, vs.4) && spells(
                e.evidence.release_tag.as_str(),
                &tag,
            ) && spells(e.evidence.source.as_str(), &source) && is_lowercase_sha40(e.evidence.revision.as_str());
            if !good {
                return false;
            }
            expected = vs.1;
        }
        i = i + 1;
    }
    same(expected, (6u64, 2u64, 0u64))
}

/// Checks a decoded catalogue: its schema version must be 1 and its entries must satisfy the
/// complete policy.
///
/// # Errors
///
/// Returns `PLN0006` for another schema version or a policy violation.
pub fn validate_catalogue(schema_version: u8, entries: Vec<CapabilityCatalogueEntry>) -> (r: PodmanLensResult<
    Vec<CapabilityCatalogueEntry>,
>)
    ensures
        r is Ok <==> (schema_version == 1 && valid_catalogue(views(entries@))),
        r matches Ok(v) ==> v@ == entries@,
        r is Err ==> fails_with(r, DiagnosticCode::CatalogueUnavailable),
{
    if schema_version != 1 || !legacy_catalogue_valid(entries.as_slice()) || !output_catalogue_valid(entries.as_slice()) {
        return Err(Diagnostic::new(DiagnosticCode::CatalogueUnavailable));
    }
    Ok(entries)
}

/// The first alias of `e`, from the front of `aliases`, reporting `value` as its engine or API
/// version, normalized to the version observed in the evidence release.
pub open spec fn alias_normalized(aliases: Seq<AliasView>, e: EntryView, value: Seq<char>) -> Option<Seq<char>>
    decreases aliases.len(),
{
    if aliases.len() == 0 {
        None
    } else if aliases[0].podman_version == value {
        Some(e.observed_podman_version)
    } else if aliases[0].libpod_api_version == value {
        Some(e.observed_libpod_api_version)
    } else {
        alias_normalized(aliases.drop_first(), e, value)
    }
}

/// The normalization of `value` by the first entry, in order, with an alias reporting it.
pub open spec fn normalized_version(entries: Seq<EntryView>, value: Seq<char>) -> Option<Seq<char>>
    decreases entries.len(),
{
    if entries.len() == 0 {
        None
    } else {
        match alias_normalized(entries[0].aliases, entries[0], value) {
            Some(v) => Some(v),
            None => normalized_version(entries.drop_first(), value),
        }
    }
}

/// Maps a vendor-reported engine or API version to the version its reviewed line observed.
pub fn normalized_reported_version(entries: &[CapabilityCatalogueEntry], value: &str) -> (r: Option<String>)
    ensures
        opt_text(r) == normalized_version(views(entries@), value@),
{
    let ghost all = views(entries@);
    let mut i: usize = 0;
    assert(all.skip(0) =~= all);
    while i < entries.len()
        invariant
            i <= entries.len(),
            all == views(entries@),
            normalized_version(all, value@) == normalized_version(all.skip(i as int), value@),
        decreases entries.len() - i,
    {
        let e = &entries[i];
        proof {
            assert(all.skip(i as int)[0] == e@);
            assert(all.skip(i as int).drop_first() =~= all.skip(i + 1));
        }
        let ghost aliases = views(e.reported_version_aliases@);
        let mut k: usize = 0;
        assert(aliases.skip(0) =~= aliases);
        while k < e.reported_version_aliases.len()
            invariant
                k <= e.reported_version_aliases.len(),
                i < entries.len(),
                all == views(entries@),
                all.skip(i as int)[0] == e@,
                normalized_version(all, value@) == normalized_version(all.skip(i as int), value@),
                aliases == views(e.reported_version_aliases@),
                alias_normalized(aliases, e@, value@) == alias_normalized(aliases.skip(k as int), e@, value@),
            decreases e.reported_version_aliases.len() - k,
        {
            let a = &e.reported_version_aliases[k];
            proof {
                assert(aliases.skip(k as int)[0] == a@);
                assert(aliases.skip(k as int).drop_first() =~= aliases.skip(k + 1));
            }
            if str_eq(a.podman_version.as_str(), value) {
                return Some(e.observed_podman_version.clone());
            }
            if str_eq(a.libpod_api_version.as_str(), value) {
                return Some(e.observed_libpod_api_version.clone());
            }
            k = k + 1;
        }
        i = i + 1;
    }
    None
}

/// The text of an optional string.
pub open spec fn opt_text(s: Option<String>) -> Option<Seq<char>> {
    match s {
        Some(t) => Some(t@),
        None => None,
    }
}

} // verus!
