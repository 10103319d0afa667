//! Observed Podman engine and Libpod API versions and explicit deployment target profiles.

use vstd::prelude::*;

use crate::diagnostic::{fails_with, Diagnostic, DiagnosticCode, PodmanLensResult};
use crate::once::Duplicate;

verus! {

/// The numeric components of a semantic version and whether it has neither pre-release nor
/// build metadata.
#[derive(Clone, Copy, Debug, Eq, PartialEq, Structural)]
pub struct SemverParts {
    pub major: u64,
    pub minor: u64,
    pub patch: u64,
    pub plain: bool,
}

/// The fields of a parsed semantic version: its three numbers and the text of its
/// pre-release and build metadata.
pub struct SemverFields {
    pub major: u64,
    pub minor: u64,
    pub patch: u64,
    pub pre: Seq<char>,
    pub build: Seq<char>,
}

/// What `semver::Version::parse` makes of a text: `None` when it rejects it.
pub uninterp spec fn semver_version(text: Seq<char>) -> Option<SemverFields>;

/// A parsed version as the library reads it: its numbers, and whether it carries neither
/// pre-release nor build metadata.
pub open spec fn semver_parse(text: Seq<char>) -> Option<SemverParts> {
    match semver_version(text) {
        Some(f) => Some(
            SemverParts { major: f.major, minor: f.minor, patch: f.patch, plain: f.pre.len() == 0 && f.build.len() == 0 },
        ),
        None => None,
    }
}

pub(crate) struct SemverText {
    pub(crate) major: u64,
    pub(crate) minor: u64,
    pub(crate) patch: u64,
    pub(crate) pre: String,
    pub(crate) build: String,
}

pub(crate) open spec fn semver_text_view(v: SemverText) -> SemverFields {
    SemverFields { major: v.major, minor: v.minor, patch: v.patch, pre: v.pre@, build: v.build@ }
}

/// Calls `semver::Version::parse` and hands back the version's numbers and the text of its
/// pre-release and build metadata. The contract claims only that the outcome is a function of
/// the text; which texts are valid semantic versions is the crate's SemVer 2.0 grammar.
#[verifier::external_body]
pub(crate) fn semver_fields(text: &str) -> (r: Option<SemverText>)
    ensures
        match (r, semver_version(text@)) {
            (Some(v), Some(f)) => semver_text_view(v) == f,
            (None, None) => true,
            _ => false,
        },
{
    match semver::Version::parse(text) {
        Ok(v) => Some(
            SemverText {
                major: v.major,
                minor: v.minor,
                patch: v.patch,
                pre: v.pre.as_str().to_string(),
                build: v.build.as_str().to_string(),
            },
        ),
        Err(_) => None,
    }
}

/// Parses a semantic version and reads whether it is plain (no pre-release, no build).
pub(crate) fn parse_semver(text: &str) -> (r: Option<SemverParts>)
    ensures
        r == semver_parse(text@),
{
    match semver_fields(text) {
        Some(v) => {
            let plain = v.pre.as_str().is_empty() && v.build.as_str().is_empty();
            Some(SemverParts { major: v.major, minor: v.minor, patch: v.patch, plain })
        },
        None => None,
    }
}

/// The mathematical content of an observed version: its spelling and its numbers.
pub struct VersionView {
    pub text: Seq<char>,
    pub parts: SemverParts,
}

/// A canonical `major.minor.patch` spelling, as `parse` accepts.
pub open spec fn canonical_version(text: Seq<char>) -> bool {
    semver_parse(text) matches Some(p) && p.plain
}

/// Any semantic version spelling, as a service may report it.
pub open spec fn reported_version(text: Seq<char>) -> bool {
    semver_parse(text) is Some
}

/// A Podman engine version observed from a service or chosen for a target.
#[derive(Clone, Debug, Eq, PartialEq)]
pub struct ObservedPodmanVersion {
    text: String,
    parts: SemverParts,
}

/// A Libpod API version observed from a service or chosen for a target.
#[derive(Clone, Debug, Eq, PartialEq)]
pub struct ObservedApiVersion {
    text: String,
    parts: SemverParts,
}

impl View for ObservedPodmanVersion {
    type V = VersionView;

    closed spec fn view(&self) -> VersionView {
        VersionView { text: self.text@, parts: self.parts }
    }
}

impl View for ObservedApiVersion {
    type V = VersionView;

    closed spec fn view(&self) -> VersionView {
        VersionView { text: self.text@, parts: self.parts }
    }
}

impl ObservedPodmanVersion {
    /// Parses a canonical `major.minor.patch` engine version.
    ///
    /// # Errors
    ///
    /// Returns `PLN0004` unless the text is a semantic version without pre-release or build data.
    pub fn parse(text: &str) -> (r: PodmanLensResult<Self>)
        ensures
            r is Ok <==> canonical_version(text@),
            r matches Ok(v) ==> v@.text == text@ && Some(v@.parts) == semver_parse(text@),
            r is Err ==> fails_with(r, DiagnosticCode::InvalidVersion),
    {
        match parse_semver(text) {
            Some(parts) => {
                if parts.plain {
                    Ok(ObservedPodmanVersion { text: text.to_owned(), parts })
                } else {
                    Err(Diagnostic::new(DiagnosticCode::InvalidVersion))
                }
            },
            None => Err(Diagnostic::new(DiagnosticCode::InvalidVersion)),
        }
    }

    /// Parses a version as a service reports it; pre-release and build data are retained in the
    /// spelling.
    ///
    /// # Errors
    ///
    /// Returns `PLN0004` unless the text is a semantic version.
    pub fn parse_reported(text: &str) -> (r: PodmanLensResult<Self>)
        ensures
            r is Ok <==> reported_version(text@),
            r matches Ok(v) ==> v@.text == text@ && Some(v@.parts) == semver_parse(text@),
            r is Err ==> fails_with(r, DiagnosticCode::InvalidVersion),
    {
        match parse_semver(text) {
            Some(parts) => Ok(ObservedPodmanVersion { text: text.to_owned(), parts }),
            None => Err(Diagnostic::new(DiagnosticCode::InvalidVersion)),
        }
    }

    /// Returns the exact observed spelling.
    pub fn original(&self) -> (r: &str)
        ensures
            r@ == self@.text,
    {
        self.text.as_str()
    }

    /// Returns the numeric version components.
    pub fn as_semver(&self) -> (r: SemverParts)
        ensures
            r == self@.parts,
    {
        self.parts
    }
}

impl ObservedApiVersion {
    /// Parses a canonical `major.minor.patch` API version.
    ///
    /// # Errors
    ///
    /// Returns `PLN0004` unless the text is a semantic version without pre-release or build data.
    pub fn parse(text: &str) -> (r: PodmanLensResult<Self>)
        ensures
            r is Ok <==> canonical_version(text@),
            r matches Ok(v) ==> v@.text == text@ && Some(v@.parts) == semver_parse(text@),
            r is Err ==> fails_with(r, DiagnosticCode::InvalidVersion),
    {
        match parse_semver(text) {
            Some(parts) => {
                if parts.plain {
                    Ok(ObservedApiVersion { text: text.to_owned(), parts })
                } else {
                    Err(Diagnostic::new(DiagnosticCode::InvalidVersion))
                }
            },
            None => Err(Diagnostic::new(DiagnosticCode::InvalidVersion)),
        }
    }

    /// Parses an API version as a service reports it.
    ///
    /// # Errors
    ///
    /// Returns `PLN0004` unless the text is a semantic version.
    pub fn parse_reported(text: &str) -> (r: PodmanLensResult<Self>)
        ensures
            r is Ok <==> reported_version(text@),
            r matches Ok(v) ==> v@.text == text@ && Some(v@.parts) == semver_parse(text@),
            r is Err ==> fails_with(r, DiagnosticCode::InvalidVersion),
    {
        match parse_semver(text) {
            Some(parts) => Ok(ObservedApiVersion { text: text.to_owned(), parts }),
            None => Err(Diagnostic::new(DiagnosticCode::InvalidVersion)),
        }
    }

    /// Returns the exact observed spelling.
    pub fn original(&self) -> (r: &str)
        ensures
            r@ == self@.text,
    {
        self.text.as_str()
    }

    /// Returns the numeric version components.
    pub fn as_semver(&self) -> (r: SemverParts)
        ensures
            r == self@.parts,
    {
        self.parts
    }
}

/// Whether a deployment target runs rootless or rootful Podman.
#[derive(Clone, Copy, Debug, Eq, PartialEq, Structural)]
#[non_exhaustive]
pub enum TargetExecutionContext {
    /// An unprivileged user's Podman service.
    Rootless,
    /// The system Podman service.
    Rootful,
}

/// The reviewed deployment-target range: Podman 5.4 through 6.1, with an API of the same
/// major version.
pub open spec fn supported_target(engine: SemverParts, api: SemverParts) -> bool {
    &&& (engine.major == 5 && engine.minor >= 4) || (engine.major == 6 && engine.minor <= 1)
    &&& api.major == engine.major
}

pub struct TargetProfileView {
    pub podman: VersionView,
    pub api: VersionView,
    pub execution_context: Option<TargetExecutionContext>,
}

/// An explicit reviewed deployment target.
#[derive(Clone, Debug, Eq, PartialEq)]
pub struct TargetProfile {
    podman_version: ObservedPodmanVersion,
    api_version: ObservedApiVersion,
    execution_context: Option<TargetExecutionContext>,
}

impl View for TargetProfile {
    type V = TargetProfileView;

    closed spec fn view(&self) -> TargetProfileView {
        TargetProfileView {
            podman: self.podman_version@,
            api: self.api_version@,
            execution_context: self.execution_context,
        }
    }
}

impl TargetProfile {
    /// Selects a target from engine and API versions inside the reviewed range.
    ///
    /// # Errors
    ///
    /// Returns `PLN0005` when the versions are outside the reviewed target range.
    pub fn new(podman_version: ObservedPodmanVersion, api_version: ObservedApiVersion) -> (r:
        PodmanLensResult<Self>)
        ensures
            r is Ok <==> supported_target(podman_version@.parts, api_version@.parts),
            r matches Ok(t) ==> t@ == (TargetProfileView {
                podman: podman_version@,
                api: api_version@,
                execution_context: None,
            }),
            r is Err ==> fails_with(r, DiagnosticCode::IncompatibleTargetProfile),
    {
        let engine = podman_version.as_semver();
        let api = api_version.as_semver();
        let in_range = (engine.major == 5 && engine.minor >= 4) || (engine.major == 6 && engine.minor
            <= 1);
        if in_range && api.major == engine.major {
            Ok(TargetProfile { podman_version, api_version, execution_context: None })
        } else {
            Err(Diagnostic::new(DiagnosticCode::IncompatibleTargetProfile))
        }
    }

    /// Records whether the target runs rootless or rootful Podman.
    pub fn set_execution_context(&mut self, context: TargetExecutionContext)
        ensures
            final(self)@ == (TargetProfileView { execution_context: Some(context), ..old(self)@ }),
    {
        self.execution_context = Some(context);
    }

    /// Returns the target engine version.
    pub fn podman_version(&self) -> (r: &ObservedPodmanVersion)
        ensures
            r@ == self@.podman,
    {
        &self.podman_version
    }

    /// Returns the target API version.
    pub fn api_version(&self) -> (r: &ObservedApiVersion)
        ensures
            r@ == self@.api,
    {
        &self.api_version
    }

    /// Returns the declared execution context, when one was recorded.
    pub fn execution_context(&self) -> (r: Option<TargetExecutionContext>)
        ensures
            r == self@.execution_context,
    {
        self.execution_context
    }
}

impl Duplicate for ObservedPodmanVersion {
    fn duplicate_value(&self) -> (r: Self) {
        ObservedPodmanVersion { text: self.text.clone(), parts: self.parts }
    }
}

impl Duplicate for ObservedApiVersion {
    fn duplicate_value(&self) -> (r: Self) {
        ObservedApiVersion { text: self.text.clone(), parts: self.parts }
    }
}

impl Duplicate for TargetProfile {
    fn duplicate_value(&self) -> (r: Self) {
        TargetProfile {
            podman_version: ObservedPodmanVersion { text: self.podman_version.text.clone(), parts: self.podman_version.parts },
            api_version: ObservedApiVersion { text: self.api_version.text.clone(), parts: self.api_version.parts },
            execution_context: self.execution_context,
        }
    }
}

} // verus!
