//! Rendering of a validated deployment plan into non-executable Podman CLI invocations, Libpod
//! request descriptions and a review-only shell script.

use vstd::prelude::*;

use crate::deployment::{
    DeploymentConnectionReference, DeploymentResource, DeploymentResourceId, DeploymentResourceView, ExternalPrecondition,
    ResourceIdView, SensitiveInputReference,
};
use crate::diagnostic::{Diagnostic, DiagnosticCode};
use crate::inventory::ResourceKind;
use crate::json::{json_view, json_views, member_views, JsonMember, JsonValue, JsonView};
use crate::once::views;
use crate::planning::{DeploymentOperation, DeploymentOperationView, DeploymentPlan, SemanticOperationAction};
use crate::settings::{
    ContainerSettingsView, EnvironmentValueView, MountAccess, NamedVolumeCopyMode, NamedVolumeMount, NamedVolumeMountView,
    RestartPolicy,
};
use crate::observation::texts;
use crate::text::{append_chars, str_eq, string_from_chars, to_chars};

verus! {

// ---------------------------------------------------------------------------------------------
// Text encodings.
// ---------------------------------------------------------------------------------------------
/// A byte that a path segment or query value carries as itself: an ASCII letter or digit, or
/// one of `-`, `.`, `_` and `~`.
pub open spec fn unreserved(b: u8) -> bool {
    (48 <= b <= 57) || (65 <= b <= 90) || (97 <= b <= 122) || b == 45 || b == 46 || b == 95 || b == 126
}

/// The upper-case hexadecimal digit of `n` (below 16).
pub open spec fn hex_digit(n: u8) -> char {
    if n < 10 {
        ((48 + n) as u8) as char
    } else {
        ((55 + n) as u8) as char
    }
}

/// The UTF-8 encoding of a character.
pub open spec fn utf8_bytes(c: char) -> Seq<u8> {
    let v = c as u32;
    if v < 0x80 {
        seq![v as u8]
    } else if v < 0x800 {
        seq![(0xC0 + v / 64) as u8, (0x80 + v % 64) as u8]
    } else if v < 0x10000 {
        seq![(0xE0 + v / 4096) as u8, (0x80 + (v / 64) % 64) as u8, (0x80 + v % 64) as u8]
    } else {
        seq![(0xF0 + v / 262144) as u8, (0x80 + (v / 4096) % 64) as u8, (0x80 + (v / 64) % 64) as u8, (0x80 + v % 64) as u8]
    }
}

/// One byte, percent-encoded unless it is unreserved.
pub open spec fn percent_byte(b: u8) -> Seq<char> {
    if unreserved(b) {
        seq![b as char]
    } else {
        seq!['%', hex_digit(b / 16), hex_digit(b % 16)]
    }
}

/// Bytes, each percent-encoded unless unreserved.
pub open spec fn percent_bytes(bs: Seq<u8>) -> Seq<char>
    decreases bs.len(),
{
    if bs.len() == 0 {
        Seq::empty()
    } else {
        percent_bytes(bs.drop_last()) + percent_byte(bs.last())
    }
}

/// A text percent-encoded byte by byte over its UTF-8 encoding.
pub open spec fn percent_encoded(s: Seq<char>) -> Seq<char>
    decreases s.len(),
{
    if s.len() == 0 {
        Seq::empty()
    } else {
        percent_encoded(s.drop_last()) + percent_bytes(utf8_bytes(s.last()))
    }
}

/// The body of a single-quoted shell word: each `'` becomes `'"'"'`.
pub open spec fn quoted_body(s: Seq<char>) -> Seq<char>
    decreases s.len(),
{
    if s.len() == 0 {
        Seq::empty()
    } else {
        quoted_body(s.drop_last()) + if s.last() == '\'' {
            seq!['\'', '"', '\'', '"', '\'']
        } else {
            seq![s.last()]
        }
    }
}

/// A text as one single-quoted POSIX shell word.
pub open spec fn shell_quoted(s: Seq<char>) -> Seq<char> {
    seq!['\''] + quoted_body(s) + seq!['\'']
}

fn hex_digit_of(n: u8) -> (r: char)
    requires
        n < 16,
    ensures
        r == hex_digit(n),
{
    if n < 10 {
        ((48 + n) as u8) as char
    } else {
        ((55 + n) as u8) as char
    }
}

fn utf8_of(c: char) -> (r: Vec<u8>)
    ensures
        r@ == utf8_bytes(c),
{
    let v = c as u32;
    let mut out: Vec<u8> = Vec::new();
    if v < 0x80 {
        out.push(v as u8);
    } else if v < 0x800 {
        out.push((0xC0 + v / 64) as u8);
        out.push((0x80 + v % 64) as u8);
    } else if v < 0x10000 {
        out.push((0xE0 + v / 4096) as u8);
        out.push((0x80 + (v / 64) % 64) as u8);
        out.push((0x80 + v % 64) as u8);
    } else {
        out.push((0xF0 + v / 262144) as u8);
        out.push((0x80 + (v / 4096) % 64) as u8);
        out.push((0x80 + (v / 64) % 64) as u8);
        out.push((0x80 + v % 64) as u8);
    }
    assert(out@ =~= utf8_bytes(c));
    out
}

/// Percent-encodes a text for a Libpod path segment or query value.
pub fn percent_encode(value: &str) -> (r: String)
    ensures
        r@ == percent_encoded(value@),
{
    let cs = to_chars(value);
    let mut out: Vec<char> = Vec::new();
    let mut i: usize = 0;
    while i < cs.len()
        invariant
            i <= cs.len(),
            cs@ == value@,
            out@ == percent_encoded(cs@.take(i as int)),
        decreases cs.len() - i,
    {
        let bytes = utf8_of(cs[i]);
        let ghost before = out@;
        let mut j: usize = 0;
        while j < bytes.len()
            invariant
                j <= bytes.len(),
                out@ == before + percent_bytes(bytes@.take(j as int)),
            decreases bytes.len() - j,
        {
            let b = bytes[j];
            if (48 <= b && b <= 57) || (65 <= b && b <= 90) || (97 <= b && b <= 122) || b == 45 || b == 46 || b == 95 || b
                == 126 {
                out.push(b as char);
            } else {
                out.push('%');
                out.push(hex_digit_of(b / 16));
                out.push(hex_digit_of(b % 16));
            }
            proof {
                assert(bytes@.take(j + 1).drop_last() =~= bytes@.take(j as int));
                assert(out@ =~= before + percent_bytes(bytes@.take(j + 1)));
            }
            j = j + 1;
        }
        proof {
            assert(bytes@.take(j as int) =~= bytes@);
            assert(cs@.take(i + 1).drop_last() =~= cs@.take(i as int));
        }
        i = i + 1;
    }
    proof {
        assert(cs@.take(i as int) =~= cs@);
    }
    string_from_chars(&out)
}

/// Quotes a text as one single-quoted POSIX shell word.
pub fn shell_quote(value: &str) -> (r: String)
    ensures
        r@ == shell_quoted(value@),
{
    let cs = to_chars(value);
    let mut out: Vec<char> = Vec::new();
    out.push('\'');
    let mut i: usize = 0;
    while i < cs.len()
        invariant
            i <= cs.len(),
            cs@ == value@,
            out@ == seq!['\''] + quoted_body(cs@.take(i as int)),
        decreases cs.len() - i,
    {
        if cs[i] == '\'' {
            out.push('\'');
            out.push('"');
            out.push('\'');
            out.push('"');
            out.push('\'');
        } else {
            out.push(cs[i]);
        }
        proof {
            assert(cs@.take(i + 1).drop_last() =~= cs@.take(i as int));
            assert(out@ =~= seq!['\''] + quoted_body(cs@.take(i + 1)));
        }
        i = i + 1;
    }
    out.push('\'');
    proof {
        assert(cs@.take(i as int) =~= cs@);
        assert(out@ =~= shell_quoted(value@));
    }
    string_from_chars(&out)
}

// ---------------------------------------------------------------------------------------------
// Rendered forms.
// ---------------------------------------------------------------------------------------------
/// Exactness of a rendered operation or plan.
#[derive(Clone, Copy, Debug, PartialEq, Eq, Structural)]
#[non_exhaustive]
pub enum RenderStatus {
    /// Every required input is represented by the rendered forms.
    Exact,
    /// A secret payload must be supplied by the caller at deployment time.
    DeferredSensitiveInput,
    /// A human must complete a reviewed manual step.
    Manual,
    /// The rendered operation intentionally approximates a semantic request.
    Approximate,
    /// No reviewed representation exists for the semantic request.
    Unsupported,
}

/// The content of a rendering finding.
pub struct RenderingFindingView {
    pub code: DiagnosticCode,
    pub subject: Option<ResourceIdView>,
    pub field: Option<Seq<char>>,
}

/// A redacted, stable finding produced while rendering a plan.
#[derive(Clone, Debug)]
pub struct RenderingFinding {
    code: DiagnosticCode,
    subject: Option<DeploymentResourceId>,
    field: Option<String>,
}

impl View for RenderingFinding {
    type V = RenderingFindingView;

    closed spec fn view(&self) -> RenderingFindingView {
        RenderingFindingView {
            code: self.code,
            subject: match self.subject {
                Some(s) => Some(s@),
                None => None,
            },
            field: match self.field {
                Some(f) => Some(f@),
                None => None,
            },
        }
    }
}

/// The finding that a resource's `field` has no reviewed rendering.
pub open spec fn unsupported_finding(subject: ResourceIdView, field: Seq<char>) -> RenderingFindingView {
    RenderingFindingView { code: DiagnosticCode::RenderingUnsupported, subject: Some(subject), field: Some(field) }
}

impl RenderingFinding {
    fn unsupported(subject: &DeploymentResourceId, field: &str) -> (r: Self)
        ensures
            r@ == unsupported_finding(subject@, field@),
    {
        RenderingFinding {
            code: DiagnosticCode::RenderingUnsupported,
            subject: Some(subject.duplicate()),
            field: Some(String::from_str(field)),
        }
    }

    /// Returns the stable rendering rule code.
    pub fn code(&self) -> (r: DiagnosticCode)
        ensures
            r == self@.code,
    {
        self.code
    }

    /// Returns the redacted rule explanation.
    pub fn message(&self) -> (r: &'static str)
        ensures
            r@ == crate::diagnostic::diagnostic_message(self@.code),
    {
        self.code.message()
    }

    /// Returns the affected resource identity, when applicable.
    pub fn subject(&self) -> (r: Option<&DeploymentResourceId>)
        ensures
            match (r, self@.subject) {
                (Some(a), Some(b)) => a@ == b,
                (None, None) => true,
                _ => false,
            },
    {
        self.subject.as_ref()
    }

    /// Returns the affected intent field, when applicable.
    pub fn field(&self) -> (r: Option<&str>)
        ensures
            match (r, self@.field) {
                (Some(a), Some(b)) => a@ == b,
                (None, None) => true,
                _ => false,
            },
    {
        match &self.field {
            Some(f) => Some(f.as_str()),
            None => None,
        }
    }
}

/// HTTP method in a rendered Libpod request.
#[derive(Clone, Copy, Debug, PartialEq, Eq, Structural)]
pub enum RenderedHttpMethod {
    /// HTTP `GET`.
    Get,
    /// HTTP `POST`.
    Post,
}

/// The content of a Libpod request body.
pub enum BodyView {
    Empty,
    Json(JsonView),
    ExternalSensitiveInput(Seq<char>),
}

/// A Libpod request body that is either safe JSON, absent, or deferred sensitive bytes.
pub enum RenderedHttpBody {
    /// No HTTP body is required.
    Empty,
    /// A deterministic typed JSON body.
    Json(JsonValue),
    /// The caller must supply raw sensitive material; the reference is never serialized.
    ExternalSensitiveInput(SensitiveInputReference),
}

impl View for RenderedHttpBody {
    type V = BodyView;

    open spec fn view(&self) -> BodyView {
        match self {
            RenderedHttpBody::Empty => BodyView::Empty,
            RenderedHttpBody::Json(v) => BodyView::Json(json_view(*v)),
            RenderedHttpBody::ExternalSensitiveInput(r) => BodyView::ExternalSensitiveInput(r@),
        }
    }
}

/// The content of one rendered operation: its source operation, exactness, CLI arguments
/// (after `podman`), the external input its CLI form reads, and its Libpod request.
pub struct RenderedOperationView {
    pub operation: DeploymentOperationView,
    pub status: RenderStatus,
    pub argv: Seq<Seq<char>>,
    pub external_input: Option<Seq<char>>,
    pub method: RenderedHttpMethod,
    pub path_and_query: Seq<char>,
    pub body: BodyView,
}

/// The content of a CLI form: the arguments after `podman`, and the secret material it reads
/// from its input.
pub struct CliView {
    pub argv: Seq<Seq<char>>,
    pub external_input: Option<Seq<char>>,
}

/// The CLI form of an operation: `podman`, its arguments, and the secret material it reads from
/// its standard input, if any.
pub struct CliInvocation {
    argv: Vec<String>,
    external_input: Option<SensitiveInputReference>,
}

impl View for CliInvocation {
    type V = CliView;

    closed spec fn view(&self) -> CliView {
        CliView {
            argv: texts(self.argv@),
            external_input: match self.external_input {
                Some(r) => Some(r@),
                None => None,
            },
        }
    }
}

impl CliInvocation {
    /// Returns the fixed executable name.
    pub fn program(&self) -> (r: &'static str)
        ensures
            r@ == "podman"@,
    {
        "podman"
    }

    /// Returns the arguments after `podman`, without shell quoting or interpolation.
    pub fn argv(&self) -> (r: &[String])
        ensures
            texts(r@) == self@.argv,
    {
        self.argv.as_slice()
    }

    /// Returns the secret-material reference the CLI form reads from its input, if any.
    pub fn external_input(&self) -> (r: Option<&SensitiveInputReference>)
        ensures
            match (r, self@.external_input) {
                (Some(a), Some(b)) => a@ == b,
                (None, None) => true,
                _ => false,
            },
    {
        self.external_input.as_ref()
    }
}

/// The content of a Libpod form: method, path and query, and body.
pub struct LibpodView {
    pub method: RenderedHttpMethod,
    pub path_and_query: Seq<char>,
    pub body: BodyView,
}

/// The Libpod form of an operation: its method, path and query, and body.
pub struct LibpodInvocation {
    method: RenderedHttpMethod,
    path_and_query: String,
    body: RenderedHttpBody,
}

impl View for LibpodInvocation {
    type V = LibpodView;

    closed spec fn view(&self) -> LibpodView {
        LibpodView { method: self.method, path_and_query: self.path_and_query@, body: self.body@ }
    }
}

impl LibpodInvocation {
    /// Returns the request method.
    pub fn method(&self) -> (r: RenderedHttpMethod)
        ensures
            r == self@.method,
    {
        self.method
    }

    /// Returns the fully versioned and percent-encoded path and query.
    pub fn path_and_query(&self) -> (r: &str)
        ensures
            r@ == self@.path_and_query,
    {
        self.path_and_query.as_str()
    }

    /// Returns the safe JSON, no body, or external sensitive-input requirement.
    pub fn body(&self) -> (r: &RenderedHttpBody)
        ensures
            r@ == self@.body,
    {
        &self.body
    }
}

/// One semantic operation with both independently reviewable transport renderings.
pub struct RenderedOperation {
    operation: DeploymentOperation,
    status: RenderStatus,
    cli: CliInvocation,
    libpod: LibpodInvocation,
}

impl View for RenderedOperation {
    type V = RenderedOperationView;

    closed spec fn view(&self) -> RenderedOperationView {
        RenderedOperationView {
            operation: self.operation@,
            status: self.status,
            argv: self.cli@.argv,
            external_input: self.cli@.external_input,
            method: self.libpod@.method,
            path_and_query: self.libpod@.path_and_query,
            body: self.libpod@.body,
        }
    }
}

impl RenderedOperation {
    /// Returns the retained semantic source operation.
    pub fn operation(&self) -> (r: &DeploymentOperation)
        ensures
            r@ == self@.operation,
    {
        &self.operation
    }

    /// Returns the exactness of this operation.
    pub fn status(&self) -> (r: RenderStatus)
        ensures
            r == self@.status,
    {
        self.status
    }

    /// Returns the CLI form.
    pub fn cli(&self) -> (r: &CliInvocation)
        ensures
            r@ == (CliView { argv: self@.argv, external_input: self@.external_input }),
    {
        &self.cli
    }

    /// Returns the Libpod form.
    pub fn libpod(&self) -> (r: &LibpodInvocation)
        ensures
            r@ == (LibpodView { method: self@.method, path_and_query: self@.path_and_query, body: self@.body }),
    {
        &self.libpod
    }
}

// ---------------------------------------------------------------------------------------------
// Arguments and bodies.
// ---------------------------------------------------------------------------------------------
/// A value that a `--volume` or `--network` argument can carry unambiguously.
pub open spec fn cli_safe(s: Seq<char>) -> bool {
    !s.contains(':') && !s.contains(',')
}

pub open spec fn access_text(a: MountAccess) -> Seq<char> {
    match a {
        MountAccess::ReadOnly => "ro"@,
        MountAccess::ReadWrite => "rw"@,
    }
}

pub open spec fn copy_text(c: NamedVolumeCopyMode) -> Seq<char> {
    match c {
        NamedVolumeCopyMode::Copy => "copy"@,
        NamedVolumeCopyMode::NoCopy => "nocopy"@,
    }
}

/// The `--volume` value of a named-volume mount.
pub open spec fn mount_value(m: NamedVolumeMountView) -> Seq<char> {
    m.source.name + ":"@ + m.destination + ":"@ + access_text(m.access) + ","@ + copy_text(m.copy_mode)
}

/// The `--volume` arguments of mounts; none when a source or destination is ambiguous.
pub open spec fn mount_args(ms: Seq<NamedVolumeMountView>) -> Option<Seq<Seq<char>>>
    decreases ms.len(),
{
    if ms.len() == 0 {
        Some(Seq::empty())
    } else {
        match mount_args(ms.drop_last()) {
            None => None,
            Some(prev) => if cli_safe(ms.last().source.name) && cli_safe(ms.last().destination) {
                Some(prev + seq!["--volume"@, mount_value(ms.last())])
            } else {
                None
            },
        }
    }
}

/// The `--network` arguments of network references; none when a name is ambiguous.
pub open spec fn network_args(ns: Seq<ResourceIdView>) -> Option<Seq<Seq<char>>>
    decreases ns.len(),
{
    if ns.len() == 0 {
        Some(Seq::empty())
    } else {
        match network_args(ns.drop_last()) {
            None => None,
            Some(prev) => if cli_safe(ns.last().name) {
                Some(prev + seq!["--network"@, ns.last().name])
            } else {
                None
            },
        }
    }
}

/// The Libpod form of one named-volume mount.
pub open spec fn mount_json(m: NamedVolumeMountView) -> JsonView {
    JsonView::Object(
        seq![
            ("Dest"@, JsonView::Text(m.destination)),
            ("Name"@, JsonView::Text(m.source.name)),
            ("Options"@, JsonView::Array(seq![JsonView::Text(access_text(m.access)), JsonView::Text(copy_text(m.copy_mode))])),
        ],
    )
}

/// The Libpod network configuration of network references: each name with no options.
pub open spec fn networks_json(ns: Seq<ResourceIdView>) -> JsonView {
    JsonView::Object(ns.map_values(|n: ResourceIdView| (n.name, JsonView::Object(Seq::empty()))))
}

pub open spec fn text_array(values: Seq<Seq<char>>) -> JsonView {
    JsonView::Array(values.map_values(|v: Seq<char>| JsonView::Text(v)))
}

pub open spec fn restart_text(p: RestartPolicy) -> Seq<char> {
    match p {
        RestartPolicy::No => "no"@,
        RestartPolicy::OnFailure => "on-failure"@,
        RestartPolicy::Always => "always"@,
        RestartPolicy::UnlessStopped => "unless-stopped"@,
    }
}

/// A lower-case hexadecimal digit.
pub open spec fn lower_hex_digit(n: int) -> char {
    if n < 10 {
        (n + 48) as char
    } else {
        (n + 87) as char
    }
}

/// How a JSON string holds one character: quote and backslash escaped, the control characters
/// with a short escape by their short form, the other control characters as `\u00` and two
/// lower-case hexadecimal digits, everything else as it is.
pub open spec fn json_escaped_char(c: char) -> Seq<char> {
    if c == '"' {
        seq!['\\', '"']
    } else if c == '\\' {
        seq!['\\', '\\']
    } else if c == '\u{8}' {
        seq!['\\', 'b']
    } else if c == '\t' {
        seq!['\\', 't']
    } else if c == '\n' {
        seq!['\\', 'n']
    } else if c == '\u{c}' {
        seq!['\\', 'f']
    } else if c == '\r' {
        seq!['\\', 'r']
    } else if (c as int) < 0x20 {
        seq!['\\', 'u', '0', '0', lower_hex_digit((c as int) / 16), lower_hex_digit((c as int) % 16)]
    } else {
        seq![c]
    }
}

/// The characters of a text, each as a JSON string holds it.
pub open spec fn json_escaped(s: Seq<char>) -> Seq<char>
    decreases s.len(),
{
    if s.len() == 0 {
        Seq::empty()
    } else {
        json_escaped(s.drop_last()) + json_escaped_char(s.last())
    }
}

/// A text as a JSON string.
pub open spec fn json_string_literal(s: Seq<char>) -> Seq<char> {
    seq!['"'] + json_escaped(s) + seq!['"']
}

/// The JSON strings of `values`, separated by commas.
pub open spec fn json_string_items(values: Seq<Seq<char>>) -> Seq<char>
    decreases values.len(),
{
    if values.len() == 0 {
        Seq::empty()
    } else if values.len() == 1 {
        json_string_literal(values[0])
    } else {
        json_string_items(values.drop_last()) + seq![','] + json_string_literal(values.last())
    }
}

/// The compact JSON array of strings `values`, as `serde_json::to_string` prints it.
pub open spec fn json_string_array_text(values: Seq<Seq<char>>) -> Seq<char> {
    seq!['['] + json_string_items(values) + seq![']']
}

pub open spec fn opt_args(flag: Seq<char>, v: Option<Seq<char>>) -> Seq<Seq<char>> {
    match v {
        Some(x) => seq![flag, x],
        None => Seq::empty(),
    }
}

/// The `--label` arguments of labels, in order.
pub open spec fn label_args(ls: Seq<crate::settings::LabelView>) -> Seq<Seq<char>>
    decreases ls.len(),
{
    if ls.len() == 0 {
        Seq::empty()
    } else {
        label_args(ls.drop_last()) + seq!["--label"@, ls.last().key + "="@ + ls.last().value]
    }
}

/// The `--env` arguments of environment assignments; none when a value is not public.
pub open spec fn env_args(es: Seq<crate::settings::EnvironmentAssignmentView>) -> Option<Seq<Seq<char>>>
    decreases es.len(),
{
    if es.len() == 0 {
        Some(Seq::empty())
    } else {
        match env_args(es.drop_last()) {
            None => None,
            Some(prev) => match es.last().value {
                EnvironmentValueView::Public(v) => Some(prev + seq!["--env"@, es.last().name + "="@ + v]),
                _ => None,
            },
        }
    }
}

/// The CLI arguments of a container's settings, or the finding that stops them.
pub open spec fn settings_args(id: ResourceIdView, s: ContainerSettingsView) -> Result<Seq<Seq<char>>, RenderingFindingView> {
    let entry: Result<Seq<Seq<char>>, RenderingFindingView> = match s.entrypoint {
        Some(e) => Ok(seq!["--entrypoint"@, json_string_array_text(e)]),
        None => Ok(Seq::empty()),
    };
    match entry {
        Err(f) => Err(f),
        Ok(ea) => match env_args(s.environment) {
            None => Err(unsupported_finding(id, "environment"@)),
            Some(envs) => Ok(
                lead_args(s, ea) + label_args(s.labels) + envs + match s.restart_policy {
                    Some(p) => seq!["--restart"@, restart_text(p)],
                    None => Seq::empty(),
                },
            ),
        },
    }
}

pub open spec fn opt_member(key: Seq<char>, v: Option<JsonView>) -> Seq<(Seq<char>, JsonView)> {
    match v {
        Some(x) => seq![(key, x)],
        None => Seq::empty(),
    }
}

pub open spec fn opt_text(v: Option<Seq<char>>) -> Option<JsonView> {
    match v {
        Some(x) => Some(JsonView::Text(x)),
        None => None,
    }
}

/// The Libpod environment object: each public value under its name.
pub open spec fn env_json(es: Seq<crate::settings::EnvironmentAssignmentView>) -> JsonView {
    JsonView::Object(
        es.map_values(
            |e: crate::settings::EnvironmentAssignmentView|
                (
                    e.name,
                    JsonView::Text(
                        match e.value {
                            EnvironmentValueView::Public(v) => v,
                            _ => Seq::empty(),
                        },
                    ),
                ),
        ),
    )
}

pub open spec fn labels_json(ls: Seq<crate::settings::LabelView>) -> JsonView {
    JsonView::Object(ls.map_values(|l: crate::settings::LabelView| (l.key, JsonView::Text(l.value))))
}

/// The members of a container's creation body up to its environment, in key order.
pub open spec fn container_head(c: crate::deployment::ContainerIntentView) -> Seq<(Seq<char>, JsonView)> {
    let s = c.settings;
    (if c.pod is None {
        seq![("Networks"@, networks_json(c.networks))]
    } else {
        Seq::empty()
    }) + opt_member("command"@, match s.command {
        Some(v) => Some(text_array(v)),
        None => None,
    }) + opt_member("entrypoint"@, match s.entrypoint {
        Some(v) => Some(text_array(v)),
        None => None,
    }) + opt_member("env"@, if s.environment.len() > 0 {
        Some(env_json(s.environment))
    } else {
        None
    })
}

/// The members from `hostname` to `pod`, in key order.
pub open spec fn container_middle(c: crate::deployment::ContainerIntentView, image: Seq<char>) -> Seq<(Seq<char>, JsonView)> {
    let s = c.settings;
    opt_member("hostname"@, opt_text(s.hostname)) + seq![("image"@, JsonView::Text(image))] + opt_member(
        "labels"@,
        if s.labels.len() > 0 {
            Some(labels_json(s.labels))
        } else {
            None
        },
    ) + opt_member("pod"@, match c.pod {
        Some(p) => Some(JsonView::Text(p.name)),
        None => None,
    })
}

/// The members from `restart_policy` to `work_dir`, in key order.
pub open spec fn container_tail(c: crate::deployment::ContainerIntentView) -> Seq<(Seq<char>, JsonView)> {
    let s = c.settings;
    opt_member("restart_policy"@, match s.restart_policy {
        Some(p) => Some(JsonView::Text(restart_text(p))),
        None => None,
    }) + opt_member("user"@, opt_text(s.user)) + opt_member("volumes"@, if c.mounts.len() > 0 {
        Some(JsonView::Array(c.mounts.map_values(|m: NamedVolumeMountView| mount_json(m))))
    } else {
        None
    }) + opt_member("work_dir"@, opt_text(s.workdir))
}

/// The Libpod creation body of a container whose image reference is `image`: its members in
/// key order (the order of serde_json's map).
pub open spec fn container_body(c: crate::deployment::ContainerIntentView, image: Seq<char>) -> JsonView {
    JsonView::Object(container_head(c) + container_middle(c, image) + container_tail(c))
}

/// The Libpod creation body of a pod, its members in key order.
pub open spec fn pod_body(p: crate::deployment::PodIntentView) -> JsonView {
    JsonView::Object(
        seq![("Networks"@, networks_json(p.networks)), ("name"@, JsonView::Text(p.identity.name))] + opt_member(
            "volumes"@,
            if p.infra_mounts.len() > 0 {
                Some(JsonView::Array(p.infra_mounts.map_values(|m: NamedVolumeMountView| mount_json(m))))
            } else {
                None
            },
        ),
    )
}

/// The image source a plan's own image operation gives `id`: the last such operation's.
pub open spec fn managed_source(ops: Seq<DeploymentOperationView>, id: ResourceIdView) -> Option<Seq<char>>
    decreases ops.len(),
{
    if ops.len() == 0 {
        None
    } else {
        match ops.last().resource_intent {
            DeploymentResourceView::Image(i) if i.identity == id => Some(i.source),
            _ => managed_source(ops.drop_last(), id),
        }
    }
}

/// `/v{version}` followed by `rest`.
pub open spec fn versioned(version: Seq<char>, rest: Seq<char>) -> Seq<char> {
    "/v"@ + version + rest
}

/// The `--connection` arguments that open every CLI invocation when a connection is chosen.
pub open spec fn connection_args(connection: Option<Seq<char>>) -> Seq<Seq<char>> {
    match connection {
        Some(c) => seq!["--connection"@, c],
        None => Seq::empty(),
    }
}

/// The transport-specific parts of one rendered operation: exactness, CLI arguments after the
/// connection, external CLI input, method, path and query, and body.
pub struct RenderedParts {
    pub status: RenderStatus,
    pub argv: Seq<Seq<char>>,
    pub input: Option<Seq<char>>,
    pub method: RenderedHttpMethod,
    pub path: Seq<char>,
    pub body: BodyView,
}

/// How one operation renders for `version` within a plan whose operations are `ops`.
pub open spec fn operation_parts(op: DeploymentOperationView, version: Seq<char>, ops: Seq<DeploymentOperationView>) -> Result<
    RenderedParts,
    RenderingFindingView,
> {
    match op.resource_intent {
        DeploymentResourceView::Network(n) => Ok(
            RenderedParts {
                status: RenderStatus::Exact,
                argv: seq!["network"@, "create"@, n.name],
                input: None,
                method: RenderedHttpMethod::Post,
                path: versioned(version, "/libpod/networks/create"@),
                body: BodyView::Json(JsonView::Object(seq![("name"@, JsonView::Text(n.name))])),
            },
        ),
        DeploymentResourceView::Volume(v) => Ok(
            RenderedParts {
                status: RenderStatus::Exact,
                argv: seq!["volume"@, "create"@, v.name],
                input: None,
                method: RenderedHttpMethod::Post,
                path: versioned(version, "/libpod/volumes/create"@),
                body: BodyView::Json(JsonView::Object(seq![("Name"@, JsonView::Text(v.name))])),
            },
        ),
        DeploymentResourceView::Secret(s) => Ok(
            RenderedParts {
                status: RenderStatus::DeferredSensitiveInput,
                argv: seq!["secret"@, "create"@, s.identity.name, "-"@],
                input: Some(s.material),
                method: RenderedHttpMethod::Post,
                path: versioned(version, "/libpod/secrets/create?name="@ + percent_encoded(s.identity.name)),
                body: BodyView::ExternalSensitiveInput(s.material),
            },
        ),
        DeploymentResourceView::Image(i) => Ok(
            RenderedParts {
                status: RenderStatus::Exact,
                argv: seq!["image"@, "pull"@, "--policy=missing"@, i.source],
                input: None,
                method: RenderedHttpMethod::Post,
                path: versioned(version, "/libpod/images/pull?reference="@ + percent_encoded(i.source) + "&policy=missing"@),
                body: BodyView::Empty,
            },
        ),
        DeploymentResourceView::Pod(p) => if op.id.action == SemanticOperationAction::StartPod {
            Ok(
                RenderedParts {
                    status: RenderStatus::Exact,
                    argv: seq!["pod"@, "start"@, p.identity.name],
                    input: None,
                    method: RenderedHttpMethod::Post,
                    path: versioned(version, "/libpod/pods/"@ + percent_encoded(p.identity.name) + "/start"@),
                    body: BodyView::Empty,
                },
            )
        } else {
            match network_args(p.networks) {
                None => Err(unsupported_finding(op.id.resource, "networks.cli_ambiguous"@)),
                Some(na) => match mount_args(p.infra_mounts) {
                    None => Err(unsupported_finding(op.id.resource, "infra_mounts.cli_ambiguous"@)),
                    Some(ma) => Ok(
                        RenderedParts {
                            status: RenderStatus::Exact,
                            argv: seq!["pod"@, "create"@, "--name"@, p.identity.name] + na + ma,
                            input: None,
                            method: RenderedHttpMethod::Post,
                            path: versioned(version, "/libpod/pods/create"@),
                            body: BodyView::Json(pod_body(p)),
                        },
                    ),
                },
            }
        },
        DeploymentResourceView::Container(c) => if op.id.action == SemanticOperationAction::StartContainer {
            Ok(
                RenderedParts {
                    status: RenderStatus::Exact,
                    argv: seq!["container"@, "start"@, c.identity.name],
                    input: None,
                    method: RenderedHttpMethod::Post,
                    path: versioned(version, "/libpod/containers/"@ + percent_encoded(c.identity.name) + "/start"@),
                    body: BodyView::Empty,
                },
            )
        } else {
            let image = match managed_source(ops, c.image) {
                Some(src) => src,
                None => c.image.name,
            };
            let placement: Option<Seq<Seq<char>>> = match c.pod {
                Some(pod) => Some(seq!["--pod"@, pod.name]),
                None => network_args(c.networks),
            };
            match placement {
                None => Err(unsupported_finding(op.id.resource, "networks.cli_ambiguous"@)),
                Some(pa) => match mount_args(c.mounts) {
                    None => Err(unsupported_finding(op.id.resource, "mounts.cli_ambiguous"@)),
                    Some(ma) => match settings_args(op.id.resource, c.settings) {
                        Err(f) => Err(f),
                        Ok(sa) => Ok(
                            RenderedParts {
                                status: RenderStatus::Exact,
                                argv: seq!["container"@, "create"@, "--name"@, c.identity.name, "--pull=never"@] + pa + ma + sa
                                    + seq![image] + match c.settings.command {
                                    Some(cmd) => cmd,
                                    None => Seq::empty(),
                                },
                                input: None,
                                method: RenderedHttpMethod::Post,
                                path: versioned(
                                    version,
                                    "/libpod/containers/create?name="@ + percent_encoded(c.identity.name),
                                ),
                                body: BodyView::Json(container_body(c, image)),
                            },
                        ),
                    },
                },
            }
        },
        DeploymentResourceView::ExternalPrecondition(_) => Err(unsupported_finding(op.id.resource, "resource"@)),
    }
}

/// The rendered form of one operation, or the finding that stops it.
pub open spec fn rendered_operation(
    op: DeploymentOperationView,
    version: Seq<char>,
    connection: Option<Seq<char>>,
    ops: Seq<DeploymentOperationView>,
) -> Result<RenderedOperationView, RenderingFindingView> {
    match operation_parts(op, version, ops) {
        Err(f) => Err(f),
        Ok(p) => Ok(
            RenderedOperationView {
                operation: op,
                status: p.status,
                argv: connection_args(connection) + p.argv,
                external_input: p.input,
                method: p.method,
                path_and_query: p.path,
                body: p.body,
            },
        ),
    }
}

/// Calls `serde_json::to_string` on an array of strings. The contract claims the compact text
/// serde_json's serializer writes: brackets, commas between the elements, and each string
/// quoted with serde_json's escape table. Serializing strings into memory does not fail, so the
/// error arm is never taken.
#[verifier::external_body]
fn encode_string_array(values: &[String]) -> (r: String)
    ensures
        r@ == json_string_array_text(texts(values@)),
{
    match serde_json::to_string(values) {
        Ok(t) => t,
        Err(_) => String::new(),
    }
}

fn concat(a: &str, b: &str) -> (r: String)
    ensures
        r@ == a@ + b@,
{
    let mut cs = to_chars(a);
    append_chars(&mut cs, &to_chars(b));
    string_from_chars(&cs)
}

fn is_cli_safe(value: &str) -> (r: bool)
    ensures
        r == cli_safe(value@),
{
    let cs = to_chars(value);
    let mut i: usize = 0;
    while i < cs.len()
        invariant
            i <= cs.len(),
            cs@ == value@,
            forall|j: int| 0 <= j < i ==> cs@[j] != ':' && cs@[j] != ',',
        decreases cs.len() - i,
    {
        if cs[i] == ':' || cs[i] == ',' {
            assert(value@.contains(cs@[i as int]));
            return false;
        }
        i = i + 1;
    }
    true
}

fn access_str(a: MountAccess) -> (r: &'static str)
    ensures
        r@ == access_text(a),
{
    match a {
        MountAccess::ReadOnly => "ro",
        MountAccess::ReadWrite => "rw",
    }
}

fn copy_str(c: NamedVolumeCopyMode) -> (r: &'static str)
    ensures
        r@ == copy_text(c),
{
    match c {
        NamedVolumeCopyMode::Copy => "copy",
        NamedVolumeCopyMode::NoCopy => "nocopy",
    }
}

fn restart_str(p: RestartPolicy) -> (r: &'static str)
    ensures
        r@ == restart_text(p),
{
    match p {
        RestartPolicy::No => "no",
        RestartPolicy::OnFailure => "on-failure",
        RestartPolicy::Always => "always",
        RestartPolicy::UnlessStopped => "unless-stopped",
    }
}

fn push_text(out: &mut Vec<String>, value: &str)
    ensures
        texts(final(out)@) == texts(old(out)@).push(value@),
{
    out.push(String::from_str(value));
    assert(texts(out@) =~= texts(old(out)@).push(value@));
}

fn push_owned(out: &mut Vec<String>, value: String)
    ensures
        texts(final(out)@) == texts(old(out)@).push(value@),
{
    let ghost v = value@;
    out.push(value);
    assert(texts(out@) =~= texts(old(out)@).push(v));
}

fn push_mount_args(out: &mut Vec<String>, mounts: &[NamedVolumeMount]) -> (r: bool)
    ensures
        match mount_args(crate::deployment::mount_views(mounts@)) {
            Some(a) => r && texts(final(out)@) == texts(old(out)@) + a,
            None => !r,
        },
{
    let ghost ms = crate::deployment::mount_views(mounts@);
    let mut i: usize = 0;
    while i < mounts.len()
        invariant
            i <= mounts.len(),
            ms == crate::deployment::mount_views(mounts@),
            mount_args(ms.take(i as int)) matches Some(a) && texts(out@) == texts(old(out)@) + a,
        decreases mounts.len() - i,
    {
        let m = &mounts[i];
        assert(ms[i as int] == m@);
        assert(ms.take(i + 1).drop_last() =~= ms.take(i as int));
        let source = m.source().name();
        let destination = m.destination().as_str();
        if !is_cli_safe(source) || !is_cli_safe(destination) {
            proof {
                lemma_mount_args_stuck(ms, i as int);
            }
            return false;
        }
        let ghost before = texts(out@);
        push_text(out, "--volume");
        let mut value = concat(source, ":");
        value = concat(value.as_str(), destination);
        value = concat(value.as_str(), ":");
        value = concat(value.as_str(), access_str(m.access()));
        value = concat(value.as_str(), ",");
        value = concat(value.as_str(), copy_str(m.copy_mode()));
        push_owned(out, value);
        proof {
            let a = mount_args(ms.take(i as int))->0;
            assert(texts(out@) =~= texts(old(out)@) + (a + seq!["--volume"@, mount_value(ms[i as int])]));
        }
        i = i + 1;
    }
    assert(ms.take(i as int) =~= ms);
    true
}

proof fn lemma_mount_args_stuck(ms: Seq<NamedVolumeMountView>, i: int)
    requires
        0 <= i < ms.len(),
        !(cli_safe(ms[i].source.name) && cli_safe(ms[i].destination)),
    ensures
        mount_args(ms) is None,
    decreases ms.len(),
{
    if i == ms.len() - 1 {
    } else {
        lemma_mount_args_stuck(ms.drop_last(), i);
    }
}

proof fn lemma_network_args_stuck(ns: Seq<ResourceIdView>, i: int)
    requires
        0 <= i < ns.len(),
        !cli_safe(ns[i].name),
    ensures
        network_args(ns) is None,
    decreases ns.len(),
{
    if i == ns.len() - 1 {
    } else {
        lemma_network_args_stuck(ns.drop_last(), i);
    }
}

fn push_network_args(out: &mut Vec<String>, networks: &[DeploymentResourceId]) -> (r: bool)
    ensures
        match network_args(crate::deployment::id_views(networks@)) {
            Some(a) => r && texts(final(out)@) == texts(old(out)@) + a,
            None => !r,
        },
{
    let ghost ns = crate::deployment::id_views(networks@);
    let mut i: usize = 0;
    while i < networks.len()
        invariant
            i <= networks.len(),
            ns == crate::deployment::id_views(networks@),
            network_args(ns.take(i as int)) matches Some(a) && texts(out@) == texts(old(out)@) + a,
        decreases networks.len() - i,
    {
        assert(ns[i as int] == networks@[i as int]@);
        assert(ns.take(i + 1).drop_last() =~= ns.take(i as int));
        let name = networks[i].name();
        if !is_cli_safe(name) {
            proof {
                lemma_network_args_stuck(ns, i as int);
            }
            return false;
        }
        push_text(out, "--network");
        push_text(out, name);
        proof {
            let a = network_args(ns.take(i as int))->0;
            assert(texts(out@) =~= texts(old(out)@) + (a + seq!["--network"@, ns[i as int].name]));
        }
        i = i + 1;
    }
    assert(ns.take(i as int) =~= ns);
    true
}

proof fn lemma_env_args_stuck(es: Seq<crate::settings::EnvironmentAssignmentView>, i: int)
    requires
        0 <= i < es.len(),
        !(es[i].value is Public),
    ensures
        env_args(es) is None,
    decreases es.len(),
{
    if i == es.len() - 1 {
    } else {
        lemma_env_args_stuck(es.drop_last(), i);
    }
}

/// The arguments that precede labels: entrypoint, user, working directory and hostname.
pub open spec fn lead_args(s: ContainerSettingsView, entry: Seq<Seq<char>>) -> Seq<Seq<char>> {
    entry + opt_args("--user"@, s.user) + opt_args("--workdir"@, s.workdir) + opt_args("--hostname"@, s.hostname)
}

fn push_entrypoint_args(out: &mut Vec<String>, id: &DeploymentResourceId, settings: &crate::settings::ContainerSettings) -> (r:
    Result<(), RenderingFinding>)
    ensures
        match settings@.entrypoint {
            Some(e) => r is Ok && texts(final(out)@) == texts(old(out)@) + seq!["--entrypoint"@, json_string_array_text(e)],
            None => r is Ok && texts(final(out)@) == texts(old(out)@),
        },
{
    match settings.entrypoint() {
        Some(e) => {
            let t = encode_string_array(e.values());
            let ghost tv = t@;
            push_text(out, "--entrypoint");
            push_owned(out, t);
            assert(texts(out@) =~= texts(old(out)@) + seq!["--entrypoint"@, tv]);
            Ok(())
        },
        None => Ok(()),
    }
}

fn push_optional_args(out: &mut Vec<String>, settings: &crate::settings::ContainerSettings)
    ensures
        texts(final(out)@) == texts(old(out)@) + opt_args("--user"@, settings@.user) + opt_args("--workdir"@, settings@.workdir)
            + opt_args("--hostname"@, settings@.hostname),
{
    let ghost s = settings@;
    match settings.user() {
        Some(u) => {
            push_text(out, "--user");
            push_text(out, u.as_str());
        },
        None => {},
    }
    let ghost a1 = texts(out@);
    assert(a1 =~= texts(old(out)@) + opt_args("--user"@, s.user));
    match settings.workdir() {
        Some(w) => {
            push_text(out, "--workdir");
            push_text(out, w.path().as_str());
        },
        None => {},
    }
    let ghost a2 = texts(out@);
    assert(a2 =~= a1 + opt_args("--workdir"@, s.workdir));
    match settings.hostname() {
        Some(h) => {
            push_text(out, "--hostname");
            push_text(out, h.as_str());
        },
        None => {},
    }
    assert(texts(out@) =~= a2 + opt_args("--hostname"@, s.hostname));
}

fn push_label_args(out: &mut Vec<String>, settings: &crate::settings::ContainerSettings)
    ensures
        texts(final(out)@) == texts(old(out)@) + label_args(settings@.labels),
{
    let labels = settings.labels();
    let ghost ls = crate::settings::label_views(labels@);
    let ghost mid = texts(out@);
    let mut i: usize = 0;
    assert(mid =~= mid + label_args(ls.take(0)));
    while i < labels.len()
        invariant
            i <= labels.len(),
            ls == crate::settings::label_views(labels@),
            texts(out@) == mid + label_args(ls.take(i as int)),
        decreases labels.len() - i,
    {
        assert(ls[i as int] == labels@[i as int]@);
        assert(ls.take(i + 1).drop_last() =~= ls.take(i as int));
        push_text(out, "--label");
        let mut value = concat(labels[i].key().as_str(), "=");
        value = concat(value.as_str(), labels[i].value().as_str());
        push_owned(out, value);
        assert(texts(out@) =~= mid + label_args(ls.take(i + 1)));
        i = i + 1;
    }
    assert(ls.take(i as int) =~= ls);
}

fn push_env_args(out: &mut Vec<String>, settings: &crate::settings::ContainerSettings) -> (r: bool)
    ensures
        match env_args(settings@.environment) {
            Some(a) => r && texts(final(out)@) == texts(old(out)@) + a,
            None => !r,
        },
{
    let env = settings.environment();
    let ghost es = crate::settings::environment_views(env@);
    let ghost start = texts(out@);
    let mut j: usize = 0;
    assert(start =~= start + Seq::<Seq<char>>::empty());
    while j < env.len()
        invariant
            j <= env.len(),
            es == crate::settings::environment_views(env@),
            es == settings@.environment,
            env_args(es.take(j as int)) matches Some(a) && texts(out@) == start + a,
        decreases env.len() - j,
    {
        assert(es[j as int] == env@[j as int]@);
        assert(es.take(j + 1).drop_last() =~= es.take(j as int));
        match env[j].value() {
            crate::settings::DeploymentEnvironmentValue::Public(v) => {
                push_text(out, "--env");
                let mut value = concat(env[j].name().as_str(), "=");
                value = concat(value.as_str(), v.as_str());
                push_owned(out, value);
                proof {
                    let a = env_args(es.take(j as int))->0;
                    assert(texts(out@) =~= start + (a + seq!["--env"@, es[j as int].name + "="@ + v@]));
                }
            },
            _ => {
                proof {
                    lemma_env_args_stuck(es, j as int);
                }
                return false;
            },
        }
        j = j + 1;
    }
    assert(es.take(j as int) =~= es);
    true
}

#[verifier::rlimit(40)]
fn push_settings_args(out: &mut Vec<String>, id: &DeploymentResourceId, settings: &crate::settings::ContainerSettings) -> (r:
    Result<(), RenderingFinding>)
    ensures
        match settings_args(id@, settings@) {
            Ok(a) => r is Ok && texts(final(out)@) == texts(old(out)@) + a,
            Err(f) => r matches Err(g) && g@ == f,
        },
{
    let ghost s = settings@;
    let ghost start = texts(out@);
    push_entrypoint_args(out, id, settings)?;
    let ghost ea = texts(out@).skip(start.len() as int);
    assert(texts(out@) =~= start + ea);
    push_optional_args(out, settings);
    let ghost lead = texts(out@).skip(start.len() as int);
    assert(lead =~= lead_args(s, ea));
    assert(texts(out@) =~= start + lead);
    push_label_args(out, settings);
    let ghost with_labels = texts(out@);
    assert(with_labels =~= start + (lead + label_args(s.labels)));
    if !push_env_args(out, settings) {
        return Err(RenderingFinding::unsupported(id, "environment"));
    }
    let ghost envs = env_args(s.environment)->0;
    assert(texts(out@) =~= start + (lead + label_args(s.labels) + envs));
    let ghost before_restart = texts(out@);
    match settings.restart_policy() {
        Some(p) => {
            push_text(out, "--restart");
            push_text(out, restart_str(p));
        },
        None => {},
    }
    let ghost tail = match s.restart_policy {
        Some(p) => seq!["--restart"@, restart_text(p)],
        None => Seq::<Seq<char>>::empty(),
    };
    assert(texts(out@) =~= before_restart + tail);
    assert(texts(out@) =~= start + (lead + label_args(s.labels) + envs + tail));
    Ok(())
}

fn text_value(value: &str) -> (r: JsonValue)
    ensures
        json_view(r) == JsonView::Text(value@),
{
    JsonValue::Text(String::from_str(value))
}

fn push_member(members: &mut Vec<JsonMember>, key: &str, value: JsonValue)
    ensures
        member_views(final(members)@) == member_views(old(members)@).push((key@, json_view(value))),
{
    let m = JsonMember { key: String::from_str(key), value };
    members.push(m);
    assert(members@.drop_last() =~= old(members)@);
}

fn text_array_value(values: &[String]) -> (r: JsonValue)
    ensures
        json_view(r) == text_array(texts(values@)),
{
    let mut items: Vec<JsonValue> = Vec::new();
    let mut i: usize = 0;
    while i < values.len()
        invariant
            i <= values.len(),
            json_views(items@) == texts(values@).take(i as int).map_values(|v: Seq<char>| JsonView::Text(v)),
        decreases values.len() - i,
    {
        let ghost before = items@;
        items.push(text_value(values[i].as_str()));
        assert(items@.drop_last() =~= before);
        assert(json_views(items@) =~= texts(values@).take(i + 1).map_values(|v: Seq<char>| JsonView::Text(v)));
        i = i + 1;
    }
    assert(texts(values@).take(i as int) =~= texts(values@));
    JsonValue::Array(items)
}

fn mount_value_json(m: &NamedVolumeMount) -> (r: JsonValue)
    ensures
        json_view(r) == mount_json(m@),
{
    let mut options: Vec<JsonValue> = Vec::new();
    options.push(text_value(access_str(m.access())));
    options.push(text_value(copy_str(m.copy_mode())));
    let mut members: Vec<JsonMember> = Vec::new();
    assert(member_views(members@) =~= Seq::<(Seq<char>, JsonView)>::empty());
    push_member(&mut members, "Dest", text_value(m.destination().as_str()));
    push_member(&mut members, "Name", text_value(m.source().name()));
    assert(json_views(options@) =~= seq![JsonView::Text(access_text(m@.access)), JsonView::Text(copy_text(m@.copy_mode))]) by {
        reveal_with_fuel(json_views, 3);
        assert(options@.drop_last().drop_last() =~= Seq::<JsonValue>::empty());
        assert(options@.drop_last() =~= seq![options@[0]]);
    }
    push_member(&mut members, "Options", JsonValue::Array(options));
    assert(member_views(members@) =~= seq![
        ("Dest"@, JsonView::Text(m@.destination)),
        ("Name"@, JsonView::Text(m@.source.name)),
        ("Options"@, JsonView::Array(seq![JsonView::Text(access_text(m@.access)), JsonView::Text(copy_text(m@.copy_mode))])),
    ]);
    JsonValue::Object(members)
}

fn mounts_value_json(mounts: &[NamedVolumeMount]) -> (r: JsonValue)
    ensures
        json_view(r) == JsonView::Array(crate::deployment::mount_views(mounts@).map_values(|m: NamedVolumeMountView| mount_json(m))),
{
    let ghost ms = crate::deployment::mount_views(mounts@);
    let mut items: Vec<JsonValue> = Vec::new();
    let mut i: usize = 0;
    while i < mounts.len()
        invariant
            i <= mounts.len(),
            ms == crate::deployment::mount_views(mounts@),
            json_views(items@) == ms.take(i as int).map_values(|m: NamedVolumeMountView| mount_json(m)),
        decreases mounts.len() - i,
    {
        assert(ms[i as int] == mounts@[i as int]@);
        let ghost before = items@;
        items.push(mount_value_json(&mounts[i]));
        assert(items@.drop_last() =~= before);
        assert(json_views(items@) =~= ms.take(i + 1).map_values(|m: NamedVolumeMountView| mount_json(m)));
        i = i + 1;
    }
    assert(ms.take(i as int) =~= ms);
    JsonValue::Array(items)
}

fn networks_value_json(networks: &[DeploymentResourceId]) -> (r: JsonValue)
    ensures
        json_view(r) == networks_json(crate::deployment::id_views(networks@)),
{
    let ghost ns = crate::deployment::id_views(networks@);
    let mut members: Vec<JsonMember> = Vec::new();
    let mut i: usize = 0;
    while i < networks.len()
        invariant
            i <= networks.len(),
            ns == crate::deployment::id_views(networks@),
            member_views(members@) == ns.take(i as int).map_values(
                |n: ResourceIdView| (n.name, JsonView::Object(Seq::empty())),
            ),
        decreases networks.len() - i,
    {
        assert(ns[i as int] == networks@[i as int]@);
        let empty: Vec<JsonMember> = Vec::new();
        assert(member_views(empty@) =~= Seq::<(Seq<char>, JsonView)>::empty());
        push_member(&mut members, networks[i].name(), JsonValue::Object(empty));
        assert(member_views(members@) =~= ns.take(i + 1).map_values(
            |n: ResourceIdView| (n.name, JsonView::Object(Seq::empty())),
        ));
        i = i + 1;
    }
    assert(ns.take(i as int) =~= ns);
    JsonValue::Object(members)
}

fn env_value_json(settings: &crate::settings::ContainerSettings) -> (r: JsonValue)
    ensures
        json_view(r) == env_json(settings@.environment),
{
    let env = settings.environment();
    let ghost es = crate::settings::environment_views(env@);
    let mut members: Vec<JsonMember> = Vec::new();
    let mut i: usize = 0;
    assert(member_views(members@) =~= Seq::<(Seq<char>, JsonView)>::empty());
    while i < env.len()
        invariant
            i <= env.len(),
            es == crate::settings::environment_views(env@),
            member_views(members@) == env_json_members(es.take(i as int)),
        decreases env.len() - i,
    {
        assert(es[i as int] == env@[i as int]@);
        let value = match env[i].value() {
            crate::settings::DeploymentEnvironmentValue::Public(v) => text_value(v.as_str()),
            _ => {
                proof {
                    reveal_strlit("");
                    assert(""@ =~= Seq::<char>::empty());
                }
                text_value("")
            },
        };
        assert(json_view(value) == env_json_members(es.take(i + 1))[i as int].1);
        push_member(&mut members, env[i].name().as_str(), value);
        assert(member_views(members@) =~= env_json_members(es.take(i + 1)));
        i = i + 1;
    }
    assert(es.take(i as int) =~= es);
    JsonValue::Object(members)
}

/// The members of the Libpod environment object.
pub open spec fn env_json_members(es: Seq<crate::settings::EnvironmentAssignmentView>) -> Seq<(Seq<char>, JsonView)> {
    es.map_values(
        |e: crate::settings::EnvironmentAssignmentView|
            (
                e.name,
                JsonView::Text(
                    match e.value {
                        EnvironmentValueView::Public(v) => v,
                        _ => Seq::empty(),
                    },
                ),
            ),
    )
}

fn labels_value_json(settings: &crate::settings::ContainerSettings) -> (r: JsonValue)
    ensures
        json_view(r) == labels_json(settings@.labels),
{
    let labels = settings.labels();
    let ghost ls = crate::settings::label_views(labels@);
    let mut members: Vec<JsonMember> = Vec::new();
    let mut i: usize = 0;
    assert(member_views(members@) =~= Seq::<(Seq<char>, JsonView)>::empty());
    while i < labels.len()
        invariant
            i <= labels.len(),
            ls == crate::settings::label_views(labels@),
            member_views(members@) == ls.take(i as int).map_values(
                |l: crate::settings::LabelView| (l.key, JsonView::Text(l.value)),
            ),
        decreases labels.len() - i,
    {
        assert(ls[i as int] == labels@[i as int]@);
        push_member(&mut members, labels[i].key().as_str(), text_value(labels[i].value().as_str()));
        assert(member_views(members@) =~= ls.take(i + 1).map_values(
            |l: crate::settings::LabelView| (l.key, JsonView::Text(l.value)),
        ));
        i = i + 1;
    }
    assert(ls.take(i as int) =~= ls);
    JsonValue::Object(members)
}

fn push_head_members(members: &mut Vec<JsonMember>, c: &crate::deployment::ContainerIntent)
    ensures
        member_views(final(members)@) == member_views(old(members)@) + container_head(c@),
{
    let ghost cv = c@;
    let settings = c.settings();
    let ghost s = settings@;
    let ghost m0 = member_views(members@);
    if c.pod().is_none() {
        push_member(members, "Networks", networks_value_json(c.networks()));
    }
    let ghost m1 = member_views(members@);
    assert(m1 =~= m0 + (if cv.pod is None {
        seq![("Networks"@, networks_json(cv.networks))]
    } else {
        Seq::<(Seq<char>, JsonView)>::empty()
    }));
    match settings.command() {
        Some(v) => push_member(members, "command", text_array_value(v.values())),
        None => {},
    }
    let ghost m2 = member_views(members@);
    assert(m2 =~= m1 + opt_member("command"@, match s.command {
        Some(v) => Some(text_array(v)),
        None => None,
    }));
    match settings.entrypoint() {
        Some(v) => push_member(members, "entrypoint", text_array_value(v.values())),
        None => {},
    }
    let ghost m3 = member_views(members@);
    assert(m3 =~= m2 + opt_member("entrypoint"@, match s.entrypoint {
        Some(v) => Some(text_array(v)),
        None => None,
    }));
    if settings.environment().len() > 0 {
        push_member(members, "env", env_value_json(settings));
    }
    assert(member_views(members@) =~= m3 + opt_member("env"@, if s.environment.len() > 0 {
        Some(env_json(s.environment))
    } else {
        None
    }));
    assert(member_views(members@) =~= m0 + container_head(cv));
}

fn push_middle_members(members: &mut Vec<JsonMember>, c: &crate::deployment::ContainerIntent, image: &str)
    ensures
        member_views(final(members)@) == member_views(old(members)@) + container_middle(c@, image@),
{
    let ghost cv = c@;
    let settings = c.settings();
    let ghost s = settings@;
    let ghost m0 = member_views(members@);
    match settings.hostname() {
        Some(h) => push_member(members, "hostname", text_value(h.as_str())),
        None => {},
    }
    let ghost m1 = member_views(members@);
    assert(m1 =~= m0 + opt_member("hostname"@, opt_text(s.hostname)));
    push_member(members, "image", text_value(image));
    let ghost m2 = member_views(members@);
    assert(m2 =~= m1 + seq![("image"@, JsonView::Text(image@))]);
    if settings.labels().len() > 0 {
        push_member(members, "labels", labels_value_json(settings));
    }
    let ghost m3 = member_views(members@);
    assert(m3 =~= m2 + opt_member("labels"@, if s.labels.len() > 0 {
        Some(labels_json(s.labels))
    } else {
        None
    }));
    match c.pod() {
        Some(p) => push_member(members, "pod", text_value(p.name())),
        None => {},
    }
    assert(member_views(members@) =~= m3 + opt_member("pod"@, match cv.pod {
        Some(p) => Some(JsonView::Text(p.name)),
        None => None,
    }));
    assert(member_views(members@) =~= m0 + container_middle(cv, image@));
}

fn push_tail_members(members: &mut Vec<JsonMember>, c: &crate::deployment::ContainerIntent)
    ensures
        member_views(final(members)@) == member_views(old(members)@) + container_tail(c@),
{
    let ghost cv = c@;
    let settings = c.settings();
    let ghost s = settings@;
    let ghost m0 = member_views(members@);
    match settings.restart_policy() {
        Some(p) => push_member(members, "restart_policy", text_value(restart_str(p))),
        None => {},
    }
    let ghost m1 = member_views(members@);
    assert(m1 =~= m0 + opt_member("restart_policy"@, match s.restart_policy {
        Some(p) => Some(JsonView::Text(restart_text(p))),
        None => None,
    }));
    match settings.user() {
        Some(u) => push_member(members, "user", text_value(u.as_str())),
        None => {},
    }
    let ghost m2 = member_views(members@);
    assert(m2 =~= m1 + opt_member("user"@, opt_text(s.user)));
    if c.mounts().len() > 0 {
        push_member(members, "volumes", mounts_value_json(c.mounts()));
    }
    let ghost m3 = member_views(members@);
    assert(m3 =~= m2 + opt_member("volumes"@, if cv.mounts.len() > 0 {
        Some(JsonView::Array(cv.mounts.map_values(|m: NamedVolumeMountView| mount_json(m))))
    } else {
        None
    }));
    match settings.workdir() {
        Some(w) => push_member(members, "work_dir", text_value(w.path().as_str())),
        None => {},
    }
    assert(member_views(members@) =~= m3 + opt_member("work_dir"@, opt_text(s.workdir)));
    assert(member_views(members@) =~= m0 + container_tail(cv));
}

fn container_body_value(c: &crate::deployment::ContainerIntent, image: &str) -> (r: JsonValue)
    ensures
        json_view(r) == container_body(c@, image@),
{
    let mut members: Vec<JsonMember> = Vec::new();
    assert(member_views(members@) =~= Seq::<(Seq<char>, JsonView)>::empty());
    push_head_members(&mut members, c);
    push_middle_members(&mut members, c, image);
    push_tail_members(&mut members, c);
    assert(member_views(members@) =~= container_head(c@) + container_middle(c@, image@) + container_tail(c@));
    JsonValue::Object(members)
}

fn pod_body_value(p: &crate::deployment::PodIntent) -> (r: JsonValue)
    ensures
        json_view(r) == pod_body(p@),
{
    let mut members: Vec<JsonMember> = Vec::new();
    assert(member_views(members@) =~= Seq::<(Seq<char>, JsonView)>::empty());
    push_member(&mut members, "Networks", networks_value_json(p.networks()));
    push_member(&mut members, "name", text_value(p.identity().name()));
    if p.infra_mounts().len() > 0 {
        push_member(&mut members, "volumes", mounts_value_json(p.infra_mounts()));
    }
    assert(member_views(members@) =~= seq![("Networks"@, networks_json(p@.networks)), ("name"@, JsonView::Text(p@.identity.name))]
        + opt_member(
        "volumes"@,
        if p@.infra_mounts.len() > 0 {
            Some(JsonView::Array(p@.infra_mounts.map_values(|m: NamedVolumeMountView| mount_json(m))))
        } else {
            None
        },
    ));
    JsonValue::Object(members)
}

fn single_member(key: &str, value: &str) -> (r: JsonValue)
    ensures
        json_view(r) == JsonView::Object(seq![(key@, JsonView::Text(value@))]),
{
    let mut members: Vec<JsonMember> = Vec::new();
    assert(member_views(members@) =~= Seq::<(Seq<char>, JsonView)>::empty());
    push_member(&mut members, key, text_value(value));
    assert(member_views(members@) =~= seq![(key@, JsonView::Text(value@))]);
    JsonValue::Object(members)
}

fn versioned_path(version: &str, rest: &str) -> (r: String)
    ensures
        r@ == versioned(version@, rest@),
{
    let mut cs = to_chars("/v");
    append_chars(&mut cs, &to_chars(version));
    append_chars(&mut cs, &to_chars(rest));
    string_from_chars(&cs)
}

fn managed_source_of(ops: &[DeploymentOperation], id: &DeploymentResourceId) -> (r: Option<String>)
    ensures
        match (r, managed_source(crate::planning::operation_views(ops@), id@)) {
            (Some(a), Some(b)) => a@ == b,
            (None, None) => true,
            _ => false,
        },
{
    let ghost os = crate::planning::operation_views(ops@);
    let mut found: Option<String> = None;
    let mut i: usize = 0;
    while i < ops.len()
        invariant
            i <= ops.len(),
            os == crate::planning::operation_views(ops@),
            match (found, managed_source(os.take(i as int), id@)) {
                (Some(a), Some(b)) => a@ == b,
                (None, None) => true,
                _ => false,
            },
        decreases ops.len() - i,
    {
        assert(os[i as int] == ops@[i as int]@);
        assert(os.take(i + 1).drop_last() =~= os.take(i as int));
        match ops[i].resource_intent() {
            DeploymentResource::Image(image) => {
                if image.identity().same_id(id) {
                    found = Some(String::from_str(image.source()));
                }
            },
            _ => {},
        }
        i = i + 1;
    }
    assert(os.take(i as int) =~= os);
    found
}

struct Parts {
    status: RenderStatus,
    argv: Vec<String>,
    input: Option<SensitiveInputReference>,
    path: String,
    body: RenderedHttpBody,
}

spec fn parts_view(p: Parts) -> RenderedParts {
    RenderedParts {
        status: p.status,
        argv: texts(p.argv@),
        input: crate::once::opt_view(p.input),
        method: RenderedHttpMethod::Post,
        path: p.path@,
        body: p.body@,
    }
}

fn words(a: &str, b: &str, c: &str) -> (r: Vec<String>)
    ensures
        texts(r@) == seq![a@, b@, c@],
{
    let mut out: Vec<String> = Vec::new();
    push_text(&mut out, a);
    push_text(&mut out, b);
    push_text(&mut out, c);
    assert(texts(out@) =~= seq![a@, b@, c@]);
    out
}

fn simple_parts(op: &DeploymentOperation, version: &str, Ghost(os): Ghost<Seq<DeploymentOperationView>>) -> (r: Option<Parts>)
    ensures
        match r {
            Some(p) => operation_parts(op@, version@, os) == Ok::<RenderedParts, RenderingFindingView>(parts_view(p)),
            None => (op@.resource_intent is Pod && op@.id.action != SemanticOperationAction::StartPod) || (
            op@.resource_intent is Container && op@.id.action != SemanticOperationAction::StartContainer)
                || op@.resource_intent is ExternalPrecondition,
        },
{
    match op.resource_intent() {
        DeploymentResource::Network(n) => {
            let p = Parts {
                status: RenderStatus::Exact,
                argv: words("network", "create", n.identity().name()),
                input: None,
                path: versioned_path(version, "/libpod/networks/create"),
                body: RenderedHttpBody::Json(single_member("name", n.identity().name())),
            };
            Some(p)
        },
        DeploymentResource::Volume(v) => Some(
            Parts {
                status: RenderStatus::Exact,
                argv: words("volume", "create", v.identity().name()),
                input: None,
                path: versioned_path(version, "/libpod/volumes/create"),
                body: RenderedHttpBody::Json(single_member("Name", v.identity().name())),
            },
        ),
        DeploymentResource::Secret(sec) => {
            let mut argv = words("secret", "create", sec.identity().name());
            push_text(&mut argv, "-");
            assert(texts(argv@) =~= seq!["secret"@, "create"@, sec@.identity.name, "-"@]);
            let q = concat("/libpod/secrets/create?name=", percent_encode(sec.identity().name()).as_str());
            Some(
                Parts {
                    status: RenderStatus::DeferredSensitiveInput,
                    argv,
                    input: Some(sec.material().duplicate()),
                    path: versioned_path(version, q.as_str()),
                    body: RenderedHttpBody::ExternalSensitiveInput(sec.material().duplicate()),
                },
            )
        },
        DeploymentResource::Image(image) => {
            let mut argv = words("image", "pull", "--policy=missing");
            push_text(&mut argv, image.source());
            assert(texts(argv@) =~= seq!["image"@, "pull"@, "--policy=missing"@, image@.source]);
            let q = concat("/libpod/images/pull?reference=", percent_encode(image.source()).as_str());
            let q = concat(q.as_str(), "&policy=missing");
            Some(
                Parts {
                    status: RenderStatus::Exact,
                    argv,
                    input: None,
                    path: versioned_path(version, q.as_str()),
                    body: RenderedHttpBody::Empty,
                },
            )
        },
        DeploymentResource::Pod(p) => {
            if op.id().action() == SemanticOperationAction::StartPod {
                let q = concat("/libpod/pods/", percent_encode(p.identity().name()).as_str());
                let q = concat(q.as_str(), "/start");
                Some(
                    Parts {
                        status: RenderStatus::Exact,
                        argv: words("pod", "start", p.identity().name()),
                        input: None,
                        path: versioned_path(version, q.as_str()),
                        body: RenderedHttpBody::Empty,
                    },
                )
            } else {
                None
            }
        },
        DeploymentResource::Container(c) => {
            if op.id().action() == SemanticOperationAction::StartContainer {
                let q = concat("/libpod/containers/", percent_encode(c.identity().name()).as_str());
                let q = concat(q.as_str(), "/start");
                Some(
                    Parts {
                        status: RenderStatus::Exact,
                        argv: words("container", "start", c.identity().name()),
                        input: None,
                        path: versioned_path(version, q.as_str()),
                        body: RenderedHttpBody::Empty,
                    },
                )
            } else {
                None
            }
        },
        DeploymentResource::ExternalPrecondition(_) => None,
    }
}

fn pod_create_parts(op: &DeploymentOperation, p: &crate::deployment::PodIntent, version: &str, Ghost(os): Ghost<
    Seq<DeploymentOperationView>,
>) -> (r: Result<Parts, RenderingFinding>)
    requires
        op@.resource_intent == DeploymentResourceView::Pod(p@),
        op@.id.action != SemanticOperationAction::StartPod,
    ensures
        match operation_parts(op@, version@, os) {
            Ok(v) => r matches Ok(x) && parts_view(x) == v,
            Err(f) => r matches Err(g) && g@ == f,
        },
{
    let id = op.id().resource();
    let mut argv = words("pod", "create", "--name");
    push_text(&mut argv, p.identity().name());
    let ghost head = texts(argv@);
    if !push_network_args(&mut argv, p.networks()) {
        return Err(RenderingFinding::unsupported(id, "networks.cli_ambiguous"));
    }
    if !push_mount_args(&mut argv, p.infra_mounts()) {
        return Err(RenderingFinding::unsupported(id, "infra_mounts.cli_ambiguous"));
    }
    proof {
        assert(head =~= seq!["pod"@, "create"@, "--name"@, p@.identity.name]);
    }
    Ok(
        Parts {
            status: RenderStatus::Exact,
            argv,
            input: None,
            path: versioned_path(version, "/libpod/pods/create"),
            body: RenderedHttpBody::Json(pod_body_value(p)),
        },
    )
}

fn push_all_texts(out: &mut Vec<String>, values: &[String])
    ensures
        texts(final(out)@) == texts(old(out)@) + texts(values@),
{
    let mut k: usize = 0;
    let ghost before = texts(out@);
    while k < values.len()
        invariant
            k <= values.len(),
            texts(out@) == before + texts(values@).take(k as int),
        decreases values.len() - k,
    {
        push_text(out, values[k].as_str());
        assert(texts(out@) =~= before + texts(values@).take(k + 1));
        k = k + 1;
    }
    assert(texts(values@).take(k as int) =~= texts(values@));
}

#[verifier::rlimit(40)]
fn container_create_parts(
    op: &DeploymentOperation,
    c: &crate::deployment::ContainerIntent,
    version: &str,
    ops: &[DeploymentOperation],
) -> (r: Result<Parts, RenderingFinding>)
    requires
        op@.resource_intent == DeploymentResourceView::Container(c@),
        op@.id.action != SemanticOperationAction::StartContainer,
    ensures
        match operation_parts(op@, version@, crate::planning::operation_views(ops@)) {
            Ok(v) => r matches Ok(x) && parts_view(x) == v,
            Err(f) => r matches Err(g) && g@ == f,
        },
{
    let id = op.id().resource();
    let image = match managed_source_of(ops, c.image()) {
        Some(src) => src,
        None => String::from_str(c.image().name()),
    };
    let mut argv = words("container", "create", "--name");
    push_text(&mut argv, c.identity().name());
    push_text(&mut argv, "--pull=never");
    let ghost head = texts(argv@);
    assert(head =~= seq!["container"@, "create"@, "--name"@, c@.identity.name, "--pull=never"@]);
    match c.pod() {
        Some(pod) => {
            push_text(&mut argv, "--pod");
            push_text(&mut argv, pod.name());
            assert(texts(argv@) =~= head + seq!["--pod"@, pod@.name]);
        },
        None => {
            if !push_network_args(&mut argv, c.networks()) {
                return Err(RenderingFinding::unsupported(id, "networks.cli_ambiguous"));
            }
        },
    }
    let ghost placement: Seq<Seq<char>> = match c@.pod {
        Some(pod) => seq!["--pod"@, pod.name],
        None => network_args(c@.networks)->0,
    };
    assert(texts(argv@) =~= head + placement);
    let ghost after_placement = texts(argv@);
    if !push_mount_args(&mut argv, c.mounts()) {
        return Err(RenderingFinding::unsupported(id, "mounts.cli_ambiguous"));
    }
    let ghost ma = mount_args(c@.mounts)->0;
    assert(texts(argv@) =~= head + placement + ma);
    push_settings_args(&mut argv, id, c.settings())?;
    let ghost sa = settings_args(id@, c@.settings)->Ok_0;
    assert(texts(argv@) =~= head + placement + ma + sa);
    push_text(&mut argv, image.as_str());
    assert(texts(argv@) =~= head + placement + ma + sa + seq![image@]);
    let ghost before_command = texts(argv@);
    match c.settings().command() {
        Some(cmd) => push_all_texts(&mut argv, cmd.values()),
        None => {},
    }
    assert(texts(argv@) =~= before_command + match c@.settings.command {
        Some(cmd) => cmd,
        None => Seq::<Seq<char>>::empty(),
    });
    assert(texts(argv@) =~= head + placement + ma + sa + seq![image@] + match c@.settings.command {
        Some(cmd) => cmd,
        None => Seq::<Seq<char>>::empty(),
    });
    let q = concat("/libpod/containers/create?name=", percent_encode(c.identity().name()).as_str());
    let body = container_body_value(c, image.as_str());
    Ok(Parts { status: RenderStatus::Exact, argv, input: None, path: versioned_path(version, q.as_str()), body: RenderedHttpBody::Json(body) })
}

fn operation_parts_of(op: &DeploymentOperation, version: &str, ops: &[DeploymentOperation]) -> (r: Result<Parts, RenderingFinding>)
    ensures
        match operation_parts(op@, version@, crate::planning::operation_views(ops@)) {
            Ok(v) => r matches Ok(x) && parts_view(x) == v,
            Err(f) => r matches Err(g) && g@ == f,
        },
{
    let ghost os = crate::planning::operation_views(ops@);
    match simple_parts(op, version, Ghost(os)) {
        Some(p) => Ok(p),
        None => match op.resource_intent() {
            DeploymentResource::Pod(p) => pod_create_parts(op, p, version, Ghost(os)),
            DeploymentResource::Container(c) => container_create_parts(op, c, version, ops),
            _ => Err(RenderingFinding::unsupported(op.id().resource(), "resource")),
        },
    }
}

/// Renders one operation of a plan for `version`, after the optional connection arguments.
pub fn render_operation(
    op: &DeploymentOperation,
    version: &str,
    connection: Option<&DeploymentConnectionReference>,
    ops: &[DeploymentOperation],
) -> (r: Result<RenderedOperation, RenderingFinding>)
    ensures
        match rendered_operation(op@, version@, crate::once::opt_view(connection), crate::planning::operation_views(ops@)) {
            Ok(v) => r matches Ok(x) && x@ == v,
            Err(f) => r matches Err(g) && g@ == f,
        },
{
    let parts = operation_parts_of(op, version, ops)?;
    let mut argv: Vec<String> = Vec::new();
    match connection {
        Some(c) => {
            push_text(&mut argv, "--connection");
            push_text(&mut argv, c.as_str());
        },
        None => {},
    }
    assert(texts(argv@) =~= connection_args(crate::once::opt_view(connection)));
    let Parts { status, argv: rest, input, path, body } = parts;
    let ghost prefix = texts(argv@);
    let mut rest = rest;
    let ghost tail = texts(rest@);
    argv.append(&mut rest);
    assert(texts(argv@) =~= prefix + tail);
    Ok(
        RenderedOperation {
            operation: op.duplicate(),
            status,
            cli: CliInvocation { argv, external_input: input },
            libpod: LibpodInvocation { method: RenderedHttpMethod::Post, path_and_query: path, body },
        },
    )
}

// ---------------------------------------------------------------------------------------------
// Rendering a plan.
// ---------------------------------------------------------------------------------------------
/// The fields of a resource that no reviewed rendering represents: for a container, networks
/// or a restart policy on a pod member, secret grants, and sensitive or external environment
/// values.
pub open spec fn unsupported_field_names(r: DeploymentResourceView) -> Seq<Seq<char>> {
    match r {
        DeploymentResourceView::Container(c) => (if c.pod is Some && c.networks.len() > 0 {
            seq!["networks"@]
        } else {
            Seq::empty()
        }) + (if c.secrets.len() > 0 {
            seq!["secrets"@]
        } else {
            Seq::empty()
        }) + (if exists|k: int| 0 <= k < c.settings.environment.len() && #[trigger] c.settings.environment[k].value is SensitiveInline {
            seq!["environment.sensitive_inline"@]
        } else {
            Seq::empty()
        }) + (if exists|k: int| 0 <= k < c.settings.environment.len() && #[trigger] c.settings.environment[k].value is External {
            seq!["environment.external"@]
        } else {
            Seq::empty()
        }) + (if c.pod is Some && c.settings.restart_policy is Some {
            seq!["restart_policy.pod_member"@]
        } else {
            Seq::empty()
        }),
        _ => Seq::empty(),
    }
}

fn push_if(out: &mut Vec<String>, cond: bool, value: &str)
    ensures
        texts(final(out)@) == texts(old(out)@) + if cond {
            seq![value@]
        } else {
            Seq::<Seq<char>>::empty()
        },
{
    if cond {
        push_text(out, value);
    }
    assert(texts(out@) =~= texts(old(out)@) + if cond {
        seq![value@]
    } else {
        Seq::<Seq<char>>::empty()
    });
}

fn has_env_kind(settings: &crate::settings::ContainerSettings, inline: bool) -> (r: bool)
    ensures
        r == exists|k: int|
            0 <= k < settings@.environment.len() && if inline {
                #[trigger] settings@.environment[k].value is SensitiveInline
            } else {
                settings@.environment[k].value is External
            },
{
    let env = settings.environment();
    let ghost es = crate::settings::environment_views(env@);
    let mut i: usize = 0;
    while i < env.len()
        invariant
            i <= env.len(),
            es == crate::settings::environment_views(env@),
            es == settings@.environment,
            forall|k: int| 0 <= k < i ==> !(if inline {
                #[trigger] es[k].value is SensitiveInline
            } else {
                es[k].value is External
            }),
        decreases env.len() - i,
    {
        assert(es[i as int] == env@[i as int]@);
        let hit = match env[i].value() {
            crate::settings::DeploymentEnvironmentValue::SensitiveInline(_) => inline,
            crate::settings::DeploymentEnvironmentValue::External(_) => !inline,
            _ => false,
        };
        if hit {
            return true;
        }
        i = i + 1;
    }
    false
}

/// The fields of a resource that no reviewed rendering represents.
pub fn unsupported_fields(resource: &DeploymentResource) -> (r: Vec<String>)
    ensures
        texts(r@) == unsupported_field_names(resource@),
{
    let mut out: Vec<String> = Vec::new();
    match resource {
        DeploymentResource::Container(c) => {
            let ghost cv = c@;
            assert(texts(out@) =~= Seq::<Seq<char>>::empty());
            push_if(&mut out, c.pod().is_some() && c.networks().len() > 0, "networks");
            push_if(&mut out, c.secrets().len() > 0, "secrets");
            push_if(&mut out, has_env_kind(c.settings(), true), "environment.sensitive_inline");
            push_if(&mut out, has_env_kind(c.settings(), false), "environment.external");
            push_if(&mut out, c.pod().is_some() && c.settings().restart_policy().is_some(), "restart_policy.pod_member");
            assert(texts(out@) =~= unsupported_field_names(resource@));
        },
        _ => {
            assert(texts(out@) =~= Seq::<Seq<char>>::empty());
        },
    }
    out
}

/// The reviewed renderer version of a target: its engine and API versions are the same
/// semantic version without build metadata, and its `major.minor.patch` is reviewed.
pub open spec fn renderer_target(t: crate::version::TargetProfileView, reviewed: Seq<Seq<char>>) -> Option<Seq<char>> {
    match (crate::version::semver_version(t.podman.text), crate::version::semver_version(t.api.text)) {
        (Some(e), Some(a)) => if e == a && e.build.len() == 0 && reviewed.contains(
            crate::evidence::version_text((e.major, e.minor, e.patch)),
        ) {
            Some(crate::evidence::version_text((e.major, e.minor, e.patch)))
        } else {
            None
        },
        _ => None,
    }
}

fn reviewed_target(target: &crate::version::TargetProfile, reviewed: &[String]) -> (r: Option<String>)
    ensures
        match (r, renderer_target(target@, texts(reviewed@))) {
            (Some(a), Some(b)) => a@ == b,
            (None, None) => true,
            _ => false,
        },
{
    let e = match crate::version::semver_fields(target.podman_version().original()) {
        Some(e) => e,
        None => {
            return None;
        },
    };
    let a = match crate::version::semver_fields(target.api_version().original()) {
        Some(a) => a,
        None => {
            return None;
        },
    };
    let same = e.major == a.major && e.minor == a.minor && e.patch == a.patch && str_eq(e.pre.as_str(), a.pre.as_str())
        && str_eq(e.build.as_str(), a.build.as_str());
    proof {
        let ev = crate::version::semver_text_view(e);
        let av = crate::version::semver_text_view(a);
        if same {
            assert(ev =~= av);
        }
        if ev == av {
            assert(e.pre@ == a.pre@ && e.build@ == a.build@);
        }
    }
    if !same || !e.build.as_str().is_empty() {
        return None;
    }
    let text = string_from_chars(&crate::evidence::version_text_of((e.major, e.minor, e.patch)));
    let ghost rs = texts(reviewed@);
    assert(renderer_target(target@, rs) == if rs.contains(text@) {
        Some(text@)
    } else {
        None
    });
    let mut i: usize = 0;
    while i < reviewed.len()
        invariant
            i <= reviewed.len(),
            rs == texts(reviewed@),
            renderer_target(target@, rs) == if rs.contains(text@) {
                Some(text@)
            } else {
                None
            },
            forall|k: int| 0 <= k < i ==> rs[k] != text@,
        decreases reviewed.len() - i,
    {
        assert(rs[i as int] == reviewed@[i as int]@);
        if str_eq(reviewed[i].as_str(), text.as_str()) {
            assert(rs.contains(text@));
            return Some(text);
        }
        i = i + 1;
    }
    proof {
        if rs.contains(text@) {
            let k = choose|k: int| 0 <= k < rs.len() && rs[k] == text@;
            assert(rs[k] != text@);
        }
    }
    None
}

/// What rendering has produced after some operations: the blocked resources, whether a secret
/// payload is deferred, the rendered operations, and the findings in the order they arose.
pub struct RenderFold {
    pub blocked: Seq<ResourceIdView>,
    pub deferred: bool,
    pub rendered: Seq<RenderedOperationView>,
    pub findings: Seq<RenderingFindingView>,
}

/// Rendering `ops` in order within a plan whose operations are `all`: an operation of a
/// blocked resource is skipped; one with unsupported fields blocks its resource and reports each
/// field; any other is rendered or reports why it cannot be.
pub open spec fn render_fold(
    ops: Seq<DeploymentOperationView>,
    all: Seq<DeploymentOperationView>,
    version: Seq<char>,
    connection: Option<Seq<char>>,
) -> RenderFold
    decreases ops.len(),
{
    if ops.len() == 0 {
        RenderFold { blocked: Seq::empty(), deferred: false, rendered: Seq::empty(), findings: Seq::empty() }
    } else {
        let st = render_fold(ops.drop_last(), all, version, connection);
        let op = ops.last();
        let res = op.id.resource;
        let fields = unsupported_field_names(op.resource_intent);
        if st.blocked.contains(res) {
            st
        } else if fields.len() > 0 {
            RenderFold {
                blocked: st.blocked.push(res),
                findings: st.findings + fields.map_values(|f: Seq<char>| unsupported_finding(res, f)),
                ..st
            }
        } else {
            match rendered_operation(op, version, connection, all) {
                Ok(r) => RenderFold {
                    deferred: st.deferred || r.status == RenderStatus::DeferredSensitiveInput,
                    rendered: st.rendered.push(r),
                    ..st
                },
                Err(f) => RenderFold { findings: st.findings.push(f), ..st },
            }
        }
    }
}

/// The key rendering findings are ordered by: rule code, then subject, then field.
pub open spec fn rendering_finding_key(f: RenderingFindingView) -> Seq<i64> {
    seq![crate::diagnostic::rule_number(f.code) as i64] + crate::planning::opt_id_key(f.subject) + crate::planning::opt_text_key(
        f.field,
    )
}

impl crate::once::SameValue for RenderingFinding {
    fn same_value(&self, other: &Self) -> (r: bool) {
        let subjects = match (&self.subject, &other.subject) {
            (Some(a), Some(b)) => a.same_id(b),
            (None, None) => true,
            _ => false,
        };
        let fields = match (&self.field, &other.field) {
            (Some(a), Some(b)) => str_eq(a.as_str(), b.as_str()),
            (None, None) => true,
            _ => false,
        };
        let r = self.code == other.code && subjects && fields;
        proof {
            if r {
                assert(self@.subject == other@.subject);
                assert(self@.field == other@.field);
            }
        }
        r
    }
}

impl crate::order::Keyed for RenderingFinding {
    open spec fn key_of(v: RenderingFindingView) -> Seq<i64> {
        rendering_finding_key(v)
    }

    fn key(&self) -> (r: Vec<i64>) {
        let mut out: Vec<i64> = Vec::new();
        out.push(crate::diagnostic::rule_number_of(self.code));
        match &self.subject {
            None => {
                out.push(0);
            },
            Some(id) => {
                out.push(1);
                let k = crate::planning::id_key_exec(id);
                crate::planning::append_key(&mut out, &k);
            },
        }
        match &self.field {
            None => {
                out.push(0);
            },
            Some(f) => {
                out.push(1);
                let k = crate::planning::text_key_exec(f.as_str());
                crate::planning::append_key(&mut out, &k);
            },
        }
        assert(out@ =~= rendering_finding_key(self@));
        out
    }
}

/// The content of a complete rendering.
pub struct RenderingView {
    pub status: RenderStatus,
    pub connection: Option<Seq<char>>,
    pub external_preconditions: Seq<ResourceIdView>,
    pub operations: Seq<RenderedOperationView>,
}

/// Complete rendering of a validated deployment plan.
pub struct DeploymentRendering {
    status: RenderStatus,
    connection: Option<DeploymentConnectionReference>,
    external_preconditions: Vec<ExternalPrecondition>,
    operations: Vec<RenderedOperation>,
}

impl View for DeploymentRendering {
    type V = RenderingView;

    closed spec fn view(&self) -> RenderingView {
        RenderingView {
            status: self.status,
            connection: crate::once::opt_view(self.connection),
            external_preconditions: views(self.external_preconditions@),
            operations: views(self.operations@),
        }
    }
}

/// The content of a rendering outcome: the rendering, when one was produced, and the sorted
/// findings.
pub struct RenderingOutcomeView {
    pub rendering: Option<RenderingView>,
    pub findings: Seq<RenderingFindingView>,
}

/// Outcome of rendering a plan for its explicitly selected target profile.
pub struct RenderingOutcome {
    rendering: Option<DeploymentRendering>,
    findings: Vec<RenderingFinding>,
}

impl View for RenderingOutcome {
    type V = RenderingOutcomeView;

    closed spec fn view(&self) -> RenderingOutcomeView {
        RenderingOutcomeView {
            rendering: match self.rendering {
                Some(r) => Some(r@),
                None => None,
            },
            findings: views(self.findings@),
        }
    }
}

impl RenderingOutcome {
    /// Returns the complete rendering when no rendering errors occurred.
    pub fn rendering(&self) -> (r: Option<&DeploymentRendering>)
        ensures
            match (r, self@.rendering) {
                (Some(a), Some(b)) => a@ == b,
                (None, None) => true,
                _ => false,
            },
    {
        self.rendering.as_ref()
    }

    /// Returns the sorted rendering findings.
    pub fn findings(&self) -> (r: &[RenderingFinding])
        ensures
            views(r@) == self@.findings,
    {
        self.findings.as_slice()
    }

    /// Returns whether a rendering was produced.
    pub fn is_success(&self) -> (r: bool)
        ensures
            r == (self@.rendering is Some),
    {
        self.rendering.is_some()
    }
}

impl DeploymentRendering {
    /// Returns the aggregate exactness state.
    pub fn status(&self) -> (r: RenderStatus)
        ensures
            r == self@.status,
    {
        self.status
    }

    /// Returns the chosen connection reference, when present.
    pub fn connection(&self) -> (r: Option<&DeploymentConnectionReference>)
        ensures
            crate::once::opt_view(r) == self@.connection,
    {
        self.connection.as_ref()
    }

    /// Returns explicit external prerequisites preserved from the plan.
    pub fn external_preconditions(&self) -> (r: &[ExternalPrecondition])
        ensures
            views(r@) == self@.external_preconditions,
    {
        self.external_preconditions.as_slice()
    }

    /// Returns operations in the plan's sequence.
    pub fn operations(&self) -> (r: &[RenderedOperation])
        ensures
            views(r@) == self@.operations,
    {
        self.operations.as_slice()
    }
}

/// How a plan renders against the reviewed renderer versions: a target-mismatch finding when
/// its target is not reviewed; otherwise the rendering when no finding arose, and the findings
/// (which `render_deployment` sorts).
pub open spec fn rendering_of(
    plan: crate::planning::DeploymentPlanView,
    reviewed: Seq<Seq<char>>,
) -> Option<RenderFold> {
    match renderer_target(plan.target, reviewed) {
        None => None,
        Some(version) => Some(render_fold(plan.operations, plan.operations, version, plan.connection)),
    }
}

fn contains_resource(items: &Vec<DeploymentResourceId>, x: &DeploymentResourceId) -> (r: bool)
    ensures
        r == crate::deployment::id_views(items@).contains(x@),
{
    let ghost v = crate::deployment::id_views(items@);
    let mut i: usize = 0;
    while i < items.len()
        invariant
            i <= items.len(),
            v == crate::deployment::id_views(items@),
            forall|k: int| 0 <= k < i ==> v[k] != x@,
        decreases items.len() - i,
    {
        assert(v[i as int] == items@[i as int]@);
        if items[i].same_id(x) {
            assert(v.contains(x@));
            return true;
        }
        i = i + 1;
    }
    proof {
        if v.contains(x@) {
            let k = choose|k: int| 0 <= k < v.len() && v[k] == x@;
            assert(v[k] != x@);
        }
    }
    false
}

fn copy_preconditions(items: &[ExternalPrecondition]) -> (r: Vec<ExternalPrecondition>)
    ensures
        views(r@) == views(items@),
{
    let mut out: Vec<ExternalPrecondition> = Vec::new();
    let mut i: usize = 0;
    while i < items.len()
        invariant
            i <= items.len(),
            views(out@) == views(items@).take(i as int),
        decreases items.len() - i,
    {
        let ghost prev = out@;
        assert(views(prev).len() == prev.len());
        assert(views(items@).len() == items@.len());
        assert(views(items@)[i as int] == items@[i as int]@);
        let d = items[i].duplicate();
        out.push(d);
        assert(views(out@).len() == out@.len());
        assert forall|j: int| 0 <= j < i + 1 implies views(out@)[j] == views(items@).take(i + 1)[j] by {
            if j < i {
                assert(out@[j] == prev[j]);
                assert(views(prev)[j] == prev[j]@);
            }
        }
        assert(views(out@) =~= views(items@).take(i + 1));
        i = i + 1;
    }
    assert(views(items@).take(i as int) =~= views(items@));
    out
}

/// Renders a validated plan into non-executable CLI and Libpod descriptions.
///
/// Only targets whose engine and API versions are the same semantic version, without build
/// metadata, and whose `major.minor.patch` is among the reviewed renderer versions render;
/// otherwise the outcome holds one target-mismatch finding. Operations are rendered in plan
/// order; a resource with a field no reviewed rendering represents is blocked, with one finding
/// per field, and its later operations are skipped. A rendering is produced only when no finding
/// arose; findings are sorted by rule code, subject and field.
pub fn render_deployment(plan: &DeploymentPlan, reviewed: &[String]) -> (r: RenderingOutcome)
    ensures
        match rendering_of(plan@, texts(reviewed@)) {
            None => r@.rendering is None && r@.findings == seq![
                RenderingFindingView {
                    code: DiagnosticCode::RenderingTargetMismatch,
                    subject: None,
                    field: Some("target"@),
                },
            ],
            Some(st) => {
                &&& crate::order::keys_sorted::<RenderingFinding>(r@.findings)
                &&& r@.findings.len() == st.findings.len()
                &&& forall|x: RenderingFindingView| #[trigger] r@.findings.contains(x) <==> st.findings.contains(x)
                &&& (r@.rendering is Some <==> st.findings.len() == 0)
                &&& r@.rendering matches Some(rv) ==> rv == (RenderingView {
                    status: if st.deferred {
                        RenderStatus::DeferredSensitiveInput
                    } else {
                        RenderStatus::Exact
                    },
                    connection: plan@.connection,
                    external_preconditions: plan@.external_preconditions,
                    operations: st.rendered,
                })
            },
        },
{
    let version = match reviewed_target(plan.target(), reviewed) {
        Some(v) => v,
        None => {
            let finding = RenderingFinding {
                code: DiagnosticCode::RenderingTargetMismatch,
                subject: None,
                field: Some(String::from_str("target")),
            };
            let mut findings: Vec<RenderingFinding> = Vec::new();
            findings.push(finding);
            let r = RenderingOutcome { rendering: None, findings };
            assert(r@.findings =~= seq![
                RenderingFindingView {
                    code: DiagnosticCode::RenderingTargetMismatch,
                    subject: None,
                    field: Some("target"@),
                },
            ]);
            return r;
        },
    };
    let ops = plan.operations();
    let ghost os = crate::planning::operation_views(ops@);
    let ghost conn = plan@.connection;
    let connection = plan.connection();
    let mut blocked: Vec<DeploymentResourceId> = Vec::new();
    let mut deferred = false;
    let mut operations: Vec<RenderedOperation> = Vec::new();
    let mut findings: Vec<RenderingFinding> = Vec::new();
    let mut i: usize = 0;
    proof {
        assert(os.take(0) =~= Seq::<DeploymentOperationView>::empty());
        assert(crate::deployment::id_views(blocked@) =~= Seq::<ResourceIdView>::empty());
        assert(views(operations@) =~= Seq::<RenderedOperationView>::empty());
        assert(views(findings@) =~= Seq::<RenderingFindingView>::empty());
    }
    while i < ops.len()
        invariant
            i <= ops.len(),
            os == crate::planning::operation_views(ops@),
            crate::once::opt_view(connection) == conn,
            ({
                let st = render_fold(os.take(i as int), os, version@, conn);
                &&& crate::deployment::id_views(blocked@) == st.blocked
                &&& deferred == st.deferred
                &&& views(operations@) == st.rendered
                &&& views(findings@) == st.findings
            }),
        decreases ops.len() - i,
    {
        let op = &ops[i];
        assert(os[i as int] == op@);
        assert(os.take(i + 1).drop_last() =~= os.take(i as int));
        let ghost st = render_fold(os.take(i as int), os, version@, conn);
        let id = op.id().resource();
        if contains_resource(&blocked, id) {
            i = i + 1;
            continue;
        }
        let fields = unsupported_fields(op.resource_intent());
        if fields.len() > 0 {
            blocked.push(id.duplicate());
            assert(crate::deployment::id_views(blocked@) =~= st.blocked.push(id@));
            let ghost fs = texts(fields@);
            let mut k: usize = 0;
            while k < fields.len()
                invariant
                    k <= fields.len(),
                    fs == texts(fields@),
                    views(findings@) == st.findings + fs.take(k as int).map_values(|f: Seq<char>| unsupported_finding(id@, f)),
                decreases fields.len() - k,
            {
                let ghost prev = findings@;
                assert(views(prev).len() == prev.len());
                assert(fs.len() == fields@.len());
                assert(fs[k as int] == fields@[k as int]@);
                let f = RenderingFinding::unsupported(id, fields[k].as_str());
                findings.push(f);
                assert(views(findings@).len() == findings@.len());
                assert forall|j: int| 0 <= j < findings@.len() implies views(findings@)[j] == (st.findings + fs.take(k + 1).map_values(
                    |f: Seq<char>| unsupported_finding(id@, f),
                ))[j] by {
                    if j < prev.len() {
                        assert(findings@[j] == prev[j]);
                        assert(views(prev)[j] == prev[j]@);
                    }
                }
                assert(views(findings@) =~= st.findings + fs.take(k + 1).map_values(
                    |f: Seq<char>| unsupported_finding(id@, f),
                ));
                k = k + 1;
            }
            assert(fs.take(k as int) =~= fs);
            i = i + 1;
            continue;
        }
        assert(texts(fields@).len() == 0);
        match render_operation(op, version.as_str(), connection, ops) {
            Ok(rendered) => {
                deferred = deferred || rendered.status == RenderStatus::DeferredSensitiveInput;
                let ghost rv = rendered@;
                operations.push(rendered);
                assert(views(operations@) =~= st.rendered.push(rv));
            },
            Err(finding) => {
                let ghost fv = finding@;
                findings.push(finding);
                assert(views(findings@) =~= st.findings.push(fv));
            },
        }
        i = i + 1;
    }
    assert(os.take(i as int) =~= os);
    let ghost unsorted = views(findings@);
    let findings = crate::order::sort_keeping(findings);
    assert(views(findings@).len() == findings@.len());
    if findings.len() == 0 {
        let connection = match connection {
            Some(c) => Some(c.duplicate()),
            None => None,
        };
        let rendering = DeploymentRendering {
            status: if deferred {
                RenderStatus::DeferredSensitiveInput
            } else {
                RenderStatus::Exact
            },
            connection,
            external_preconditions: copy_preconditions(plan.external_preconditions()),
            operations,
        };
        RenderingOutcome { rendering: Some(rendering), findings }
    } else {
        RenderingOutcome { rendering: None, findings }
    }
}

/// The review-only POSIX `sh` script of a rendering: a header, one comment per external
/// prerequisite, one check per deferred secret input, then every CLI invocation quoted word by
/// word, reading the n-th deferred secret from `$PODMAN_LENS_SECRET_INPUT_<n>`.
pub open spec fn script_text(r: RenderingView) -> Seq<char> {
    "#!/bin/sh\n# Review generated Podman commands before running this file.\nset -eu\n"@ + precondition_lines(
        r.external_preconditions,
    ) + secret_checks(r.operations) + command_lines(r.operations)
}

pub open spec fn kind_text(kind: ResourceKind) -> Seq<char> {
    match kind {
        ResourceKind::Container => "container"@,
        ResourceKind::Pod => "pod"@,
        ResourceKind::Network => "network"@,
        ResourceKind::Volume => "volume"@,
        ResourceKind::Image => "image"@,
        ResourceKind::Secret => "secret"@,
    }
}

pub open spec fn precondition_lines(ps: Seq<ResourceIdView>) -> Seq<char>
    decreases ps.len(),
{
    if ps.len() == 0 {
        Seq::empty()
    } else {
        precondition_lines(ps.drop_last()) + "# Requires external "@ + kind_text(ps.last().kind) + ": "@ + shell_quoted(
            ps.last().name,
        ) + "\n"@
    }
}

/// The number of operations that read deferred secret input.
pub open spec fn secret_count(ops: Seq<RenderedOperationView>) -> nat
    decreases ops.len(),
{
    if ops.len() == 0 {
        0
    } else {
        secret_count(ops.drop_last()) + if ops.last().external_input is Some {
            1nat
        } else {
            0nat
        }
    }
}

pub open spec fn secret_checks(ops: Seq<RenderedOperationView>) -> Seq<char>
    decreases ops.len(),
{
    if ops.len() == 0 {
        Seq::empty()
    } else {
        secret_checks(ops.drop_last()) + if ops.last().external_input is Some {
            ": \"${PODMAN_LENS_SECRET_INPUT_"@ + crate::decode::decimal(secret_count(ops) as nat)
                + ":?set to a readable secret file path}\"\n"@
        } else {
            Seq::empty()
        }
    }
}

pub open spec fn quoted_words(words: Seq<Seq<char>>) -> Seq<char>
    decreases words.len(),
{
    if words.len() == 0 {
        Seq::empty()
    } else {
        quoted_words(words.drop_last()) + " "@ + shell_quoted(words.last())
    }
}

pub open spec fn command_lines(ops: Seq<RenderedOperationView>) -> Seq<char>
    decreases ops.len(),
{
    if ops.len() == 0 {
        Seq::empty()
    } else {
        command_lines(ops.drop_last()) + "podman"@ + quoted_words(ops.last().argv) + (if ops.last().external_input is Some {
            " < \"${PODMAN_LENS_SECRET_INPUT_"@ + crate::decode::decimal(secret_count(ops) as nat) + "}\""@
        } else {
            Seq::empty()
        }) + "\n"@
    }
}

fn push_str(out: &mut Vec<char>, s: &str)
    ensures
        final(out)@ == old(out)@ + s@,
{
    append_chars(out, &to_chars(s));
}

fn kind_str(kind: ResourceKind) -> (r: &'static str)
    ensures
        r@ == kind_text(kind),
{
    match kind {
        ResourceKind::Container => "container",
        ResourceKind::Pod => "pod",
        ResourceKind::Network => "network",
        ResourceKind::Volume => "volume",
        ResourceKind::Image => "image",
        ResourceKind::Secret => "secret",
    }
}

fn push_quoted_words(out: &mut Vec<char>, words: &[String])
    ensures
        final(out)@ == old(out)@ + quoted_words(texts(words@)),
{
    let ghost ws = texts(words@);
    let ghost start = out@;
    let mut i: usize = 0;
    assert(start =~= start + quoted_words(ws.take(0)));
    while i < words.len()
        invariant
            i <= words.len(),
            ws == texts(words@),
            out@ == start + quoted_words(ws.take(i as int)),
        decreases words.len() - i,
    {
        assert(ws[i as int] == words@[i as int]@);
        assert(ws.take(i + 1).drop_last() =~= ws.take(i as int));
        push_str(out, " ");
        let q = shell_quote(words[i].as_str());
        push_str(out, q.as_str());
        assert(out@ =~= start + quoted_words(ws.take(i + 1)));
        i = i + 1;
    }
    assert(ws.take(i as int) =~= ws);
}

impl DeploymentRendering {
    /// Generates a review-only POSIX `sh` script from the stored CLI arguments.
    ///
    /// The library never executes the script. It has no command substitution, glob expansion or
    /// `eval`; it holds only the displayed Podman invocations. Each deferred secret requires a
    /// caller-provided readable file path in `PODMAN_LENS_SECRET_INPUT_<n>`, numbered in order.
    pub fn shell_script(&self) -> (r: String)
        ensures
            r@ == script_text(self@),
    {
        let ghost rv = self@;
        let mut out = to_chars("#!/bin/sh\n# Review generated Podman commands before running this file.\nset -eu\n");
        let ghost header = out@;
        let pre = &self.external_preconditions;
        let ghost ps = views(pre@);
        let mut i: usize = 0;
        assert(out@ =~= header + precondition_lines(ps.take(0)));
        while i < pre.len()
            invariant
                i <= pre.len(),
                ps == views(pre@),
                out@ == header + precondition_lines(ps.take(i as int)),
            decreases pre.len() - i,
        {
            assert(ps[i as int] == pre@[i as int]@);
            assert(ps.take(i + 1).drop_last() =~= ps.take(i as int));
            let id = pre[i].identity();
            push_str(&mut out, "# Requires external ");
            push_str(&mut out, kind_str(id.kind()));
            push_str(&mut out, ": ");
            let q = shell_quote(id.name());
            push_str(&mut out, q.as_str());
            push_str(&mut out, "\n");
            assert(out@ =~= header + precondition_lines(ps.take(i + 1)));
            i = i + 1;
        }
        assert(ps.take(i as int) =~= ps);
        let ops = &self.operations;
        let ghost os = views(ops@);
        let ghost after_pre = out@;
        let mut n: u64 = 0;
        let mut j: usize = 0;
        assert(out@ =~= after_pre + secret_checks(os.take(0)));
        while j < ops.len()
            invariant
                j <= ops.len(),
                os == views(ops@),
                n == secret_count(os.take(j as int)),
                n <= j,
                ops.len() <= usize::MAX,
                out@ == after_pre + secret_checks(os.take(j as int)),
            decreases ops.len() - j,
        {
            assert(os[j as int] == ops@[j as int]@);
            assert(os.take(j + 1).drop_last() =~= os.take(j as int));
            if ops[j].cli.external_input.is_some() {
                n = n + 1;
                push_str(&mut out, ": \"${PODMAN_LENS_SECRET_INPUT_");
                append_chars(&mut out, &crate::decode::decimal_u64(n));
                push_str(&mut out, ":?set to a readable secret file path}\"\n");
            }
            assert(out@ =~= after_pre + secret_checks(os.take(j + 1)));
            j = j + 1;
        }
        assert(os.take(j as int) =~= os);
        let ghost after_checks = out@;
        let mut m: u64 = 0;
        let mut k: usize = 0;
        assert(out@ =~= after_checks + command_lines(os.take(0)));
        while k < ops.len()
            invariant
                k <= ops.len(),
                os == views(ops@),
                m == secret_count(os.take(k as int)),
                m <= k,
                out@ == after_checks + command_lines(os.take(k as int)),
            decreases ops.len() - k,
        {
            assert(os[k as int] == ops@[k as int]@);
            assert(os.take(k + 1).drop_last() =~= os.take(k as int));
            push_str(&mut out, "podman");
            push_quoted_words(&mut out, ops[k].cli.argv.as_slice());
            if ops[k].cli.external_input.is_some() {
                m = m + 1;
                push_str(&mut out, " < \"${PODMAN_LENS_SECRET_INPUT_");
                append_chars(&mut out, &crate::decode::decimal_u64(m));
                push_str(&mut out, "}\"");
            }
            push_str(&mut out, "\n");
            assert(out@ =~= after_checks + command_lines(os.take(k + 1)));
            k = k + 1;
        }
        assert(os.take(k as int) =~= os);
        assert(out@ =~= script_text(rv));
        string_from_chars(&out)
    }
}


proof fn lemma_decimal_nonempty(n: nat)
    ensures
        crate::decode::decimal(n).len() >= 1,
        n >= 10 ==> crate::decode::decimal(n).len() >= 2,
    decreases n,
{
    if n >= 10 {
        lemma_decimal_nonempty(n / 10);
    }
}

proof fn lemma_digit_char_injective(x: nat, y: nat)
    requires
        x < 10,
        y < 10,
        x != y,
    ensures
        crate::decode::digit_char(x) != crate::decode::digit_char(y),
{
}

/// Different numbers are written differently.
proof fn lemma_decimal_injective(a: nat, b: nat)
    requires
        a != b,
    ensures
        crate::decode::decimal(a) != crate::decode::decimal(b),
    decreases a,
{
    lemma_decimal_nonempty(a);
    lemma_decimal_nonempty(b);
    let da = crate::decode::decimal(a);
    let db = crate::decode::decimal(b);
    if a < 10 && b < 10 {
        lemma_digit_char_injective(a, b);
        assert(da[0] != db[0]);
    } else if a >= 10 && b >= 10 {
        if a % 10 != b % 10 {
            lemma_digit_char_injective(a % 10, b % 10);
            assert(da.last() != db.last());
        } else {
            assert(a / 10 != b / 10);
            lemma_decimal_injective(a / 10, b / 10);
            assert(da.drop_last() =~= crate::decode::decimal(a / 10));
            assert(db.drop_last() =~= crate::decode::decimal(b / 10));
        }
    } else {
        assert(da.len() != db.len());
    }
}

proof fn lemma_secret_count_monotone(ops: Seq<RenderedOperationView>, j: int, k: int)
    requires
        0 <= j <= k <= ops.len(),
    ensures
        secret_count(ops.take(j)) <= secret_count(ops.take(k)),
    decreases k - j,
{
    if j < k {
        assert(ops.take(k).drop_last() =~= ops.take(k - 1));
        lemma_secret_count_monotone(ops, j, k - 1);
    }
}

proof fn lemma_script_prefix(ops: Seq<RenderedOperationView>, m: int)
    requires
        0 <= m <= ops.len(),
    ensures
        command_lines(ops.take(m)).len() <= command_lines(ops).len(),
        secret_checks(ops.take(m)).len() <= secret_checks(ops).len(),
        command_lines(ops).take(command_lines(ops.take(m)).len() as int) == command_lines(ops.take(m)),
        secret_checks(ops).take(secret_checks(ops.take(m)).len() as int) == secret_checks(ops.take(m)),
    decreases ops.len(),
{
    if m == ops.len() {
        assert(ops.take(m) =~= ops);
        assert(command_lines(ops).take(command_lines(ops).len() as int) =~= command_lines(ops));
        assert(secret_checks(ops).take(secret_checks(ops).len() as int) =~= secret_checks(ops));
    } else {
        let shorter = ops.drop_last();
        assert(shorter.take(m) =~= ops.take(m));
        lemma_script_prefix(shorter, m);
        let c = command_lines(ops.take(m));
        let d = secret_checks(ops.take(m));
        let cs = command_lines(shorter);
        let ds = secret_checks(shorter);
        let ct = command_lines(ops).subrange(cs.len() as int, command_lines(ops).len() as int);
        let dt = secret_checks(ops).subrange(ds.len() as int, secret_checks(ops).len() as int);
        assert(command_lines(ops) == cs + ct);
        assert(secret_checks(ops) == ds + dt);
        assert((cs + ct).take(c.len() as int) =~= cs.take(c.len() as int));
        assert((ds + dt).take(d.len() as int) =~= ds.take(d.len() as int));
    }
}

/// The `k`-th operation of a script that reads deferred secret input gets the number `n` of
/// such operations up to and including it: its command redirects its input from
/// `PODMAN_LENS_SECRET_INPUT_<n>` and its check line names the same variable, in the order the
/// operations come.
pub proof fn lemma_secret_input_numbered(ops: Seq<RenderedOperationView>, k: int)
    requires
        0 <= k < ops.len(),
        ops[k].external_input is Some,
    ensures
        ({
            let n = secret_count(ops.take(k + 1));
            &&& n == secret_count(ops.take(k)) + 1
            &&& command_lines(ops.take(k + 1)) == command_lines(ops.take(k)) + "podman"@ + quoted_words(ops[k].argv)
                + " < \"${PODMAN_LENS_SECRET_INPUT_"@ + crate::decode::decimal(n) + "}\""@ + "\n"@
            &&& secret_checks(ops.take(k + 1)) == secret_checks(ops.take(k)) + ": \"${PODMAN_LENS_SECRET_INPUT_"@
                + crate::decode::decimal(n) + ":?set to a readable secret file path}\"\n"@
            &&& command_lines(ops).take(command_lines(ops.take(k + 1)).len() as int) == command_lines(ops.take(k + 1))
            &&& secret_checks(ops).take(secret_checks(ops.take(k + 1)).len() as int) == secret_checks(ops.take(k + 1))
        }),
{
    let t = ops.take(k + 1);
    assert(t.drop_last() =~= ops.take(k));
    assert(t.last() == ops[k]);
    lemma_script_prefix(ops, k + 1);
}

/// Two different operations that read deferred secret input read different variables: the
/// later one's number is larger, so its `PODMAN_LENS_SECRET_INPUT_<n>` is spelled differently.
pub proof fn lemma_secret_inputs_distinct(ops: Seq<RenderedOperationView>, j: int, k: int)
    requires
        0 <= j < k < ops.len(),
        ops[j].external_input is Some,
        ops[k].external_input is Some,
    ensures
        1 <= secret_count(ops.take(j + 1)) < secret_count(ops.take(k + 1)),
        crate::decode::decimal(secret_count(ops.take(j + 1))) != crate::decode::decimal(secret_count(ops.take(k + 1))),
{
    assert(ops.take(j + 1).drop_last() =~= ops.take(j));
    assert(ops.take(k + 1).drop_last() =~= ops.take(k));
    lemma_secret_count_monotone(ops, j + 1, k);
    lemma_decimal_injective(secret_count(ops.take(j + 1)), secret_count(ops.take(k + 1)));
}


proof fn lemma_mount_args_at(ms: Seq<NamedVolumeMountView>, a: Seq<Seq<char>>, k: int)
    requires
        mount_args(ms) == Some(a),
        0 <= k < ms.len(),
    ensures
        a.len() == 2 * ms.len(),
        a[2 * k] == "--volume"@,
        a[2 * k + 1] == mount_value(ms[k]),
    decreases ms.len(),
{
    let prev = mount_args(ms.drop_last())->0;
    if k < ms.len() - 1 {
        lemma_mount_args_at(ms.drop_last(), prev, k);
    } else if ms.len() > 1 {
        lemma_mount_args_at(ms.drop_last(), prev, 0);
    } else {
        assert(mount_args(ms.drop_last()) == Some(Seq::<Seq<char>>::empty()));
    }
}

/// The Libpod literal of a named-volume mount with the given access and copy texts.
spec fn mount_object(m: NamedVolumeMountView, access: Seq<char>, copy: Seq<char>) -> JsonView {
    JsonView::Object(
        seq![
            ("Dest"@, JsonView::Text(m.destination)),
            ("Name"@, JsonView::Text(m.source.name)),
            ("Options"@, JsonView::Array(seq![JsonView::Text(access), JsonView::Text(copy)])),
        ],
    )
}

proof fn lemma_container_body_mount(c: crate::deployment::ContainerIntentView, image: Seq<char>, k: int)
    requires
        0 <= k < c.mounts.len(),
    ensures
        exists|members: Seq<(Seq<char>, JsonView)>, vols: Seq<JsonView>|
            #[trigger] members.contains(("volumes"@, JsonView::Array(vols))) && container_body(c, image) == JsonView::Object(members)
                && vols.len() == c.mounts.len() && vols[k] == mount_object(
                c.mounts[k],
                if c.mounts[k].access == MountAccess::ReadOnly {
                    "ro"@
                } else {
                    "rw"@
                },
                if c.mounts[k].copy_mode == NamedVolumeCopyMode::Copy {
                    "copy"@
                } else {
                    "nocopy"@
                },
            ),
{
    let m = c.mounts[k];
    let vols = c.mounts.map_values(|x: NamedVolumeMountView| mount_json(x));
    let s = c.settings;
    let r = opt_member("restart_policy"@, match s.restart_policy {
        Some(rp) => Some(JsonView::Text(restart_text(rp))),
        None => None,
    });
    let u = opt_member("user"@, opt_text(s.user));
    let w = opt_member("work_dir"@, opt_text(s.workdir));
    assert(container_tail(c) == r + u + seq![("volumes"@, JsonView::Array(vols))] + w);
    let members = container_head(c) + container_middle(c, image) + container_tail(c);
    let at = (container_head(c).len() + container_middle(c, image).len() + r.len() + u.len()) as int;
    assert(members[at] == ("volumes"@, JsonView::Array(vols)));
    assert(members.contains(("volumes"@, JsonView::Array(vols))));
    assert(vols[k] == mount_json(m));
}

/// A container's named-volume mount is rendered with its own access: read-only as `ro` and
/// read-write as `rw`, followed by its copy mode, both in the `--volume` argument
/// (`source:destination:access,copy`) and as the Libpod mount's options, access first.
pub proof fn lemma_container_mount_access_rendered(
    op: DeploymentOperationView,
    version: Seq<char>,
    connection: Option<Seq<char>>,
    ops: Seq<DeploymentOperationView>,
    k: int,
)
    requires
        op.id.action == SemanticOperationAction::Create,
        op.resource_intent matches DeploymentResourceView::Container(c) && 0 <= k < c.mounts.len(),
        rendered_operation(op, version, connection, ops) is Ok,
    ensures
        ({
            let m = op.resource_intent->Container_0.mounts[k];
            let v = rendered_operation(op, version, connection, ops)->Ok_0;
            let access = if m.access == MountAccess::ReadOnly {
                "ro"@
            } else {
                "rw"@
            };
            let copy = if m.copy_mode == NamedVolumeCopyMode::Copy {
                "copy"@
            } else {
                "nocopy"@
            };
            &&& exists|j: int|
                0 <= j && j + 1 < v.argv.len() && #[trigger] v.argv[j] == "--volume"@ && v.argv[j + 1] == m.source.name + ":"@
                    + m.destination + ":"@ + access + ","@ + copy
            &&& exists|members: Seq<(Seq<char>, JsonView)>, vols: Seq<JsonView>|
                #[trigger] members.contains(("volumes"@, JsonView::Array(vols))) && v.body == BodyView::Json(JsonView::Object(members))
                    && vols.len() == op.resource_intent->Container_0.mounts.len() && vols[k] == JsonView::Object(
                    seq![
                        ("Dest"@, JsonView::Text(m.destination)),
                        ("Name"@, JsonView::Text(m.source.name)),
                        ("Options"@, JsonView::Array(seq![JsonView::Text(access), JsonView::Text(copy)])),
                    ],
                )
        }),
{
    let c = op.resource_intent->Container_0;
    let m = c.mounts[k];
    let v = rendered_operation(op, version, connection, ops)->Ok_0;
    let image = match managed_source(ops, c.image) {
        Some(src) => src,
        None => c.image.name,
    };
    let placement: Option<Seq<Seq<char>>> = match c.pod {
        Some(pod) => Some(seq!["--pod"@, pod.name]),
        None => network_args(c.networks),
    };
    let pa = placement->0;
    let ma = mount_args(c.mounts)->0;
    let sa = settings_args(op.id.resource, c.settings)->Ok_0;
    let lead = connection_args(connection) + seq!["container"@, "create"@, "--name"@, c.identity.name, "--pull=never"@] + pa;
    assert(v.argv == lead + ma + sa + seq![image] + match c.settings.command {
        Some(cmd) => cmd,
        None => Seq::empty(),
    });
    assert(v.body == BodyView::Json(container_body(c, image)));
    lemma_mount_args_at(c.mounts, ma, k);
    let j = lead.len() + 2 * k;
    assert(v.argv[j] == ma[2 * k]);
    assert(v.argv[j + 1] == ma[2 * k + 1]);
    lemma_container_body_mount(c, image, k);
}


/// A pod's infra named-volume mount is rendered with its own access, as a container's is: `ro`
/// or `rw` and then its copy mode, in the `--volume` argument and first among the Libpod
/// mount's options.
pub proof fn lemma_pod_mount_access_rendered(
    op: DeploymentOperationView,
    version: Seq<char>,
    connection: Option<Seq<char>>,
    ops: Seq<DeploymentOperationView>,
    k: int,
)
    requires
        op.id.action == SemanticOperationAction::Create,
        op.resource_intent matches DeploymentResourceView::Pod(p) && 0 <= k < p.infra_mounts.len(),
        rendered_operation(op, version, connection, ops) is Ok,
    ensures
        ({
            let m = op.resource_intent->Pod_0.infra_mounts[k];
            let v = rendered_operation(op, version, connection, ops)->Ok_0;
            let access = if m.access == MountAccess::ReadOnly {
                "ro"@
            } else {
                "rw"@
            };
            let copy = if m.copy_mode == NamedVolumeCopyMode::Copy {
                "copy"@
            } else {
                "nocopy"@
            };
            &&& exists|j: int|
                0 <= j && j + 1 < v.argv.len() && #[trigger] v.argv[j] == "--volume"@ && v.argv[j + 1] == m.source.name + ":"@
                    + m.destination + ":"@ + access + ","@ + copy
            &&& exists|members: Seq<(Seq<char>, JsonView)>, vols: Seq<JsonView>|
                #[trigger] members.contains(("volumes"@, JsonView::Array(vols))) && v.body == BodyView::Json(JsonView::Object(members))
                    && vols.len() == op.resource_intent->Pod_0.infra_mounts.len() && vols[k] == JsonView::Object(
                    seq![
                        ("Dest"@, JsonView::Text(m.destination)),
                        ("Name"@, JsonView::Text(m.source.name)),
                        ("Options"@, JsonView::Array(seq![JsonView::Text(access), JsonView::Text(copy)])),
                    ],
                )
        }),
{
    let p = op.resource_intent->Pod_0;
    let m = p.infra_mounts[k];
    let v = rendered_operation(op, version, connection, ops)->Ok_0;
    let na = network_args(p.networks)->0;
    let ma = mount_args(p.infra_mounts)->0;
    let lead = connection_args(connection) + seq!["pod"@, "create"@, "--name"@, p.identity.name] + na;
    assert(v.argv == lead + ma);
    lemma_mount_args_at(p.infra_mounts, ma, k);
    let j = lead.len() + 2 * k;
    assert(v.argv[j] == ma[2 * k]);
    assert(v.argv[j + 1] == ma[2 * k + 1]);
    let vols = p.infra_mounts.map_values(|x: NamedVolumeMountView| mount_json(x));
    let members = seq![("Networks"@, networks_json(p.networks)), ("name"@, JsonView::Text(p.identity.name))] + seq![
        ("volumes"@, JsonView::Array(vols)),
    ];
    assert(v.body == BodyView::Json(JsonView::Object(members)));
    assert(members[2] == ("volumes"@, JsonView::Array(vols)));
    assert(members.contains(("volumes"@, JsonView::Array(vols))));
    assert(vols[k] == mount_json(m));
}

} // verus!
