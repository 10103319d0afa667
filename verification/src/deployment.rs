//! Typed, transport-neutral Podman deployment intent and deterministic semantic planning.
//!
//! A plan says what must be prepared, created, and started, and why one operation precedes
//! another; it stops before command-line and Libpod HTTP rendering.

use vstd::prelude::*;

use crate::diagnostic::{fails_with, Diagnostic, DiagnosticCode, PodmanLensResult};
use crate::inventory::ResourceKind;
use crate::once::{duplicate_option, duplicate_vec, opt_view, same_text, same_vec, views, Duplicate, SameValue};
use crate::settings::{ContainerSettings, ContainerSettingsView, NamedVolumeMount, NamedVolumeMountView};
use crate::text::{
    all_alnum_or, alnum_or, bounded_plain, byte_len, byte_len_at_most, find_first, find_last,
    first_index, has_no_whitespace, is_ascii_alnum, is_ascii_digit, is_ascii_hex, is_ascii_lower,
    is_ascii_upper, is_bounded_plain, last_index, no_whitespace, slice_chars, split_chars, split_on,
    to_chars,
};
use crate::version::{TargetProfile, TargetProfileView};

verus! {

/// The content of a resource identity: its kind and exact target-side name.
pub struct ResourceIdView {
    pub kind: ResourceKind,
    pub name: Seq<char>,
}

/// A nonempty name of at most 256 bytes without control characters.
pub open spec fn valid_identifier(s: Seq<char>) -> bool {
    s.len() > 0 && bounded_plain(s, 256)
}

fn check_identifier(value: &str) -> (r: bool)
    ensures
        r == valid_identifier(value@),
{
    let chars = to_chars(value);
    chars.len() > 0 && is_bounded_plain(&chars, 256)
}

/// Stable target-side identity for one explicitly declared Podman resource.
#[derive(Clone, Debug, Eq, Ord, PartialEq, PartialOrd)]
pub struct DeploymentResourceId {
    kind: ResourceKind,
    name: String,
}

impl View for DeploymentResourceId {
    type V = ResourceIdView;

    closed spec fn view(&self) -> ResourceIdView {
        ResourceIdView { kind: self.kind, name: self.name@ }
    }
}

impl DeploymentResourceId {
    /// Creates a resource identity from an exact, non-empty target-side name.
    ///
    /// # Errors
    ///
    /// Returns `PLN0034` when `name` is empty, contains a control character, or is too large.
    pub fn new(kind: ResourceKind, name: &str) -> (r: PodmanLensResult<Self>)
        ensures
            r is Ok <==> valid_identifier(name@),
            r matches Ok(id) ==> id@ == (ResourceIdView { kind, name: name@ }),
            r is Err ==> fails_with(r, DiagnosticCode::InvalidDeploymentIntent),
    {
        if !check_identifier(name) {
            return Err(Diagnostic::new(DiagnosticCode::InvalidDeploymentIntent));
        }
        Ok(DeploymentResourceId { kind, name: name.to_owned() })
    }

    /// Returns the native resource kind.
    pub fn kind(&self) -> (r: ResourceKind)
        ensures
            r == self@.kind,
    {
        self.kind
    }

    /// Returns the exact target-side resource name.
    pub fn name(&self) -> (r: &str)
        ensures
            r@ == self@.name,
    {
        self.name.as_str()
    }

    /// Whether two identities are the same.
    pub fn same_id(&self, other: &Self) -> (r: bool)
        ensures
            r == (self@ == other@),
    {
        self.kind == other.kind && crate::once::same_text(&self.name, &other.name)
    }

    /// A copy with the same content.
    pub fn duplicate(&self) -> (r: Self)
        ensures
            r@ == self@,
    {
        DeploymentResourceId { kind: self.kind, name: self.name.clone() }
    }
}

/// ASCII lower-casing of one character.
pub open spec fn ascii_lower(c: char) -> char {
    if is_ascii_upper(c) {
        ((c as u32) + 32) as char
    } else {
        c
    }
}

/// `s` begins with `prefix`, ignoring ASCII case; `prefix` is written in lower case.
pub open spec fn starts_with_ignore_case(s: Seq<char>, prefix: Seq<char>) -> bool {
    prefix.len() <= s.len() && forall|i: int| 0 <= i < prefix.len() ==> ascii_lower(#[trigger] s[i]) == prefix[i]
}

/// A reference whose spelling announces an embedded literal, plaintext, or encoded payload.
pub open spec fn embeds_payload(s: Seq<char>) -> bool {
    starts_with_ignore_case(s, "literal:"@) || starts_with_ignore_case(s, "plaintext:"@)
        || starts_with_ignore_case(s, "base64:"@)
}

fn lower_matches(c: char, p: char) -> (r: bool)
    ensures
        r == (ascii_lower(c) == p),
{
    if 'A' <= c && c <= 'Z' {
        let v = c as u32 + 32;
        proof {
            assert(ascii_lower(c) == v as char);
        }
        v == p as u32
    } else {
        c == p
    }
}

fn check_prefix_ignore_case(s: &Vec<char>, prefix: &str) -> (r: bool)
    ensures
        r == starts_with_ignore_case(s@, prefix@),
{
    let p = to_chars(prefix);
    if p.len() > s.len() {
        return false;
    }
    let mut i: usize = 0;
    while i < p.len()
        invariant
            i <= p.len() <= s.len(),
            p@ == prefix@,
            forall|j: int| 0 <= j < i ==> ascii_lower(#[trigger] s@[j]) == p@[j],
        decreases p.len() - i,
    {
        if !lower_matches(s[i], p[i]) {
            return false;
        }
        i = i + 1;
    }
    true
}

/// An external reference to secret material that is intentionally absent from a deployment plan.
#[derive(Clone, Eq, PartialEq)]
pub struct SensitiveInputReference(String);

impl View for SensitiveInputReference {
    type V = Seq<char>;

    closed spec fn view(&self) -> Seq<char> {
        self.0@
    }
}

impl SensitiveInputReference {
    /// Creates a reference to externally managed sensitive material.
    ///
    /// Literal and encoded payload prefixes are rejected. Encoding is not protection, and a
    /// deployment plan must never embed secret bytes.
    ///
    /// # Errors
    ///
    /// Returns `PLN0040` for a likely embedded payload and `PLN0034` for an invalid reference.
    pub fn new(value: &str) -> (r: PodmanLensResult<Self>)
        ensures
            r is Ok <==> !embeds_payload(value@) && valid_identifier(value@),
            r matches Ok(v) ==> v@ == value@,
            embeds_payload(value@) ==> fails_with(r, DiagnosticCode::SensitivePayloadEmbedded),
            !embeds_payload(value@) && !valid_identifier(value@) ==> fails_with(
                r,
                DiagnosticCode::InvalidDeploymentIntent,
            ),
    {
        let chars = to_chars(value);
        if check_prefix_ignore_case(&chars, "literal:") || check_prefix_ignore_case(&chars, "plaintext:")
            || check_prefix_ignore_case(&chars, "base64:") {
            return Err(Diagnostic::new(DiagnosticCode::SensitivePayloadEmbedded));
        }
        if !check_identifier(value) {
            return Err(Diagnostic::new(DiagnosticCode::InvalidDeploymentIntent));
        }
        Ok(SensitiveInputReference(value.to_owned()))
    }

    /// Returns the external reference, never secret material itself.
    pub fn as_str(&self) -> (r: &str)
        ensures
            r@ == self@,
    {
        self.0.as_str()
    }

    /// The redacted debug text.
    pub fn redacted_debug() -> (r: &'static str)
        ensures
            r@ == "SensitiveInputReference([redacted])"@,
    {
        "SensitiveInputReference([redacted])"
    }

    /// A copy with the same content.
    pub fn duplicate(&self) -> (r: Self)
        ensures
            r@ == self@,
    {
        SensitiveInputReference(self.0.clone())
    }
}

// ---------------------------------------------------------------------------------------------
// Connection names.
// ---------------------------------------------------------------------------------------------
/// A connection name: 1 to 64 bytes, starting with an ASCII letter or digit, otherwise ASCII
/// letters, digits, `.`, `_`, or `-`.
pub open spec fn valid_connection_name(s: Seq<char>) -> bool {
    &&& s.len() > 0 && byte_len(s) <= 64
    &&& is_ascii_alnum(s[0])
    &&& alnum_or(s, seq!['.', '_', '-'])
}

fn check_connection_name(value: &str) -> (r: bool)
    ensures
        r == valid_connection_name(value@),
{
    let chars = to_chars(value);
    let extra = vec!['.', '_', '-'];
    assert(extra@ == seq!['.', '_', '-']);
    chars.len() > 0 && byte_len_at_most(&chars, 64) && crate::text::char_is_ascii_alnum(chars[0])
        && all_alnum_or(&chars, &extra)
}

/// A non-sensitive, caller-owned Podman connection name for a deployment plan.
///
/// It is metadata only: planning does not discover, open, or validate a connection, and the
/// narrow grammar keeps endpoint, path, credential, and token-like spellings out of artifacts.
#[derive(Clone, Debug, Eq, PartialEq)]
pub struct DeploymentConnectionReference(String);

impl View for DeploymentConnectionReference {
    type V = Seq<char>;

    closed spec fn view(&self) -> Seq<char> {
        self.0@
    }
}

impl DeploymentConnectionReference {
    /// Creates a non-sensitive Podman connection name.
    ///
    /// # Errors
    ///
    /// Returns `PLN0034` when the name is empty, oversized, or outside the safe connection-name
    /// grammar.
    pub fn new(value: &str) -> (r: PodmanLensResult<Self>)
        ensures
            r is Ok <==> valid_connection_name(value@),
            r matches Ok(c) ==> c@ == value@,
            r is Err ==> fails_with(r, DiagnosticCode::InvalidDeploymentIntent),
    {
        if !check_connection_name(value) {
            return Err(Diagnostic::new(DiagnosticCode::InvalidDeploymentIntent));
        }
        Ok(DeploymentConnectionReference(value.to_owned()))
    }

    /// Returns the caller-selected connection reference.
    pub fn as_str(&self) -> (r: &str)
        ensures
            r@ == self@,
    {
        self.0.as_str()
    }

    /// A copy with the same content.
    pub fn duplicate(&self) -> (r: Self)
        ensures
            r@ == self@,
    {
        DeploymentConnectionReference(self.0.clone())
    }
}

// ---------------------------------------------------------------------------------------------
// Image references.
// ---------------------------------------------------------------------------------------------
/// The part of `s` before the first `c`.
pub open spec fn before_first(s: Seq<char>, c: char) -> Seq<char> {
    s.take(first_index(s, c))
}

/// The part of `s` after the first `c`.
pub open spec fn after_first(s: Seq<char>, c: char) -> Seq<char> {
    s.skip(first_index(s, c) + 1)
}

/// The part of `s` before the last `c`.
pub open spec fn before_last(s: Seq<char>, c: char) -> Seq<char> {
    s.take(last_index(s, c))
}

/// The part of `s` after the last `c`.
pub open spec fn after_last(s: Seq<char>, c: char) -> Seq<char> {
    s.skip(last_index(s, c) + 1)
}

/// The value of a nonempty sequence of ASCII digits.
pub open spec fn decimal_value(s: Seq<char>) -> nat
    decreases s.len(),
{
    if s.len() == 0 {
        0
    } else {
        decimal_value(s.drop_last()) * 10 + ((s.last() as u32) - ('0' as u32)) as nat
    }
}

pub open spec fn all_digits(s: Seq<char>) -> bool {
    forall|i: int| 0 <= i < s.len() ==> is_ascii_digit(#[trigger] s[i])
}

/// What `u16::from_str` accepts and yields a nonzero port: an optional `+`, then decimal digits
/// of a value between 1 and 65535.
pub open spec fn valid_port(p: Seq<char>) -> bool {
    let d = if p.len() > 0 && p[0] == '+' {
        p.skip(1)
    } else {
        p
    };
    &&& d.len() > 0 && all_digits(d)
    &&& 0 < decimal_value(d) <= 65535
}

/// A registry host label: 1 to 63 lower-case letters, digits, or hyphens, starting and ending
/// with a letter or digit.
pub open spec fn registry_label(l: Seq<char>) -> bool {
    &&& 0 < l.len() && byte_len(l) <= 63
    &&& (is_ascii_lower(l[0]) || is_ascii_digit(l[0]))
    &&& (is_ascii_lower(l.last()) || is_ascii_digit(l.last()))
    &&& forall|i: int| 0 <= i < l.len() ==> is_ascii_lower(#[trigger] l[i]) || is_ascii_digit(l[i]) || l[i] == '-'
}

/// The host of a registry: the part before its last `:`, if any.
pub open spec fn registry_host(v: Seq<char>) -> Seq<char> {
    if v.contains(':') {
        before_last(v, ':')
    } else {
        v
    }
}

/// The port spelling of a registry: the part after its last `:`, if any.
pub open spec fn registry_port(v: Seq<char>) -> Seq<char> {
    if v.contains(':') {
        after_last(v, ':')
    } else {
        Seq::<char>::empty()
    }
}

/// A registry that is not `localhost`, names a domain or port, and has valid host labels and an
/// optional nonzero port.
pub open spec fn portable_registry(v: Seq<char>) -> bool {
    let host = registry_host(v);
    let port = registry_port(v);
    &&& v != "localhost"@
    &&& v.contains('.') || v.contains(':')
    &&& host.len() > 0
    &&& forall|i: int| 0 <= i < split_on(host, '.').len() ==> registry_label(#[trigger] split_on(host, '.')[i])
    &&& port.len() == 0 || valid_port(port)
}

/// A repository path component: nonempty, starting with an ASCII letter or digit, and made of
/// lower-case letters, digits, `.`, `_`, or `-`.
pub open spec fn repository_component(c: Seq<char>) -> bool {
    &&& c.len() > 0 && is_ascii_alnum(c[0])
    &&& forall|i: int| 0 <= i < c.len() ==> is_ascii_lower(#[trigger] c[i]) || is_ascii_digit(c[i]) || c[i] == '.' || c[i] == '_' || c[i] == '-'
}

/// A tag: 1 to 128 bytes, starting with an ASCII letter, digit, or `_`, and made of ASCII
/// letters, digits, `.`, `_`, or `-`.
pub open spec fn valid_tag(t: Seq<char>) -> bool {
    &&& t.len() > 0 && byte_len(t) <= 128
    &&& (is_ascii_alnum(t[0]) || t[0] == '_')
    &&& alnum_or(t, seq!['.', '_', '-'])
}

/// A `sha256:` digest of 64 hexadecimal digits.
pub open spec fn sha256_digest(d: Seq<char>) -> bool {
    &&& d.len() == 71
    &&& d.take(7) == "sha256:"@
    &&& forall|i: int| 7 <= i < 71 ==> is_ascii_hex(#[trigger] d[i])
}

/// The repository name and tag of `repo`: a nonempty suffix after the last `:` is the tag.
pub open spec fn repository_name(repo: Seq<char>) -> Seq<char> {
    if repo.contains(':') && after_last(repo, ':').len() > 0 {
        before_last(repo, ':')
    } else {
        repo
    }
}

pub open spec fn repository_tag(repo: Seq<char>) -> Option<Seq<char>> {
    if repo.contains(':') && after_last(repo, ':').len() > 0 {
        Some(after_last(repo, ':'))
    } else {
        None
    }
}

/// A registry-qualified name with either a tag or a digest, and valid components.
pub open spec fn portable_name_and_digest(name: Seq<char>, digest: Option<Seq<char>>) -> bool {
    let registry = before_first(name, '/');
    let repo = after_first(name, '/');
    let repo_name = repository_name(repo);
    let tag = repository_tag(repo);
    &&& name.contains('/')
    &&& repo.len() > 0
    &&& portable_registry(registry)
    &&& forall|i: int| 0 <= i < split_on(repo_name, '/').len() ==> repository_component(#[trigger] split_on(repo_name, '/')[i])
    &&& match (tag, digest) {
        (Some(t), None) => valid_tag(t),
        (None, Some(d)) => sha256_digest(d),
        _ => false,
    }
}

/// A portable pull reference: `registry/repository[:tag]` or `registry/repository@sha256:...`
/// with exactly one of tag and digest, at most 256 bytes, and no whitespace.
pub open spec fn portable_pull_reference(s: Seq<char>) -> bool {
    &&& s.len() > 0 && byte_len(s) <= 256 && no_whitespace(s)
    &&& if s.contains('@') {
        !after_first(s, '@').contains('@') && portable_name_and_digest(
            before_first(s, '@'),
            Some(after_first(s, '@')),
        )
    } else {
        portable_name_and_digest(s, None)
    }
}

fn is_lower_or_digit(c: char) -> (r: bool)
    ensures
        r == (is_ascii_lower(c) || is_ascii_digit(c)),
{
    ('a' <= c && c <= 'z') || ('0' <= c && c <= '9')
}

fn check_all_digits(s: &Vec<char>) -> (r: bool)
    ensures
        r == all_digits(s@),
{
    let mut i: usize = 0;
    while i < s.len()
        invariant
            i <= s.len(),
            forall|j: int| 0 <= j < i ==> is_ascii_digit(#[trigger] s@[j]),
        decreases s.len() - i,
    {
        if !('0' <= s[i] && s[i] <= '9') {
            return false;
        }
        i = i + 1;
    }
    true
}

proof fn lemma_decimal_value_monotone(s: Seq<char>, k: int)
    requires
        0 <= k <= s.len(),
        all_digits(s),
    ensures
        decimal_value(s.take(k)) <= decimal_value(s),
    decreases s.len() - k,
{
    if k < s.len() {
        lemma_decimal_value_monotone(s, k + 1);
        assert(s.take(k + 1).drop_last() =~= s.take(k));
        assert(is_ascii_digit(s[k]));
    } else {
        assert(s.take(k) =~= s);
    }
}

/// The decimal value of a digit sequence, when it is at most 65535.
fn small_decimal(s: &Vec<char>) -> (r: Option<u32>)
    requires
        all_digits(s@),
    ensures
        match r {
            Some(v) => v == decimal_value(s@) && v <= 65535,
            None => decimal_value(s@) > 65535,
        },
{
    let mut value: u32 = 0;
    let mut i: usize = 0;
    assert(s@.take(0) =~= Seq::<char>::empty());
    while i < s.len()
        invariant
            i <= s.len(),
            all_digits(s@),
            value == decimal_value(s@.take(i as int)),
            value <= 65535,
        decreases s.len() - i,
    {
        assert(s@.take(i + 1).drop_last() =~= s@.take(i as int));
        assert(is_ascii_digit(s@[i as int]));
        let digit = (s[i] as u32) - ('0' as u32);
        value = value * 10 + digit;
        i = i + 1;
        if value > 65535 {
            proof {
                lemma_decimal_value_monotone(s@, i as int);
            }
            return None;
        }
    }
    assert(s@.take(s.len() as int) =~= s@);
    Some(value)
}

fn check_port(p: &Vec<char>) -> (r: bool)
    ensures
        r == valid_port(p@),
{
    let digits = if p.len() > 0 && p[0] == '+' {
        slice_chars(p, 1, p.len())
    } else {
        slice_chars(p, 0, p.len())
    };
    assert(p@.subrange(0, p@.len() as int) =~= p@);
    assert(p@.len() > 0 ==> p@.subrange(1, p@.len() as int) =~= p@.skip(1));
    if digits.len() == 0 || !check_all_digits(&digits) {
        return false;
    }
    match small_decimal(&digits) {
        Some(v) => 0 < v,
        None => false,
    }
}

fn check_registry_label(l: &Vec<char>) -> (r: bool)
    ensures
        r == registry_label(l@),
{
    if l.len() == 0 || !byte_len_at_most(l, 63) || !is_lower_or_digit(l[0]) || !is_lower_or_digit(
        l[l.len() - 1],
    ) {
        return false;
    }
    let mut i: usize = 0;
    while i < l.len()
        invariant
            i <= l.len(),
            forall|j: int| 0 <= j < i ==> is_ascii_lower(#[trigger] l@[j]) || is_ascii_digit(l@[j]) || l@[j] == '-',
        decreases l.len() - i,
    {
        if !is_lower_or_digit(l[i]) && l[i] != '-' {
            return false;
        }
        i = i + 1;
    }
    true
}

fn is_localhost(v: &Vec<char>) -> (r: bool)
    ensures
        r == (v@ == "localhost"@),
{
    let l = to_chars("localhost");
    crate::text::chars_eq(v, &l)
}

#[verifier::loop_isolation(false)]
fn check_registry(v: &Vec<char>) -> (r: bool)
    ensures
        r == portable_registry(v@),
{
    if is_localhost(v) {
        return false;
    }
    let has_dot = crate::text::contains_char(v, '.');
    let last_colon = find_last(v, ':');
    let (host, port) = match last_colon {
        Some(k) => {
            assert(k < v.len());
            (slice_chars(v, 0, k), slice_chars(v, k + 1, v.len()))
        },
        None => {
            assert(v@.subrange(0, v@.len() as int) =~= v@);
            (slice_chars(v, 0, v.len()), Vec::new())
        },
    };
    proof {
        if v@.contains(':') {
            let k = last_index(v@, ':');
            assert(host@ =~= before_last(v@, ':'));
            assert(port@ =~= after_last(v@, ':'));
        } else {
            assert(host@ =~= v@);
        }
    }
    if !(has_dot || last_colon.is_some()) {
        return false;
    }
    if host.len() == 0 {
        return false;
    }
    let labels = split_chars(&host, '.');
    let mut i: usize = 0;
    while i < labels.len()
        invariant
            i <= labels.len(),
            labels@.len() == split_on(host@, '.').len(),
            forall|k: int| 0 <= k < labels@.len() ==> (#[trigger] labels@[k])@ == split_on(host@, '.')[k],
            forall|j: int| 0 <= j < i ==> registry_label(#[trigger] split_on(host@, '.')[j]),
        decreases labels.len() - i,
    {
        if !check_registry_label(&labels[i]) {
            assert(labels@[i as int]@ == split_on(host@, '.')[i as int]);
            assert(!registry_label(split_on(host@, '.')[i as int]));
            return false;
        }
        i = i + 1;
    }
    port.len() == 0 || check_port(&port)
}

fn check_repository_component(c: &Vec<char>) -> (r: bool)
    ensures
        r == repository_component(c@),
{
    if c.len() == 0 || !crate::text::char_is_ascii_alnum(c[0]) {
        return false;
    }
    let mut i: usize = 0;
    while i < c.len()
        invariant
            i <= c.len(),
            forall|j: int|
                0 <= j < i ==> is_ascii_lower(#[trigger] c@[j]) || is_ascii_digit(c@[j]) || c@[j] == '.'
                    || c@[j] == '_' || c@[j] == '-',
        decreases c.len() - i,
    {
        let ch = c[i];
        if !is_lower_or_digit(ch) && ch != '.' && ch != '_' && ch != '-' {
            return false;
        }
        i = i + 1;
    }
    true
}

fn check_tag(t: &Vec<char>) -> (r: bool)
    ensures
        r == valid_tag(t@),
{
    let extra = vec!['.', '_', '-'];
    assert(extra@ == seq!['.', '_', '-']);
    t.len() > 0 && byte_len_at_most(t, 128) && (crate::text::char_is_ascii_alnum(t[0]) || t[0] == '_')
        && all_alnum_or(t, &extra)
}

fn check_sha256_digest(d: &Vec<char>) -> (r: bool)
    ensures
        r == sha256_digest(d@),
{
    if d.len() != 71 {
        return false;
    }
    let head = slice_chars(d, 0, 7);
    let prefix = to_chars("sha256:");
    assert(head@ =~= d@.take(7));
    if !crate::text::chars_eq(&head, &prefix) {
        return false;
    }
    let mut i: usize = 7;
    while i < 71
        invariant
            7 <= i <= 71,
            d@.len() == 71,
            forall|j: int| 7 <= j < i ==> is_ascii_hex(#[trigger] d@[j]),
        decreases 71 - i,
    {
        if !crate::text::char_is_ascii_hex(d[i]) {
            return false;
        }
        i = i + 1;
    }
    true
}

#[verifier::loop_isolation(false)]
fn check_name_and_digest(name: &Vec<char>, digest: Option<Vec<char>>) -> (r: bool)
    ensures
        r == portable_name_and_digest(name@, opt_view(digest)),
{
    let k = match find_first(name, '/') {
        Some(k) => k,
        None => return false,
    };
    assert(k < name.len());
    let registry = slice_chars(name, 0, k);
    let repo = slice_chars(name, k + 1, name.len());
    assert(registry@ =~= before_first(name@, '/'));
    assert(repo@ =~= after_first(name@, '/'));
    if repo.len() == 0 || !check_registry(&registry) {
        return false;
    }
    let (repo_name, tag) = match find_last(&repo, ':') {
        Some(j) => {
            assert(j < repo.len());
            let after = slice_chars(&repo, j + 1, repo.len());
            assert(after@ =~= after_last(repo@, ':'));
            if after.len() > 0 {
                let before = slice_chars(&repo, 0, j);
                assert(before@ =~= before_last(repo@, ':'));
                (before, Some(after))
            } else {
                (repo.clone(), None)
            }
        },
        None => (repo.clone(), None),
    };
    assert(repo_name@ == repository_name(repo@));
    assert(opt_view(tag) == repository_tag(repo@));
    let components = split_chars(&repo_name, '/');
    let mut i: usize = 0;
    while i < components.len()
        invariant
            i <= components.len(),
            components@.len() == split_on(repo_name@, '/').len(),
            forall|k: int| 0 <= k < components@.len() ==> (#[trigger] components@[k])@ == split_on(repo_name@, '/')[k],
            forall|j: int| 0 <= j < i ==> repository_component(#[trigger] split_on(repo_name@, '/')[j]),
        decreases components.len() - i,
    {
        if !check_repository_component(&components[i]) {
            assert(components@[i as int]@ == split_on(repo_name@, '/')[i as int]);
            return false;
        }
        i = i + 1;
    }
    match (tag, digest) {
        (Some(t), None) => check_tag(&t),
        (None, Some(d)) => check_sha256_digest(&d),
        _ => false,
    }
}

/// Whether a text is a portable pull reference.
pub fn is_portable_pull_reference(value: &str) -> (r: bool)
    ensures
        r == portable_pull_reference(value@),
{
    let chars = to_chars(value);
    if chars.len() == 0 || !byte_len_at_most(&chars, 256) || !has_no_whitespace(&chars) {
        return false;
    }
    match find_first(&chars, '@') {
        Some(k) => {
            assert(k < chars.len());
            let name = slice_chars(&chars, 0, k);
            let digest = slice_chars(&chars, k + 1, chars.len());
            assert(name@ =~= before_first(chars@, '@'));
            assert(digest@ =~= after_first(chars@, '@'));
            if crate::text::contains_char(&digest, '@') {
                return false;
            }
            check_name_and_digest(&name, Some(digest))
        },
        None => check_name_and_digest(&chars, None),
    }
}

// ---------------------------------------------------------------------------------------------
// Declared resources.
// ---------------------------------------------------------------------------------------------
/// The contents of a sequence of identities.
pub open spec fn id_views(s: Seq<DeploymentResourceId>) -> Seq<ResourceIdView> {
    s.map_values(|id: DeploymentResourceId| id@)
}

/// The contents of a sequence of named-volume mounts.
pub open spec fn mount_views(s: Seq<NamedVolumeMount>) -> Seq<NamedVolumeMountView> {
    s.map_values(|m: NamedVolumeMount| m@)
}

impl SameValue for DeploymentResourceId {
    fn same_value(&self, other: &Self) -> (r: bool) {
        self.same_id(other)
    }
}

/// Fails with `PLN0034` unless `identity` has the expected kind.
fn require_kind(identity: &DeploymentResourceId, expected: ResourceKind) -> (r: PodmanLensResult<()>)
    ensures
        r is Ok <==> identity@.kind == expected,
        r is Err ==> fails_with(r, DiagnosticCode::InvalidDeploymentIntent),
{
    if identity.kind() == expected {
        Ok(())
    } else {
        Err(Diagnostic::new(DiagnosticCode::InvalidDeploymentIntent))
    }
}

/// The explicit image-acquisition policy for a managed image.
#[derive(Clone, Copy, Debug, Eq, PartialEq, Structural)]
#[non_exhaustive]
pub enum ImagePullPolicy {
    /// Acquire the image only when it is not already available at the target.
    Missing,
}

impl Default for ImagePullPolicy {
    fn default() -> (r: Self)
        ensures
            r == ImagePullPolicy::Missing,
    {
        ImagePullPolicy::Missing
    }
}

/// The content of an image acquisition intent.
pub struct ImageIntentView {
    pub identity: ResourceIdView,
    pub source: Seq<char>,
    pub pull_policy: ImagePullPolicy,
}

/// One fully resolved image acquisition intent.
#[derive(Clone, Debug, Eq, PartialEq)]
pub struct ImageIntent {
    identity: DeploymentResourceId,
    source: String,
    pull_policy: ImagePullPolicy,
}

impl View for ImageIntent {
    type V = ImageIntentView;

    closed spec fn view(&self) -> ImageIntentView {
        ImageIntentView { identity: self.identity@, source: self.source@, pull_policy: self.pull_policy }
    }
}

impl SameValue for ImageIntent {
    fn same_value(&self, other: &Self) -> (r: bool) {
        self.identity.same_id(&other.identity) && same_text(&self.source, &other.source)
            && self.pull_policy == other.pull_policy
    }
}

impl ImageIntent {
    /// Declares an image that must be available before dependent containers are created.
    ///
    /// # Errors
    ///
    /// Returns `PLN0034` for an image identity mismatch and `PLN0041` for an invalid source
    /// spelling.
    pub fn new(identity: DeploymentResourceId, source: &str) -> (r: PodmanLensResult<Self>)
        ensures
            r is Ok <==> identity@.kind == ResourceKind::Image && portable_pull_reference(source@),
            r matches Ok(i) ==> i@ == (ImageIntentView {
                identity: identity@,
                source: source@,
                pull_policy: ImagePullPolicy::Missing,
            }),
            identity@.kind != ResourceKind::Image ==> fails_with(r, DiagnosticCode::InvalidDeploymentIntent),
            identity@.kind == ResourceKind::Image && !portable_pull_reference(source@) ==> fails_with(
                r,
                DiagnosticCode::InvalidImageReference,
            ),
    {
        require_kind(&identity, ResourceKind::Image)?;
        if !is_portable_pull_reference(source) {
            return Err(Diagnostic::new(DiagnosticCode::InvalidImageReference));
        }
        Ok(ImageIntent { identity, source: source.to_owned(), pull_policy: ImagePullPolicy::Missing })
    }

    /// Returns the image identity.
    pub fn identity(&self) -> (r: &DeploymentResourceId)
        ensures
            r@ == self@.identity,
    {
        &self.identity
    }

    /// Returns the exact image source reference.
    pub fn source(&self) -> (r: &str)
        ensures
            r@ == self@.source,
    {
        self.source.as_str()
    }

    /// Returns the explicit image-acquisition policy.
    pub fn pull_policy(&self) -> (r: ImagePullPolicy)
        ensures
            r == self@.pull_policy,
    {
        self.pull_policy
    }
}

/// One typed network creation intent.
#[derive(Clone, Debug, Eq, PartialEq)]
pub struct NetworkIntent {
    identity: DeploymentResourceId,
}

impl View for NetworkIntent {
    type V = ResourceIdView;

    closed spec fn view(&self) -> ResourceIdView {
        self.identity@
    }
}

impl NetworkIntent {
    /// Creates this typed target-side resource.
    ///
    /// # Errors
    ///
    /// Returns `PLN0034` when the identity is not a network identity.
    pub fn new(identity: DeploymentResourceId) -> (r: PodmanLensResult<Self>)
        ensures
            r is Ok <==> identity@.kind == ResourceKind::Network,
            r matches Ok(n) ==> n@ == identity@,
            r is Err ==> fails_with(r, DiagnosticCode::InvalidDeploymentIntent),
    {
        require_kind(&identity, ResourceKind::Network)?;
        Ok(NetworkIntent { identity })
    }

    /// Returns the target-side identity.
    pub fn identity(&self) -> (r: &DeploymentResourceId)
        ensures
            r@ == self@,
    {
        &self.identity
    }
}

/// One typed named-volume creation intent.
#[derive(Clone, Debug, Eq, PartialEq)]
pub struct VolumeIntent {
    identity: DeploymentResourceId,
}

impl View for VolumeIntent {
    type V = ResourceIdView;

    closed spec fn view(&self) -> ResourceIdView {
        self.identity@
    }
}

impl VolumeIntent {
    /// Creates this typed target-side resource.
    ///
    /// # Errors
    ///
    /// Returns `PLN0034` when the identity is not a volume identity.
    pub fn new(identity: DeploymentResourceId) -> (r: PodmanLensResult<Self>)
        ensures
            r is Ok <==> identity@.kind == ResourceKind::Volume,
            r matches Ok(v) ==> v@ == identity@,
            r is Err ==> fails_with(r, DiagnosticCode::InvalidDeploymentIntent),
    {
        require_kind(&identity, ResourceKind::Volume)?;
        Ok(VolumeIntent { identity })
    }

    /// Returns the target-side identity.
    pub fn identity(&self) -> (r: &DeploymentResourceId)
        ensures
            r@ == self@,
    {
        &self.identity
    }
}

/// A visible declaration that one exact prerequisite must already exist outside this plan.
///
/// External prerequisites are never inferred from an omitted managed resource and never emit a
/// semantic operation.
#[derive(Clone, Debug, Eq, PartialEq)]
pub struct ExternalPrecondition {
    identity: DeploymentResourceId,
}

impl View for ExternalPrecondition {
    type V = ResourceIdView;

    closed spec fn view(&self) -> ResourceIdView {
        self.identity@
    }
}

impl ExternalPrecondition {
    /// Declares one exact image, network, volume, or secret that this plan deliberately does not
    /// manage.
    ///
    /// # Errors
    ///
    /// Returns `PLN0042` for container or pod identities, which need managed lifecycle and
    /// membership validation.
    pub fn new(identity: DeploymentResourceId) -> (r: PodmanLensResult<Self>)
        ensures
            r is Ok <==> !(identity@.kind == ResourceKind::Container || identity@.kind == ResourceKind::Pod),
            r matches Ok(p) ==> p@ == identity@,
            r is Err ==> fails_with(r, DiagnosticCode::InvalidExternalPrecondition),
    {
        match identity.kind() {
            ResourceKind::Container | ResourceKind::Pod => Err(
                Diagnostic::new(DiagnosticCode::InvalidExternalPrecondition),
            ),
            _ => Ok(ExternalPrecondition { identity }),
        }
    }

    /// Returns the exact target-side resource identity.
    pub fn identity(&self) -> (r: &DeploymentResourceId)
        ensures
            r@ == self@,
    {
        &self.identity
    }

    /// A copy with the same content.
    pub fn duplicate(&self) -> (r: Self)
        ensures
            r@ == self@,
    {
        ExternalPrecondition { identity: self.identity.duplicate() }
    }
}

/// The content of a secret creation intent.
pub struct SecretIntentView {
    pub identity: ResourceIdView,
    pub material: Seq<char>,
}

/// One typed secret creation intent with external, non-serializable material.
#[derive(Clone, Eq, PartialEq)]
pub struct SecretIntent {
    identity: DeploymentResourceId,
    material: SensitiveInputReference,
}

impl View for SecretIntent {
    type V = SecretIntentView;

    closed spec fn view(&self) -> SecretIntentView {
        SecretIntentView { identity: self.identity@, material: self.material@ }
    }
}

impl SecretIntent {
    /// Declares a secret whose bytes are supplied by an external trusted input at deployment time.
    ///
    /// # Errors
    ///
    /// Returns `PLN0034` when the identity is not a secret identity.
    pub fn new(identity: DeploymentResourceId, material: SensitiveInputReference) -> (r: PodmanLensResult<Self>)
        ensures
            r is Ok <==> identity@.kind == ResourceKind::Secret,
            r matches Ok(s) ==> s@ == (SecretIntentView { identity: identity@, material: material@ }),
            r is Err ==> fails_with(r, DiagnosticCode::InvalidDeploymentIntent),
    {
        require_kind(&identity, ResourceKind::Secret)?;
        Ok(SecretIntent { identity, material })
    }

    /// Returns the target-side secret identity.
    pub fn identity(&self) -> (r: &DeploymentResourceId)
        ensures
            r@ == self@.identity,
    {
        &self.identity
    }

    /// Returns the external material reference.
    pub fn material(&self) -> (r: &SensitiveInputReference)
        ensures
            r@ == self@.material,
    {
        &self.material
    }
}

/// The content of a pod creation intent.
pub struct PodIntentView {
    pub identity: ResourceIdView,
    pub networks: Seq<ResourceIdView>,
    pub infra_mounts: Seq<NamedVolumeMountView>,
    pub members: Seq<ResourceIdView>,
}

/// One typed Podman pod creation intent.
#[derive(Clone, Debug, Eq, PartialEq)]
pub struct PodIntent {
    identity: PodId,
    networks: Vec<DeploymentResourceId>,
    infra_mounts: Vec<NamedVolumeMount>,
    members: Vec<DeploymentResourceId>,
}

impl View for PodIntent {
    type V = PodIntentView;

    closed spec fn view(&self) -> PodIntentView {
        PodIntentView {
            identity: self.identity@,
            networks: id_views(self.networks@),
            infra_mounts: mount_views(self.infra_mounts@),
            members: id_views(self.members@),
        }
    }
}

impl PodIntent {
    /// Creates an empty Podman pod intent.
    ///
    /// # Errors
    ///
    /// Returns `PLN0034` when the identity is not a pod.
    pub fn new(identity: DeploymentResourceId) -> (r: PodmanLensResult<Self>)
        ensures
            r is Ok <==> identity@.kind == ResourceKind::Pod,
            r matches Ok(p) ==> p@ == (PodIntentView {
                identity: identity@,
                networks: Seq::empty(),
                infra_mounts: Seq::empty(),
                members: Seq::empty(),
            }),
            r is Err ==> fails_with(r, DiagnosticCode::InvalidDeploymentIntent),
    {
        require_kind(&identity, ResourceKind::Pod)?;
        let r = PodIntent { identity: PodId(identity), networks: Vec::new(), infra_mounts: Vec::new(), members: Vec::new() };
        assert(id_views(r.networks@) =~= Seq::empty());
        assert(id_views(r.members@) =~= Seq::empty());
        assert(mount_views(r.infra_mounts@) =~= Seq::empty());
        Ok(r)
    }

    /// Adds one network that must exist before this pod is created.
    ///
    /// # Errors
    ///
    /// Returns `PLN0034` when `network` is not a network identity.
    pub fn add_network(&mut self, network: DeploymentResourceId) -> (r: PodmanLensResult<()>)
        ensures
            r is Ok <==> network@.kind == ResourceKind::Network,
            r is Ok ==> final(self)@ == (PodIntentView { networks: old(self)@.networks.push(network@), ..old(self)@ }),
            r is Err ==> final(self)@ == old(self)@ && fails_with(r, DiagnosticCode::InvalidDeploymentIntent),
    {
        require_kind(&network, ResourceKind::Network)?;
        let ghost before = self.networks@;
        self.networks.push(network);
        assert(id_views(self.networks@) =~= id_views(before).push(network@));
        Ok(())
    }

    /// Adds one mount for the Podman pod's infra container.
    pub fn add_infra_mount(&mut self, mount: NamedVolumeMount)
        ensures
            final(self)@ == (PodIntentView { infra_mounts: old(self)@.infra_mounts.push(mount@), ..old(self)@ }),
    {
        let ghost before = self.infra_mounts@;
        self.infra_mounts.push(mount);
        assert(mount_views(self.infra_mounts@) =~= mount_views(before).push(mount@));
    }

    /// Adds one container that this pod explicitly owns.
    ///
    /// # Errors
    ///
    /// Returns `PLN0034` when `container` is not a container identity.
    pub fn add_member(&mut self, container: DeploymentResourceId) -> (r: PodmanLensResult<()>)
        ensures
            r is Ok <==> container@.kind == ResourceKind::Container,
            r is Ok ==> final(self)@ == (PodIntentView { members: old(self)@.members.push(container@), ..old(self)@ }),
            r is Err ==> final(self)@ == old(self)@ && fails_with(r, DiagnosticCode::InvalidDeploymentIntent),
    {
        require_kind(&container, ResourceKind::Container)?;
        let ghost before = self.members@;
        self.members.push(container);
        assert(id_views(self.members@) =~= id_views(before).push(container@));
        Ok(())
    }

    /// Returns the pod identity.
    pub fn identity(&self) -> (r: &DeploymentResourceId)
        ensures
            r@ == self@.identity,
            r@.kind == ResourceKind::Pod,
    {
        self.identity.id()
    }

    /// Returns declared network prerequisites in input order.
    pub fn networks(&self) -> (r: &[DeploymentResourceId])
        ensures
            id_views(r@) == self@.networks,
    {
        self.networks.as_slice()
    }

    /// Returns declared infra-container mounts in input order.
    pub fn infra_mounts(&self) -> (r: &[NamedVolumeMount])
        ensures
            mount_views(r@) == self@.infra_mounts,
    {
        self.infra_mounts.as_slice()
    }

    /// Returns declared pod members in input order.
    pub fn members(&self) -> (r: &[DeploymentResourceId])
        ensures
            id_views(r@) == self@.members,
    {
        self.members.as_slice()
    }
}

impl SameValue for PodIntent {
    fn same_value(&self, other: &Self) -> (r: bool) {
        let networks = same_vec(&self.networks, &other.networks);
        let mounts = same_vec(&self.infra_mounts, &other.infra_mounts);
        let members = same_vec(&self.members, &other.members);
        proof {
            assert(id_views(self.networks@) == views(self.networks@));
            assert(id_views(other.networks@) == views(other.networks@));
            assert(id_views(self.members@) == views(self.members@));
            assert(id_views(other.members@) == views(other.members@));
            assert(mount_views(self.infra_mounts@) == views(self.infra_mounts@));
            assert(mount_views(other.infra_mounts@) == views(other.infra_mounts@));
        }
        self.identity.id().same_id(other.identity.id()) && networks && mounts && members
    }
}

/// The content of a container creation and start intent.
pub struct ContainerIntentView {
    pub identity: ResourceIdView,
    pub image: ResourceIdView,
    pub pod: Option<ResourceIdView>,
    pub networks: Seq<ResourceIdView>,
    pub mounts: Seq<NamedVolumeMountView>,
    pub secrets: Seq<ResourceIdView>,
    pub settings: ContainerSettingsView,
}

/// The identity of a container intent, which always names a container.
#[derive(Debug, Eq, PartialEq)]
struct ContainerId(DeploymentResourceId);

impl View for ContainerId {
    type V = ResourceIdView;

    closed spec fn view(&self) -> ResourceIdView {
        self.0@
    }
}

impl Clone for ContainerId {
    fn clone(&self) -> (r: Self)
        ensures
            r@ == self@,
    {
        self.duplicate()
    }
}

/// The identity of a pod intent, which always names a pod.
#[derive(Debug, Eq, PartialEq)]
struct PodId(DeploymentResourceId);

impl View for PodId {
    type V = ResourceIdView;

    closed spec fn view(&self) -> ResourceIdView {
        self.0@
    }
}

impl Clone for PodId {
    fn clone(&self) -> (r: Self)
        ensures
            r@ == self@,
    {
        self.duplicate()
    }
}

impl PodId {
    #[verifier::type_invariant]
    spec fn names_a_pod(self) -> bool {
        self.0@.kind == ResourceKind::Pod
    }

    fn id(&self) -> (r: &DeploymentResourceId)
        ensures
            r@ == self@,
            r@.kind == ResourceKind::Pod,
    {
        proof {
            use_type_invariant(self);
        }
        &self.0
    }

    fn duplicate(&self) -> (r: Self)
        ensures
            r@ == self@,
    {
        proof {
            use_type_invariant(self);
        }
        PodId(self.0.duplicate())
    }
}

impl ContainerId {
    #[verifier::type_invariant]
    spec fn names_a_container(self) -> bool {
        self.0@.kind == ResourceKind::Container
    }

    fn id(&self) -> (r: &DeploymentResourceId)
        ensures
            r@ == self@,
            r@.kind == ResourceKind::Container,
    {
        proof {
            use_type_invariant(self);
        }
        &self.0
    }

    fn duplicate(&self) -> (r: Self)
        ensures
            r@ == self@,
    {
        proof {
            use_type_invariant(self);
        }
        ContainerId(self.0.duplicate())
    }
}

/// One typed Podman container creation and start intent.
#[derive(Clone, Eq, PartialEq)]
pub struct ContainerIntent {
    identity: ContainerId,
    image: DeploymentResourceId,
    pod: Option<DeploymentResourceId>,
    networks: Vec<DeploymentResourceId>,
    mounts: Vec<NamedVolumeMount>,
    secrets: Vec<DeploymentResourceId>,
    settings: ContainerSettings,
}

impl View for ContainerIntent {
    type V = ContainerIntentView;

    closed spec fn view(&self) -> ContainerIntentView {
        ContainerIntentView {
            identity: self.identity@,
            image: self.image@,
            pod: opt_view(self.pod),
            networks: id_views(self.networks@),
            mounts: mount_views(self.mounts@),
            secrets: id_views(self.secrets@),
            settings: self.settings@,
        }
    }
}

impl SameValue for ContainerIntent {
    fn same_value(&self, other: &Self) -> (r: bool) {
        let networks = same_vec(&self.networks, &other.networks);
        let mounts = same_vec(&self.mounts, &other.mounts);
        let secrets = same_vec(&self.secrets, &other.secrets);
        proof {
            assert(id_views(self.networks@) == views(self.networks@));
            assert(id_views(other.networks@) == views(other.networks@));
            assert(id_views(self.secrets@) == views(self.secrets@));
            assert(id_views(other.secrets@) == views(other.secrets@));
            assert(mount_views(self.mounts@) == views(self.mounts@));
            assert(mount_views(other.mounts@) == views(other.mounts@));
        }
        self.identity.id().same_id(other.identity.id()) && self.image.same_id(&other.image)
            && crate::once::same_option(&self.pod, &other.pod) && networks && mounts && secrets
            && self.settings.same_value(&other.settings)
    }
}

impl ContainerIntent {
    /// Creates a container intent with one required fully resolved image prerequisite.
    ///
    /// # Errors
    ///
    /// Returns `PLN0034` when identities have the wrong resource kinds.
    pub fn new(identity: DeploymentResourceId, image: DeploymentResourceId) -> (r: PodmanLensResult<Self>)
        ensures
            r is Ok <==> identity@.kind == ResourceKind::Container && image@.kind == ResourceKind::Image,
            r matches Ok(c) ==> c@ == (ContainerIntentView {
                identity: identity@,
                image: image@,
                pod: None,
                networks: Seq::empty(),
                mounts: Seq::empty(),
                secrets: Seq::empty(),
                settings: crate::settings::empty_container_settings(),
            }),
            r is Err ==> fails_with(r, DiagnosticCode::InvalidDeploymentIntent),
    {
        require_kind(&identity, ResourceKind::Container)?;
        require_kind(&image, ResourceKind::Image)?;
        let r = ContainerIntent {
            identity: ContainerId(identity),
            image,
            pod: None,
            networks: Vec::new(),
            mounts: Vec::new(),
            secrets: Vec::new(),
            settings: ContainerSettings::new(),
        };
        assert(id_views(r.networks@) =~= Seq::empty());
        assert(id_views(r.secrets@) =~= Seq::empty());
        assert(mount_views(r.mounts@) =~= Seq::empty());
        Ok(r)
    }

    /// Assigns this container to one explicit pod.
    ///
    /// # Errors
    ///
    /// Returns `PLN0034` when `pod` is not a pod identity, `PLN0035` when it repeats the
    /// existing pod, and `PLN0038` when it conflicts with an existing pod assignment.
    pub fn set_pod(&mut self, pod: DeploymentResourceId) -> (r: PodmanLensResult<()>)
        ensures
            pod@.kind != ResourceKind::Pod ==> final(self)@ == old(self)@ && fails_with(r, DiagnosticCode::InvalidDeploymentIntent),
            pod@.kind == ResourceKind::Pod ==> crate::once::once_update(old(self)@.pod, pod@, final(self)@.pod, r)
                && final(self)@ == (ContainerIntentView { pod: final(self)@.pod, ..old(self)@ }),
    {
        require_kind(&pod, ResourceKind::Pod)?;
        crate::once::set_once(&mut self.pod, pod)
    }

    /// Adds a direct network prerequisite for an unpodded container.
    ///
    /// # Errors
    ///
    /// Returns `PLN0034` when `network` is not a network identity.
    pub fn add_network(&mut self, network: DeploymentResourceId) -> (r: PodmanLensResult<()>)
        ensures
            r is Ok <==> network@.kind == ResourceKind::Network,
            r is Ok ==> final(self)@ == (ContainerIntentView { networks: old(self)@.networks.push(network@), ..old(self)@ }),
            r is Err ==> final(self)@ == old(self)@ && fails_with(r, DiagnosticCode::InvalidDeploymentIntent),
    {
        require_kind(&network, ResourceKind::Network)?;
        let ghost before = self.networks@;
        self.networks.push(network);
        assert(id_views(self.networks@) =~= id_views(before).push(network@));
        Ok(())
    }

    /// Adds one named-volume mount.
    pub fn add_mount(&mut self, mount: NamedVolumeMount)
        ensures
            final(self)@ == (ContainerIntentView { mounts: old(self)@.mounts.push(mount@), ..old(self)@ }),
    {
        let ghost before = self.mounts@;
        self.mounts.push(mount);
        assert(mount_views(self.mounts@) =~= mount_views(before).push(mount@));
    }

    /// Adds a secret-metadata prerequisite.
    ///
    /// # Errors
    ///
    /// Returns `PLN0034` when `secret` is not a secret identity.
    pub fn add_secret(&mut self, secret: DeploymentResourceId) -> (r: PodmanLensResult<()>)
        ensures
            r is Ok <==> secret@.kind == ResourceKind::Secret,
            r is Ok ==> final(self)@ == (ContainerIntentView { secrets: old(self)@.secrets.push(secret@), ..old(self)@ }),
            r is Err ==> final(self)@ == old(self)@ && fails_with(r, DiagnosticCode::InvalidDeploymentIntent),
    {
        require_kind(&secret, ResourceKind::Secret)?;
        let ghost before = self.secrets@;
        self.secrets.push(secret);
        assert(id_views(self.secrets@) =~= id_views(before).push(secret@));
        Ok(())
    }

    /// Returns the container identity.
    pub fn identity(&self) -> (r: &DeploymentResourceId)
        ensures
            r@ == self@.identity,
            r@.kind == ResourceKind::Container,
    {
        self.identity.id()
    }

    /// Returns the required image prerequisite.
    pub fn image(&self) -> (r: &DeploymentResourceId)
        ensures
            r@ == self@.image,
    {
        &self.image
    }

    /// Returns explicit pod membership, when requested.
    pub fn pod(&self) -> (r: Option<&DeploymentResourceId>)
        ensures
            opt_view(r) == self@.pod,
    {
        match &self.pod {
            Some(p) => Some(p),
            None => None,
        }
    }

    /// Returns direct network prerequisites.
    pub fn networks(&self) -> (r: &[DeploymentResourceId])
        ensures
            id_views(r@) == self@.networks,
    {
        self.networks.as_slice()
    }

    /// Returns named-volume mounts.
    pub fn mounts(&self) -> (r: &[NamedVolumeMount])
        ensures
            mount_views(r@) == self@.mounts,
    {
        self.mounts.as_slice()
    }

    /// Returns secret prerequisites.
    pub fn secrets(&self) -> (r: &[DeploymentResourceId])
        ensures
            id_views(r@) == self@.secrets,
    {
        self.secrets.as_slice()
    }

    /// Returns the typed optional container settings.
    pub fn settings(&self) -> (r: &ContainerSettings)
        ensures
            r@ == self@.settings,
    {
        &self.settings
    }

    /// Returns mutable typed optional container settings.
    pub fn settings_mut(&mut self) -> (r: &mut ContainerSettings)
        ensures
            r@ == old(self)@.settings,
            final(self)@ == (ContainerIntentView { settings: final(r)@, ..old(self)@ }),
    {
        &mut self.settings
    }
}

/// The content of a resource declaration.
pub enum DeploymentResourceView {
    ExternalPrecondition(ResourceIdView),
    Image(ImageIntentView),
    Network(ResourceIdView),
    Volume(ResourceIdView),
    Secret(SecretIntentView),
    Pod(PodIntentView),
    Container(ContainerIntentView),
}

/// The identity a declaration declares.
pub open spec fn declared_identity(r: DeploymentResourceView) -> ResourceIdView {
    match r {
        DeploymentResourceView::ExternalPrecondition(id) => id,
        DeploymentResourceView::Image(i) => i.identity,
        DeploymentResourceView::Network(id) => id,
        DeploymentResourceView::Volume(id) => id,
        DeploymentResourceView::Secret(s) => s.identity,
        DeploymentResourceView::Pod(p) => p.identity,
        DeploymentResourceView::Container(c) => c.identity,
    }
}

/// One fully resolved Podman-native resource declaration.
#[derive(Clone, Eq, PartialEq)]
#[non_exhaustive]
pub enum DeploymentResource {
    /// An exact resource intentionally managed outside this plan.
    ExternalPrecondition(ExternalPrecondition),
    /// An image that must be available before its consumers are created.
    Image(ImageIntent),
    /// A network.
    Network(NetworkIntent),
    /// A named volume.
    Volume(VolumeIntent),
    /// A secret whose material stays outside the plan.
    Secret(SecretIntent),
    /// A Podman pod.
    Pod(PodIntent),
    /// A Podman container.
    Container(ContainerIntent),
}

impl View for DeploymentResource {
    type V = DeploymentResourceView;

    open spec fn view(&self) -> DeploymentResourceView {
        match self {
            DeploymentResource::ExternalPrecondition(r) => DeploymentResourceView::ExternalPrecondition(r@),
            DeploymentResource::Image(r) => DeploymentResourceView::Image(r@),
            DeploymentResource::Network(r) => DeploymentResourceView::Network(r@),
            DeploymentResource::Volume(r) => DeploymentResourceView::Volume(r@),
            DeploymentResource::Secret(r) => DeploymentResourceView::Secret(r@),
            DeploymentResource::Pod(r) => DeploymentResourceView::Pod(r@),
            DeploymentResource::Container(r) => DeploymentResourceView::Container(r@),
        }
    }
}

impl SameValue for DeploymentResource {
    fn same_value(&self, other: &Self) -> (r: bool) {
        match (self, other) {
            (DeploymentResource::ExternalPrecondition(a), DeploymentResource::ExternalPrecondition(b)) => a.identity.same_id(&b.identity),
            (DeploymentResource::Image(a), DeploymentResource::Image(b)) => a.same_value(b),
            (DeploymentResource::Network(a), DeploymentResource::Network(b)) => a.identity.same_id(&b.identity),
            (DeploymentResource::Volume(a), DeploymentResource::Volume(b)) => a.identity.same_id(&b.identity),
            (DeploymentResource::Secret(a), DeploymentResource::Secret(b)) => a.identity.same_id(&b.identity)
                && crate::text::str_eq(a.material.as_str(), b.material.as_str()),
            (DeploymentResource::Pod(a), DeploymentResource::Pod(b)) => a.same_value(b),
            (DeploymentResource::Container(a), DeploymentResource::Container(b)) => a.same_value(b),
            _ => false,
        }
    }
}

impl DeploymentResource {
    /// Returns the typed resource identity.
    pub fn identity(&self) -> (r: &DeploymentResourceId)
        ensures
            r@ == declared_identity(self@),
    {
        match self {
            DeploymentResource::ExternalPrecondition(resource) => resource.identity(),
            DeploymentResource::Image(resource) => resource.identity(),
            DeploymentResource::Network(resource) => resource.identity(),
            DeploymentResource::Volume(resource) => resource.identity(),
            DeploymentResource::Secret(resource) => resource.identity(),
            DeploymentResource::Pod(resource) => resource.identity(),
            DeploymentResource::Container(resource) => resource.identity(),
        }
    }
}

/// The content of a startup dependency.
pub struct StartupDependencyView {
    pub predecessor: ResourceIdView,
    pub dependent: ResourceIdView,
}

/// A semantic ordering edge between two container start intents.
///
/// Pod members are lifted to their pod-start operation. Ordering two containers in the same pod
/// is rejected because Podman starts that pod as one unit.
#[derive(Clone, Debug, Eq, Ord, PartialEq, PartialOrd)]
pub struct StartupDependency {
    predecessor: DeploymentResourceId,
    dependent: DeploymentResourceId,
}

impl View for StartupDependency {
    type V = StartupDependencyView;

    closed spec fn view(&self) -> StartupDependencyView {
        StartupDependencyView { predecessor: self.predecessor@, dependent: self.dependent@ }
    }
}

impl StartupDependency {
    /// Creates a strict start-order edge from `predecessor` to `dependent`.
    ///
    /// # Errors
    ///
    /// Returns `PLN0034` unless both identities are containers.
    pub fn new(predecessor: DeploymentResourceId, dependent: DeploymentResourceId) -> (r: PodmanLensResult<Self>)
        ensures
            r is Ok <==> predecessor@.kind == ResourceKind::Container && dependent@.kind == ResourceKind::Container,
            r matches Ok(d) ==> d@ == (StartupDependencyView { predecessor: predecessor@, dependent: dependent@ }),
            r is Err ==> fails_with(r, DiagnosticCode::InvalidDeploymentIntent),
    {
        require_kind(&predecessor, ResourceKind::Container)?;
        require_kind(&dependent, ResourceKind::Container)?;
        Ok(StartupDependency { predecessor, dependent })
    }

    /// Returns the container that must start first.
    pub fn predecessor(&self) -> (r: &DeploymentResourceId)
        ensures
            r@ == self@.predecessor,
    {
        &self.predecessor
    }

    /// Returns the container that starts later.
    pub fn dependent(&self) -> (r: &DeploymentResourceId)
        ensures
            r@ == self@.dependent,
    {
        &self.dependent
    }
}

/// The content of a deployment intent.
pub struct DeploymentIntentView {
    pub target: TargetProfileView,
    pub connection: Option<Seq<char>>,
    pub resources: Seq<DeploymentResourceView>,
    pub startup_dependencies: Seq<StartupDependencyView>,
}

/// Explicit input to semantic Podman deployment planning.
#[derive(Clone, Eq, PartialEq)]
pub struct DeploymentIntent {
    target: TargetProfile,
    connection: Option<DeploymentConnectionReference>,
    resources: Vec<DeploymentResource>,
    startup_dependencies: Vec<StartupDependency>,
}

impl View for DeploymentIntent {
    type V = DeploymentIntentView;

    closed spec fn view(&self) -> DeploymentIntentView {
        DeploymentIntentView {
            target: self.target@,
            connection: opt_view(self.connection),
            resources: views(self.resources@),
            startup_dependencies: views(self.startup_dependencies@),
        }
    }
}

impl DeploymentIntent {
    /// Creates an empty intent for an explicit reviewed target profile.
    pub fn new(target: TargetProfile) -> (r: Self)
        ensures
            r@ == (DeploymentIntentView {
                target: target@,
                connection: None,
                resources: Seq::empty(),
                startup_dependencies: Seq::empty(),
            }),
    {
        let r = DeploymentIntent { target, connection: None, resources: Vec::new(), startup_dependencies: Vec::new() };
        assert(views(r.resources@) =~= Seq::<DeploymentResourceView>::empty());
        assert(views(r.startup_dependencies@) =~= Seq::<StartupDependencyView>::empty());
        r
    }

    /// Records a non-sensitive output-connection reference in this plan.
    pub fn set_connection(&mut self, connection: DeploymentConnectionReference)
        ensures
            final(self)@ == (DeploymentIntentView { connection: Some(connection@), ..old(self)@ }),
    {
        self.connection = Some(connection);
    }

    /// Adds one fully resolved resource declaration.
    ///
    /// Duplicate identities and unresolved prerequisites are reported by [`plan_deployment`], so
    /// callers may collect all typed declarations before asking the planner to validate them.
    pub fn add_resource(&mut self, resource: DeploymentResource)
        ensures
            final(self)@ == (DeploymentIntentView { resources: old(self)@.resources.push(resource@), ..old(self)@ }),
    {
        let ghost before = self.resources@;
        self.resources.push(resource);
        assert(views(self.resources@) =~= views(before).push(resource@));
    }

    /// Adds one explicit semantic container-start ordering edge.
    pub fn add_startup_dependency(&mut self, dependency: StartupDependency)
        ensures
            final(self)@ == (DeploymentIntentView {
                startup_dependencies: old(self)@.startup_dependencies.push(dependency@),
                ..old(self)@
            }),
    {
        let ghost before = self.startup_dependencies@;
        self.startup_dependencies.push(dependency);
        assert(views(self.startup_dependencies@) =~= views(before).push(dependency@));
    }

    /// Returns the explicit reviewed target profile.
    pub fn target(&self) -> (r: &TargetProfile)
        ensures
            r@ == self@.target,
    {
        &self.target
    }

    /// Returns the optional non-sensitive output connection reference.
    pub fn connection(&self) -> (r: Option<&DeploymentConnectionReference>)
        ensures
            opt_view(r) == self@.connection,
    {
        match &self.connection {
            Some(c) => Some(c),
            None => None,
        }
    }

    /// Returns typed resources in caller-supplied order.
    pub fn resources(&self) -> (r: &[DeploymentResource])
        ensures
            views(r@) == self@.resources,
    {
        self.resources.as_slice()
    }

    /// Returns explicit semantic start-order edges in caller-supplied order.
    pub fn startup_dependencies(&self) -> (r: &[StartupDependency])
        ensures
            views(r@) == self@.startup_dependencies,
    {
        self.startup_dependencies.as_slice()
    }
}

impl Duplicate for DeploymentResourceId {
    fn duplicate_value(&self) -> (r: Self) {
        self.duplicate()
    }
}

fn duplicate_ids(v: &Vec<DeploymentResourceId>) -> (r: Vec<DeploymentResourceId>)
    ensures
        id_views(r@) == id_views(v@),
{
    let r = duplicate_vec(v);
    assert(id_views(r@) =~= views(r@));
    assert(id_views(v@) =~= views(v@));
    r
}

fn duplicate_mounts(v: &Vec<NamedVolumeMount>) -> (r: Vec<NamedVolumeMount>)
    ensures
        mount_views(r@) == mount_views(v@),
{
    let r = duplicate_vec(v);
    assert(mount_views(r@) =~= views(r@));
    assert(mount_views(v@) =~= views(v@));
    r
}

impl Duplicate for DeploymentResource {
    fn duplicate_value(&self) -> (r: Self) {
        match self {
            DeploymentResource::ExternalPrecondition(x) => DeploymentResource::ExternalPrecondition(x.duplicate()),
            DeploymentResource::Image(x) => DeploymentResource::Image(
                ImageIntent { identity: x.identity.duplicate(), source: x.source.clone(), pull_policy: x.pull_policy },
            ),
            DeploymentResource::Network(x) => DeploymentResource::Network(NetworkIntent { identity: x.identity.duplicate() }),
            DeploymentResource::Volume(x) => DeploymentResource::Volume(VolumeIntent { identity: x.identity.duplicate() }),
            DeploymentResource::Secret(x) => DeploymentResource::Secret(
                SecretIntent { identity: x.identity.duplicate(), material: x.material.duplicate() },
            ),
            DeploymentResource::Pod(x) => DeploymentResource::Pod(
                PodIntent {
                    identity: x.identity.duplicate(),
                    networks: duplicate_ids(&x.networks),
                    infra_mounts: duplicate_mounts(&x.infra_mounts),
                    members: duplicate_ids(&x.members),
                },
            ),
            DeploymentResource::Container(x) => DeploymentResource::Container(
                ContainerIntent {
                    identity: x.identity.duplicate(),
                    image: x.image.duplicate(),
                    pod: duplicate_option(&x.pod),
                    networks: duplicate_ids(&x.networks),
                    mounts: duplicate_mounts(&x.mounts),
                    secrets: duplicate_ids(&x.secrets),
                    settings: x.settings.duplicate_value(),
                },
            ),
        }
    }
}

} // verus!
