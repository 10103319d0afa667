//! Explicit, transport-neutral Podman service connection specifications.
//!
//! Endpoint spellings are parsed by the `url` crate; what this module decides about the parts
//! it returns is stated and proved here. No value of this module holds secret material: external
//! references only name material that the caller owns.

use vstd::prelude::*;

use crate::diagnostic::{Diagnostic, DiagnosticCode, PodmanLensResult};
use crate::once::opt_view;
use crate::text::{
    byte_len, byte_len_at_most, char_is_control, char_is_whitespace, contains_char, first_index, is_ascii, is_control,
    is_whitespace, no_control, no_whitespace, split_chars, split_on, slice_chars, string_from_chars, to_chars, trim,
    trimmed,
};

verus! {

/// The longest socket path a `sockaddr_un` holds, in bytes.
pub const SOCKADDR_UN_PATH_MAX_BYTES: usize = 107;

/// A reference that is not blank and holds no control character.
pub open spec fn valid_reference(s: Seq<char>) -> bool {
    trim(s).len() > 0 && no_control(s)
}

/// An opaque external reference such as a host key, certificate, or authentication material.
///
/// The reference identifies material owned by the caller; it never contains the material itself.
#[derive(Clone, Eq, PartialEq, Hash)]
pub struct OpaqueReference(String);

impl View for OpaqueReference {
    type V = Seq<char>;

    closed spec fn view(&self) -> Seq<char> {
        self.0@
    }
}

fn no_control_chars(s: &Vec<char>) -> (r: bool)
    ensures
        r == no_control(s@),
{
    let mut i: usize = 0;
    while i < s.len()
        invariant
            i <= s.len(),
            forall|j: int| 0 <= j < i ==> !is_control(#[trigger] s@[j]),
        decreases s.len() - i,
    {
        if char_is_control(s[i]) {
            return false;
        }
        i = i + 1;
    }
    true
}

fn no_whitespace_chars(s: &Vec<char>) -> (r: bool)
    ensures
        r == no_whitespace(s@),
{
    let mut i: usize = 0;
    while i < s.len()
        invariant
            i <= s.len(),
            forall|j: int| 0 <= j < i ==> !is_whitespace(#[trigger] s@[j]),
        decreases s.len() - i,
    {
        if char_is_whitespace(s[i]) {
            return false;
        }
        i = i + 1;
    }
    true
}

impl OpaqueReference {
    /// The redacted debug text of a reference: it never shows the reference itself.
    pub fn debug_text(&self) -> (r: &'static str)
        ensures
            r@ == "OpaqueReference([redacted])"@,
    {
        "OpaqueReference([redacted])"
    }

    /// Validates and retains a non-empty external reference; fails with `InvalidConnection`
    /// when it is blank or holds a control character.
    pub fn new(reference: &str) -> (r: PodmanLensResult<Self>)
        ensures
            r is Ok <==> valid_reference(reference@),
            r matches Ok(o) ==> o@ == reference@,
            r matches Err(e) ==> e@ == DiagnosticCode::InvalidConnection,
    {
        let chars = to_chars(reference);
        let t = trimmed(&chars);
        if t.len() == 0 || !no_control_chars(&chars) {
            return Err(Diagnostic::new(DiagnosticCode::InvalidConnection));
        }
        Ok(OpaqueReference(reference.to_owned()))
    }

    /// Returns the caller-owned reference for a transport implementation.
    pub fn as_str(&self) -> (r: &str)
        ensures
            r@ == self@,
    {
        self.0.as_str()
    }

    /// A copy with the same content.
    pub fn duplicate(&self) -> (r: Self)
        ensures
            r@ == self@,
    {
        OpaqueReference(self.0.clone())
    }

    /// The redacted text shown in place of the reference.
    pub fn to_display_string(&self) -> (r: &'static str)
        ensures
            r@ == "[redacted]"@,
    {
        "[redacted]"
    }
}

// ---------------------------------------------------------------------------------------------
// Paths and endpoint names.
// ---------------------------------------------------------------------------------------------
/// A path segment naming the current or the parent directory.
pub open spec fn dot_segment(seg: Seq<char>) -> bool {
    seg == "."@ || seg == ".."@
}

/// No `/`-separated segment of `s` is `.` or `..`.
pub open spec fn no_dot_segment(s: Seq<char>) -> bool {
    forall|i: int| 0 <= i < split_on(s, '/').len() ==> !dot_segment(#[trigger] split_on(s, '/')[i])
}

/// An absolute socket path that names a file, holds no NUL and no `.` or `..` segment, and fits
/// in a `sockaddr_un`.
pub open spec fn valid_unix_socket_path(s: Seq<char>) -> bool {
    &&& s.len() > 0
    &&& s[0] == '/'
    &&& exists|i: int| 0 <= i < s.len() && s[i] != '/'
    &&& !s.contains('\0')
    &&& byte_len(s) <= SOCKADDR_UN_PATH_MAX_BYTES
    &&& no_dot_segment(s)
}

/// A raw endpoint path: ASCII, absolute, free of `%`, controls, whitespace, and dot segments.
pub open spec fn safe_raw_socket_path(p: Seq<char>) -> bool {
    &&& forall|i: int| 0 <= i < p.len() ==> is_ascii(#[trigger] p[i])
    &&& p.len() > 0
    &&& p[0] == '/'
    &&& !p.contains('%')
    &&& no_control(p)
    &&& no_whitespace(p)
    &&& no_dot_segment(p)
}

/// A host, user, or TLS server name: not blank, unpadded, free of controls and whitespace, and
/// free of the URI delimiters `/`, `@`, `?`, and `#`.
pub open spec fn valid_endpoint_name(v: Seq<char>) -> bool {
    &&& trim(v).len() > 0
    &&& v == trim(v)
    &&& no_control(v)
    &&& no_whitespace(v)
    &&& !v.contains('/')
    &&& !v.contains('@')
    &&& !v.contains('?')
    &&& !v.contains('#')
}

/// The path of an endpoint written as `scheme://authority/path`: everything from the first `/`
/// after the `scheme://` prefix.
pub open spec fn raw_path(endpoint: Seq<char>, scheme: Seq<char>) -> Option<Seq<char>> {
    let prefix = scheme + "://"@;
    if prefix.len() <= endpoint.len() && endpoint.take(prefix.len() as int) == prefix {
        let rest = endpoint.skip(prefix.len() as int);
        if rest.contains('/') {
            Some(rest.skip(first_index(rest, '/')))
        } else {
            None
        }
    } else {
        None
    }
}

fn no_dot_segments(s: &Vec<char>) -> (r: bool)
    ensures
        r == no_dot_segment(s@),
{
    let parts = split_chars(s, '/');
    let dot = to_chars(".");
    let dots = to_chars("..");
    let mut i: usize = 0;
    while i < parts.len()
        invariant
            i <= parts.len(),
            parts@.len() == split_on(s@, '/').len(),
            forall|j: int| 0 <= j < parts@.len() ==> (#[trigger] parts@[j])@ == split_on(s@, '/')[j],
            dot@ == "."@,
            dots@ == ".."@,
            forall|j: int| 0 <= j < i ==> !dot_segment(#[trigger] split_on(s@, '/')[j]),
        decreases parts.len() - i,
    {
        assert(parts@[i as int]@ == split_on(s@, '/')[i as int]);
        if crate::text::chars_eq(&parts[i], &dot) || crate::text::chars_eq(&parts[i], &dots) {
            return false;
        }
        i = i + 1;
    }
    true
}

fn names_a_file(s: &Vec<char>) -> (r: bool)
    ensures
        r == exists|i: int| 0 <= i < s@.len() && s@[i] != '/',
{
    let mut i: usize = 0;
    while i < s.len()
        invariant
            i <= s.len(),
            forall|j: int| 0 <= j < i ==> s@[j] == '/',
        decreases s.len() - i,
    {
        if s[i] != '/' {
            return true;
        }
        i = i + 1;
    }
    false
}

/// Whether `path` is a valid Unix socket path.
pub fn is_valid_unix_socket_path(path: &str) -> (r: bool)
    ensures
        r == valid_unix_socket_path(path@),
{
    let s = to_chars(path);
    if s.len() == 0 || s[0] != '/' {
        return false;
    }
    if !names_a_file(&s) || contains_char(&s, '\0') {
        return false;
    }
    byte_len_at_most(&s, SOCKADDR_UN_PATH_MAX_BYTES) && no_dot_segments(&s)
}

fn all_ascii(s: &Vec<char>) -> (r: bool)
    ensures
        r == forall|i: int| 0 <= i < s@.len() ==> is_ascii(#[trigger] s@[i]),
{
    let mut i: usize = 0;
    while i < s.len()
        invariant
            i <= s.len(),
            forall|j: int| 0 <= j < i ==> is_ascii(#[trigger] s@[j]),
        decreases s.len() - i,
    {
        if (s[i] as u32) >= 0x80 {
            return false;
        }
        i = i + 1;
    }
    true
}

/// Whether `path` is a safe raw endpoint path.
pub fn is_safe_raw_socket_path(path: &str) -> (r: bool)
    ensures
        r == safe_raw_socket_path(path@),
{
    let s = to_chars(path);
    if s.len() == 0 || s[0] != '/' {
        return false;
    }
    all_ascii(&s) && !contains_char(&s, '%') && no_control_chars(&s) && no_whitespace_chars(&s) && no_dot_segments(&s)
}

/// Validates a host, user, or server name.
pub fn validate_endpoint_name(value: &str) -> (r: PodmanLensResult<String>)
    ensures
        r is Ok <==> valid_endpoint_name(value@),
        r matches Ok(v) ==> v@ == value@,
        r matches Err(e) ==> e@ == DiagnosticCode::InvalidConnection,
{
    let s = to_chars(value);
    let t = trimmed(&s);
    if t.len() == 0 || !crate::text::chars_eq(&t, &s) || !no_control_chars(&s) || !no_whitespace_chars(&s)
        || contains_char(&s, '/') || contains_char(&s, '@') || contains_char(&s, '?') || contains_char(&s, '#')
    {
        return Err(Diagnostic::new(DiagnosticCode::InvalidConnection));
    }
    Ok(value.to_owned())
}

/// Returns the raw path of `scheme://authority/path`.
pub fn raw_uri_path(endpoint: &str, scheme: &str) -> (r: PodmanLensResult<String>)
    ensures
        r is Ok <==> raw_path(endpoint@, scheme@) is Some,
        r matches Ok(p) ==> Some(p@) == raw_path(endpoint@, scheme@),
        r matches Err(e) ==> e@ == DiagnosticCode::InvalidConnection,
{
    let e = to_chars(endpoint);
    let mut prefix = to_chars(scheme);
    let sep = to_chars("://");
    crate::text::append_chars(&mut prefix, &sep);
    assert(prefix@ == scheme@ + "://"@);
    if prefix.len() > e.len() {
        return Err(Diagnostic::new(DiagnosticCode::InvalidConnection));
    }
    let head = slice_chars(&e, 0, prefix.len());
    assert(head@ =~= e@.take(prefix@.len() as int));
    if !crate::text::chars_eq(&head, &prefix) {
        return Err(Diagnostic::new(DiagnosticCode::InvalidConnection));
    }
    let rest = slice_chars(&e, prefix.len(), e.len());
    assert(rest@ =~= e@.skip(prefix@.len() as int));
    match crate::text::find_first(&rest, '/') {
        Some(k) => {
            assert(rest@.contains('/')) by {
                assert(rest@[k as int] == '/');
            }
            let path = slice_chars(&rest, k, rest.len());
            assert(path@ =~= rest@.skip(k as int));
            Ok(string_from_chars(&path))
        },
        None => Err(Diagnostic::new(DiagnosticCode::InvalidConnection)),
    }
}

// ---------------------------------------------------------------------------------------------
// Parsed endpoints.
// ---------------------------------------------------------------------------------------------
/// The parts of a parsed URL that connection parsing reads.
pub struct UrlPartsView {
    pub scheme: Seq<char>,
    pub username: Seq<char>,
    pub password: Option<Seq<char>>,
    pub host: Option<Seq<char>>,
    pub port: Option<u16>,
    pub path: Seq<char>,
    pub query: Option<Seq<char>>,
    pub fragment: Option<Seq<char>>,
}

/// The parts of a parsed URL, as plain values.
pub struct UrlParts {
    pub scheme: String,
    pub username: String,
    pub password: Option<String>,
    pub host: Option<String>,
    pub port: Option<u16>,
    pub path: String,
    pub query: Option<String>,
    pub fragment: Option<String>,
}

/// The content of an optional text.
pub open spec fn opt_text(o: Option<String>) -> Option<Seq<char>> {
    match o {
        Some(s) => Some(s@),
        None => None,
    }
}

impl View for UrlParts {
    type V = UrlPartsView;

    open spec fn view(&self) -> UrlPartsView {
        UrlPartsView {
            scheme: self.scheme@,
            username: self.username@,
            password: opt_text(self.password),
            host: opt_text(self.host),
            port: self.port,
            path: self.path@,
            query: opt_text(self.query),
            fragment: opt_text(self.fragment),
        }
    }
}

/// The parts the `url` crate's `Url::parse` gives an endpoint spelling, or `None` when it rejects
/// the spelling.
pub uninterp spec fn url_components(endpoint: Seq<char>) -> Option<UrlPartsView>;

/// Parses an endpoint with `url::Url::parse` and reads its parts; the result is whatever the
/// `url` crate gives for this text, named `url_components`.
#[verifier::external_body]
fn parse_url(endpoint: &str) -> (r: Option<UrlParts>)
    ensures
        opt_view(r) == url_components(endpoint@),
{
    url::Url::parse(endpoint).ok().map(|u| UrlParts {
        scheme: u.scheme().to_owned(),
        username: u.username().to_owned(),
        password: u.password().map(str::to_owned),
        host: u.host_str().map(str::to_owned),
        port: u.port(),
        path: u.path().to_owned(),
        query: u.query().map(str::to_owned),
        fragment: u.fragment().map(str::to_owned),
    })
}

fn opt_is_empty_text(o: &Option<String>) -> (r: bool)
    ensures
        r == (opt_text(*o) is None || opt_text(*o) == Some(Seq::<char>::empty())),
{
    match o {
        None => true,
        Some(s) => {
            let c = to_chars(s.as_str());
            if c.len() == 0 {
                assert(s@ =~= Seq::<char>::empty());
            }
            c.len() == 0
        },
    }
}

// ---------------------------------------------------------------------------------------------
// Unix sockets.
// ---------------------------------------------------------------------------------------------
/// A parsed `unix:` endpoint names no host, query, or fragment, and no percent-encoded path.
pub open spec fn unix_url_acceptable(u: UrlPartsView) -> bool {
    &&& u.scheme == "unix"@
    &&& (u.host is None || u.host == Some(Seq::<char>::empty()))
    &&& u.query is None
    &&& u.fragment is None
    &&& !u.path.contains('%')
}

/// The socket path an endpoint spelling `unix:///path` selects, if it is acceptable.
pub open spec fn unix_endpoint(endpoint: Seq<char>) -> Option<Seq<char>> {
    match (raw_path(endpoint, "unix"@), url_components(endpoint)) {
        (Some(p), Some(u)) => if safe_raw_socket_path(p) && unix_url_acceptable(u) && valid_unix_socket_path(u.path) {
            Some(u.path)
        } else {
            None
        },
        _ => None,
    }
}

/// A validated local Unix-domain socket connection.
#[derive(Clone, Eq, PartialEq)]
pub struct UnixConnection {
    socket_path: String,
}

impl View for UnixConnection {
    type V = Seq<char>;

    closed spec fn view(&self) -> Seq<char> {
        self.socket_path@
    }
}

impl UnixConnection {
    /// Creates a Unix connection with an absolute socket path; fails with `InvalidConnection`
    /// when the path is not a valid socket path.
    pub fn new(socket_path: &str) -> (r: PodmanLensResult<Self>)
        ensures
            r is Ok <==> valid_unix_socket_path(socket_path@),
            r matches Ok(c) ==> c@ == socket_path@,
            r matches Err(e) ==> e@ == DiagnosticCode::InvalidConnection,
    {
        if !is_valid_unix_socket_path(socket_path) {
            return Err(Diagnostic::new(DiagnosticCode::InvalidConnection));
        }
        Ok(UnixConnection { socket_path: socket_path.to_owned() })
    }

    /// Builds a Unix connection from the parts of a parsed `unix:` endpoint.
    pub fn from_url(parts: &UrlParts) -> (r: PodmanLensResult<Self>)
        ensures
            r is Ok <==> unix_url_acceptable(parts@) && valid_unix_socket_path(parts@.path),
            r matches Ok(c) ==> c@ == parts@.path,
            r matches Err(e) ==> e@ == DiagnosticCode::InvalidConnection,
    {
        let unix = to_chars("unix");
        let scheme = to_chars(parts.scheme.as_str());
        let path = to_chars(parts.path.as_str());
        if !crate::text::chars_eq(&scheme, &unix) || !opt_is_empty_text(&parts.host) || parts.query.is_some()
            || parts.fragment.is_some() || contains_char(&path, '%')
        {
            return Err(Diagnostic::new(DiagnosticCode::InvalidConnection));
        }
        UnixConnection::new(parts.path.as_str())
    }

    /// Parses an explicit `unix:///absolute/socket` endpoint spelling; fails with
    /// `InvalidConnection` when the raw path is unsafe, the `url` crate rejects the spelling, or
    /// the parsed parts are not a plain socket path.
    pub fn parse(endpoint: &str) -> (r: PodmanLensResult<Self>)
        ensures
            r is Ok <==> unix_endpoint(endpoint@) is Some,
            r matches Ok(c) ==> Some(c@) == unix_endpoint(endpoint@),
            r matches Err(e) ==> e@ == DiagnosticCode::InvalidConnection,
    {
        let raw = raw_uri_path(endpoint, "unix")?;
        if !is_safe_raw_socket_path(raw.as_str()) {
            return Err(Diagnostic::new(DiagnosticCode::InvalidConnection));
        }
        match parse_url(endpoint) {
            Some(parts) => UnixConnection::from_url(&parts),
            None => Err(Diagnostic::new(DiagnosticCode::InvalidConnection)),
        }
    }

    /// Returns the selected local socket path.
    pub fn socket_path(&self) -> (r: &str)
        ensures
            r@ == self@,
    {
        self.socket_path.as_str()
    }

    /// The redacted text shown in place of the connection.
    pub fn to_display_string(&self) -> (r: &'static str)
        ensures
            r@ == "unix socket [redacted]"@,
    {
        "unix socket [redacted]"
    }
}

// ---------------------------------------------------------------------------------------------
// SSH.
// ---------------------------------------------------------------------------------------------
/// The content of an SSH connection.
pub struct SshConnectionView {
    pub host: Seq<char>,
    pub port: u16,
    pub user: Seq<char>,
    pub remote_socket_path: Seq<char>,
    pub host_key_reference: Seq<char>,
    pub authentication_reference: Seq<char>,
}

/// A validated SSH endpoint with explicit host verification and authentication references.
#[derive(Clone, Eq, PartialEq)]
pub struct SshConnection {
    host: String,
    port: u16,
    user: String,
    remote_socket_path: String,
    host_key_reference: OpaqueReference,
    authentication_reference: OpaqueReference,
}

impl View for SshConnection {
    type V = SshConnectionView;

    closed spec fn view(&self) -> SshConnectionView {
        SshConnectionView {
            host: self.host@,
            port: self.port,
            user: self.user@,
            remote_socket_path: self.remote_socket_path@,
            host_key_reference: self.host_key_reference@,
            authentication_reference: self.authentication_reference@,
        }
    }
}

/// The components an SSH endpoint must have.
pub open spec fn valid_ssh_endpoint(host: Seq<char>, port: u16, user: Seq<char>, path: Seq<char>) -> bool {
    valid_endpoint_name(host) && valid_endpoint_name(user) && port != 0 && valid_unix_socket_path(path)
}

/// A parsed `ssh:` endpoint names a user, a host, and a port, and no password, query, fragment,
/// or percent-encoded path.
pub open spec fn ssh_url_acceptable(u: UrlPartsView) -> bool {
    &&& u.scheme == "ssh"@
    &&& u.username.len() > 0
    &&& u.password is None
    &&& u.query is None
    &&& u.fragment is None
    &&& !u.path.contains('%')
    &&& u.host is Some
    &&& u.port is Some
}

/// The parsed parts of an SSH endpoint spelling, if it is acceptable.
pub open spec fn ssh_endpoint(endpoint: Seq<char>) -> Option<UrlPartsView> {
    match (raw_path(endpoint, "ssh"@), url_components(endpoint)) {
        (Some(p), Some(u)) => if safe_raw_socket_path(p) && ssh_url_acceptable(u) && valid_ssh_endpoint(
            u.host->0,
            u.port->0,
            u.username,
            u.path,
        ) {
            Some(u)
        } else {
            None
        },
        _ => None,
    }
}

/// The SSH connection parsed endpoint parts describe.
pub open spec fn ssh_connection_of(u: UrlPartsView, host_key: Seq<char>, authentication: Seq<char>) -> SshConnectionView {
    SshConnectionView {
        host: u.host->0,
        port: u.port->0,
        user: u.username,
        remote_socket_path: u.path,
        host_key_reference: host_key,
        authentication_reference: authentication,
    }
}

impl SshConnection {
    /// Creates an SSH endpoint; fails with `InvalidConnection` when the host or user is not a
    /// valid endpoint name, the port is zero, or the remote socket path is invalid.
    pub fn new(
        host: &str,
        port: u16,
        user: &str,
        remote_socket_path: &str,
        host_key_reference: OpaqueReference,
        authentication_reference: OpaqueReference,
    ) -> (r: PodmanLensResult<Self>)
        ensures
            r is Ok <==> valid_ssh_endpoint(host@, port, user@, remote_socket_path@),
            r matches Ok(c) ==> c@ == (SshConnectionView {
                host: host@,
                port,
                user: user@,
                remote_socket_path: remote_socket_path@,
                host_key_reference: host_key_reference@,
                authentication_reference: authentication_reference@,
            }),
            r matches Err(e) ==> e@ == DiagnosticCode::InvalidConnection,
    {
        let host = validate_endpoint_name(host)?;
        let user = validate_endpoint_name(user)?;
        if port == 0 || !is_valid_unix_socket_path(remote_socket_path) {
            return Err(Diagnostic::new(DiagnosticCode::InvalidConnection));
        }
        Ok(SshConnection {
            host,
            port,
            user,
            remote_socket_path: remote_socket_path.to_owned(),
            host_key_reference,
            authentication_reference,
        })
    }

    /// Builds an SSH connection from the parts of a parsed `ssh:` endpoint.
    pub fn from_url(
        parts: &UrlParts,
        host_key_reference: OpaqueReference,
        authentication_reference: OpaqueReference,
    ) -> (r: PodmanLensResult<Self>)
        ensures
            r is Ok <==> ssh_url_acceptable(parts@) && valid_ssh_endpoint(
                parts@.host->0,
                parts@.port->0,
                parts@.username,
                parts@.path,
            ),
            r matches Ok(c) ==> c@ == (SshConnectionView {
                host: parts@.host->0,
                port: parts@.port->0,
                user: parts@.username,
                remote_socket_path: parts@.path,
                host_key_reference: host_key_reference@,
                authentication_reference: authentication_reference@,
            }),
            r matches Err(e) ==> e@ == DiagnosticCode::InvalidConnection,
    {
        let ssh = to_chars("ssh");
        let scheme = to_chars(parts.scheme.as_str());
        let path = to_chars(parts.path.as_str());
        let user = to_chars(parts.username.as_str());
        if !crate::text::chars_eq(&scheme, &ssh) || user.len() == 0 || parts.password.is_some() || parts.query.is_some()
            || parts.fragment.is_some() || contains_char(&path, '%')
        {
            return Err(Diagnostic::new(DiagnosticCode::InvalidConnection));
        }
        let host = match &parts.host {
            Some(h) => h,
            None => {
                return Err(Diagnostic::new(DiagnosticCode::InvalidConnection));
            },
        };
        let port = match parts.port {
            Some(p) => p,
            None => {
                return Err(Diagnostic::new(DiagnosticCode::InvalidConnection));
            },
        };
        SshConnection::new(
            host.as_str(),
            port,
            parts.username.as_str(),
            parts.path.as_str(),
            host_key_reference,
            authentication_reference,
        )
    }

    /// Parses `ssh://user@host:port/absolute/socket` with separately supplied security material;
    /// fails with `InvalidConnection` when the raw path is unsafe, the `url` crate rejects the
    /// spelling, or a component is missing or invalid.
    pub fn parse(endpoint: &str, host_key_reference: OpaqueReference, authentication_reference: OpaqueReference) -> (r:
        PodmanLensResult<Self>)
        ensures
            r is Ok <==> ssh_endpoint(endpoint@) is Some,
            r matches Ok(c) ==> c@ == ssh_connection_of(ssh_endpoint(endpoint@)->0, host_key_reference@, authentication_reference@),
            r matches Err(e) ==> e@ == DiagnosticCode::InvalidConnection,
    {
        let raw = raw_uri_path(endpoint, "ssh")?;
        if !is_safe_raw_socket_path(raw.as_str()) {
            return Err(Diagnostic::new(DiagnosticCode::InvalidConnection));
        }
        match parse_url(endpoint) {
            Some(parts) => SshConnection::from_url(&parts, host_key_reference, authentication_reference),
            None => Err(Diagnostic::new(DiagnosticCode::InvalidConnection)),
        }
    }

    /// Returns the explicit host.
    pub fn host(&self) -> (r: &str)
        ensures
            r@ == self@.host,
    {
        self.host.as_str()
    }

    /// Returns the explicit non-zero SSH port.
    pub fn port(&self) -> (r: u16)
        ensures
            r == self@.port,
    {
        self.port
    }

    /// Returns the selected remote user.
    pub fn user(&self) -> (r: &str)
        ensures
            r@ == self@.user,
    {
        self.user.as_str()
    }

    /// Returns the absolute remote socket path.
    pub fn remote_socket_path(&self) -> (r: &str)
        ensures
            r@ == self@.remote_socket_path,
    {
        self.remote_socket_path.as_str()
    }

    /// Returns the required verified-host-key reference.
    pub fn host_key_reference(&self) -> (r: &OpaqueReference)
        ensures
            r@ == self@.host_key_reference,
    {
        &self.host_key_reference
    }

    /// Returns the caller-owned authentication reference.
    pub fn authentication_reference(&self) -> (r: &OpaqueReference)
        ensures
            r@ == self@.authentication_reference,
    {
        &self.authentication_reference
    }

    /// The redacted text shown in place of the connection.
    pub fn to_display_string(&self) -> (r: &'static str)
        ensures
            r@ == "SSH Podman connection [redacted]"@,
    {
        "SSH Podman connection [redacted]"
    }
}

// ---------------------------------------------------------------------------------------------
// TCP with mutual TLS.
// ---------------------------------------------------------------------------------------------
/// The content of a mutual-TLS policy.
pub struct MutualTlsPolicyView {
    pub server_name: Seq<char>,
    pub certificate_authority_reference: Seq<char>,
    pub client_certificate_reference: Seq<char>,
    pub client_private_key_reference: Seq<char>,
}

/// Mandatory mutual-TLS material references for a TCP Podman endpoint.
#[derive(Clone, Eq, PartialEq)]
pub struct MutualTlsPolicy {
    server_name: String,
    certificate_authority_reference: OpaqueReference,
    client_certificate_reference: OpaqueReference,
    client_private_key_reference: OpaqueReference,
}

impl View for MutualTlsPolicy {
    type V = MutualTlsPolicyView;

    closed spec fn view(&self) -> MutualTlsPolicyView {
        MutualTlsPolicyView {
            server_name: self.server_name@,
            certificate_authority_reference: self.certificate_authority_reference@,
            client_certificate_reference: self.client_certificate_reference@,
            client_private_key_reference: self.client_private_key_reference@,
        }
    }
}

impl MutualTlsPolicy {
    /// Creates a mandatory mutual-TLS policy; fails with `InvalidConnection` when the server
    /// name is not a valid endpoint name.
    pub fn new(
        server_name: &str,
        certificate_authority_reference: OpaqueReference,
        client_certificate_reference: OpaqueReference,
        client_private_key_reference: OpaqueReference,
    ) -> (r: PodmanLensResult<Self>)
        ensures
            r is Ok <==> valid_endpoint_name(server_name@),
            r matches Ok(p) ==> p@ == (MutualTlsPolicyView {
                server_name: server_name@,
                certificate_authority_reference: certificate_authority_reference@,
                client_certificate_reference: client_certificate_reference@,
                client_private_key_reference: client_private_key_reference@,
            }),
            r matches Err(e) ==> e@ == DiagnosticCode::InvalidConnection,
    {
        Ok(MutualTlsPolicy {
            server_name: validate_endpoint_name(server_name)?,
            certificate_authority_reference,
            client_certificate_reference,
            client_private_key_reference,
        })
    }

    /// Returns the hostname that a TLS transport must verify.
    pub fn server_name(&self) -> (r: &str)
        ensures
            r@ == self@.server_name,
    {
        self.server_name.as_str()
    }

    /// Returns the required certificate-authority reference.
    pub fn certificate_authority_reference(&self) -> (r: &OpaqueReference)
        ensures
            r@ == self@.certificate_authority_reference,
    {
        &self.certificate_authority_reference
    }

    /// Returns the required client-certificate reference.
    pub fn client_certificate_reference(&self) -> (r: &OpaqueReference)
        ensures
            r@ == self@.client_certificate_reference,
    {
        &self.client_certificate_reference
    }

    /// Returns the required client-private-key reference.
    pub fn client_private_key_reference(&self) -> (r: &OpaqueReference)
        ensures
            r@ == self@.client_private_key_reference,
    {
        &self.client_private_key_reference
    }

    /// The redacted text shown in place of the policy.
    pub fn to_display_string(&self) -> (r: &'static str)
        ensures
            r@ == "mutual TLS [redacted]"@,
    {
        "mutual TLS [redacted]"
    }
}

/// The content of a TCP mutual-TLS connection.
pub struct TcpConnectionView {
    pub host: Seq<char>,
    pub port: u16,
    pub policy: MutualTlsPolicyView,
}

/// A parsed `tcp:` endpoint names a host and a non-zero port and nothing else.
pub open spec fn tcp_url_acceptable(u: UrlPartsView) -> bool {
    &&& u.scheme == "tcp"@
    &&& u.username.len() == 0
    &&& u.password is None
    &&& u.query is None
    &&& u.fragment is None
    &&& (u.path.len() == 0 || u.path == "/"@)
    &&& u.host matches Some(h) && valid_endpoint_name(h)
    &&& u.port matches Some(p) && p != 0
}

/// The parsed parts of a TCP endpoint spelling, if it is acceptable.
pub open spec fn tcp_endpoint(endpoint: Seq<char>) -> Option<UrlPartsView> {
    match url_components(endpoint) {
        Some(u) => if tcp_url_acceptable(u) {
            Some(u)
        } else {
            None
        },
        None => None,
    }
}

/// A Podman-style TCP endpoint that is protected by mandatory mutual TLS.
#[derive(Clone, Eq, PartialEq)]
pub struct TcpMutualTlsConnection {
    host: String,
    port: u16,
    policy: MutualTlsPolicy,
}

impl View for TcpMutualTlsConnection {
    type V = TcpConnectionView;

    closed spec fn view(&self) -> TcpConnectionView {
        TcpConnectionView { host: self.host@, port: self.port, policy: self.policy@ }
    }
}

impl TcpMutualTlsConnection {
    /// Builds a TCP connection from the parts of a parsed `tcp:` endpoint.
    pub fn from_url(parts: &UrlParts, policy: MutualTlsPolicy) -> (r: PodmanLensResult<Self>)
        ensures
            r is Ok <==> tcp_url_acceptable(parts@),
            r matches Ok(c) ==> c@ == (TcpConnectionView { host: parts@.host->0, port: parts@.port->0, policy: policy@ }),
            r matches Err(e) ==> e@ == DiagnosticCode::InvalidConnection,
    {
        let tcp = to_chars("tcp");
        let slash = to_chars("/");
        let scheme = to_chars(parts.scheme.as_str());
        let path = to_chars(parts.path.as_str());
        let user = to_chars(parts.username.as_str());
        if !crate::text::chars_eq(&scheme, &tcp) || user.len() != 0 || parts.password.is_some() || parts.query.is_some()
            || parts.fragment.is_some() || !(path.len() == 0 || crate::text::chars_eq(&path, &slash))
        {
            return Err(Diagnostic::new(DiagnosticCode::InvalidConnection));
        }
        let host = match &parts.host {
            Some(h) => validate_endpoint_name(h.as_str())?,
            None => {
                return Err(Diagnostic::new(DiagnosticCode::InvalidConnection));
            },
        };
        let port = match parts.port {
            Some(p) => {
                if p == 0 {
                    return Err(Diagnostic::new(DiagnosticCode::InvalidConnection));
                }
                p
            },
            None => {
                return Err(Diagnostic::new(DiagnosticCode::InvalidConnection));
            },
        };
        Ok(TcpMutualTlsConnection { host, port, policy })
    }

    /// Parses an explicit `tcp://host:port` endpoint and attaches the mandatory mutual-TLS
    /// policy; plaintext TCP is not representable. Fails with `InvalidConnection` when the `url`
    /// crate rejects the spelling or it is not host-and-port only.
    pub fn parse(endpoint: &str, policy: MutualTlsPolicy) -> (r: PodmanLensResult<Self>)
        ensures
            r is Ok <==> tcp_endpoint(endpoint@) is Some,
            r matches Ok(c) ==> c@ == (TcpConnectionView {
                host: tcp_endpoint(endpoint@)->0.host->0,
                port: tcp_endpoint(endpoint@)->0.port->0,
                policy: policy@,
            }),
            r matches Err(e) ==> e@ == DiagnosticCode::InvalidConnection,
    {
        match parse_url(endpoint) {
            Some(parts) => TcpMutualTlsConnection::from_url(&parts, policy),
            None => Err(Diagnostic::new(DiagnosticCode::InvalidConnection)),
        }
    }

    /// Returns the explicit TCP host.
    pub fn host(&self) -> (r: &str)
        ensures
            r@ == self@.host,
    {
        self.host.as_str()
    }

    /// Returns the explicit non-zero TCP port.
    pub fn port(&self) -> (r: u16)
        ensures
            r == self@.port,
    {
        self.port
    }

    /// Returns the mandatory mutual-TLS policy.
    pub fn policy(&self) -> (r: &MutualTlsPolicy)
        ensures
            r@ == self@.policy,
    {
        &self.policy
    }

    /// The redacted text shown in place of the connection.
    pub fn to_display_string(&self) -> (r: &'static str)
        ensures
            r@ == "mutual-TLS TCP Podman connection [redacted]"@,
    {
        "mutual-TLS TCP Podman connection [redacted]"
    }
}

// ---------------------------------------------------------------------------------------------
// Connection choice.
// ---------------------------------------------------------------------------------------------
/// The transport category selected by a [`ConnectionSpec`].
#[derive(Clone, Copy, Debug, Eq, PartialEq, Structural)]
pub enum ConnectionKind {
    /// A local Unix-domain socket.
    Unix,
    /// An SSH tunnel to an explicitly named remote socket.
    Ssh,
    /// A TCP endpoint with mandatory mutual TLS.
    TcpMutualTls,
}

/// An explicit Podman service endpoint without ambient environment or config discovery.
#[derive(Clone, Eq, PartialEq)]
pub enum ConnectionSpec {
    /// A local Unix-domain socket endpoint.
    Unix(UnixConnection),
    /// An SSH endpoint with explicit authentication and host-verification references.
    Ssh(SshConnection),
    /// A TCP endpoint that always requires mutual TLS.
    TcpMutualTls(TcpMutualTlsConnection),
}

impl ConnectionSpec {
    /// Returns the category of this explicit connection.
    pub fn kind(&self) -> (r: ConnectionKind)
        ensures
            r == match self {
                ConnectionSpec::Unix(_) => ConnectionKind::Unix,
                ConnectionSpec::Ssh(_) => ConnectionKind::Ssh,
                ConnectionSpec::TcpMutualTls(_) => ConnectionKind::TcpMutualTls,
            },
    {
        match self {
            ConnectionSpec::Unix(_) => ConnectionKind::Unix,
            ConnectionSpec::Ssh(_) => ConnectionKind::Ssh,
            ConnectionSpec::TcpMutualTls(_) => ConnectionKind::TcpMutualTls,
        }
    }

    /// The redacted text shown in place of the connection.
    pub fn to_display_string(&self) -> (r: &'static str)
        ensures
            r@ == match self {
                ConnectionSpec::Unix(_) => "unix socket [redacted]"@,
                ConnectionSpec::Ssh(_) => "SSH Podman connection [redacted]"@,
                ConnectionSpec::TcpMutualTls(_) => "mutual-TLS TCP Podman connection [redacted]"@,
            },
    {
        match self {
            ConnectionSpec::Unix(c) => c.to_display_string(),
            ConnectionSpec::Ssh(c) => c.to_display_string(),
            ConnectionSpec::TcpMutualTls(c) => c.to_display_string(),
        }
    }
}

} // verus!
