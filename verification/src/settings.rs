//! Typed, bounded deployment settings that do not expose raw configuration strings by default.

use vstd::prelude::*;

use crate::deployment::{DeploymentResourceId, ResourceIdView, SensitiveInputReference};
use crate::diagnostic::{fails_with, Diagnostic, DiagnosticCode, PodmanLensResult};
use crate::inventory::ResourceKind;
use crate::once::{duplicate_option, duplicate_strings, duplicate_vec, once_update, opt_view, same_option, same_text, same_texts, same_vec, set_once, views, Duplicate, SameValue};
use crate::text::{
    alnum_or, all_alnum_or, bounded_plain, byte_len, byte_len_at_most, contains_char,
    has_no_control, is_ascii_alpha, is_bounded_plain, split_chars, split_on, to_chars,
};

verus! {

/// The largest number of command or entrypoint arguments.
pub const MAX_ARGUMENTS: usize = 128;

/// The largest byte length of one argument.
pub const MAX_ARGUMENT_BYTES: usize = 4096;

/// The largest byte length of a label or environment value.
pub const MAX_VALUE_BYTES: usize = 4096;

/// The largest number of labels of one container.
pub const MAX_LABELS: usize = 128;

/// The largest number of environment assignments of one container.
pub const MAX_ENVIRONMENT: usize = 128;

/// The largest byte length of a container path.
pub const MAX_PATH_BYTES: usize = 4096;

/// The texts of a string vector.
pub open spec fn texts(v: Seq<String>) -> Seq<Seq<char>> {
    v.map_values(|s: String| s@)
}

// ---------------------------------------------------------------------------------------------
// Validity of the textual settings.
// ---------------------------------------------------------------------------------------------
/// A nonempty array of at most 128 arguments, each at most 4096 bytes without controls.
pub open spec fn valid_argument_array(args: Seq<Seq<char>>) -> bool {
    &&& 0 < args.len() <= MAX_ARGUMENTS
    &&& forall|i: int| 0 <= i < args.len() ==> bounded_plain(#[trigger] args[i], MAX_ARGUMENT_BYTES as nat)
}

/// A nonempty user or group component of ASCII letters, digits, `.`, `_`, and `-`.
pub open spec fn valid_user_component(s: Seq<char>) -> bool {
    s.len() > 0 && alnum_or(s, seq!['.', '_', '-'])
}

/// `user` or `user:group`, at most 4096 bytes.
pub open spec fn valid_user(s: Seq<char>) -> bool {
    let parts = split_on(s, ':');
    &&& byte_len(s) <= MAX_VALUE_BYTES
    &&& parts.len() <= 2
    &&& forall|i: int| 0 <= i < parts.len() ==> valid_user_component(#[trigger] parts[i])
}

/// A path component that is neither empty nor `.` nor `..`.
pub open spec fn normal_component(s: Seq<char>) -> bool {
    s.len() > 0 && s != seq!['.'] && s != seq!['.', '.']
}

/// Every component after the leading `/` is a normal component.
pub open spec fn normal_components(s: Seq<char>) -> bool {
    let parts = split_on(s, '/');
    forall|i: int| 1 <= i < parts.len() ==> normal_component(#[trigger] parts[i])
}

/// An absolute path without empty, `.` or `..` components (the root path aside), without
/// backslashes or controls, of at most 4096 bytes.
pub open spec fn absolute_normalized_path(s: Seq<char>) -> bool {
    &&& bounded_plain(s, MAX_PATH_BYTES as nat)
    &&& s.len() > 0 && s[0] == '/'
    &&& !s.contains('\\')
    &&& (s == seq!['/'] || normal_components(s))
}

/// One host name label: 1 to 63 ASCII letters, digits or hyphens, not starting or ending with
/// a hyphen.
pub open spec fn host_label(s: Seq<char>) -> bool {
    &&& 0 < s.len() && byte_len(s) <= 63
    &&& s[0] != '-' && s.last() != '-'
    &&& alnum_or(s, seq!['-'])
}

/// A nonempty name of at most 253 bytes whose dot-separated labels are host labels.
pub open spec fn valid_hostname(s: Seq<char>) -> bool {
    let labels = split_on(s, '.');
    &&& s.len() > 0 && byte_len(s) <= 253
    &&& forall|i: int| 0 <= i < labels.len() ==> host_label(#[trigger] labels[i])
}

/// A nonempty label key of at most 4096 bytes without controls or `=`.
pub open spec fn valid_label_key(s: Seq<char>) -> bool {
    s.len() > 0 && bounded_plain(s, MAX_VALUE_BYTES as nat) && !s.contains('=')
}

/// A label or environment value: at most 4096 bytes without controls; empty is valid.
pub open spec fn valid_value(s: Seq<char>) -> bool {
    bounded_plain(s, MAX_VALUE_BYTES as nat)
}

/// A POSIX environment name of at most 256 bytes.
pub open spec fn valid_environment_name(s: Seq<char>) -> bool {
    &&& s.len() > 0 && byte_len(s) <= 256
    &&& (is_ascii_alpha(s[0]) || s[0] == '_')
    &&& alnum_or(s, seq!['_'])
}

/// An absolute volume-root subpath without empty, `.` or `..` components.
pub open spec fn valid_volume_subpath(s: Seq<char>) -> bool {
    &&& bounded_plain(s, MAX_PATH_BYTES as nat)
    &&& s.len() > 0 && s[0] == '/'
    &&& !s.contains('\\')
    &&& normal_components(s)
}

fn check_argument_array(args: &Vec<String>) -> (r: bool)
    ensures
        r == valid_argument_array(texts(args@)),
{
    if args.len() == 0 || args.len() > MAX_ARGUMENTS {
        return false;
    }
    let mut i: usize = 0;
    while i < args.len()
        invariant
            i <= args.len(),
            forall|j: int| 0 <= j < i ==> bounded_plain(#[trigger] texts(args@)[j], MAX_ARGUMENT_BYTES as nat),
        decreases args.len() - i,
    {
        let chars = to_chars(args[i].as_str());
        if !is_bounded_plain(&chars, MAX_ARGUMENT_BYTES) {
            assert(texts(args@)[i as int] == args@[i as int]@);
            return false;
        }
        i = i + 1;
    }
    true
}

fn check_user_component(s: &Vec<char>) -> (r: bool)
    ensures
        r == valid_user_component(s@),
{
    let extra = vec!['.', '_', '-'];
    assert(extra@ == seq!['.', '_', '-']);
    s.len() > 0 && all_alnum_or(s, &extra)
}

fn check_user(value: &str) -> (r: bool)
    ensures
        r == valid_user(value@),
{
    let chars = to_chars(value);
    if !byte_len_at_most(&chars, MAX_VALUE_BYTES) {
        return false;
    }
    let parts = split_chars(&chars, ':');
    if parts.len() > 2 {
        return false;
    }
    let mut i: usize = 0;
    while i < parts.len()
        invariant
            i <= parts.len(),
            chars@ == value@,
            parts@.len() == split_on(chars@, ':').len(),
            forall|k: int| 0 <= k < parts@.len() ==> (#[trigger] parts@[k])@ == split_on(chars@, ':')[k],
            forall|j: int| 0 <= j < i ==> valid_user_component(#[trigger] split_on(chars@, ':')[j]),
        decreases parts.len() - i,
    {
        if !check_user_component(&parts[i]) {
            assert(parts@[i as int]@ == split_on(chars@, ':')[i as int]);
            assert(!valid_user_component(split_on(chars@, ':')[i as int]));
            return false;
        }
        i = i + 1;
    }
    true
}

fn check_normal_component(s: &Vec<char>) -> (r: bool)
    ensures
        r == normal_component(s@),
{
    if s.len() == 0 {
        return false;
    }
    if s.len() == 1 && s[0] == '.' {
        assert(s@ =~= seq!['.']);
        return false;
    }
    if s.len() == 2 && s[0] == '.' && s[1] == '.' {
        assert(s@ =~= seq!['.', '.']);
        return false;
    }
    assert(s@ != seq!['.'] ==> true);
    assert(s@.len() == 1 ==> s@ != seq!['.']) by {
        if s@.len() == 1 {
            assert(s@[0] != '.');
            assert(seq!['.'][0] == '.');
        }
    }
    assert(s@.len() == 2 ==> s@ != seq!['.', '.']) by {
        if s@.len() == 2 {
            assert(seq!['.', '.'][0] == '.' && seq!['.', '.'][1] == '.');
        }
    }
    true
}

fn check_normal_components(s: &Vec<char>) -> (r: bool)
    ensures
        r == normal_components(s@),
{
    let parts = split_chars(s, '/');
    let mut i: usize = 1;
    while i < parts.len()
        invariant
            1 <= i,
            parts@.len() == split_on(s@, '/').len(),
            forall|k: int| 0 <= k < parts@.len() ==> (#[trigger] parts@[k])@ == split_on(s@, '/')[k],
            forall|j: int| 1 <= j < i && j < parts@.len() ==> normal_component(#[trigger] split_on(s@, '/')[j]),
        decreases parts.len() - i,
    {
        if !check_normal_component(&parts[i]) {
            return false;
        }
        i = i + 1;
    }
    true
}

fn is_root(s: &Vec<char>) -> (r: bool)
    ensures
        r == (s@ == seq!['/']),
{
    if s.len() == 1 && s[0] == '/' {
        assert(s@ =~= seq!['/']);
        true
    } else {
        assert(s@.len() == 1 ==> s@[0] != '/' || s@ != seq!['/']);
        assert(seq!['/'].len() == 1);
        false
    }
}

fn check_absolute_normalized_path(value: &str) -> (r: bool)
    ensures
        r == absolute_normalized_path(value@),
{
    let chars = to_chars(value);
    is_bounded_plain(&chars, MAX_PATH_BYTES) && chars.len() > 0 && chars[0] == '/' && !contains_char(
        &chars,
        '\\',
    ) && (is_root(&chars) || check_normal_components(&chars))
}

fn check_host_label(s: &Vec<char>) -> (r: bool)
    ensures
        r == host_label(s@),
{
    let extra = vec!['-'];
    assert(extra@ == seq!['-']);
    s.len() > 0 && byte_len_at_most(s, 63) && s[0] != '-' && s[s.len() - 1] != '-' && all_alnum_or(
        s,
        &extra,
    )
}

/// Whether a text is a valid host name.
pub fn check_hostname(value: &str) -> (r: bool)
    ensures
        r == valid_hostname(value@),
{
    let chars = to_chars(value);
    if chars.len() == 0 || !byte_len_at_most(&chars, 253) {
        return false;
    }
    let labels = split_chars(&chars, '.');
    let mut i: usize = 0;
    while i < labels.len()
        invariant
            i <= labels.len(),
            chars@ == value@,
            labels@.len() == split_on(chars@, '.').len(),
            forall|k: int| 0 <= k < labels@.len() ==> (#[trigger] labels@[k])@ == split_on(chars@, '.')[k],
            forall|j: int| 0 <= j < i ==> host_label(#[trigger] split_on(chars@, '.')[j]),
        decreases labels.len() - i,
    {
        if !check_host_label(&labels[i]) {
            assert(labels@[i as int]@ == split_on(chars@, '.')[i as int]);
            assert(!host_label(split_on(chars@, '.')[i as int]));
            return false;
        }
        i = i + 1;
    }
    true
}

fn check_label_key(value: &str) -> (r: bool)
    ensures
        r == valid_label_key(value@),
{
    let chars = to_chars(value);
    chars.len() > 0 && is_bounded_plain(&chars, MAX_VALUE_BYTES) && !contains_char(&chars, '=')
}

fn check_value(value: &str) -> (r: bool)
    ensures
        r == valid_value(value@),
{
    let chars = to_chars(value);
    is_bounded_plain(&chars, MAX_VALUE_BYTES)
}

fn check_environment_name(value: &str) -> (r: bool)
    ensures
        r == valid_environment_name(value@),
{
    let chars = to_chars(value);
    let extra = vec!['_'];
    assert(extra@ == seq!['_']);
    chars.len() > 0 && byte_len_at_most(&chars, 256) && ((('a' <= chars[0] && chars[0] <= 'z') || (
    'A' <= chars[0] && chars[0] <= 'Z')) || chars[0] == '_') && all_alnum_or(&chars, &extra)
}

fn check_volume_subpath(value: &str) -> (r: bool)
    ensures
        r == valid_volume_subpath(value@),
{
    let chars = to_chars(value);
    is_bounded_plain(&chars, MAX_PATH_BYTES) && chars.len() > 0 && chars[0] == '/' && !contains_char(
        &chars,
        '\\',
    ) && check_normal_components(&chars)
}

// ---------------------------------------------------------------------------------------------
// Textual settings.
// ---------------------------------------------------------------------------------------------
/// An ordered, bounded command or entrypoint argument array.
#[derive(Clone, Debug, Eq, PartialEq)]
pub struct ArgumentArray(Vec<String>);

impl View for ArgumentArray {
    type V = Seq<Seq<char>>;

    closed spec fn view(&self) -> Seq<Seq<char>> {
        texts(self.0@)
    }
}

impl SameValue for ArgumentArray {
    fn same_value(&self, other: &Self) -> (r: bool) {
        same_texts(&self.0, &other.0)
    }
}

impl ArgumentArray {
    /// Creates a validated nonempty argument array. Empty individual arguments are valid.
    ///
    /// # Errors
    ///
    /// Returns `PLN0034` for an empty array, more than 128 arguments, or arguments containing
    /// controls or exceeding 4096 bytes.
    pub fn new(arguments: Vec<String>) -> (r: PodmanLensResult<Self>)
        ensures
            r is Ok <==> valid_argument_array(texts(arguments@)),
            r matches Ok(a) ==> a@ == texts(arguments@),
            r is Err ==> fails_with(r, DiagnosticCode::InvalidDeploymentIntent),
    {
        if !check_argument_array(&arguments) {
            return Err(Diagnostic::new(DiagnosticCode::InvalidDeploymentIntent));
        }
        Ok(ArgumentArray(arguments))
    }

    /// Returns arguments in their declared order.
    pub fn values(&self) -> (r: &[String])
        ensures
            texts(r@) == self@,
    {
        self.0.as_slice()
    }
}

/// A bounded `user` or `user:group` spelling passed to a container runtime.
#[derive(Clone, Debug, Eq, PartialEq)]
pub struct ContainerUser(String);

impl View for ContainerUser {
    type V = Seq<char>;

    closed spec fn view(&self) -> Seq<char> {
        self.0@
    }
}

impl SameValue for ContainerUser {
    fn same_value(&self, other: &Self) -> (r: bool) {
        same_text(&self.0, &other.0)
    }
}

impl ContainerUser {
    /// Creates a user setting from a safe runtime spelling.
    ///
    /// # Errors
    ///
    /// Returns `PLN0034` for an empty, oversized, unsafe, or malformed component list. Exactly
    /// one nonempty user or UID component is required; one nonempty group or GID component may
    /// follow after a single colon.
    pub fn new(value: &str) -> (r: PodmanLensResult<Self>)
        ensures
            r is Ok <==> valid_user(value@),
            r matches Ok(u) ==> u@ == value@,
            r is Err ==> fails_with(r, DiagnosticCode::InvalidDeploymentIntent),
    {
        if !check_user(value) {
            return Err(Diagnostic::new(DiagnosticCode::InvalidDeploymentIntent));
        }
        Ok(ContainerUser(value.to_owned()))
    }

    /// Returns the validated user spelling.
    pub fn as_str(&self) -> (r: &str)
        ensures
            r@ == self@,
    {
        self.0.as_str()
    }
}

/// A normalized absolute path inside a container namespace.
#[derive(Clone, Debug, Eq, PartialEq)]
pub struct AbsoluteContainerPath(String);

impl View for AbsoluteContainerPath {
    type V = Seq<char>;

    closed spec fn view(&self) -> Seq<char> {
        self.0@
    }
}

impl SameValue for AbsoluteContainerPath {
    fn same_value(&self, other: &Self) -> (r: bool) {
        same_text(&self.0, &other.0)
    }
}

impl AbsoluteContainerPath {
    /// Creates an absolute normalized container path.
    ///
    /// # Errors
    ///
    /// Returns `PLN0034` unless the path begins with `/`, contains no empty, `.` or `..`
    /// components (except the root path), controls, backslashes, or more than 4096 bytes.
    pub fn new(value: &str) -> (r: PodmanLensResult<Self>)
        ensures
            r is Ok <==> absolute_normalized_path(value@),
            r matches Ok(p) ==> p@ == value@,
            r is Err ==> fails_with(r, DiagnosticCode::InvalidDeploymentIntent),
    {
        if !check_absolute_normalized_path(value) {
            return Err(Diagnostic::new(DiagnosticCode::InvalidDeploymentIntent));
        }
        Ok(AbsoluteContainerPath(value.to_owned()))
    }

    /// Returns the normalized absolute path.
    pub fn as_str(&self) -> (r: &str)
        ensures
            r@ == self@,
    {
        self.0.as_str()
    }

    /// A copy with the same content.
    pub fn duplicate(&self) -> (r: Self)
        ensures
            r@ == self@,
    {
        AbsoluteContainerPath(self.0.clone())
    }
}

/// A container working directory.
#[derive(Clone, Debug, Eq, PartialEq)]
pub struct ContainerWorkdir(AbsoluteContainerPath);

impl View for ContainerWorkdir {
    type V = Seq<char>;

    closed spec fn view(&self) -> Seq<char> {
        self.0@
    }
}

impl SameValue for ContainerWorkdir {
    fn same_value(&self, other: &Self) -> (r: bool) {
        self.0.same_value(&other.0)
    }
}

impl ContainerWorkdir {
    /// Creates a working directory from one normalized absolute container path.
    pub fn new(path: AbsoluteContainerPath) -> (r: Self)
        ensures
            r@ == path@,
    {
        ContainerWorkdir(path)
    }

    /// Returns the normalized working-directory path.
    pub fn path(&self) -> (r: &AbsoluteContainerPath)
        ensures
            r@ == self@,
    {
        &self.0
    }
}

/// A bounded RFC-style container hostname.
#[derive(Clone, Debug, Eq, PartialEq)]
pub struct ContainerHostname(String);

impl View for ContainerHostname {
    type V = Seq<char>;

    closed spec fn view(&self) -> Seq<char> {
        self.0@
    }
}

impl SameValue for ContainerHostname {
    fn same_value(&self, other: &Self) -> (r: bool) {
        same_text(&self.0, &other.0)
    }
}

impl ContainerHostname {
    /// Creates a hostname from ASCII labels separated by dots.
    ///
    /// # Errors
    ///
    /// Returns `PLN0034` for an empty, oversized, or malformed hostname.
    pub fn new(value: &str) -> (r: PodmanLensResult<Self>)
        ensures
            r is Ok <==> valid_hostname(value@),
            r matches Ok(h) ==> h@ == value@,
            r is Err ==> fails_with(r, DiagnosticCode::InvalidDeploymentIntent),
    {
        if !check_hostname(value) {
            return Err(Diagnostic::new(DiagnosticCode::InvalidDeploymentIntent));
        }
        Ok(ContainerHostname(value.to_owned()))
    }

    /// Returns the validated hostname.
    pub fn as_str(&self) -> (r: &str)
        ensures
            r@ == self@,
    {
        self.0.as_str()
    }
}

/// A label key retained in insertion order by [`ContainerSettings`].
#[derive(Clone, Debug, Eq, PartialEq)]
pub struct LabelKey(String);

impl View for LabelKey {
    type V = Seq<char>;

    closed spec fn view(&self) -> Seq<char> {
        self.0@
    }
}

impl LabelKey {
    /// Creates a bounded label key.
    ///
    /// # Errors
    ///
    /// Returns `PLN0034` for empty, oversized, control-containing, or `=`-containing values.
    pub fn new(value: &str) -> (r: PodmanLensResult<Self>)
        ensures
            r is Ok <==> valid_label_key(value@),
            r matches Ok(k) ==> k@ == value@,
            r is Err ==> fails_with(r, DiagnosticCode::InvalidDeploymentIntent),
    {
        if !check_label_key(value) {
            return Err(Diagnostic::new(DiagnosticCode::InvalidDeploymentIntent));
        }
        Ok(LabelKey(value.to_owned()))
    }

    /// Returns the validated key.
    pub fn as_str(&self) -> (r: &str)
        ensures
            r@ == self@,
    {
        self.0.as_str()
    }
}

/// An explicitly caller-authorized public label value. Empty values are valid.
///
/// Constructing this type is an explicit declassification decision: it authorizes this value for
/// deployment artifacts, CLI arguments, Libpod JSON, and shell-review output.
#[derive(Clone, Debug, Eq, PartialEq)]
pub struct PublicLabelValue(String);

impl View for PublicLabelValue {
    type V = Seq<char>;

    closed spec fn view(&self) -> Seq<char> {
        self.0@
    }
}

impl PublicLabelValue {
    /// Creates a bounded explicitly public label value.
    ///
    /// # Errors
    ///
    /// Returns `PLN0034` for oversized or control-containing values.
    pub fn new(value: &str) -> (r: PodmanLensResult<Self>)
        ensures
            r is Ok <==> valid_value(value@),
            r matches Ok(v) ==> v@ == value@,
            r is Err ==> fails_with(r, DiagnosticCode::InvalidDeploymentIntent),
    {
        if !check_value(value) {
            return Err(Diagnostic::new(DiagnosticCode::InvalidDeploymentIntent));
        }
        Ok(PublicLabelValue(value.to_owned()))
    }

    /// Returns the validated value.
    pub fn as_str(&self) -> (r: &str)
        ensures
            r@ == self@,
    {
        self.0.as_str()
    }
}

/// The content of one label.
pub struct LabelView {
    pub key: Seq<char>,
    pub value: Seq<char>,
}

/// One ordered container label.
#[derive(Clone, Debug, Eq, PartialEq)]
pub struct Label {
    key: LabelKey,
    value: PublicLabelValue,
}

impl View for Label {
    type V = LabelView;

    closed spec fn view(&self) -> LabelView {
        LabelView { key: self.key@, value: self.value@ }
    }
}

impl Label {
    /// Creates one label from validated key and value types.
    pub fn new(key: LabelKey, value: PublicLabelValue) -> (r: Self)
        ensures
            r@ == (LabelView { key: key@, value: value@ }),
    {
        Label { key, value }
    }

    /// Returns the label key.
    pub fn key(&self) -> (r: &LabelKey)
        ensures
            r@ == self@.key,
    {
        &self.key
    }

    /// Returns the label value.
    pub fn value(&self) -> (r: &PublicLabelValue)
        ensures
            r@ == self@.value,
    {
        &self.value
    }

    /// Whether two labels have the same key.
    pub fn same_key(&self, other: &Label) -> (r: bool)
        ensures
            r == (self@.key == other@.key),
    {
        same_text(&self.key.0, &other.key.0)
    }
}

/// The keys of a label sequence.
pub open spec fn label_keys(labels: Seq<Label>) -> Seq<Seq<char>> {
    labels.map_values(|l: Label| l@.key)
}

/// The contents of a label sequence.
pub open spec fn label_views(labels: Seq<Label>) -> Seq<LabelView> {
    labels.map_values(|l: Label| l@)
}

/// Whether some label of `labels` has the key of `label`.
pub fn has_label_key(labels: &Vec<Label>, label: &Label) -> (r: bool)
    ensures
        r == label_keys(labels@).contains(label@.key),
{
    let mut i: usize = 0;
    while i < labels.len()
        invariant
            i <= labels.len(),
            forall|j: int| 0 <= j < i ==> labels@[j]@.key != label@.key,
        decreases labels.len() - i,
    {
        if labels[i].same_key(label) {
            assert(label_keys(labels@)[i as int] == label@.key);
            return true;
        }
        i = i + 1;
    }
    assert forall|j: int| 0 <= j < label_keys(labels@).len() implies label_keys(labels@)[j] != label@.key by {
        assert(label_keys(labels@)[j] == labels@[j]@.key);
    }
    false
}

/// A validated environment-variable name.
#[derive(Clone, Debug, Eq, PartialEq)]
pub struct EnvironmentName(String);

impl View for EnvironmentName {
    type V = Seq<char>;

    closed spec fn view(&self) -> Seq<char> {
        self.0@
    }
}

impl SameValue for EnvironmentName {
    fn same_value(&self, other: &Self) -> (r: bool) {
        same_text(&self.0, &other.0)
    }
}

impl EnvironmentName {
    /// Creates a POSIX-style environment-variable name.
    ///
    /// # Errors
    ///
    /// Returns `PLN0034` for an empty, oversized, or non-POSIX identifier.
    pub fn new(value: &str) -> (r: PodmanLensResult<Self>)
        ensures
            r is Ok <==> valid_environment_name(value@),
            r matches Ok(n) ==> n@ == value@,
            r is Err ==> fails_with(r, DiagnosticCode::InvalidDeploymentIntent),
    {
        if !check_environment_name(value) {
            return Err(Diagnostic::new(DiagnosticCode::InvalidDeploymentIntent));
        }
        Ok(EnvironmentName(value.to_owned()))
    }

    /// Returns the environment-variable name.
    pub fn as_str(&self) -> (r: &str)
        ensures
            r@ == self@,
    {
        self.0.as_str()
    }
}

/// An explicitly caller-authorized public environment value. Empty values are valid.
#[derive(Clone, Debug, Eq, PartialEq)]
pub struct PublicEnvironmentValue(String);

impl View for PublicEnvironmentValue {
    type V = Seq<char>;

    closed spec fn view(&self) -> Seq<char> {
        self.0@
    }
}

impl PublicEnvironmentValue {
    /// Creates one bounded explicitly public environment value.
    ///
    /// # Errors
    ///
    /// Returns `PLN0034` for oversized or control-containing values.
    pub fn new(value: &str) -> (r: PodmanLensResult<Self>)
        ensures
            r is Ok <==> valid_value(value@),
            r matches Ok(v) ==> v@ == value@,
            r is Err ==> fails_with(r, DiagnosticCode::InvalidDeploymentIntent),
    {
        if !check_value(value) {
            return Err(Diagnostic::new(DiagnosticCode::InvalidDeploymentIntent));
        }
        Ok(PublicEnvironmentValue(value.to_owned()))
    }

    /// Returns the plain value.
    pub fn as_str(&self) -> (r: &str)
        ensures
            r@ == self@,
    {
        self.0.as_str()
    }
}

/// An inline environment value that is never exposed by diagnostics or debug output.
#[derive(Clone, Eq, PartialEq)]
pub struct SensitiveInlineEnvironmentValue(String);

impl View for SensitiveInlineEnvironmentValue {
    type V = Seq<char>;

    closed spec fn view(&self) -> Seq<char> {
        self.0@
    }
}

impl SensitiveInlineEnvironmentValue {
    /// Creates a bounded sensitive inline value. Empty values are valid.
    ///
    /// # Errors
    ///
    /// Returns `PLN0034` for oversized or control-containing values.
    pub fn new(value: &str) -> (r: PodmanLensResult<Self>)
        ensures
            r is Ok <==> valid_value(value@),
            r matches Ok(v) ==> v@ == value@,
            r is Err ==> fails_with(r, DiagnosticCode::InvalidDeploymentIntent),
    {
        if !check_value(value) {
            return Err(Diagnostic::new(DiagnosticCode::InvalidDeploymentIntent));
        }
        Ok(SensitiveInlineEnvironmentValue(value.to_owned()))
    }

    /// The redacted debug text.
    pub fn redacted_debug() -> (r: &'static str)
        ensures
            r@ == "SensitiveInlineEnvironmentValue([redacted])"@,
    {
        "SensitiveInlineEnvironmentValue([redacted])"
    }
}

/// The content of an environment value source.
pub enum EnvironmentValueView {
    Public(Seq<char>),
    SensitiveInline(Seq<char>),
    External(Seq<char>),
}

/// The source of an environment value.
#[derive(Clone, Eq, PartialEq)]
#[non_exhaustive]
pub enum DeploymentEnvironmentValue {
    /// An explicitly caller-authorized public, directly declared value.
    Public(PublicEnvironmentValue),
    /// A directly declared sensitive value that remains redacted.
    SensitiveInline(SensitiveInlineEnvironmentValue),
    /// A sensitive value supplied by a caller-owned external input.
    External(SensitiveInputReference),
}

impl View for DeploymentEnvironmentValue {
    type V = EnvironmentValueView;

    open spec fn view(&self) -> EnvironmentValueView {
        match self {
            DeploymentEnvironmentValue::Public(v) => EnvironmentValueView::Public(v@),
            DeploymentEnvironmentValue::SensitiveInline(v) => EnvironmentValueView::SensitiveInline(v@),
            DeploymentEnvironmentValue::External(v) => EnvironmentValueView::External(v@),
        }
    }
}

/// The content of one environment assignment.
pub struct EnvironmentAssignmentView {
    pub name: Seq<char>,
    pub value: EnvironmentValueView,
}

/// One ordered environment assignment.
#[derive(Clone, Eq, PartialEq)]
pub struct EnvironmentAssignment {
    name: EnvironmentName,
    value: DeploymentEnvironmentValue,
}

impl View for EnvironmentAssignment {
    type V = EnvironmentAssignmentView;

    closed spec fn view(&self) -> EnvironmentAssignmentView {
        EnvironmentAssignmentView { name: self.name@, value: self.value@ }
    }
}

impl EnvironmentAssignment {
    /// Creates one typed environment assignment.
    pub fn new(name: EnvironmentName, value: DeploymentEnvironmentValue) -> (r: Self)
        ensures
            r@ == (EnvironmentAssignmentView { name: name@, value: value@ }),
    {
        EnvironmentAssignment { name, value }
    }

    /// Returns the variable name.
    pub fn name(&self) -> (r: &EnvironmentName)
        ensures
            r@ == self@.name,
    {
        &self.name
    }

    /// Returns the typed value source.
    pub fn value(&self) -> (r: &DeploymentEnvironmentValue)
        ensures
            r@ == self@.value,
    {
        &self.value
    }
}

/// The names of an assignment sequence.
pub open spec fn environment_names(env: Seq<EnvironmentAssignment>) -> Seq<Seq<char>> {
    env.map_values(|a: EnvironmentAssignment| a@.name)
}

/// The contents of an assignment sequence.
pub open spec fn environment_views(env: Seq<EnvironmentAssignment>) -> Seq<EnvironmentAssignmentView> {
    env.map_values(|a: EnvironmentAssignment| a@)
}

fn has_environment_name(env: &Vec<EnvironmentAssignment>, name: &EnvironmentName) -> (r: bool)
    ensures
        r == environment_names(env@).contains(name@),
{
    let mut i: usize = 0;
    while i < env.len()
        invariant
            i <= env.len(),
            forall|j: int| 0 <= j < i ==> env@[j]@.name != name@,
        decreases env.len() - i,
    {
        if env[i].name.same_value(name) {
            assert(environment_names(env@)[i as int] == name@);
            return true;
        }
        i = i + 1;
    }
    assert forall|j: int| 0 <= j < environment_names(env@).len() implies environment_names(env@)[j]
        != name@ by {
        assert(environment_names(env@)[j] == env@[j]@.name);
    }
    false
}

// ---------------------------------------------------------------------------------------------
// Policies and mounts.
// ---------------------------------------------------------------------------------------------
/// A supported container restart policy.
#[derive(Clone, Copy, Debug, Eq, PartialEq, Structural)]
#[non_exhaustive]
pub enum RestartPolicy {
    /// Do not automatically restart the container.
    No,
    /// Restart only after a non-zero exit status.
    OnFailure,
    /// Always restart the container.
    Always,
    /// Restart unless the user explicitly stopped the container.
    UnlessStopped,
}

impl View for RestartPolicy {
    type V = RestartPolicy;

    open spec fn view(&self) -> RestartPolicy {
        *self
    }
}

impl SameValue for RestartPolicy {
    fn same_value(&self, other: &Self) -> (r: bool) {
        *self == *other
    }
}

/// Copy behavior for a named volume initialized by a container image.
#[derive(Clone, Copy, Debug, Eq, PartialEq, Structural)]
#[non_exhaustive]
pub enum NamedVolumeCopyMode {
    /// Copy image content into a newly created volume when the runtime supports it.
    Copy,
    /// Do not copy image content into the mounted volume.
    NoCopy,
}

/// Explicit read/write access for one typed mount.
#[derive(Clone, Copy, Debug, Eq, PartialEq, Structural)]
#[non_exhaustive]
pub enum MountAccess {
    /// The mounted path is writable from the container.
    ReadWrite,
    /// The mounted path is read-only from the container.
    ReadOnly,
}

impl MountAccess {
    /// Returns whether the access declaration is read-only.
    pub fn is_read_only(self) -> (r: bool)
        ensures
            r == (self == MountAccess::ReadOnly),
    {
        match self {
            MountAccess::ReadOnly => true,
            MountAccess::ReadWrite => false,
        }
    }
}

/// A normalized absolute path rooted at the named volume root.
#[derive(Clone, Debug, Eq, PartialEq)]
pub struct VolumeSubpath(String);

impl View for VolumeSubpath {
    type V = Seq<char>;

    closed spec fn view(&self) -> Seq<char> {
        self.0@
    }
}

impl VolumeSubpath {
    /// Creates one normalized absolute volume-root subpath.
    ///
    /// # Errors
    ///
    /// Returns `PLN0034` for an empty, relative, unsafe, or non-normalized spelling.
    pub fn new(value: &str) -> (r: PodmanLensResult<Self>)
        ensures
            r is Ok <==> valid_volume_subpath(value@),
            r matches Ok(p) ==> p@ == value@,
            r is Err ==> fails_with(r, DiagnosticCode::InvalidDeploymentIntent),
    {
        if !check_volume_subpath(value) {
            return Err(Diagnostic::new(DiagnosticCode::InvalidDeploymentIntent));
        }
        Ok(VolumeSubpath(value.to_owned()))
    }

    /// Returns the validated absolute volume-root subpath.
    pub fn as_str(&self) -> (r: &str)
        ensures
            r@ == self@,
    {
        self.0.as_str()
    }
}

/// The content of one named-volume mount.
pub struct NamedVolumeMountView {
    pub source: ResourceIdView,
    pub destination: Seq<char>,
    pub access: MountAccess,
    pub copy_mode: NamedVolumeCopyMode,
    pub subpath: Option<Seq<char>>,
}

/// One named volume mounted at an exact normalized container destination.
#[derive(Clone, Debug, Eq, PartialEq)]
pub struct NamedVolumeMount {
    source: DeploymentResourceId,
    destination: AbsoluteContainerPath,
    access: MountAccess,
    copy_mode: NamedVolumeCopyMode,
    subpath: Option<VolumeSubpath>,
}

impl View for NamedVolumeMount {
    type V = NamedVolumeMountView;

    closed spec fn view(&self) -> NamedVolumeMountView {
        NamedVolumeMountView {
            source: self.source@,
            destination: self.destination@,
            access: self.access,
            copy_mode: self.copy_mode,
            subpath: opt_view(self.subpath),
        }
    }
}

impl NamedVolumeMount {
    /// Creates one named-volume mount.
    ///
    /// # Errors
    ///
    /// Returns `PLN0034` when `source` is not a volume identity.
    pub fn new(
        source: DeploymentResourceId,
        destination: AbsoluteContainerPath,
        access: MountAccess,
        copy_mode: NamedVolumeCopyMode,
    ) -> (r: PodmanLensResult<Self>)
        ensures
            r is Ok <==> source@.kind == ResourceKind::Volume,
            r matches Ok(m) ==> m@ == (NamedVolumeMountView {
                source: source@,
                destination: destination@,
                access,
                copy_mode,
                subpath: None,
            }),
            r is Err ==> fails_with(r, DiagnosticCode::InvalidDeploymentIntent),
    {
        if source.kind() != ResourceKind::Volume {
            return Err(Diagnostic::new(DiagnosticCode::InvalidDeploymentIntent));
        }
        Ok(NamedVolumeMount { source, destination, access, copy_mode, subpath: None })
    }

    /// Adds one volume-root-relative subpath.
    ///
    /// `nocopy` plus `subpath` is deliberately rejected rather than silently changing
    /// initialization.
    ///
    /// # Errors
    ///
    /// Returns `PLN0038` for a repeated subpath or for `NoCopy`.
    pub fn set_subpath(&mut self, subpath: VolumeSubpath) -> (r: PodmanLensResult<()>)
        ensures
            r is Ok <==> (old(self)@.subpath is None && old(self)@.copy_mode
                == NamedVolumeCopyMode::Copy),
            r is Ok ==> final(self)@ == (NamedVolumeMountView {
                subpath: Some(subpath@),
                ..old(self)@
            }),
            r is Err ==> final(self)@ == old(self)@ && fails_with(
                r,
                DiagnosticCode::DeploymentUnsupportedCombination,
            ),
    {
        if self.subpath.is_some() || self.copy_mode == NamedVolumeCopyMode::NoCopy {
            return Err(Diagnostic::new(DiagnosticCode::DeploymentUnsupportedCombination));
        }
        self.subpath = Some(subpath);
        Ok(())
    }

    /// Returns the named-volume prerequisite identity.
    pub fn source(&self) -> (r: &DeploymentResourceId)
        ensures
            r@ == self@.source,
    {
        &self.source
    }

    /// Returns the normalized mount destination.
    pub fn destination(&self) -> (r: &AbsoluteContainerPath)
        ensures
            r@ == self@.destination,
    {
        &self.destination
    }

    /// Returns whether the mount is read-only.
    pub fn is_read_only(&self) -> (r: bool)
        ensures
            r == (self@.access == MountAccess::ReadOnly),
    {
        self.access.is_read_only()
    }

    /// Returns the explicit mount access mode.
    pub fn access(&self) -> (r: MountAccess)
        ensures
            r == self@.access,
    {
        self.access
    }

    /// Returns image-content copy behavior.
    pub fn copy_mode(&self) -> (r: NamedVolumeCopyMode)
        ensures
            r == self@.copy_mode,
    {
        self.copy_mode
    }

    /// Returns the optional volume-root-relative source subpath.
    pub fn subpath(&self) -> (r: Option<&VolumeSubpath>)
        ensures
            opt_view(r) == self@.subpath,
    {
        match &self.subpath {
            Some(p) => Some(p),
            None => None,
        }
    }
}

/// The content of one bind mount.
pub struct BindMountView {
    pub source: Seq<char>,
    pub destination: Seq<char>,
    pub access: MountAccess,
}

/// One host bind mount at an exact normalized container destination.
#[derive(Clone, Debug, Eq, PartialEq)]
pub struct BindMount {
    source: AbsoluteContainerPath,
    destination: AbsoluteContainerPath,
    access: MountAccess,
}

impl View for BindMount {
    type V = BindMountView;

    closed spec fn view(&self) -> BindMountView {
        BindMountView { source: self.source@, destination: self.destination@, access: self.access }
    }
}

impl BindMount {
    /// Creates one normalized host-path bind mount.
    pub fn new(source: AbsoluteContainerPath, destination: AbsoluteContainerPath, access: MountAccess) -> (r:
        Self)
        ensures
            r@ == (BindMountView { source: source@, destination: destination@, access }),
    {
        BindMount { source, destination, access }
    }

    /// Returns the normalized absolute host source path.
    pub fn source(&self) -> (r: &AbsoluteContainerPath)
        ensures
            r@ == self@.source,
    {
        &self.source
    }

    /// Returns the normalized container destination path.
    pub fn destination(&self) -> (r: &AbsoluteContainerPath)
        ensures
            r@ == self@.destination,
    {
        &self.destination
    }

    /// Returns the declared access mode.
    pub fn access(&self) -> (r: MountAccess)
        ensures
            r == self@.access,
    {
        self.access
    }
}

/// The content of one tmpfs mount.
pub struct TmpfsMountView {
    pub destination: Seq<char>,
    pub access: MountAccess,
}

/// One tmpfs mount at an exact normalized container destination.
#[derive(Clone, Debug, Eq, PartialEq)]
pub struct TmpfsMount {
    destination: AbsoluteContainerPath,
    access: MountAccess,
}

impl View for TmpfsMount {
    type V = TmpfsMountView;

    closed spec fn view(&self) -> TmpfsMountView {
        TmpfsMountView { destination: self.destination@, access: self.access }
    }
}

impl TmpfsMount {
    /// Creates one tmpfs mount.
    pub fn new(destination: AbsoluteContainerPath, access: MountAccess) -> (r: Self)
        ensures
            r@ == (TmpfsMountView { destination: destination@, access }),
    {
        TmpfsMount { destination, access }
    }

    /// Returns the normalized container destination path.
    pub fn destination(&self) -> (r: &AbsoluteContainerPath)
        ensures
            r@ == self@.destination,
    {
        &self.destination
    }

    /// Returns the declared access mode.
    pub fn access(&self) -> (r: MountAccess)
        ensures
            r == self@.access,
    {
        self.access
    }
}

/// The content of a typed mount.
pub enum MountIntentView {
    NamedVolume(NamedVolumeMountView),
    Bind(BindMountView),
    Tmpfs(TmpfsMountView),
}

/// A typed exact container mount. Raw `--volume` spelling is deliberately not public API.
#[derive(Clone, Debug, Eq, PartialEq)]
#[non_exhaustive]
pub enum MountIntent {
    /// A named Podman volume.
    NamedVolume(NamedVolumeMount),
    /// A host filesystem bind mount.
    Bind(BindMount),
    /// An in-memory tmpfs mount.
    Tmpfs(TmpfsMount),
}

impl View for MountIntent {
    type V = MountIntentView;

    open spec fn view(&self) -> MountIntentView {
        match self {
            MountIntent::NamedVolume(m) => MountIntentView::NamedVolume(m@),
            MountIntent::Bind(m) => MountIntentView::Bind(m@),
            MountIntent::Tmpfs(m) => MountIntentView::Tmpfs(m@),
        }
    }
}

impl MountIntent {
    /// Returns the normalized container destination shared by all mount forms.
    pub fn destination(&self) -> (r: &AbsoluteContainerPath)
        ensures
            r@ == match self@ {
                MountIntentView::NamedVolume(m) => m.destination,
                MountIntentView::Bind(m) => m.destination,
                MountIntentView::Tmpfs(m) => m.destination,
            },
    {
        match self {
            MountIntent::NamedVolume(mount) => mount.destination(),
            MountIntent::Bind(mount) => mount.destination(),
            MountIntent::Tmpfs(mount) => mount.destination(),
        }
    }

    /// Returns the named-volume source identity when this is a named-volume mount.
    pub fn volume_source(&self) -> (r: Option<&DeploymentResourceId>)
        ensures
            opt_view(r) == match self@ {
                MountIntentView::NamedVolume(m) => Some(m.source),
                _ => None,
            },
    {
        match self {
            MountIntent::NamedVolume(mount) => Some(mount.source()),
            MountIntent::Bind(_) => None,
            MountIntent::Tmpfs(_) => None,
        }
    }
}

/// A bounded Unix ownership value for a volume, mount, or secret declaration.
#[derive(Clone, Copy, Debug, Eq, PartialEq, Structural)]
pub struct UnixId(u32);

impl View for UnixId {
    type V = u32;

    closed spec fn view(&self) -> u32 {
        self.0
    }
}

impl UnixId {
    /// Creates one ownership value in Podman's conservative signed 32-bit range.
    ///
    /// # Errors
    ///
    /// Returns `PLN0034` for values greater than `i32::MAX`.
    pub fn new(value: u32) -> (r: PodmanLensResult<Self>)
        ensures
            r is Ok <==> value <= i32::MAX,
            r matches Ok(id) ==> id@ == value,
            r is Err ==> fails_with(r, DiagnosticCode::InvalidDeploymentIntent),
    {
        if value > 2147483647u32 {
            return Err(Diagnostic::new(DiagnosticCode::InvalidDeploymentIntent));
        }
        Ok(UnixId(value))
    }

    /// Returns the native numeric ownership value.
    pub fn get(self) -> (r: u32)
        ensures
            r == self@,
    {
        self.0
    }
}

/// A bounded Unix file mode for a mounted secret.
#[derive(Clone, Copy, Debug, Eq, PartialEq, Structural)]
pub struct SecretMode(u16);

impl View for SecretMode {
    type V = u16;

    closed spec fn view(&self) -> u16 {
        self.0
    }
}

impl SecretMode {
    /// Creates an ordinary Unix permission mode (`0o000` through `0o777`).
    ///
    /// # Errors
    ///
    /// Returns `PLN0034` for bits outside the portable permission range.
    pub fn new(value: u16) -> (r: PodmanLensResult<Self>)
        ensures
            r is Ok <==> value <= 0o777,
            r matches Ok(m) ==> m@ == value,
            r is Err ==> fails_with(r, DiagnosticCode::InvalidDeploymentIntent),
    {
        if value > 0o777 {
            return Err(Diagnostic::new(DiagnosticCode::InvalidDeploymentIntent));
        }
        Ok(SecretMode(value))
    }

    /// Returns the numeric Unix mode.
    pub fn get(self) -> (r: u16)
        ensures
            r == self@,
    {
        self.0
    }
}

/// The content of a secret grant.
pub enum SecretGrantView {
    Mount {
        source: ResourceIdView,
        target: Option<Seq<char>>,
        uid: Option<u32>,
        gid: Option<u32>,
        mode: Option<u16>,
    },
    Environment { source: ResourceIdView, target: Seq<char> },
}

/// A typed secret attachment to a container mount or environment name.
#[derive(Clone, Debug, Eq, PartialEq)]
#[allow(inconsistent_fields)]
#[non_exhaustive]
pub enum SecretGrant {
    /// Mount a secret. An omitted target uses Podman's native secret-name destination.
    Mount {
        /// The declared managed or external secret identity.
        source: DeploymentResourceId,
        /// The optional target path.
        target: Option<AbsoluteContainerPath>,
        /// Optional mount UID.
        uid: Option<UnixId>,
        /// Optional mount GID.
        gid: Option<UnixId>,
        /// Optional mount mode.
        mode: Option<SecretMode>,
    },
    /// Inject a secret into one exact environment variable name.
    Environment {
        /// The declared managed or external secret identity.
        source: DeploymentResourceId,
        /// The target environment name.
        target: EnvironmentName,
    },
}

impl View for SecretGrant {
    type V = SecretGrantView;

    open spec fn view(&self) -> SecretGrantView {
        match self {
            SecretGrant::Mount { source, target, uid, gid, mode } => SecretGrantView::Mount {
                source: source@,
                target: opt_view(*target),
                uid: opt_view(*uid),
                gid: opt_view(*gid),
                mode: opt_view(*mode),
            },
            SecretGrant::Environment { source, target } => SecretGrantView::Environment {
                source: source@,
                target: target@,
            },
        }
    }
}

impl SecretGrant {
    /// Creates one mount-form secret grant with Podman's default target and mode.
    ///
    /// # Errors
    ///
    /// Returns `PLN0034` when `source` is not a secret identity.
    pub fn mount(source: DeploymentResourceId) -> (r: PodmanLensResult<Self>)
        ensures
            r is Ok <==> source@.kind == ResourceKind::Secret,
            r matches Ok(g) ==> g@ == (SecretGrantView::Mount {
                source: source@,
                target: None,
                uid: None,
                gid: None,
                mode: None,
            }),
            r is Err ==> fails_with(r, DiagnosticCode::InvalidDeploymentIntent),
    {
        if source.kind() != ResourceKind::Secret {
            return Err(Diagnostic::new(DiagnosticCode::InvalidDeploymentIntent));
        }
        Ok(SecretGrant::Mount { source, target: None, uid: None, gid: None, mode: None })
    }

    /// Creates one environment-form secret grant.
    ///
    /// # Errors
    ///
    /// Returns `PLN0034` when `source` is not a secret identity.
    pub fn environment(source: DeploymentResourceId, target: EnvironmentName) -> (r: PodmanLensResult<
        Self,
    >)
        ensures
            r is Ok <==> source@.kind == ResourceKind::Secret,
            r matches Ok(g) ==> g@ == (SecretGrantView::Environment {
                source: source@,
                target: target@,
            }),
            r is Err ==> fails_with(r, DiagnosticCode::InvalidDeploymentIntent),
    {
        if source.kind() != ResourceKind::Secret {
            return Err(Diagnostic::new(DiagnosticCode::InvalidDeploymentIntent));
        }
        Ok(SecretGrant::Environment { source, target })
    }

    /// Sets the optional mount target. Environment grants reject this operation.
    ///
    /// # Errors
    ///
    /// Returns `PLN0038` for an environment grant or a repeated mount target.
    pub fn set_mount_target(&mut self, target: AbsoluteContainerPath) -> (r: PodmanLensResult<()>)
        ensures
            r is Ok <==> (old(self)@ matches SecretGrantView::Mount { target: None, .. }),
            r is Ok ==> (old(self)@ matches SecretGrantView::Mount { source, uid, gid, mode, .. }
                && final(self)@ == (SecretGrantView::Mount {
                source,
                target: Some(target@),
                uid,
                gid,
                mode,
            })),
            r is Err ==> final(self)@ == old(self)@ && fails_with(
                r,
                DiagnosticCode::DeploymentUnsupportedCombination,
            ),
    {
        match self {
            SecretGrant::Mount { target: slot, .. } => {
                if slot.is_none() {
                    *slot = Some(target);
                    Ok(())
                } else {
                    Err(Diagnostic::new(DiagnosticCode::DeploymentUnsupportedCombination))
                }
            },
            SecretGrant::Environment { .. } => Err(
                Diagnostic::new(DiagnosticCode::DeploymentUnsupportedCombination),
            ),
        }
    }

    /// Sets one optional mount UID. Environment grants reject this operation.
    ///
    /// # Errors
    ///
    /// Returns `PLN0038` for an environment grant or a repeated UID.
    pub fn set_mount_uid(&mut self, uid: UnixId) -> (r: PodmanLensResult<()>)
        ensures
            r is Ok <==> (old(self)@ matches SecretGrantView::Mount { uid: None, .. }),
            r is Ok ==> (old(self)@ matches SecretGrantView::Mount { source, target, gid, mode, .. }
                && final(self)@ == (SecretGrantView::Mount {
                source,
                target,
                uid: Some(uid@),
                gid,
                mode,
            })),
            r is Err ==> final(self)@ == old(self)@ && fails_with(
                r,
                DiagnosticCode::DeploymentUnsupportedCombination,
            ),
    {
        match self {
            SecretGrant::Mount { uid: slot, .. } => {
                if slot.is_none() {
                    *slot = Some(uid);
                    Ok(())
                } else {
                    Err(Diagnostic::new(DiagnosticCode::DeploymentUnsupportedCombination))
                }
            },
            SecretGrant::Environment { .. } => Err(
                Diagnostic::new(DiagnosticCode::DeploymentUnsupportedCombination),
            ),
        }
    }

    /// Sets one optional mount GID. Environment grants reject this operation.
    ///
    /// # Errors
    ///
    /// Returns `PLN0038` for an environment grant or a repeated GID.
    pub fn set_mount_gid(&mut self, gid: UnixId) -> (r: PodmanLensResult<()>)
        ensures
            r is Ok <==> (old(self)@ matches SecretGrantView::Mount { gid: None, .. }),
            r is Ok ==> (old(self)@ matches SecretGrantView::Mount { source, target, uid, mode, .. }
                && final(self)@ == (SecretGrantView::Mount {
                source,
                target,
                uid,
                gid: Some(gid@),
                mode,
            })),
            r is Err ==> final(self)@ == old(self)@ && fails_with(
                r,
                DiagnosticCode::DeploymentUnsupportedCombination,
            ),
    {
        match self {
            SecretGrant::Mount { gid: slot, .. } => {
                if slot.is_none() {
                    *slot = Some(gid);
                    Ok(())
                } else {
                    Err(Diagnostic::new(DiagnosticCode::DeploymentUnsupportedCombination))
                }
            },
            SecretGrant::Environment { .. } => Err(
                Diagnostic::new(DiagnosticCode::DeploymentUnsupportedCombination),
            ),
        }
    }

    /// Sets one optional mount file mode. Environment grants reject this operation.
    ///
    /// # Errors
    ///
    /// Returns `PLN0038` for an environment grant or a repeated mode.
    pub fn set_mount_mode(&mut self, mode: SecretMode) -> (r: PodmanLensResult<()>)
        ensures
            r is Ok <==> (old(self)@ matches SecretGrantView::Mount { mode: None, .. }),
            r is Ok ==> (old(self)@ matches SecretGrantView::Mount { source, target, uid, gid, .. }
                && final(self)@ == (SecretGrantView::Mount {
                source,
                target,
                uid,
                gid,
                mode: Some(mode@),
            })),
            r is Err ==> final(self)@ == old(self)@ && fails_with(
                r,
                DiagnosticCode::DeploymentUnsupportedCombination,
            ),
    {
        match self {
            SecretGrant::Mount { mode: slot, .. } => {
                if slot.is_none() {
                    *slot = Some(mode);
                    Ok(())
                } else {
                    Err(Diagnostic::new(DiagnosticCode::DeploymentUnsupportedCombination))
                }
            },
            SecretGrant::Environment { .. } => Err(
                Diagnostic::new(DiagnosticCode::DeploymentUnsupportedCombination),
            ),
        }
    }

    /// Returns the referenced secret identity.
    pub fn source(&self) -> (r: &DeploymentResourceId)
        ensures
            r@ == match self@ {
                SecretGrantView::Mount { source, .. } => source,
                SecretGrantView::Environment { source, .. } => source,
            },
    {
        match self {
            SecretGrant::Mount { source, .. } => source,
            SecretGrant::Environment { source, .. } => source,
        }
    }

    /// Returns the mount target, when this is a mount grant and a target was explicitly set.
    pub fn mount_target(&self) -> (r: Option<&AbsoluteContainerPath>)
        ensures
            opt_view(r) == match self@ {
                SecretGrantView::Mount { target, .. } => target,
                SecretGrantView::Environment { .. } => None,
            },
    {
        match self {
            SecretGrant::Mount { target, .. } => match target {
                Some(t) => Some(t),
                None => None,
            },
            SecretGrant::Environment { .. } => None,
        }
    }

    /// Returns the environment target when this is an environment grant.
    pub fn environment_target(&self) -> (r: Option<&EnvironmentName>)
        ensures
            opt_view(r) == match self@ {
                SecretGrantView::Environment { target, .. } => Some(target),
                SecretGrantView::Mount { .. } => None,
            },
    {
        match self {
            SecretGrant::Environment { target, .. } => Some(target),
            SecretGrant::Mount { .. } => None,
        }
    }

    /// Returns optional mount UID.
    pub fn mount_uid(&self) -> (r: Option<UnixId>)
        ensures
            opt_view(r) == match self@ {
                SecretGrantView::Mount { uid, .. } => uid,
                SecretGrantView::Environment { .. } => None,
            },
    {
        match self {
            SecretGrant::Mount { uid, .. } => *uid,
            SecretGrant::Environment { .. } => None,
        }
    }

    /// Returns optional mount GID.
    pub fn mount_gid(&self) -> (r: Option<UnixId>)
        ensures
            opt_view(r) == match self@ {
                SecretGrantView::Mount { gid, .. } => gid,
                SecretGrantView::Environment { .. } => None,
            },
    {
        match self {
            SecretGrant::Mount { gid, .. } => *gid,
            SecretGrant::Environment { .. } => None,
        }
    }

    /// Returns optional mount mode.
    pub fn mount_mode(&self) -> (r: Option<SecretMode>)
        ensures
            opt_view(r) == match self@ {
                SecretGrantView::Mount { mode, .. } => mode,
                SecretGrantView::Environment { .. } => None,
            },
    {
        match self {
            SecretGrant::Mount { mode, .. } => *mode,
            SecretGrant::Environment { .. } => None,
        }
    }
}

// ---------------------------------------------------------------------------------------------
// Container settings.
// ---------------------------------------------------------------------------------------------
/// The content of the typed container settings.
pub struct ContainerSettingsView {
    pub command: Option<Seq<Seq<char>>>,
    pub entrypoint: Option<Seq<Seq<char>>>,
    pub user: Option<Seq<char>>,
    pub workdir: Option<Seq<char>>,
    pub hostname: Option<Seq<char>>,
    pub labels: Seq<LabelView>,
    pub environment: Seq<EnvironmentAssignmentView>,
    pub restart_policy: Option<RestartPolicy>,
}

/// Typed optional container settings retained separately from topology.
#[derive(Clone, Eq, PartialEq)]
pub struct ContainerSettings {
    command: Option<ArgumentArray>,
    entrypoint: Option<ArgumentArray>,
    user: Option<ContainerUser>,
    workdir: Option<ContainerWorkdir>,
    hostname: Option<ContainerHostname>,
    labels: Vec<Label>,
    environment: Vec<EnvironmentAssignment>,
    restart_policy: Option<RestartPolicy>,
}

impl View for ContainerSettings {
    type V = ContainerSettingsView;

    closed spec fn view(&self) -> ContainerSettingsView {
        ContainerSettingsView {
            command: opt_view(self.command),
            entrypoint: opt_view(self.entrypoint),
            user: opt_view(self.user),
            workdir: opt_view(self.workdir),
            hostname: opt_view(self.hostname),
            labels: label_views(self.labels@),
            environment: environment_views(self.environment@),
            restart_policy: self.restart_policy,
        }
    }
}

/// Settings with nothing declared.
pub open spec fn empty_container_settings() -> ContainerSettingsView {
    ContainerSettingsView {
        command: None,
        entrypoint: None,
        user: None,
        workdir: None,
        hostname: None,
        labels: Seq::empty(),
        environment: Seq::empty(),
        restart_policy: None,
    }
}

/// Adding to a bounded, duplicate-free ordered collection: full collections are rejected as
/// invalid, a repeated key as a duplicate, and otherwise the item is appended.
pub open spec fn bounded_add<K, V>(
    before: Seq<V>,
    keys: Seq<K>,
    key: K,
    item: V,
    max: nat,
    after: Seq<V>,
    r: PodmanLensResult<()>,
) -> bool {
    if before.len() == max {
        after == before && fails_with(r, DiagnosticCode::InvalidDeploymentIntent)
    } else if keys.contains(key) {
        after == before && fails_with(r, DiagnosticCode::DeploymentDuplicateResource)
    } else {
        r is Ok && after == before.push(item)
    }
}

impl Default for ContainerSettings {
    fn default() -> (r: Self)
        ensures
            r@ == empty_container_settings(),
    {
        ContainerSettings::new()
    }
}

impl ContainerSettings {
    /// Creates settings with nothing declared.
    pub fn new() -> (r: Self)
        ensures
            r@ == empty_container_settings(),
    {
        let r = ContainerSettings {
            command: None,
            entrypoint: None,
            user: None,
            workdir: None,
            hostname: None,
            labels: Vec::new(),
            environment: Vec::new(),
            restart_policy: None,
        };
        assert(label_views(r.labels@) =~= Seq::empty());
        assert(environment_views(r.environment@) =~= Seq::empty());
        r
    }

    /// Assigns one command array, rejecting repeated or conflicting assignments.
    ///
    /// # Errors
    ///
    /// Returns `PLN0035` for an identical repeat and `PLN0038` for a conflict.
    pub fn set_command(&mut self, command: ArgumentArray) -> (r: PodmanLensResult<()>)
        ensures
            once_update(old(self)@.command, command@, final(self)@.command, r),
            final(self)@ == (ContainerSettingsView { command: final(self)@.command, ..old(self)@ }),
    {
        set_once(&mut self.command, command)
    }

    /// Assigns one entrypoint array, rejecting repeated or conflicting assignments.
    ///
    /// # Errors
    ///
    /// Returns `PLN0035` for an identical repeat and `PLN0038` for a conflict.
    pub fn set_entrypoint(&mut self, entrypoint: ArgumentArray) -> (r: PodmanLensResult<()>)
        ensures
            once_update(old(self)@.entrypoint, entrypoint@, final(self)@.entrypoint, r),
            final(self)@ == (ContainerSettingsView {
                entrypoint: final(self)@.entrypoint,
                ..old(self)@
            }),
    {
        set_once(&mut self.entrypoint, entrypoint)
    }

    /// Assigns one user, rejecting repeated or conflicting assignments.
    ///
    /// # Errors
    ///
    /// Returns `PLN0035` for an identical repeat and `PLN0038` for a conflict.
    pub fn set_user(&mut self, user: ContainerUser) -> (r: PodmanLensResult<()>)
        ensures
            once_update(old(self)@.user, user@, final(self)@.user, r),
            final(self)@ == (ContainerSettingsView { user: final(self)@.user, ..old(self)@ }),
    {
        set_once(&mut self.user, user)
    }

    /// Assigns one working directory, rejecting repeated or conflicting assignments.
    ///
    /// # Errors
    ///
    /// Returns `PLN0035` for an identical repeat and `PLN0038` for a conflict.
    pub fn set_workdir(&mut self, workdir: ContainerWorkdir) -> (r: PodmanLensResult<()>)
        ensures
            once_update(old(self)@.workdir, workdir@, final(self)@.workdir, r),
            final(self)@ == (ContainerSettingsView { workdir: final(self)@.workdir, ..old(self)@ }),
    {
        set_once(&mut self.workdir, workdir)
    }

    /// Assigns one hostname, rejecting repeated or conflicting assignments.
    ///
    /// # Errors
    ///
    /// Returns `PLN0035` for an identical repeat and `PLN0038` for a conflict.
    pub fn set_hostname(&mut self, hostname: ContainerHostname) -> (r: PodmanLensResult<()>)
        ensures
            once_update(old(self)@.hostname, hostname@, final(self)@.hostname, r),
            final(self)@ == (ContainerSettingsView { hostname: final(self)@.hostname, ..old(self)@ }),
    {
        set_once(&mut self.hostname, hostname)
    }

    /// Adds one label while preserving declared order.
    ///
    /// # Errors
    ///
    /// Returns `PLN0035` for a duplicate key and `PLN0034` when the bounded collection is full.
    pub fn add_label(&mut self, label: Label) -> (r: PodmanLensResult<()>)
        ensures
            bounded_add(
                old(self)@.labels,
                old(self)@.labels.map_values(|l: LabelView| l.key),
                label@.key,
                label@,
                MAX_LABELS as nat,
                final(self)@.labels,
                r,
            ),
            final(self)@ == (ContainerSettingsView { labels: final(self)@.labels, ..old(self)@ }),
    {
        proof {
            assert(label_keys(self.labels@) =~= label_views(self.labels@).map_values(
                |l: LabelView| l.key,
            ));
        }
        if self.labels.len() == MAX_LABELS {
            return Err(Diagnostic::new(DiagnosticCode::InvalidDeploymentIntent));
        }
        if has_label_key(&self.labels, &label) {
            return Err(Diagnostic::new(DiagnosticCode::DeploymentDuplicateResource));
        }
        let ghost before = self.labels@;
        self.labels.push(label);
        proof {
            assert(label_views(self.labels@) =~= label_views(before).push(label@));
        }
        Ok(())
    }

    /// Adds one environment assignment while preserving declared order.
    ///
    /// # Errors
    ///
    /// Returns `PLN0035` for a duplicate name and `PLN0034` when the bounded collection is full.
    pub fn add_environment(&mut self, assignment: EnvironmentAssignment) -> (r: PodmanLensResult<()>)
        ensures
            bounded_add(
                old(self)@.environment,
                old(self)@.environment.map_values(|a: EnvironmentAssignmentView| a.name),
                assignment@.name,
                assignment@,
                MAX_ENVIRONMENT as nat,
                final(self)@.environment,
                r,
            ),
            final(self)@ == (ContainerSettingsView {
                environment: final(self)@.environment,
                ..old(self)@
            }),
    {
        proof {
            assert(environment_names(self.environment@) =~= environment_views(
                self.environment@,
            ).map_values(|a: EnvironmentAssignmentView| a.name));
        }
        if self.environment.len() == MAX_ENVIRONMENT {
            return Err(Diagnostic::new(DiagnosticCode::InvalidDeploymentIntent));
        }
        if has_environment_name(&self.environment, &assignment.name) {
            return Err(Diagnostic::new(DiagnosticCode::DeploymentDuplicateResource));
        }
        let ghost before = self.environment@;
        self.environment.push(assignment);
        proof {
            assert(environment_views(self.environment@) =~= environment_views(before).push(
                assignment@,
            ));
        }
        Ok(())
    }

    /// Assigns one restart policy, rejecting repeated or conflicting assignments.
    ///
    /// # Errors
    ///
    /// Returns `PLN0035` for an identical repeat and `PLN0038` for a conflict.
    pub fn set_restart_policy(&mut self, restart_policy: RestartPolicy) -> (r: PodmanLensResult<()>)
        ensures
            once_update(old(self)@.restart_policy, restart_policy, final(self)@.restart_policy, r),
            final(self)@ == (ContainerSettingsView {
                restart_policy: final(self)@.restart_policy,
                ..old(self)@
            }),
    {
        let r = set_once(&mut self.restart_policy, restart_policy);
        proof {
            assert(opt_view(self.restart_policy) == self.restart_policy);
            assert(opt_view(old(self).restart_policy) == old(self).restart_policy);
        }
        r
    }

    /// Returns the optional command.
    pub fn command(&self) -> (r: Option<&ArgumentArray>)
        ensures
            opt_view(r) == self@.command,
    {
        match &self.command {
            Some(v) => Some(v),
            None => None,
        }
    }

    /// Returns the optional entrypoint.
    pub fn entrypoint(&self) -> (r: Option<&ArgumentArray>)
        ensures
            opt_view(r) == self@.entrypoint,
    {
        match &self.entrypoint {
            Some(v) => Some(v),
            None => None,
        }
    }

    /// Returns the optional user.
    pub fn user(&self) -> (r: Option<&ContainerUser>)
        ensures
            opt_view(r) == self@.user,
    {
        match &self.user {
            Some(v) => Some(v),
            None => None,
        }
    }

    /// Returns the optional working directory.
    pub fn workdir(&self) -> (r: Option<&ContainerWorkdir>)
        ensures
            opt_view(r) == self@.workdir,
    {
        match &self.workdir {
            Some(v) => Some(v),
            None => None,
        }
    }

    /// Returns the optional hostname.
    pub fn hostname(&self) -> (r: Option<&ContainerHostname>)
        ensures
            opt_view(r) == self@.hostname,
    {
        match &self.hostname {
            Some(v) => Some(v),
            None => None,
        }
    }

    /// Returns labels in declared order.
    pub fn labels(&self) -> (r: &[Label])
        ensures
            label_views(r@) == self@.labels,
    {
        self.labels.as_slice()
    }

    /// Returns environment assignments in declared order.
    pub fn environment(&self) -> (r: &[EnvironmentAssignment])
        ensures
            environment_views(r@) == self@.environment,
    {
        self.environment.as_slice()
    }

    /// Returns the optional restart policy.
    pub fn restart_policy(&self) -> (r: Option<RestartPolicy>)
        ensures
            r == self@.restart_policy,
    {
        self.restart_policy
    }
}

impl SameValue for Label {
    fn same_value(&self, other: &Self) -> (r: bool) {
        same_text(&self.key.0, &other.key.0) && same_text(&self.value.0, &other.value.0)
    }
}

impl SameValue for DeploymentEnvironmentValue {
    fn same_value(&self, other: &Self) -> (r: bool) {
        match (self, other) {
            (DeploymentEnvironmentValue::Public(a), DeploymentEnvironmentValue::Public(b)) => same_text(
                &a.0,
                &b.0,
            ),
            (
                DeploymentEnvironmentValue::SensitiveInline(a),
                DeploymentEnvironmentValue::SensitiveInline(b),
            ) => same_text(&a.0, &b.0),
            (DeploymentEnvironmentValue::External(a), DeploymentEnvironmentValue::External(b)) => crate::text::str_eq(
                a.as_str(),
                b.as_str(),
            ),
            _ => false,
        }
    }
}

impl SameValue for EnvironmentAssignment {
    fn same_value(&self, other: &Self) -> (r: bool) {
        self.name.same_value(&other.name) && self.value.same_value(&other.value)
    }
}

impl SameValue for VolumeSubpath {
    fn same_value(&self, other: &Self) -> (r: bool) {
        same_text(&self.0, &other.0)
    }
}

impl SameValue for NamedVolumeMount {
    fn same_value(&self, other: &Self) -> (r: bool) {
        self.source.same_id(&other.source) && self.destination.same_value(&other.destination)
            && self.access == other.access && self.copy_mode == other.copy_mode && same_option(
            &self.subpath,
            &other.subpath,
        )
    }
}

impl SameValue for ContainerSettings {
    fn same_value(&self, other: &Self) -> (r: bool) {
        let labels = same_vec(&self.labels, &other.labels);
        let environment = same_vec(&self.environment, &other.environment);
        proof {
            assert(label_views(self.labels@) == views(self.labels@));
            assert(label_views(other.labels@) == views(other.labels@));
            assert(environment_views(self.environment@) == views(self.environment@));
            assert(environment_views(other.environment@) == views(other.environment@));
        }
        same_option(&self.command, &other.command) && same_option(&self.entrypoint, &other.entrypoint)
            && same_option(&self.user, &other.user) && same_option(&self.workdir, &other.workdir)
            && same_option(&self.hostname, &other.hostname) && labels && environment
            && self.restart_policy == other.restart_policy
    }
}

impl Duplicate for ArgumentArray {
    fn duplicate_value(&self) -> (r: Self) {
        ArgumentArray(duplicate_strings(&self.0))
    }
}

impl Duplicate for AbsoluteContainerPath {
    fn duplicate_value(&self) -> (r: Self) {
        AbsoluteContainerPath(self.0.clone())
    }
}

impl Duplicate for ContainerUser {
    fn duplicate_value(&self) -> (r: Self) {
        ContainerUser(self.0.clone())
    }
}

impl Duplicate for ContainerWorkdir {
    fn duplicate_value(&self) -> (r: Self) {
        ContainerWorkdir(self.0.duplicate_value())
    }
}

impl Duplicate for ContainerHostname {
    fn duplicate_value(&self) -> (r: Self) {
        ContainerHostname(self.0.clone())
    }
}

impl Duplicate for LabelKey {
    fn duplicate_value(&self) -> (r: Self) {
        LabelKey(self.0.clone())
    }
}

impl Duplicate for PublicLabelValue {
    fn duplicate_value(&self) -> (r: Self) {
        PublicLabelValue(self.0.clone())
    }
}

impl Duplicate for Label {
    fn duplicate_value(&self) -> (r: Self) {
        Label { key: self.key.duplicate_value(), value: self.value.duplicate_value() }
    }
}

impl Duplicate for EnvironmentName {
    fn duplicate_value(&self) -> (r: Self) {
        EnvironmentName(self.0.clone())
    }
}

impl Duplicate for PublicEnvironmentValue {
    fn duplicate_value(&self) -> (r: Self) {
        PublicEnvironmentValue(self.0.clone())
    }
}

impl Duplicate for SensitiveInlineEnvironmentValue {
    fn duplicate_value(&self) -> (r: Self) {
        SensitiveInlineEnvironmentValue(self.0.clone())
    }
}

impl Duplicate for DeploymentEnvironmentValue {
    fn duplicate_value(&self) -> (r: Self) {
        match self {
            DeploymentEnvironmentValue::Public(v) => DeploymentEnvironmentValue::Public(v.duplicate_value()),
            DeploymentEnvironmentValue::SensitiveInline(v) => DeploymentEnvironmentValue::SensitiveInline(v.duplicate_value()),
            DeploymentEnvironmentValue::External(v) => DeploymentEnvironmentValue::External(v.duplicate()),
        }
    }
}

impl Duplicate for EnvironmentAssignment {
    fn duplicate_value(&self) -> (r: Self) {
        EnvironmentAssignment { name: self.name.duplicate_value(), value: self.value.duplicate_value() }
    }
}

impl Duplicate for VolumeSubpath {
    fn duplicate_value(&self) -> (r: Self) {
        VolumeSubpath(self.0.clone())
    }
}

impl Duplicate for NamedVolumeMount {
    fn duplicate_value(&self) -> (r: Self) {
        NamedVolumeMount {
            source: self.source.duplicate(),
            destination: self.destination.duplicate_value(),
            access: self.access,
            copy_mode: self.copy_mode,
            subpath: duplicate_option(&self.subpath),
        }
    }
}

impl Duplicate for ContainerSettings {
    fn duplicate_value(&self) -> (r: Self) {
        let labels = duplicate_vec(&self.labels);
        let environment = duplicate_vec(&self.environment);
        let r = ContainerSettings {
            command: duplicate_option(&self.command),
            entrypoint: duplicate_option(&self.entrypoint),
            user: duplicate_option(&self.user),
            workdir: duplicate_option(&self.workdir),
            hostname: duplicate_option(&self.hostname),
            labels,
            environment,
            restart_policy: self.restart_policy,
        };
        assert(label_views(r.labels@) =~= label_views(self.labels@)) by {
            assert(views(r.labels@) == views(self.labels@));
            assert forall|i: int| 0 <= i < r.labels@.len() implies label_views(r.labels@)[i] == label_views(self.labels@)[i] by {
                assert(views(r.labels@)[i] == views(self.labels@)[i]);
            }
        }
        assert(environment_views(r.environment@) =~= environment_views(self.environment@)) by {
            assert(views(r.environment@) == views(self.environment@));
            assert forall|i: int| 0 <= i < r.environment@.len() implies environment_views(r.environment@)[i] == environment_views(self.environment@)[i] by {
                assert(views(r.environment@)[i] == views(self.environment@)[i]);
            }
        }
        r
    }
}

} // verus!
