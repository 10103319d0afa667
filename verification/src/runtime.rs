//! Bounded, redaction-safe native container runtime intent retained before rendering.

use vstd::prelude::*;

use crate::deployment::SensitiveInputReference;
use crate::diagnostic::{fails_with, Diagnostic, DiagnosticCode, PodmanLensResult};
use crate::once::{once_update, opt_view, same_option, same_text, same_texts, set_once, SameValue};
use crate::settings::{bounded_add, label_views, texts, Label, LabelView};
use crate::text::{bounded_plain, is_bounded_plain, str_eq, to_chars};

verus! {

/// The largest number of items of one runtime collection or argument array.
pub const MAX_ITEMS: usize = 64;

/// The largest byte length of one runtime text value.
pub const MAX_BYTES: usize = 4096;

/// A runtime text value: at most 4096 bytes without controls.
pub open spec fn valid_text(s: Seq<char>) -> bool {
    bounded_plain(s, MAX_BYTES as nat)
}

/// A nonempty array of at most 64 texts whose first element, the executable, is nonempty.
pub open spec fn valid_arguments(args: Seq<Seq<char>>) -> bool {
    &&& 0 < args.len() <= MAX_ITEMS
    &&& args[0].len() > 0
    &&& forall|i: int| 0 <= i < args.len() ==> valid_text(#[trigger] args[i])
}

fn check_text(value: &str) -> (r: bool)
    ensures
        r == valid_text(value@),
{
    let chars = to_chars(value);
    is_bounded_plain(&chars, MAX_BYTES)
}

fn check_arguments(args: &Vec<String>) -> (r: bool)
    ensures
        r == valid_arguments(texts(args@)),
{
    if args.len() == 0 || args.len() > MAX_ITEMS {
        return false;
    }
    let first = to_chars(args[0].as_str());
    if first.len() == 0 {
        assert(texts(args@)[0] == args@[0]@);
        return false;
    }
    let mut i: usize = 0;
    while i < args.len()
        invariant
            i <= args.len(),
            forall|j: int| 0 <= j < i ==> valid_text(#[trigger] texts(args@)[j]),
        decreases args.len() - i,
    {
        if !check_text(args[i].as_str()) {
            assert(texts(args@)[i as int] == args@[i as int]@);
            return false;
        }
        i = i + 1;
    }
    assert(texts(args@)[0] == args@[0]@);
    true
}

// ---------------------------------------------------------------------------------------------
// Health commands.
// ---------------------------------------------------------------------------------------------
/// An explicitly caller-declassified health command string.
#[derive(Clone, Debug, Eq, PartialEq)]
pub struct PublicHealthCommand(String);

impl View for PublicHealthCommand {
    type V = Seq<char>;

    closed spec fn view(&self) -> Seq<char> {
        self.0@
    }
}

impl PublicHealthCommand {
    /// Creates one bounded, non-control public health command value.
    ///
    /// # Errors
    ///
    /// Returns `PLN0034` for an empty, oversized, or control-containing value.
    pub fn new(value: &str) -> (r: PodmanLensResult<Self>)
        ensures
            r is Ok <==> value@.len() > 0 && valid_text(value@),
            r matches Ok(c) ==> c@ == value@,
            r is Err ==> fails_with(r, DiagnosticCode::InvalidDeploymentIntent),
    {
        if value.is_empty() || !check_text(value) {
            return Err(Diagnostic::new(DiagnosticCode::InvalidDeploymentIntent));
        }
        Ok(PublicHealthCommand(value.to_owned()))
    }

    /// Returns the public command value.
    pub fn as_str(&self) -> (r: &str)
        ensures
            r@ == self@,
    {
        self.0.as_str()
    }
}

/// A health command value retained only for planning and never exposed by debug output.
#[derive(Clone, Eq, PartialEq)]
pub struct SensitiveInlineHealthCommand(String);

impl View for SensitiveInlineHealthCommand {
    type V = Seq<char>;

    closed spec fn view(&self) -> Seq<char> {
        self.0@
    }
}

impl SensitiveInlineHealthCommand {
    /// Creates one bounded sensitive health command value.
    ///
    /// # Errors
    ///
    /// Returns `PLN0034` for an empty, oversized, or control-containing value.
    pub fn new(value: &str) -> (r: PodmanLensResult<Self>)
        ensures
            r is Ok <==> value@.len() > 0 && valid_text(value@),
            r matches Ok(c) ==> c@ == value@,
            r is Err ==> fails_with(r, DiagnosticCode::InvalidDeploymentIntent),
    {
        if value.is_empty() || !check_text(value) {
            return Err(Diagnostic::new(DiagnosticCode::InvalidDeploymentIntent));
        }
        Ok(SensitiveInlineHealthCommand(value.to_owned()))
    }
}

/// An explicitly caller-declassified direct health command array.
#[derive(Clone, Debug, Eq, PartialEq)]
pub struct PublicHealthArgumentArray(Vec<String>);

impl View for PublicHealthArgumentArray {
    type V = Seq<Seq<char>>;

    closed spec fn view(&self) -> Seq<Seq<char>> {
        texts(self.0@)
    }
}

impl PublicHealthArgumentArray {
    /// Creates a nonempty, bounded direct health command array.
    ///
    /// # Errors
    ///
    /// Returns `PLN0034` for invalid array boundaries or unsafe arguments.
    pub fn new(arguments: Vec<String>) -> (r: PodmanLensResult<Self>)
        ensures
            r is Ok <==> valid_arguments(texts(arguments@)),
            r matches Ok(a) ==> a@ == texts(arguments@),
            r is Err ==> fails_with(r, DiagnosticCode::InvalidDeploymentIntent),
    {
        if !check_arguments(&arguments) {
            return Err(Diagnostic::new(DiagnosticCode::InvalidDeploymentIntent));
        }
        Ok(PublicHealthArgumentArray(arguments))
    }

    /// Returns direct command arguments in declared order.
    pub fn values(&self) -> (r: &[String])
        ensures
            texts(r@) == self@,
    {
        self.0.as_slice()
    }
}

/// A sensitive inline direct health command array that is never exposed by debug output.
#[derive(Clone, Eq, PartialEq)]
pub struct SensitiveInlineHealthArgumentArray(Vec<String>);

impl View for SensitiveInlineHealthArgumentArray {
    type V = Seq<Seq<char>>;

    closed spec fn view(&self) -> Seq<Seq<char>> {
        texts(self.0@)
    }
}

impl SensitiveInlineHealthArgumentArray {
    /// Creates a nonempty, bounded sensitive direct health command array.
    ///
    /// # Errors
    ///
    /// Returns `PLN0034` for invalid array boundaries or unsafe arguments.
    pub fn new(arguments: Vec<String>) -> (r: PodmanLensResult<Self>)
        ensures
            r is Ok <==> valid_arguments(texts(arguments@)),
            r matches Ok(a) ==> a@ == texts(arguments@),
            r is Err ==> fails_with(r, DiagnosticCode::InvalidDeploymentIntent),
    {
        if !check_arguments(&arguments) {
            return Err(Diagnostic::new(DiagnosticCode::InvalidDeploymentIntent));
        }
        Ok(SensitiveInlineHealthArgumentArray(arguments))
    }
}

/// The content of a health command.
pub enum HealthCommandView {
    Shell(Seq<char>),
    Exec(Seq<Seq<char>>),
    SensitiveInlineShell(Seq<char>),
    SensitiveInlineExec(Seq<Seq<char>>),
    ExternalShell(Seq<char>),
    ExternalExec(Seq<char>),
}

/// One declared health command, preserving shell and exec syntax distinctions.
#[derive(Clone, Eq, PartialEq)]
#[non_exhaustive]
pub enum HealthCommand {
    /// A caller-authorized shell command.
    Shell(PublicHealthCommand),
    /// A caller-authorized direct executable and argument array.
    Exec(PublicHealthArgumentArray),
    /// An inline sensitive shell command.
    SensitiveInlineShell(SensitiveInlineHealthCommand),
    /// An inline sensitive direct command.
    SensitiveInlineExec(SensitiveInlineHealthArgumentArray),
    /// A caller-owned sensitive shell-command source.
    ExternalShell(SensitiveInputReference),
    /// A caller-owned sensitive direct-command source.
    ExternalExec(SensitiveInputReference),
}

impl View for HealthCommand {
    type V = HealthCommandView;

    open spec fn view(&self) -> HealthCommandView {
        match self {
            HealthCommand::Shell(c) => HealthCommandView::Shell(c@),
            HealthCommand::Exec(c) => HealthCommandView::Exec(c@),
            HealthCommand::SensitiveInlineShell(c) => HealthCommandView::SensitiveInlineShell(c@),
            HealthCommand::SensitiveInlineExec(c) => HealthCommandView::SensitiveInlineExec(c@),
            HealthCommand::ExternalShell(c) => HealthCommandView::ExternalShell(c@),
            HealthCommand::ExternalExec(c) => HealthCommandView::ExternalExec(c@),
        }
    }
}

impl SameValue for HealthCommand {
    fn same_value(&self, other: &Self) -> (r: bool) {
        match (self, other) {
            (HealthCommand::Shell(a), HealthCommand::Shell(b)) => same_text(&a.0, &b.0),
            (HealthCommand::Exec(a), HealthCommand::Exec(b)) => same_texts(&a.0, &b.0),
            (HealthCommand::SensitiveInlineShell(a), HealthCommand::SensitiveInlineShell(b)) => same_text(
                &a.0,
                &b.0,
            ),
            (HealthCommand::SensitiveInlineExec(a), HealthCommand::SensitiveInlineExec(b)) => same_texts(
                &a.0,
                &b.0,
            ),
            (HealthCommand::ExternalShell(a), HealthCommand::ExternalShell(b)) => str_eq(
                a.as_str(),
                b.as_str(),
            ),
            (HealthCommand::ExternalExec(a), HealthCommand::ExternalExec(b)) => str_eq(
                a.as_str(),
                b.as_str(),
            ),
            _ => false,
        }
    }
}

// ---------------------------------------------------------------------------------------------
// Health timing.
// ---------------------------------------------------------------------------------------------
/// A positive health duration encoded in bounded native signed nanoseconds.
#[derive(Clone, Copy, Debug, Eq, PartialEq, Structural)]
pub struct HealthDuration(i64);

impl View for HealthDuration {
    type V = i64;

    closed spec fn view(&self) -> i64 {
        self.0
    }
}

impl HealthDuration {
    /// Creates one positive native duration.
    ///
    /// # Errors
    ///
    /// Returns `PLN0034` for zero or values outside the native signed range.
    pub fn new(nanoseconds: u64) -> (r: PodmanLensResult<Self>)
        ensures
            r is Ok <==> 0 < nanoseconds <= i64::MAX,
            r matches Ok(d) ==> d@ == nanoseconds,
            r is Err ==> fails_with(r, DiagnosticCode::InvalidDeploymentIntent),
    {
        if nanoseconds == 0 || nanoseconds > 9223372036854775807u64 {
            return Err(Diagnostic::new(DiagnosticCode::InvalidDeploymentIntent));
        }
        Ok(HealthDuration(nanoseconds as i64))
    }

    /// Returns nanoseconds.
    pub fn nanoseconds(&self) -> (r: i64)
        ensures
            r == self@,
    {
        self.0
    }
}

/// A bounded native normal-health retry count.
#[derive(Clone, Copy, Debug, Eq, PartialEq, Structural)]
pub struct HealthRetries(u32);

impl View for HealthRetries {
    type V = u32;

    closed spec fn view(&self) -> u32 {
        self.0
    }
}

impl SameValue for HealthRetries {
    fn same_value(&self, other: &Self) -> (r: bool) {
        self.0 == other.0
    }
}

impl HealthRetries {
    /// Creates one retry count.
    ///
    /// # Errors
    ///
    /// Returns `PLN0034` for zero or outside the native signed range.
    pub fn new(value: u32) -> (r: PodmanLensResult<Self>)
        ensures
            r is Ok <==> 0 < value <= i32::MAX,
            r matches Ok(v) ==> v@ == value,
            r is Err ==> fails_with(r, DiagnosticCode::InvalidDeploymentIntent),
    {
        if value == 0 || value > 2147483647u32 {
            return Err(Diagnostic::new(DiagnosticCode::InvalidDeploymentIntent));
        }
        Ok(HealthRetries(value))
    }

    /// Returns the count.
    pub fn value(&self) -> (r: u32)
        ensures
            r == self@,
    {
        self.0
    }
}

/// A bounded startup-health retry count. Zero is valid.
#[derive(Clone, Copy, Debug, Eq, PartialEq, Structural)]
pub struct StartupHealthRetries(u32);

impl View for StartupHealthRetries {
    type V = u32;

    closed spec fn view(&self) -> u32 {
        self.0
    }
}

impl SameValue for StartupHealthRetries {
    fn same_value(&self, other: &Self) -> (r: bool) {
        self.0 == other.0
    }
}

impl StartupHealthRetries {
    /// Creates one startup retry count.
    ///
    /// # Errors
    ///
    /// Returns `PLN0034` outside the native signed range.
    pub fn new(value: u32) -> (r: PodmanLensResult<Self>)
        ensures
            r is Ok <==> value <= i32::MAX,
            r matches Ok(v) ==> v@ == value,
            r is Err ==> fails_with(r, DiagnosticCode::InvalidDeploymentIntent),
    {
        if value > 2147483647u32 {
            return Err(Diagnostic::new(DiagnosticCode::InvalidDeploymentIntent));
        }
        Ok(StartupHealthRetries(value))
    }

    /// Returns the count.
    pub fn value(&self) -> (r: u32)
        ensures
            r == self@,
    {
        self.0
    }
}

/// A bounded startup-health success threshold. Zero is valid.
#[derive(Clone, Copy, Debug, Eq, PartialEq, Structural)]
pub struct StartupHealthSuccesses(u32);

impl View for StartupHealthSuccesses {
    type V = u32;

    closed spec fn view(&self) -> u32 {
        self.0
    }
}

impl SameValue for StartupHealthSuccesses {
    fn same_value(&self, other: &Self) -> (r: bool) {
        self.0 == other.0
    }
}

impl StartupHealthSuccesses {
    /// Creates one threshold.
    ///
    /// # Errors
    ///
    /// Returns `PLN0034` outside the native signed range.
    pub fn new(value: u32) -> (r: PodmanLensResult<Self>)
        ensures
            r is Ok <==> value <= i32::MAX,
            r matches Ok(v) ==> v@ == value,
            r is Err ==> fails_with(r, DiagnosticCode::InvalidDeploymentIntent),
    {
        if value > 2147483647u32 {
            return Err(Diagnostic::new(DiagnosticCode::InvalidDeploymentIntent));
        }
        Ok(StartupHealthSuccesses(value))
    }

    /// Returns the count.
    pub fn value(&self) -> (r: u32)
        ensures
            r == self@,
    {
        self.0
    }
}

/// The content of a health interval.
pub enum HealthIntervalView {
    Disabled,
    Every(i64),
}

/// A health interval encoded as disabled native `0` or a positive duration.
#[derive(Clone, Copy, Debug, Eq, PartialEq, Structural)]
#[non_exhaustive]
pub enum HealthInterval {
    /// Disables scheduled checks with native interval `0`.
    Disabled,
    /// Schedules checks at a positive interval.
    Every(HealthDuration),
}

impl View for HealthInterval {
    type V = HealthIntervalView;

    open spec fn view(&self) -> HealthIntervalView {
        match self {
            HealthInterval::Disabled => HealthIntervalView::Disabled,
            HealthInterval::Every(d) => HealthIntervalView::Every(d@),
        }
    }
}

impl SameValue for HealthInterval {
    fn same_value(&self, other: &Self) -> (r: bool) {
        match (self, other) {
            (HealthInterval::Disabled, HealthInterval::Disabled) => true,
            (HealthInterval::Every(a), HealthInterval::Every(b)) => a.0 == b.0,
            _ => false,
        }
    }
}

/// A native health timeout of at least one second.
#[derive(Clone, Copy, Debug, Eq, PartialEq, Structural)]
pub struct HealthTimeout(HealthDuration);

impl View for HealthTimeout {
    type V = i64;

    closed spec fn view(&self) -> i64 {
        self.0@
    }
}

impl SameValue for HealthTimeout {
    fn same_value(&self, other: &Self) -> (r: bool) {
        (self.0).0 == (other.0).0
    }
}

impl HealthTimeout {
    /// Creates one timeout of at least one second.
    ///
    /// # Errors
    ///
    /// Returns `PLN0034` below one second or outside the native signed range.
    pub fn new(nanoseconds: u64) -> (r: PodmanLensResult<Self>)
        ensures
            r is Ok <==> 1_000_000_000 <= nanoseconds <= i64::MAX,
            r matches Ok(t) ==> t@ == nanoseconds,
            r is Err ==> fails_with(r, DiagnosticCode::InvalidDeploymentIntent),
    {
        if nanoseconds < 1_000_000_000 {
            return Err(Diagnostic::new(DiagnosticCode::InvalidDeploymentIntent));
        }
        let duration = HealthDuration::new(nanoseconds)?;
        Ok(HealthTimeout(duration))
    }

    /// Returns nanoseconds.
    pub fn nanoseconds(&self) -> (r: i64)
        ensures
            r == self@,
    {
        self.0.nanoseconds()
    }
}

/// A normal health start period; native zero is valid.
#[derive(Clone, Copy, Debug, Eq, PartialEq, Structural)]
pub struct HealthStartPeriod(i64);

impl View for HealthStartPeriod {
    type V = i64;

    closed spec fn view(&self) -> i64 {
        self.0
    }
}

impl SameValue for HealthStartPeriod {
    fn same_value(&self, other: &Self) -> (r: bool) {
        self.0 == other.0
    }
}

impl HealthStartPeriod {
    /// Creates one bounded start period.
    ///
    /// # Errors
    ///
    /// Returns `PLN0034` outside the native signed range.
    pub fn new(nanoseconds: u64) -> (r: PodmanLensResult<Self>)
        ensures
            r is Ok <==> nanoseconds <= i64::MAX,
            r matches Ok(p) ==> p@ == nanoseconds,
            r is Err ==> fails_with(r, DiagnosticCode::InvalidDeploymentIntent),
    {
        if nanoseconds > 9223372036854775807u64 {
            return Err(Diagnostic::new(DiagnosticCode::InvalidDeploymentIntent));
        }
        Ok(HealthStartPeriod(nanoseconds as i64))
    }

    /// Returns nanoseconds.
    pub fn nanoseconds(&self) -> (r: i64)
        ensures
            r == self@,
    {
        self.0
    }
}

/// The action after normal health failure.
#[derive(Clone, Copy, Debug, Eq, PartialEq, Structural)]
#[non_exhaustive]
pub enum HealthOnFailure {
    /// Retains an unhealthy state without stopping the container (Podman's `none`).
    NoAction,
    /// Kills the container.
    Kill,
    /// Restarts the container.
    Restart,
    /// Stops the container.
    Stop,
}

impl View for HealthOnFailure {
    type V = HealthOnFailure;

    open spec fn view(&self) -> HealthOnFailure {
        *self
    }
}

impl SameValue for HealthOnFailure {
    fn same_value(&self, other: &Self) -> (r: bool) {
        *self == *other
    }
}

/// The content of a normal health check.
pub struct ConfiguredHealthCheckView {
    pub command: HealthCommandView,
    pub interval: Option<HealthIntervalView>,
    pub timeout: Option<i64>,
    pub retries: Option<u32>,
    pub start_period: Option<i64>,
    pub on_failure: Option<HealthOnFailure>,
}

/// A normal health command plus bounded timing and failure fields.
#[derive(Clone, Eq, PartialEq)]
pub struct ConfiguredHealthCheck {
    command: HealthCommand,
    interval: Option<HealthInterval>,
    timeout: Option<HealthTimeout>,
    retries: Option<HealthRetries>,
    start_period: Option<HealthStartPeriod>,
    on_failure: Option<HealthOnFailure>,
}

impl View for ConfiguredHealthCheck {
    type V = ConfiguredHealthCheckView;

    closed spec fn view(&self) -> ConfiguredHealthCheckView {
        ConfiguredHealthCheckView {
            command: self.command@,
            interval: opt_view(self.interval),
            timeout: opt_view(self.timeout),
            retries: opt_view(self.retries),
            start_period: opt_view(self.start_period),
            on_failure: self.on_failure,
        }
    }
}

impl SameValue for ConfiguredHealthCheck {
    fn same_value(&self, other: &Self) -> (r: bool) {
        let r = self.command.same_value(&other.command) && same_option(&self.interval, &other.interval)
            && same_option(&self.timeout, &other.timeout) && same_option(&self.retries, &other.retries)
            && same_option(&self.start_period, &other.start_period) && same_option(
            &self.on_failure,
            &other.on_failure,
        );
        proof {
            assert(opt_view(self.on_failure) == self.on_failure);
            assert(opt_view(other.on_failure) == other.on_failure);
        }
        r
    }
}

impl ConfiguredHealthCheck {
    /// Starts one normal health check.
    pub fn new(command: HealthCommand) -> (r: Self)
        ensures
            r@ == (ConfiguredHealthCheckView {
                command: command@,
                interval: None,
                timeout: None,
                retries: None,
                start_period: None,
                on_failure: None,
            }),
    {
        ConfiguredHealthCheck {
            command,
            interval: None,
            timeout: None,
            retries: None,
            start_period: None,
            on_failure: None,
        }
    }

    /// Sets interval once.
    pub fn set_interval(&mut self, value: HealthInterval) -> (r: PodmanLensResult<()>)
        ensures
            once_update(old(self)@.interval, value@, final(self)@.interval, r),
            final(self)@ == (ConfiguredHealthCheckView { interval: final(self)@.interval, ..old(self)@ }),
    {
        set_once(&mut self.interval, value)
    }

    /// Sets timeout once.
    pub fn set_timeout(&mut self, value: HealthTimeout) -> (r: PodmanLensResult<()>)
        ensures
            once_update(old(self)@.timeout, value@, final(self)@.timeout, r),
            final(self)@ == (ConfiguredHealthCheckView { timeout: final(self)@.timeout, ..old(self)@ }),
    {
        set_once(&mut self.timeout, value)
    }

    /// Sets retries once.
    pub fn set_retries(&mut self, value: HealthRetries) -> (r: PodmanLensResult<()>)
        ensures
            once_update(old(self)@.retries, value@, final(self)@.retries, r),
            final(self)@ == (ConfiguredHealthCheckView { retries: final(self)@.retries, ..old(self)@ }),
    {
        set_once(&mut self.retries, value)
    }

    /// Sets start period once.
    pub fn set_start_period(&mut self, value: HealthStartPeriod) -> (r: PodmanLensResult<()>)
        ensures
            once_update(old(self)@.start_period, value@, final(self)@.start_period, r),
            final(self)@ == (ConfiguredHealthCheckView {
                start_period: final(self)@.start_period,
                ..old(self)@
            }),
    {
        set_once(&mut self.start_period, value)
    }

    /// Sets the failure action once.
    pub fn set_on_failure(&mut self, value: HealthOnFailure) -> (r: PodmanLensResult<()>)
        ensures
            once_update(old(self)@.on_failure, value, final(self)@.on_failure, r),
            final(self)@ == (ConfiguredHealthCheckView {
                on_failure: final(self)@.on_failure,
                ..old(self)@
            }),
    {
        let r = set_once(&mut self.on_failure, value);
        proof {
            assert(opt_view(self.on_failure) == self.on_failure);
            assert(opt_view(old(self).on_failure) == old(self).on_failure);
        }
        r
    }

    /// Returns command.
    pub fn command(&self) -> (r: &HealthCommand)
        ensures
            r@ == self@.command,
    {
        &self.command
    }

    /// Returns interval.
    pub fn interval(&self) -> (r: Option<HealthInterval>)
        ensures
            opt_view(r) == self@.interval,
    {
        self.interval
    }

    /// Returns timeout.
    pub fn timeout(&self) -> (r: Option<HealthTimeout>)
        ensures
            opt_view(r) == self@.timeout,
    {
        self.timeout
    }

    /// Returns retries.
    pub fn retries(&self) -> (r: Option<HealthRetries>)
        ensures
            opt_view(r) == self@.retries,
    {
        self.retries
    }

    /// Returns start period.
    pub fn start_period(&self) -> (r: Option<HealthStartPeriod>)
        ensures
            opt_view(r) == self@.start_period,
    {
        self.start_period
    }

    /// Returns failure action.
    pub fn on_failure(&self) -> (r: Option<HealthOnFailure>)
        ensures
            r == self@.on_failure,
    {
        self.on_failure
    }
}

/// The content of normal health behavior.
pub enum HealthCheckView {
    Disabled,
    Command(ConfiguredHealthCheckView),
}

/// Normal container health behavior.
#[derive(Clone, Eq, PartialEq)]
#[non_exhaustive]
pub enum HealthCheck {
    /// Explicitly disables health checking.
    Disabled,
    /// Uses the specified command.
    Command(ConfiguredHealthCheck),
}

impl View for HealthCheck {
    type V = HealthCheckView;

    open spec fn view(&self) -> HealthCheckView {
        match self {
            HealthCheck::Disabled => HealthCheckView::Disabled,
            HealthCheck::Command(c) => HealthCheckView::Command(c@),
        }
    }
}

impl SameValue for HealthCheck {
    fn same_value(&self, other: &Self) -> (r: bool) {
        match (self, other) {
            (HealthCheck::Disabled, HealthCheck::Disabled) => true,
            (HealthCheck::Command(a), HealthCheck::Command(b)) => a.same_value(b),
            _ => false,
        }
    }
}

/// The content of startup-only health behavior.
pub struct StartupHealthCheckView {
    pub command: HealthCommandView,
    pub interval: Option<HealthIntervalView>,
    pub timeout: Option<i64>,
    pub retries: Option<u32>,
    pub successes: Option<u32>,
}

/// Startup-only health behavior; it cannot disable or replace normal health configuration.
#[derive(Clone, Eq, PartialEq)]
pub struct StartupHealthCheck {
    command: HealthCommand,
    interval: Option<HealthInterval>,
    timeout: Option<HealthTimeout>,
    retries: Option<StartupHealthRetries>,
    successes: Option<StartupHealthSuccesses>,
}

impl View for StartupHealthCheck {
    type V = StartupHealthCheckView;

    closed spec fn view(&self) -> StartupHealthCheckView {
        StartupHealthCheckView {
            command: self.command@,
            interval: opt_view(self.interval),
            timeout: opt_view(self.timeout),
            retries: opt_view(self.retries),
            successes: opt_view(self.successes),
        }
    }
}

impl SameValue for StartupHealthCheck {
    fn same_value(&self, other: &Self) -> (r: bool) {
        self.command.same_value(&other.command) && same_option(&self.interval, &other.interval)
            && same_option(&self.timeout, &other.timeout) && same_option(&self.retries, &other.retries)
            && same_option(&self.successes, &other.successes)
    }
}

impl StartupHealthCheck {
    /// Creates startup health behavior from a command.
    pub fn new(command: HealthCommand) -> (r: Self)
        ensures
            r@ == (StartupHealthCheckView {
                command: command@,
                interval: None,
                timeout: None,
                retries: None,
                successes: None,
            }),
    {
        StartupHealthCheck { command, interval: None, timeout: None, retries: None, successes: None }
    }

    /// Sets interval once.
    pub fn set_interval(&mut self, value: HealthInterval) -> (r: PodmanLensResult<()>)
        ensures
            once_update(old(self)@.interval, value@, final(self)@.interval, r),
            final(self)@ == (StartupHealthCheckView { interval: final(self)@.interval, ..old(self)@ }),
    {
        set_once(&mut self.interval, value)
    }

    /// Sets timeout once.
    pub fn set_timeout(&mut self, value: HealthTimeout) -> (r: PodmanLensResult<()>)
        ensures
            once_update(old(self)@.timeout, value@, final(self)@.timeout, r),
            final(self)@ == (StartupHealthCheckView { timeout: final(self)@.timeout, ..old(self)@ }),
    {
        set_once(&mut self.timeout, value)
    }

    /// Sets retries once.
    pub fn set_retries(&mut self, value: StartupHealthRetries) -> (r: PodmanLensResult<()>)
        ensures
            once_update(old(self)@.retries, value@, final(self)@.retries, r),
            final(self)@ == (StartupHealthCheckView { retries: final(self)@.retries, ..old(self)@ }),
    {
        set_once(&mut self.retries, value)
    }

    /// Sets success threshold once.
    pub fn set_successes(&mut self, value: StartupHealthSuccesses) -> (r: PodmanLensResult<()>)
        ensures
            once_update(old(self)@.successes, value@, final(self)@.successes, r),
            final(self)@ == (StartupHealthCheckView { successes: final(self)@.successes, ..old(self)@ }),
    {
        set_once(&mut self.successes, value)
    }

    /// Returns the declared startup command.
    pub fn command(&self) -> (r: &HealthCommand)
        ensures
            r@ == self@.command,
    {
        &self.command
    }

    /// Returns interval.
    pub fn interval(&self) -> (r: Option<HealthInterval>)
        ensures
            opt_view(r) == self@.interval,
    {
        self.interval
    }

    /// Returns timeout.
    pub fn timeout(&self) -> (r: Option<HealthTimeout>)
        ensures
            opt_view(r) == self@.timeout,
    {
        self.timeout
    }

    /// Returns retries.
    pub fn retries(&self) -> (r: Option<StartupHealthRetries>)
        ensures
            opt_view(r) == self@.retries,
    {
        self.retries
    }

    /// Returns success threshold.
    pub fn successes(&self) -> (r: Option<StartupHealthSuccesses>)
        ensures
            opt_view(r) == self@.successes,
    {
        self.successes
    }
}

// ---------------------------------------------------------------------------------------------
// Logging.
// ---------------------------------------------------------------------------------------------
/// The bounded supported container logging drivers.
#[derive(Clone, Copy, Debug, Eq, PartialEq, Structural)]
#[non_exhaustive]
pub enum LogDriver {
    /// Podman's journald integration.
    Journald,
    /// Podman's local file driver.
    K8sFile,
}

impl View for LogDriver {
    type V = LogDriver;

    open spec fn view(&self) -> LogDriver {
        *self
    }
}

impl SameValue for LogDriver {
    fn same_value(&self, other: &Self) -> (r: bool) {
        *self == *other
    }
}

/// A bounded maximum log size in bytes.
#[derive(Clone, Copy, Debug, Eq, PartialEq, Structural)]
pub struct LogSize(i64);

impl View for LogSize {
    type V = i64;

    closed spec fn view(&self) -> i64 {
        self.0
    }
}

impl SameValue for LogSize {
    fn same_value(&self, other: &Self) -> (r: bool) {
        self.0 == other.0
    }
}

impl LogSize {
    /// Creates a non-zero maximum log size.
    ///
    /// # Errors
    ///
    /// Returns `PLN0034` for zero values or values outside the native signed range.
    pub fn new(bytes: u64) -> (r: PodmanLensResult<Self>)
        ensures
            r is Ok <==> 0 < bytes <= i64::MAX,
            r matches Ok(s) ==> s@ == bytes,
            r is Err ==> fails_with(r, DiagnosticCode::InvalidDeploymentIntent),
    {
        if bytes == 0 || bytes > 9223372036854775807u64 {
            return Err(Diagnostic::new(DiagnosticCode::InvalidDeploymentIntent));
        }
        Ok(LogSize(bytes as i64))
    }

    /// Returns the exact byte limit.
    pub fn bytes(&self) -> (r: i64)
        ensures
            r == self@,
    {
        self.0
    }
}

/// The content of logging intent.
pub struct LoggingSettingsView {
    pub driver: Option<LogDriver>,
    pub max_size: Option<i64>,
    pub journald_labels: Seq<LabelView>,
}

/// Bounded logging intent. Journald labels retain caller-public key/value pairs.
#[derive(Clone, Debug, Eq, PartialEq)]
pub struct LoggingSettings {
    driver: Option<LogDriver>,
    max_size: Option<LogSize>,
    journald_labels: Vec<Label>,
}

impl View for LoggingSettings {
    type V = LoggingSettingsView;

    closed spec fn view(&self) -> LoggingSettingsView {
        LoggingSettingsView {
            driver: self.driver,
            max_size: opt_view(self.max_size),
            journald_labels: label_views(self.journald_labels@),
        }
    }
}

impl Default for LoggingSettings {
    fn default() -> (r: Self)
        ensures
            r@ == (LoggingSettingsView { driver: None, max_size: None, journald_labels: Seq::empty() }),
    {
        LoggingSettings::new()
    }
}

impl LoggingSettings {
    /// Creates logging intent with nothing declared.
    pub fn new() -> (r: Self)
        ensures
            r@ == (LoggingSettingsView { driver: None, max_size: None, journald_labels: Seq::empty() }),
    {
        let r = LoggingSettings { driver: None, max_size: None, journald_labels: Vec::new() };
        assert(label_views(r.journald_labels@) =~= Seq::empty());
        r
    }

    /// Sets one driver, rejecting duplicate or conflicting assignments.
    pub fn set_driver(&mut self, driver: LogDriver) -> (r: PodmanLensResult<()>)
        ensures
            once_update(old(self)@.driver, driver, final(self)@.driver, r),
            final(self)@ == (LoggingSettingsView { driver: final(self)@.driver, ..old(self)@ }),
    {
        let r = set_once(&mut self.driver, driver);
        proof {
            assert(opt_view(self.driver) == self.driver);
            assert(opt_view(old(self).driver) == old(self).driver);
        }
        r
    }

    /// Sets one maximum size, rejecting duplicate or conflicting assignments.
    pub fn set_max_size(&mut self, size: LogSize) -> (r: PodmanLensResult<()>)
        ensures
            once_update(old(self)@.max_size, size@, final(self)@.max_size, r),
            final(self)@ == (LoggingSettingsView { max_size: final(self)@.max_size, ..old(self)@ }),
    {
        set_once(&mut self.max_size, size)
    }

    /// Adds one public journald label, rejecting duplicate keys.
    pub fn add_journald_label(&mut self, label: Label) -> (r: PodmanLensResult<()>)
        ensures
            bounded_add(
                old(self)@.journald_labels,
                old(self)@.journald_labels.map_values(|l: LabelView| l.key),
                label@.key,
                label@,
                MAX_ITEMS as nat,
                final(self)@.journald_labels,
                r,
            ),
            final(self)@ == (LoggingSettingsView {
                journald_labels: final(self)@.journald_labels,
                ..old(self)@
            }),
    {
        proof {
            assert(crate::settings::label_keys(self.journald_labels@) =~= label_views(
                self.journald_labels@,
            ).map_values(|l: LabelView| l.key));
        }
        if self.journald_labels.len() == MAX_ITEMS {
            return Err(Diagnostic::new(DiagnosticCode::InvalidDeploymentIntent));
        }
        if crate::settings::has_label_key(&self.journald_labels, &label) {
            return Err(Diagnostic::new(DiagnosticCode::DeploymentDuplicateResource));
        }
        let ghost before = self.journald_labels@;
        self.journald_labels.push(label);
        proof {
            assert(label_views(self.journald_labels@) =~= label_views(before).push(label@));
        }
        Ok(())
    }

    /// Returns the selected driver.
    pub fn driver(&self) -> (r: Option<LogDriver>)
        ensures
            r == self@.driver,
    {
        self.driver
    }

    /// Returns the selected size limit.
    pub fn max_size(&self) -> (r: Option<LogSize>)
        ensures
            opt_view(r) == self@.max_size,
    {
        self.max_size
    }

    /// Returns declared public journald labels in source order.
    pub fn journald_labels(&self) -> (r: &[Label])
        ensures
            label_views(r@) == self@.journald_labels,
    {
        self.journald_labels.as_slice()
    }
}

// ---------------------------------------------------------------------------------------------
// Capabilities and security.
// ---------------------------------------------------------------------------------------------
/// The reviewed prefix-free Linux capability names.
pub open spec fn capability_names() -> Seq<Seq<char>> {
    seq![
        "AUDIT_CONTROL"@,
        "AUDIT_READ"@,
        "AUDIT_WRITE"@,
        "BLOCK_SUSPEND"@,
        "BPF"@,
        "CHECKPOINT_RESTORE"@,
        "CHOWN"@,
        "DAC_OVERRIDE"@,
        "DAC_READ_SEARCH"@,
        "FOWNER"@,
        "FSETID"@,
        "IPC_LOCK"@,
        "IPC_OWNER"@,
        "KILL"@,
        "LEASE"@,
        "LINUX_IMMUTABLE"@,
        "MAC_ADMIN"@,
        "MAC_OVERRIDE"@,
        "MKNOD"@,
        "NET_ADMIN"@,
        "NET_BIND_SERVICE"@,
        "NET_BROADCAST"@,
        "NET_RAW"@,
        "PERFMON"@,
        "SETFCAP"@,
        "SETGID"@,
        "SETPCAP"@,
        "SETUID"@,
        "SYS_ADMIN"@,
        "SYS_BOOT"@,
        "SYS_CHROOT"@,
        "SYS_MODULE"@,
        "SYS_NICE"@,
        "SYS_PACCT"@,
        "SYS_PTRACE"@,
        "SYS_RAWIO"@,
        "SYS_RESOURCE"@,
        "SYS_TIME"@,
        "SYS_TTY_CONFIG"@,
        "SYSLOG"@,
        "WAKE_ALARM"@,
    ]
}

/// The number of reviewed capability names.
pub const CAPABILITY_COUNT: usize = 41;

/// The reviewed capability name at position `index`.
fn capability_name(index: usize) -> (r: &'static str)
    requires
        index < CAPABILITY_COUNT,
    ensures
        r@ == capability_names()[index as int],
{
    match index {
        0 => "AUDIT_CONTROL",
        1 => "AUDIT_READ",
        2 => "AUDIT_WRITE",
        3 => "BLOCK_SUSPEND",
        4 => "BPF",
        5 => "CHECKPOINT_RESTORE",
        6 => "CHOWN",
        7 => "DAC_OVERRIDE",
        8 => "DAC_READ_SEARCH",
        9 => "FOWNER",
        10 => "FSETID",
        11 => "IPC_LOCK",
        12 => "IPC_OWNER",
        13 => "KILL",
        14 => "LEASE",
        15 => "LINUX_IMMUTABLE",
        16 => "MAC_ADMIN",
        17 => "MAC_OVERRIDE",
        18 => "MKNOD",
        19 => "NET_ADMIN",
        20 => "NET_BIND_SERVICE",
        21 => "NET_BROADCAST",
        22 => "NET_RAW",
        23 => "PERFMON",
        24 => "SETFCAP",
        25 => "SETGID",
        26 => "SETPCAP",
        27 => "SETUID",
        28 => "SYS_ADMIN",
        29 => "SYS_BOOT",
        30 => "SYS_CHROOT",
        31 => "SYS_MODULE",
        32 => "SYS_NICE",
        33 => "SYS_PACCT",
        34 => "SYS_PTRACE",
        35 => "SYS_RAWIO",
        36 => "SYS_RESOURCE",
        37 => "SYS_TIME",
        38 => "SYS_TTY_CONFIG",
        39 => "SYSLOG",
        _ => "WAKE_ALARM",
    }
}

/// A bounded Linux capability name.
#[derive(Clone, Debug, Eq, Ord, PartialEq, PartialOrd)]
pub struct LinuxCapability(&'static str);

impl View for LinuxCapability {
    type V = Seq<char>;

    closed spec fn view(&self) -> Seq<char> {
        self.0@
    }
}

impl SameValue for LinuxCapability {
    fn same_value(&self, other: &Self) -> (r: bool) {
        str_eq(self.0, other.0)
    }
}

impl LinuxCapability {
    /// Creates an exact reviewed prefix-free capability name.
    ///
    /// # Errors
    ///
    /// Returns `PLN0034` for `CAP_`-prefixed, unknown, or legacy spellings.
    pub fn new(value: &str) -> (r: PodmanLensResult<Self>)
        ensures
            r is Ok <==> capability_names().contains(value@),
            r matches Ok(c) ==> c@ == value@,
            r is Err ==> fails_with(r, DiagnosticCode::InvalidDeploymentIntent),
    {
        assert(capability_names().len() == CAPABILITY_COUNT);
        let mut i: usize = 0;
        while i < CAPABILITY_COUNT
            invariant
                i <= CAPABILITY_COUNT,
                capability_names().len() == CAPABILITY_COUNT,
                forall|j: int| 0 <= j < i ==> capability_names()[j] != value@,
            decreases CAPABILITY_COUNT - i,
        {
            let name = capability_name(i);
            if str_eq(name, value) {
                return Ok(LinuxCapability(name));
            }
            i = i + 1;
        }
        Err(Diagnostic::new(DiagnosticCode::InvalidDeploymentIntent))
    }

    /// Returns the canonical capability name.
    pub fn as_str(&self) -> (r: &'static str)
        ensures
            r@ == self@,
    {
        self.0
    }
}

/// The contents of a capability sequence.
pub open spec fn capability_views(caps: Seq<LinuxCapability>) -> Seq<Seq<char>> {
    caps.map_values(|c: LinuxCapability| c@)
}

/// Adding to a bounded duplicate-free collection of capabilities.
fn add_distinct_capability(values: &mut Vec<LinuxCapability>, value: LinuxCapability) -> (r:
    PodmanLensResult<()>)
    ensures
        bounded_add(
            capability_views(old(values)@),
            capability_views(old(values)@),
            value@,
            value@,
            MAX_ITEMS as nat,
            capability_views(final(values)@),
            r,
        ),
{
    if values.len() == MAX_ITEMS {
        return Err(Diagnostic::new(DiagnosticCode::InvalidDeploymentIntent));
    }
    let mut i: usize = 0;
    while i < values.len()
        invariant
            i <= values.len(),
            values@ == old(values)@,
            values.len() != MAX_ITEMS,
            forall|j: int| 0 <= j < i ==> values@[j]@ != value@,
        decreases values.len() - i,
    {
        if values[i].same_value(&value) {
            assert(capability_views(values@)[i as int] == value@);
            assert(capability_views(values@).contains(value@));
            return Err(Diagnostic::new(DiagnosticCode::DeploymentDuplicateResource));
        }
        i = i + 1;
    }
    assert forall|j: int| 0 <= j < capability_views(values@).len() implies capability_views(
        values@,
    )[j] != value@ by {
        assert(capability_views(values@)[j] == values@[j]@);
    }
    let ghost before = values@;
    values.push(value);
    assert(capability_views(values@) =~= capability_views(before).push(value@));
    Ok(())
}

/// The content of container security settings.
pub struct SecuritySettingsView {
    pub privileged: Option<bool>,
    pub no_new_privileges: Option<bool>,
    pub read_only_filesystem: Option<bool>,
    pub read_write_tmpfs: Option<bool>,
    pub cap_add: Seq<Seq<char>>,
    pub cap_drop: Seq<Seq<char>>,
}

/// Container security settings that do not depend on host paths or execution.
#[derive(Clone, Debug, Eq, PartialEq)]
pub struct SecuritySettings {
    privileged: Option<bool>,
    no_new_privileges: Option<bool>,
    read_only_filesystem: Option<bool>,
    read_write_tmpfs: Option<bool>,
    cap_add: Vec<LinuxCapability>,
    cap_drop: Vec<LinuxCapability>,
}

impl View for SecuritySettings {
    type V = SecuritySettingsView;

    closed spec fn view(&self) -> SecuritySettingsView {
        SecuritySettingsView {
            privileged: self.privileged,
            no_new_privileges: self.no_new_privileges,
            read_only_filesystem: self.read_only_filesystem,
            read_write_tmpfs: self.read_write_tmpfs,
            cap_add: capability_views(self.cap_add@),
            cap_drop: capability_views(self.cap_drop@),
        }
    }
}

/// Security settings with nothing declared.
pub open spec fn empty_security() -> SecuritySettingsView {
    SecuritySettingsView {
        privileged: None,
        no_new_privileges: None,
        read_only_filesystem: None,
        read_write_tmpfs: None,
        cap_add: Seq::empty(),
        cap_drop: Seq::empty(),
    }
}

fn set_flag_once(slot: &mut Option<bool>, value: bool) -> (r: PodmanLensResult<()>)
    ensures
        once_update(*old(slot), value, *final(slot), r),
{
    let r = set_once(slot, value);
    proof {
        assert(opt_view(*slot) == *slot);
        assert(opt_view(*old(slot)) == *old(slot));
    }
    r
}

impl Default for SecuritySettings {
    fn default() -> (r: Self)
        ensures
            r@ == empty_security(),
    {
        SecuritySettings::new()
    }
}

impl SecuritySettings {
    /// Creates security settings with nothing declared.
    pub fn new() -> (r: Self)
        ensures
            r@ == empty_security(),
    {
        let r = SecuritySettings {
            privileged: None,
            no_new_privileges: None,
            read_only_filesystem: None,
            read_write_tmpfs: None,
            cap_add: Vec::new(),
            cap_drop: Vec::new(),
        };
        assert(capability_views(r.cap_add@) =~= Seq::empty());
        assert(capability_views(r.cap_drop@) =~= Seq::empty());
        r
    }

    /// Enables or disables privileged execution explicitly.
    pub fn set_privileged(&mut self, enabled: bool) -> (r: PodmanLensResult<()>)
        ensures
            once_update(old(self)@.privileged, enabled, final(self)@.privileged, r),
            final(self)@ == (SecuritySettingsView { privileged: final(self)@.privileged, ..old(self)@ }),
    {
        set_flag_once(&mut self.privileged, enabled)
    }

    /// Enables or disables no-new-privileges explicitly.
    pub fn set_no_new_privileges(&mut self, enabled: bool) -> (r: PodmanLensResult<()>)
        ensures
            once_update(old(self)@.no_new_privileges, enabled, final(self)@.no_new_privileges, r),
            final(self)@ == (SecuritySettingsView {
                no_new_privileges: final(self)@.no_new_privileges,
                ..old(self)@
            }),
    {
        set_flag_once(&mut self.no_new_privileges, enabled)
    }

    /// Enables or disables a read-only container filesystem explicitly.
    pub fn set_read_only_filesystem(&mut self, enabled: bool) -> (r: PodmanLensResult<()>)
        ensures
            once_update(old(self)@.read_only_filesystem, enabled, final(self)@.read_only_filesystem, r),
            final(self)@ == (SecuritySettingsView {
                read_only_filesystem: final(self)@.read_only_filesystem,
                ..old(self)@
            }),
    {
        set_flag_once(&mut self.read_only_filesystem, enabled)
    }

    /// Adds one capability, rejecting duplicates and bounded overflow.
    pub fn add_capability(&mut self, capability: LinuxCapability) -> (r: PodmanLensResult<()>)
        ensures
            bounded_add(
                old(self)@.cap_add,
                old(self)@.cap_add,
                capability@,
                capability@,
                MAX_ITEMS as nat,
                final(self)@.cap_add,
                r,
            ),
            final(self)@ == (SecuritySettingsView { cap_add: final(self)@.cap_add, ..old(self)@ }),
    {
        add_distinct_capability(&mut self.cap_add, capability)
    }

    /// Drops one capability, rejecting duplicates and bounded overflow.
    pub fn drop_capability(&mut self, capability: LinuxCapability) -> (r: PodmanLensResult<()>)
        ensures
            bounded_add(
                old(self)@.cap_drop,
                old(self)@.cap_drop,
                capability@,
                capability@,
                MAX_ITEMS as nat,
                final(self)@.cap_drop,
                r,
            ),
            final(self)@ == (SecuritySettingsView { cap_drop: final(self)@.cap_drop, ..old(self)@ }),
    {
        add_distinct_capability(&mut self.cap_drop, capability)
    }

    /// Records explicit writable-tmpfs behavior.
    pub fn set_read_write_tmpfs(&mut self, enabled: bool) -> (r: PodmanLensResult<()>)
        ensures
            once_update(old(self)@.read_write_tmpfs, enabled, final(self)@.read_write_tmpfs, r),
            final(self)@ == (SecuritySettingsView {
                read_write_tmpfs: final(self)@.read_write_tmpfs,
                ..old(self)@
            }),
    {
        set_flag_once(&mut self.read_write_tmpfs, enabled)
    }

    /// Returns privileged state.
    pub fn privileged(&self) -> (r: Option<bool>)
        ensures
            r == self@.privileged,
    {
        self.privileged
    }

    /// Returns no-new-privileges state.
    pub fn no_new_privileges(&self) -> (r: Option<bool>)
        ensures
            r == self@.no_new_privileges,
    {
        self.no_new_privileges
    }

    /// Returns read-only filesystem state.
    pub fn read_only_filesystem(&self) -> (r: Option<bool>)
        ensures
            r == self@.read_only_filesystem,
    {
        self.read_only_filesystem
    }

    /// Returns added capabilities.
    pub fn cap_add(&self) -> (r: &[LinuxCapability])
        ensures
            capability_views(r@) == self@.cap_add,
    {
        self.cap_add.as_slice()
    }

    /// Returns dropped capabilities.
    pub fn cap_drop(&self) -> (r: &[LinuxCapability])
        ensures
            capability_views(r@) == self@.cap_drop,
    {
        self.cap_drop.as_slice()
    }

    /// Returns explicitly requested read-write-tmpfs behavior.
    pub fn read_write_tmpfs(&self) -> (r: Option<bool>)
        ensures
            r == self@.read_write_tmpfs,
    {
        self.read_write_tmpfs
    }
}

// ---------------------------------------------------------------------------------------------
// Resource controls.
// ---------------------------------------------------------------------------------------------
/// One finite or explicitly unlimited resource limit.
#[derive(Clone, Copy, Debug, Eq, PartialEq, Structural)]
#[non_exhaustive]
pub enum RlimitValue {
    /// An exact finite limit; zero is valid.
    Finite(u64),
    /// An explicit unlimited limit.
    Unlimited,
}

impl RlimitValue {
    /// Creates an exact finite limit; zero is valid.
    pub fn finite(value: u64) -> (r: Self)
        ensures
            r == RlimitValue::Finite(value),
    {
        RlimitValue::Finite(value)
    }
}

/// The bounded supported rlimit names.
#[derive(Clone, Copy, Debug, Eq, Ord, PartialEq, PartialOrd, Structural)]
#[non_exhaustive]
pub enum RlimitKind {
    /// Maximum open file descriptors.
    NoFile,
    /// Maximum processes.
    NProc,
}

/// A soft limit never above its hard limit: an unlimited soft limit needs an unlimited hard
/// limit, and finite limits are ordered.
pub open spec fn rlimit_ordered(soft: RlimitValue, hard: RlimitValue) -> bool {
    match (soft, hard) {
        (RlimitValue::Unlimited, RlimitValue::Finite(_)) => false,
        (RlimitValue::Finite(s), RlimitValue::Finite(h)) => s <= h,
        _ => true,
    }
}

/// One rlimit pair.
#[derive(Clone, Copy, Debug, Eq, PartialEq, Structural)]
pub struct Rlimit {
    kind: RlimitKind,
    soft: RlimitValue,
    hard: RlimitValue,
}

/// The content of one rlimit pair.
pub struct RlimitView {
    pub kind: RlimitKind,
    pub soft: RlimitValue,
    pub hard: RlimitValue,
}

impl View for Rlimit {
    type V = RlimitView;

    closed spec fn view(&self) -> RlimitView {
        RlimitView { kind: self.kind, soft: self.soft, hard: self.hard }
    }
}

impl Rlimit {
    /// Creates one rlimit. Finite soft limits must not exceed finite hard limits.
    ///
    /// # Errors
    ///
    /// Returns `PLN0034` when the soft limit exceeds the hard limit.
    pub fn new(kind: RlimitKind, soft: RlimitValue, hard: RlimitValue) -> (r: PodmanLensResult<Self>)
        ensures
            r is Ok <==> rlimit_ordered(soft, hard),
            r matches Ok(l) ==> l@ == (RlimitView { kind, soft, hard }),
            r is Err ==> fails_with(r, DiagnosticCode::InvalidDeploymentIntent),
    {
        let ordered = match (soft, hard) {
            (RlimitValue::Unlimited, RlimitValue::Finite(_)) => false,
            (RlimitValue::Finite(s), RlimitValue::Finite(h)) => s <= h,
            _ => true,
        };
        if !ordered {
            return Err(Diagnostic::new(DiagnosticCode::InvalidDeploymentIntent));
        }
        Ok(Rlimit { kind, soft, hard })
    }

    /// Returns rlimit kind.
    pub fn kind(&self) -> (r: RlimitKind)
        ensures
            r == self@.kind,
    {
        self.kind
    }

    /// Returns soft limit.
    pub fn soft(&self) -> (r: RlimitValue)
        ensures
            r == self@.soft,
    {
        self.soft
    }

    /// Returns hard limit.
    pub fn hard(&self) -> (r: RlimitValue)
        ensures
            r == self@.hard,
    {
        self.hard
    }
}

/// The contents of an rlimit sequence.
pub open spec fn rlimit_views(v: Seq<Rlimit>) -> Seq<RlimitView> {
    v.map_values(|l: Rlimit| l@)
}

/// The content of container resource controls.
pub struct ResourceControlsView {
    pub cpu_shares: Option<i64>,
    pub cpu_period: Option<i64>,
    pub cpu_quota: Option<i64>,
    pub memory_bytes: Option<i64>,
    pub pids: Option<i64>,
    pub rlimits: Seq<RlimitView>,
}

/// Resource controls with nothing declared.
pub open spec fn empty_resources() -> ResourceControlsView {
    ResourceControlsView {
        cpu_shares: None,
        cpu_period: None,
        cpu_quota: None,
        memory_bytes: None,
        pids: None,
        rlimits: Seq::empty(),
    }
}

/// Bounded container CPU, memory, PID, and rlimit declarations.
#[derive(Clone, Debug, Eq, PartialEq)]
pub struct ContainerResourceControls {
    cpu_shares: Option<i64>,
    cpu_period: Option<i64>,
    cpu_quota: Option<i64>,
    memory_bytes: Option<i64>,
    pids: Option<i64>,
    rlimits: Vec<Rlimit>,
}

impl View for ContainerResourceControls {
    type V = ResourceControlsView;

    closed spec fn view(&self) -> ResourceControlsView {
        ResourceControlsView {
            cpu_shares: self.cpu_shares,
            cpu_period: self.cpu_period,
            cpu_quota: self.cpu_quota,
            memory_bytes: self.memory_bytes,
            pids: self.pids,
            rlimits: rlimit_views(self.rlimits@),
        }
    }
}

fn set_number_once(slot: &mut Option<i64>, value: i64) -> (r: PodmanLensResult<()>)
    ensures
        once_update(*old(slot), value, *final(slot), r),
{
    let r = set_once(slot, value);
    proof {
        assert(opt_view(*slot) == *slot);
        assert(opt_view(*old(slot)) == *old(slot));
    }
    r
}

/// A rejected setter leaves the controls unchanged and reports an invalid value.
pub open spec fn rejected_invalid(before: ResourceControlsView, after: ResourceControlsView, r: PodmanLensResult<()>) -> bool {
    after == before && fails_with(r, DiagnosticCode::InvalidDeploymentIntent)
}

impl Default for ContainerResourceControls {
    fn default() -> (r: Self)
        ensures
            r@ == empty_resources(),
    {
        ContainerResourceControls::new()
    }
}

impl ContainerResourceControls {
    /// Creates resource controls with nothing declared.
    pub fn new() -> (r: Self)
        ensures
            r@ == empty_resources(),
    {
        let r = ContainerResourceControls {
            cpu_shares: None,
            cpu_period: None,
            cpu_quota: None,
            memory_bytes: None,
            pids: None,
            rlimits: Vec::new(),
        };
        assert(rlimit_views(r.rlimits@) =~= Seq::empty());
        r
    }

    /// Sets direct native CPU shares in the reviewed CFS range 2 through 262144.
    pub fn set_cpu_shares(&mut self, value: u32) -> (r: PodmanLensResult<()>)
        ensures
            !(2 <= value <= 262_144) ==> rejected_invalid(old(self)@, final(self)@, r),
            2 <= value <= 262_144 ==> once_update(old(self)@.cpu_shares, value as i64, final(self)@.cpu_shares, r)
                && final(self)@ == (ResourceControlsView { cpu_shares: final(self)@.cpu_shares, ..old(self)@ }),
    {
        if value < 2 || value > 262_144 {
            return Err(Diagnostic::new(DiagnosticCode::InvalidDeploymentIntent));
        }
        set_number_once(&mut self.cpu_shares, value as i64)
    }

    /// Sets direct native CPU period in the reviewed 1ms–1s range.
    pub fn set_cpu_period(&mut self, value: u64) -> (r: PodmanLensResult<()>)
        ensures
            !(1_000 <= value <= 1_000_000) ==> rejected_invalid(old(self)@, final(self)@, r),
            1_000 <= value <= 1_000_000 ==> once_update(old(self)@.cpu_period, value as i64, final(self)@.cpu_period, r)
                && final(self)@ == (ResourceControlsView { cpu_period: final(self)@.cpu_period, ..old(self)@ }),
    {
        if value < 1_000 || value > 1_000_000 {
            return Err(Diagnostic::new(DiagnosticCode::InvalidDeploymentIntent));
        }
        set_number_once(&mut self.cpu_period, value as i64)
    }

    /// Sets a positive direct native CPU quota in microseconds, at least one millisecond.
    pub fn set_cpu_quota(&mut self, value: i64) -> (r: PodmanLensResult<()>)
        ensures
            value < 1_000 ==> rejected_invalid(old(self)@, final(self)@, r),
            value >= 1_000 ==> once_update(old(self)@.cpu_quota, value, final(self)@.cpu_quota, r)
                && final(self)@ == (ResourceControlsView { cpu_quota: final(self)@.cpu_quota, ..old(self)@ }),
    {
        if value < 1_000 {
            return Err(Diagnostic::new(DiagnosticCode::InvalidDeploymentIntent));
        }
        set_number_once(&mut self.cpu_quota, value)
    }

    /// Sets positive memory bytes within the native signed range.
    pub fn set_memory_bytes(&mut self, value: u64) -> (r: PodmanLensResult<()>)
        ensures
            !(0 < value <= i64::MAX) ==> rejected_invalid(old(self)@, final(self)@, r),
            0 < value <= i64::MAX ==> once_update(old(self)@.memory_bytes, value as i64, final(self)@.memory_bytes, r)
                && final(self)@ == (ResourceControlsView { memory_bytes: final(self)@.memory_bytes, ..old(self)@ }),
    {
        if value == 0 || value > 9223372036854775807u64 {
            return Err(Diagnostic::new(DiagnosticCode::InvalidDeploymentIntent));
        }
        set_number_once(&mut self.memory_bytes, value as i64)
    }

    /// Sets direct native PID limit; `-1` is unlimited.
    pub fn set_pids(&mut self, value: i64) -> (r: PodmanLensResult<()>)
        ensures
            (value == 0 || value < -1) ==> rejected_invalid(old(self)@, final(self)@, r),
            !(value == 0 || value < -1) ==> once_update(old(self)@.pids, value, final(self)@.pids, r)
                && final(self)@ == (ResourceControlsView { pids: final(self)@.pids, ..old(self)@ }),
    {
        if value == 0 || value < -1 {
            return Err(Diagnostic::new(DiagnosticCode::InvalidDeploymentIntent));
        }
        set_number_once(&mut self.pids, value)
    }

    /// Adds rlimit, rejecting duplicate kinds and bounded overflow.
    pub fn add_rlimit(&mut self, value: Rlimit) -> (r: PodmanLensResult<()>)
        ensures
            bounded_add(
                old(self)@.rlimits,
                old(self)@.rlimits.map_values(|l: RlimitView| l.kind),
                value@.kind,
                value@,
                MAX_ITEMS as nat,
                final(self)@.rlimits,
                r,
            ),
            final(self)@ == (ResourceControlsView { rlimits: final(self)@.rlimits, ..old(self)@ }),
    {
        let ghost keys = rlimit_views(self.rlimits@).map_values(|l: RlimitView| l.kind);
        if self.rlimits.len() == MAX_ITEMS {
            return Err(Diagnostic::new(DiagnosticCode::InvalidDeploymentIntent));
        }
        let mut i: usize = 0;
        while i < self.rlimits.len()
            invariant
                i <= self.rlimits.len(),
                *self == *old(self),
                self.rlimits.len() != MAX_ITEMS,
                keys == rlimit_views(self.rlimits@).map_values(|l: RlimitView| l.kind),
                forall|j: int| 0 <= j < i ==> self.rlimits@[j]@.kind != value@.kind,
            decreases self.rlimits.len() - i,
        {
            if self.rlimits[i].kind == value.kind {
                assert(keys[i as int] == value@.kind);
                assert(keys.contains(value@.kind));
                return Err(Diagnostic::new(DiagnosticCode::DeploymentDuplicateResource));
            }
            i = i + 1;
        }
        assert forall|j: int| 0 <= j < keys.len() implies keys[j] != value@.kind by {
            assert(keys[j] == self.rlimits@[j]@.kind);
        }
        let ghost before = self.rlimits@;
        self.rlimits.push(value);
        assert(rlimit_views(self.rlimits@) =~= rlimit_views(before).push(value@));
        Ok(())
    }

    /// Returns direct native CPU shares.
    pub fn cpu_shares(&self) -> (r: Option<i64>)
        ensures
            r == self@.cpu_shares,
    {
        self.cpu_shares
    }

    /// Returns direct native CPU period.
    pub fn cpu_period(&self) -> (r: Option<i64>)
        ensures
            r == self@.cpu_period,
    {
        self.cpu_period
    }

    /// Returns the positive direct native CPU quota in microseconds.
    pub fn cpu_quota(&self) -> (r: Option<i64>)
        ensures
            r == self@.cpu_quota,
    {
        self.cpu_quota
    }

    /// Returns memory bytes.
    pub fn memory_bytes(&self) -> (r: Option<i64>)
        ensures
            r == self@.memory_bytes,
    {
        self.memory_bytes
    }

    /// Returns PID limit.
    pub fn pids(&self) -> (r: Option<i64>)
        ensures
            r == self@.pids,
    {
        self.pids
    }

    /// Returns rlimits.
    pub fn rlimits(&self) -> (r: &[Rlimit])
        ensures
            rlimit_views(r@) == self@.rlimits,
    {
        self.rlimits.as_slice()
    }
}

// ---------------------------------------------------------------------------------------------
// Namespaces.
// ---------------------------------------------------------------------------------------------
/// One private or host namespace mode.
#[derive(Clone, Copy, Debug, Eq, PartialEq, Structural)]
#[non_exhaustive]
pub enum NamespaceMode {
    /// Creates a private namespace.
    Private,
    /// Joins the host namespace.
    Host,
}

impl View for NamespaceMode {
    type V = NamespaceMode;

    open spec fn view(&self) -> NamespaceMode {
        *self
    }
}

impl SameValue for NamespaceMode {
    fn same_value(&self, other: &Self) -> (r: bool) {
        *self == *other
    }
}

/// One IPC namespace mode for an unpodded container.
#[derive(Clone, Copy, Debug, Eq, PartialEq, Structural)]
#[non_exhaustive]
pub enum IpcNamespaceMode {
    /// Creates a private IPC namespace.
    Private,
    /// Joins the host IPC namespace.
    Host,
    /// Makes a private IPC namespace shareable.
    Shareable,
    /// Disables IPC namespace use (Podman's `none`).
    Disabled,
}

impl View for IpcNamespaceMode {
    type V = IpcNamespaceMode;

    open spec fn view(&self) -> IpcNamespaceMode {
        *self
    }
}

impl SameValue for IpcNamespaceMode {
    fn same_value(&self, other: &Self) -> (r: bool) {
        *self == *other
    }
}

/// The content of namespace intent.
pub struct NamespaceSettingsView {
    pub pid: Option<NamespaceMode>,
    pub ipc: Option<IpcNamespaceMode>,
    pub uts: Option<NamespaceMode>,
    pub cgroup: Option<NamespaceMode>,
}

/// Explicit namespace intent for an unpodded container.
#[derive(Clone, Copy, Debug, Eq, PartialEq, Structural)]
pub struct ContainerNamespaceSettings {
    pid: Option<NamespaceMode>,
    ipc: Option<IpcNamespaceMode>,
    uts: Option<NamespaceMode>,
    cgroup: Option<NamespaceMode>,
}

impl View for ContainerNamespaceSettings {
    type V = NamespaceSettingsView;

    closed spec fn view(&self) -> NamespaceSettingsView {
        NamespaceSettingsView { pid: self.pid, ipc: self.ipc, uts: self.uts, cgroup: self.cgroup }
    }
}

fn set_mode_once(slot: &mut Option<NamespaceMode>, value: NamespaceMode) -> (r: PodmanLensResult<()>)
    ensures
        once_update(*old(slot), value, *final(slot), r),
{
    let r = set_once(slot, value);
    proof {
        assert(opt_view(*slot) == *slot);
        assert(opt_view(*old(slot)) == *old(slot));
    }
    r
}

impl Default for ContainerNamespaceSettings {
    fn default() -> (r: Self)
        ensures
            r@ == (NamespaceSettingsView { pid: None, ipc: None, uts: None, cgroup: None }),
    {
        ContainerNamespaceSettings::new()
    }
}

impl ContainerNamespaceSettings {
    /// Creates namespace intent with nothing declared.
    pub fn new() -> (r: Self)
        ensures
            r@ == (NamespaceSettingsView { pid: None, ipc: None, uts: None, cgroup: None }),
    {
        ContainerNamespaceSettings { pid: None, ipc: None, uts: None, cgroup: None }
    }

    /// Sets PID namespace mode once.
    pub fn set_pid(&mut self, value: NamespaceMode) -> (r: PodmanLensResult<()>)
        ensures
            once_update(old(self)@.pid, value, final(self)@.pid, r),
            final(self)@ == (NamespaceSettingsView { pid: final(self)@.pid, ..old(self)@ }),
    {
        set_mode_once(&mut self.pid, value)
    }

    /// Sets IPC namespace mode once.
    pub fn set_ipc(&mut self, value: IpcNamespaceMode) -> (r: PodmanLensResult<()>)
        ensures
            once_update(old(self)@.ipc, value, final(self)@.ipc, r),
            final(self)@ == (NamespaceSettingsView { ipc: final(self)@.ipc, ..old(self)@ }),
    {
        let r = set_once(&mut self.ipc, value);
        proof {
            assert(opt_view(self.ipc) == self.ipc);
            assert(opt_view(old(self).ipc) == old(self).ipc);
        }
        r
    }

    /// Sets UTS namespace mode once.
    pub fn set_uts(&mut self, value: NamespaceMode) -> (r: PodmanLensResult<()>)
        ensures
            once_update(old(self)@.uts, value, final(self)@.uts, r),
            final(self)@ == (NamespaceSettingsView { uts: final(self)@.uts, ..old(self)@ }),
    {
        set_mode_once(&mut self.uts, value)
    }

    /// Sets cgroup namespace mode once.
    pub fn set_cgroup(&mut self, value: NamespaceMode) -> (r: PodmanLensResult<()>)
        ensures
            once_update(old(self)@.cgroup, value, final(self)@.cgroup, r),
            final(self)@ == (NamespaceSettingsView { cgroup: final(self)@.cgroup, ..old(self)@ }),
    {
        set_mode_once(&mut self.cgroup, value)
    }

    /// Returns PID namespace mode.
    pub fn pid(&self) -> (r: Option<NamespaceMode>)
        ensures
            r == self@.pid,
    {
        self.pid
    }

    /// Returns IPC namespace mode.
    pub fn ipc(&self) -> (r: Option<IpcNamespaceMode>)
        ensures
            r == self@.ipc,
    {
        self.ipc
    }

    /// Returns UTS namespace mode.
    pub fn uts(&self) -> (r: Option<NamespaceMode>)
        ensures
            r == self@.uts,
    {
        self.uts
    }

    /// Returns cgroup namespace mode.
    pub fn cgroup(&self) -> (r: Option<NamespaceMode>)
        ensures
            r == self@.cgroup,
    {
        self.cgroup
    }

    /// Whether no namespace mode is declared.
    pub fn is_empty(&self) -> (r: bool)
        ensures
            r == (self@ == NamespaceSettingsView { pid: None, ipc: None, uts: None, cgroup: None }),
    {
        self.pid.is_none() && self.ipc.is_none() && self.uts.is_none() && self.cgroup.is_none()
    }
}

// ---------------------------------------------------------------------------------------------
// Runtime settings.
// ---------------------------------------------------------------------------------------------
/// The content of container runtime intent.
pub struct RuntimeSettingsView {
    pub health: Option<HealthCheckView>,
    pub startup_health: Option<StartupHealthCheckView>,
    pub logging: LoggingSettingsView,
    pub security: SecuritySettingsView,
    pub resources: ResourceControlsView,
    pub namespaces: NamespaceSettingsView,
}

/// Container-only bounded runtime intent consumed by version-aware renderers.
#[derive(Clone, Eq, PartialEq)]
pub struct ContainerRuntimeSettings {
    health: Option<HealthCheck>,
    startup_health: Option<StartupHealthCheck>,
    logging: LoggingSettings,
    security: SecuritySettings,
    resources: ContainerResourceControls,
    namespaces: ContainerNamespaceSettings,
}

impl View for ContainerRuntimeSettings {
    type V = RuntimeSettingsView;

    closed spec fn view(&self) -> RuntimeSettingsView {
        RuntimeSettingsView {
            health: opt_view(self.health),
            startup_health: opt_view(self.startup_health),
            logging: self.logging@,
            security: self.security@,
            resources: self.resources@,
            namespaces: self.namespaces@,
        }
    }
}

/// Runtime intent with nothing declared.
pub open spec fn empty_runtime() -> RuntimeSettingsView {
    RuntimeSettingsView {
        health: None,
        startup_health: None,
        logging: LoggingSettingsView { driver: None, max_size: None, journald_labels: Seq::empty() },
        security: empty_security(),
        resources: empty_resources(),
        namespaces: NamespaceSettingsView { pid: None, ipc: None, uts: None, cgroup: None },
    }
}

impl Default for ContainerRuntimeSettings {
    fn default() -> (r: Self)
        ensures
            r@ == empty_runtime(),
    {
        ContainerRuntimeSettings::new()
    }
}

impl ContainerRuntimeSettings {
    /// Creates runtime intent with nothing declared.
    pub fn new() -> (r: Self)
        ensures
            r@ == empty_runtime(),
    {
        ContainerRuntimeSettings {
            health: None,
            startup_health: None,
            logging: LoggingSettings::new(),
            security: SecuritySettings::new(),
            resources: ContainerResourceControls::new(),
            namespaces: ContainerNamespaceSettings::new(),
        }
    }

    /// Sets normal health behavior, rejecting duplicate or conflicting assignments.
    pub fn set_health(&mut self, value: HealthCheck) -> (r: PodmanLensResult<()>)
        ensures
            once_update(old(self)@.health, value@, final(self)@.health, r),
            final(self)@ == (RuntimeSettingsView { health: final(self)@.health, ..old(self)@ }),
    {
        set_once(&mut self.health, value)
    }

    /// Sets startup health behavior, rejecting duplicate or conflicting assignments.
    pub fn set_startup_health(&mut self, value: StartupHealthCheck) -> (r: PodmanLensResult<()>)
        ensures
            once_update(old(self)@.startup_health, value@, final(self)@.startup_health, r),
            final(self)@ == (RuntimeSettingsView { startup_health: final(self)@.startup_health, ..old(self)@ }),
    {
        set_once(&mut self.startup_health, value)
    }

    /// Returns normal health behavior.
    pub fn health(&self) -> (r: Option<&HealthCheck>)
        ensures
            opt_view(r) == self@.health,
    {
        match &self.health {
            Some(h) => Some(h),
            None => None,
        }
    }

    /// Returns startup health behavior.
    pub fn startup_health(&self) -> (r: Option<&StartupHealthCheck>)
        ensures
            opt_view(r) == self@.startup_health,
    {
        match &self.startup_health {
            Some(h) => Some(h),
            None => None,
        }
    }

    /// Returns logging settings.
    pub fn logging(&self) -> (r: &LoggingSettings)
        ensures
            r@ == self@.logging,
    {
        &self.logging
    }

    /// Returns mutable logging settings.
    pub fn logging_mut(&mut self) -> (r: &mut LoggingSettings)
        ensures
            r@ == old(self)@.logging,
            final(self)@ == (RuntimeSettingsView { logging: final(r)@, ..old(self)@ }),
    {
        &mut self.logging
    }

    /// Returns security settings.
    pub fn security(&self) -> (r: &SecuritySettings)
        ensures
            r@ == self@.security,
    {
        &self.security
    }

    /// Returns mutable security settings.
    pub fn security_mut(&mut self) -> (r: &mut SecuritySettings)
        ensures
            r@ == old(self)@.security,
            final(self)@ == (RuntimeSettingsView { security: final(r)@, ..old(self)@ }),
    {
        &mut self.security
    }

    /// Returns resource controls.
    pub fn resources(&self) -> (r: &ContainerResourceControls)
        ensures
            r@ == self@.resources,
    {
        &self.resources
    }

    /// Returns mutable resource controls.
    pub fn resources_mut(&mut self) -> (r: &mut ContainerResourceControls)
        ensures
            r@ == old(self)@.resources,
            final(self)@ == (RuntimeSettingsView { resources: final(r)@, ..old(self)@ }),
    {
        &mut self.resources
    }

    /// Returns namespace settings.
    pub fn namespaces(&self) -> (r: &ContainerNamespaceSettings)
        ensures
            r@ == self@.namespaces,
    {
        &self.namespaces
    }

    /// Returns mutable namespace settings.
    pub fn namespaces_mut(&mut self) -> (r: &mut ContainerNamespaceSettings)
        ensures
            r@ == old(self)@.namespaces,
            final(self)@ == (RuntimeSettingsView { namespaces: final(r)@, ..old(self)@ }),
    {
        &mut self.namespaces
    }
}

} // verus!
