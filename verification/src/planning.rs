//! Semantic operations, plans, findings, and the deterministic deployment planner.

use vstd::prelude::*;

use crate::deployment::{
    declared_identity, id_views, DeploymentConnectionReference, DeploymentIntent, DeploymentResource,
    DeploymentResourceId, DeploymentResourceView, ExternalPrecondition, ImagePullPolicy, ResourceIdView,
};
use crate::diagnostic::{diagnostic_message, Diagnostic, DiagnosticCode};
use crate::inventory::{kind_rank, ResourceKind};
use crate::once::{opt_view, views, SameValue};
use crate::order::{keys_sorted, distinct, lex_lt, Keyed};
use crate::version::{TargetProfile, TargetProfileView};

verus! {

// ---------------------------------------------------------------------------------------------
// Keys of identities.
// ---------------------------------------------------------------------------------------------
/// The key of a text: its characters, then a terminator below every character.
pub open spec fn text_key(s: Seq<char>) -> Seq<i64> {
    s.map_values(|c: char| (c as u32) as i64).push(-1i64)
}

/// The key of an identity: the canonical rank of its kind, then its name.
pub open spec fn id_key(id: ResourceIdView) -> Seq<i64> {
    seq![kind_rank(id.kind) as i64] + text_key(id.name)
}

pub(crate) fn text_key_exec(s: &str) -> (r: Vec<i64>)
    ensures
        r@ == text_key(s@),
{
    let chars = crate::text::to_chars(s);
    let mut out: Vec<i64> = Vec::new();
    let mut i: usize = 0;
    while i < chars.len()
        invariant
            i <= chars.len(),
            out@ == chars@.take(i as int).map_values(|c: char| (c as u32) as i64),
        decreases chars.len() - i,
    {
        out.push((chars[i] as u32) as i64);
        assert(chars@.take(i + 1).map_values(|c: char| (c as u32) as i64) =~= chars@.take(
            i as int,
        ).map_values(|c: char| (c as u32) as i64).push((chars@[i as int] as u32) as i64));
        i = i + 1;
    }
    assert(chars@.take(chars.len() as int) =~= chars@);
    out.push(-1);
    out
}

/// Appends `b` to `a`.
pub(crate) fn append_key(a: &mut Vec<i64>, b: &Vec<i64>)
    ensures
        final(a)@ == old(a)@ + b@,
{
    let mut i: usize = 0;
    while i < b.len()
        invariant
            i <= b.len(),
            a@ == old(a)@ + b@.take(i as int),
        decreases b.len() - i,
    {
        a.push(b[i]);
        assert(b@.take(i + 1) =~= b@.take(i as int).push(b@[i as int]));
        i = i + 1;
    }
    assert(b@.take(b.len() as int) =~= b@);
}

pub(crate) fn id_key_exec(id: &DeploymentResourceId) -> (r: Vec<i64>)
    ensures
        r@ == id_key(id@),
{
    let mut out: Vec<i64> = Vec::new();
    out.push(id.kind().canonical_rank() as i64);
    let name = text_key_exec(id.name());
    append_key(&mut out, &name);
    out
}

impl Keyed for DeploymentResourceId {
    open spec fn key_of(v: ResourceIdView) -> Seq<i64> {
        id_key(v)
    }

    fn key(&self) -> (r: Vec<i64>) {
        id_key_exec(self)
    }
}

impl SameValue for ExternalPrecondition {
    fn same_value(&self, other: &Self) -> (r: bool) {
        self.identity().same_id(other.identity())
    }
}

impl Keyed for ExternalPrecondition {
    open spec fn key_of(v: ResourceIdView) -> Seq<i64> {
        id_key(v)
    }

    fn key(&self) -> (r: Vec<i64>) {
        id_key_exec(self.identity())
    }
}

// ---------------------------------------------------------------------------------------------
// Operations.
// ---------------------------------------------------------------------------------------------
/// The semantic phase of one deployment operation.
#[derive(Clone, Copy, Debug, Eq, Ord, PartialEq, PartialOrd, Structural)]
#[non_exhaustive]
pub enum SemanticOperationAction {
    /// Ensure an explicitly named image is available.
    EnsureImage,
    /// Create one native resource.
    Create,
    /// Start one managed Podman pod after all its member containers are created.
    StartPod,
    /// Start one managed container that does not belong to a pod.
    StartContainer,
}

/// The position of an action in the declared action order.
pub open spec fn action_rank(a: SemanticOperationAction) -> i64 {
    match a {
        SemanticOperationAction::EnsureImage => 0,
        SemanticOperationAction::Create => 1,
        SemanticOperationAction::StartPod => 2,
        SemanticOperationAction::StartContainer => 3,
    }
}

/// The content of an operation identity.
pub struct OperationIdView {
    pub action: SemanticOperationAction,
    pub resource: ResourceIdView,
}

/// The key of an operation identity: its action, then its resource.
pub open spec fn op_key(o: OperationIdView) -> Seq<i64> {
    seq![action_rank(o.action)] + id_key(o.resource)
}

/// The rank by which ready operations are scheduled: networks, volumes, secrets, images, pods,
/// containers, then start operations.
pub open spec fn schedule_rank(o: OperationIdView) -> i64 {
    match (o.action, o.resource.kind) {
        (SemanticOperationAction::Create, ResourceKind::Network) => 0,
        (SemanticOperationAction::Create, ResourceKind::Volume) => 1,
        (SemanticOperationAction::Create, ResourceKind::Secret) => 2,
        (SemanticOperationAction::EnsureImage, ResourceKind::Image) => 3,
        (SemanticOperationAction::Create, ResourceKind::Pod) => 4,
        (SemanticOperationAction::Create, ResourceKind::Container) => 5,
        (SemanticOperationAction::StartPod, _) => 6,
        (SemanticOperationAction::StartContainer, _) => 6,
        _ => 7,
    }
}

/// The scheduling key: the schedule rank, then the resource.
pub open spec fn schedule_key(o: OperationIdView) -> Seq<i64> {
    seq![schedule_rank(o)] + id_key(o.resource)
}

/// Stable typed identity for one semantic operation.
#[derive(Clone, Debug, Eq, Ord, PartialEq, PartialOrd)]
pub struct DeploymentOperationId {
    action: SemanticOperationAction,
    resource: DeploymentResourceId,
}

impl View for DeploymentOperationId {
    type V = OperationIdView;

    closed spec fn view(&self) -> OperationIdView {
        OperationIdView { action: self.action, resource: self.resource@ }
    }
}

impl SameValue for DeploymentOperationId {
    fn same_value(&self, other: &Self) -> (r: bool) {
        self.action == other.action && self.resource.same_id(&other.resource)
    }
}

impl Keyed for DeploymentOperationId {
    open spec fn key_of(v: OperationIdView) -> Seq<i64> {
        op_key(v)
    }

    fn key(&self) -> (r: Vec<i64>) {
        let mut out: Vec<i64> = Vec::new();
        let rank: i64 = match self.action {
            SemanticOperationAction::EnsureImage => 0,
            SemanticOperationAction::Create => 1,
            SemanticOperationAction::StartPod => 2,
            SemanticOperationAction::StartContainer => 3,
        };
        out.push(rank);
        let id = id_key_exec(&self.resource);
        append_key(&mut out, &id);
        out
    }
}

impl crate::once::Duplicate for DeploymentOperationId {
    fn duplicate_value(&self) -> (r: Self) {
        self.duplicate()
    }
}

impl DeploymentOperationId {
    pub(crate) fn new(action: SemanticOperationAction, resource: DeploymentResourceId) -> (r: Self)
        ensures
            r@ == (OperationIdView { action, resource: resource@ }),
    {
        DeploymentOperationId { action, resource }
    }

    /// Returns the semantic operation phase.
    pub fn action(&self) -> (r: SemanticOperationAction)
        ensures
            r == self@.action,
    {
        self.action
    }

    /// Returns the resource operated on.
    pub fn resource(&self) -> (r: &DeploymentResourceId)
        ensures
            r@ == self@.resource,
    {
        &self.resource
    }

    /// A copy with the same content.
    pub fn duplicate(&self) -> (r: Self)
        ensures
            r@ == self@,
    {
        DeploymentOperationId { action: self.action, resource: self.resource.duplicate() }
    }

    pub(crate) fn schedule_key(&self) -> (r: Vec<i64>)
        ensures
            r@ == schedule_key(self@),
    {
        let rank: i64 = match (self.action, self.resource.kind()) {
            (SemanticOperationAction::Create, ResourceKind::Network) => 0,
            (SemanticOperationAction::Create, ResourceKind::Volume) => 1,
            (SemanticOperationAction::Create, ResourceKind::Secret) => 2,
            (SemanticOperationAction::EnsureImage, ResourceKind::Image) => 3,
            (SemanticOperationAction::Create, ResourceKind::Pod) => 4,
            (SemanticOperationAction::Create, ResourceKind::Container) => 5,
            (SemanticOperationAction::StartPod, _) => 6,
            (SemanticOperationAction::StartContainer, _) => 6,
            _ => 7,
        };
        let mut out: Vec<i64> = Vec::new();
        out.push(rank);
        let id = id_key_exec(&self.resource);
        append_key(&mut out, &id);
        out
    }
}

/// The contents of a sequence of operation identities.
pub open spec fn op_views(s: Seq<DeploymentOperationId>) -> Seq<OperationIdView> {
    s.map_values(|o: DeploymentOperationId| o@)
}

/// The content of one operation.
pub struct DeploymentOperationView {
    pub id: OperationIdView,
    pub resource_intent: DeploymentResourceView,
    pub depends_on: Seq<OperationIdView>,
    pub image_pull_policy: Option<ImagePullPolicy>,
}

/// One ordered, transport-neutral deployment operation.
#[derive(Clone, Eq, PartialEq)]
pub struct DeploymentOperation {
    id: DeploymentOperationId,
    resource_intent: DeploymentResource,
    depends_on: Vec<DeploymentOperationId>,
    image_pull_policy: Option<ImagePullPolicy>,
}

impl View for DeploymentOperation {
    type V = DeploymentOperationView;

    closed spec fn view(&self) -> DeploymentOperationView {
        DeploymentOperationView {
            id: self.id@,
            resource_intent: self.resource_intent@,
            depends_on: op_views(self.depends_on@),
            image_pull_policy: self.image_pull_policy,
        }
    }
}

impl DeploymentOperation {
    pub(crate) fn new(
        id: DeploymentOperationId,
        resource_intent: DeploymentResource,
        depends_on: Vec<DeploymentOperationId>,
        image_pull_policy: Option<ImagePullPolicy>,
    ) -> (r: Self)
        ensures
            r@ == (DeploymentOperationView {
                id: id@,
                resource_intent: resource_intent@,
                depends_on: op_views(depends_on@),
                image_pull_policy,
            }),
    {
        DeploymentOperation { id, resource_intent, depends_on, image_pull_policy }
    }

    /// A copy with the same content.
    pub fn duplicate(&self) -> (r: Self)
        ensures
            r@ == self@,
    {
        let deps = crate::once::duplicate_vec(&self.depends_on);
        proof {
            assert(op_views(deps@) =~= op_views(self.depends_on@)) by {
                assert forall|k: int| 0 <= k < deps@.len() implies op_views(deps@)[k] == op_views(self.depends_on@)[k] by {
                    assert(views(deps@)[k] == views(self.depends_on@)[k]);
                }
            }
        }
        DeploymentOperation::new(
            self.id.duplicate(),
            crate::once::Duplicate::duplicate_value(&self.resource_intent),
            deps,
            self.image_pull_policy,
        )
    }

    /// Returns the stable semantic operation identity.
    pub fn id(&self) -> (r: &DeploymentOperationId)
        ensures
            r@ == self@.id,
    {
        &self.id
    }

    /// Returns the complete typed intent rendered by this operation.
    pub fn resource_intent(&self) -> (r: &DeploymentResource)
        ensures
            r@ == self@.resource_intent,
    {
        &self.resource_intent
    }

    /// Returns prerequisite operations in deterministic order.
    pub fn depends_on(&self) -> (r: &[DeploymentOperationId])
        ensures
            op_views(r@) == self@.depends_on,
    {
        self.depends_on.as_slice()
    }

    /// Returns the explicit policy for image-acquisition operations.
    pub fn image_pull_policy(&self) -> (r: Option<ImagePullPolicy>)
        ensures
            r == self@.image_pull_policy,
    {
        self.image_pull_policy
    }
}

/// The contents of a sequence of operations.
pub open spec fn operation_views(s: Seq<DeploymentOperation>) -> Seq<DeploymentOperationView> {
    s.map_values(|o: DeploymentOperation| o@)
}

/// The content of a plan.
pub struct DeploymentPlanView {
    pub target: TargetProfileView,
    pub connection: Option<Seq<char>>,
    pub external_preconditions: Seq<ResourceIdView>,
    pub operations: Seq<DeploymentOperationView>,
}

/// A complete, validated, sequentially executable semantic deployment plan.
#[derive(Clone, Eq, PartialEq)]
pub struct DeploymentPlan {
    target: TargetProfile,
    connection: Option<DeploymentConnectionReference>,
    external_preconditions: Vec<ExternalPrecondition>,
    operations: Vec<DeploymentOperation>,
}

impl View for DeploymentPlan {
    type V = DeploymentPlanView;

    closed spec fn view(&self) -> DeploymentPlanView {
        DeploymentPlanView {
            target: self.target@,
            connection: opt_view(self.connection),
            external_preconditions: views(self.external_preconditions@),
            operations: operation_views(self.operations@),
        }
    }
}

impl DeploymentPlan {
    pub(crate) fn new(
        target: TargetProfile,
        connection: Option<DeploymentConnectionReference>,
        external_preconditions: Vec<ExternalPrecondition>,
        operations: Vec<DeploymentOperation>,
    ) -> (r: Self)
        ensures
            r@ == (DeploymentPlanView {
                target: target@,
                connection: opt_view(connection),
                external_preconditions: views(external_preconditions@),
                operations: operation_views(operations@),
            }),
    {
        DeploymentPlan { target, connection, external_preconditions, operations }
    }

    /// Returns the explicit reviewed target profile.
    pub fn target(&self) -> (r: &TargetProfile)
        ensures
            r@ == self@.target,
    {
        &self.target
    }

    /// Returns the optional non-sensitive output connection reference.
    pub fn connection(&self) -> (r: Option<&DeploymentConnectionReference>)
        ensures
            opt_view(r) == self@.connection,
    {
        match &self.connection {
            Some(c) => Some(c),
            None => None,
        }
    }

    /// Returns explicit resource prerequisites intentionally managed outside this plan, ordered
    /// by identity.
    pub fn external_preconditions(&self) -> (r: &[ExternalPrecondition])
        ensures
            views(r@) == self@.external_preconditions,
    {
        self.external_preconditions.as_slice()
    }

    /// Returns operations in authoritative sequential execution order.
    pub fn operations(&self) -> (r: &[DeploymentOperation])
        ensures
            operation_views(r@) == self@.operations,
    {
        self.operations.as_slice()
    }
}

// ---------------------------------------------------------------------------------------------
// Findings.
// ---------------------------------------------------------------------------------------------
/// The content of a planning finding.
pub struct PlanningFindingView {
    pub code: DiagnosticCode,
    pub subject: Option<ResourceIdView>,
    pub related: Seq<ResourceIdView>,
    pub field: Option<Seq<char>>,
    pub occurrence: Option<usize>,
    pub count: Option<usize>,
}

/// The position of a code in the rule-code order.
pub open spec fn code_number(code: DiagnosticCode) -> i64 {
    match code {
        DiagnosticCode::DeploymentDuplicateResource => 35,
        DiagnosticCode::DeploymentConflictingResource => 36,
        DiagnosticCode::DeploymentUnresolvedPrerequisite => 37,
        DiagnosticCode::DeploymentUnsupportedCombination => 38,
        DiagnosticCode::DeploymentCycle => 39,
        DiagnosticCode::SensitivePayloadEmbedded => 40,
        DiagnosticCode::InvalidImageReference => 41,
        DiagnosticCode::DeploymentPodMembership => 43,
        DiagnosticCode::SamePodStartupDependency => 44,
        _ => 0,
    }
}

/// The key of an optional text.
pub open spec fn opt_text_key(s: Option<Seq<char>>) -> Seq<i64> {
    match s {
        None => seq![0],
        Some(t) => seq![1] + text_key(t),
    }
}

/// The key of an optional identity.
pub open spec fn opt_id_key(s: Option<ResourceIdView>) -> Seq<i64> {
    match s {
        None => seq![0],
        Some(id) => seq![1] + id_key(id),
    }
}

/// The key of a sequence of identities: each behind a `1`, closed by a `0`.
pub open spec fn ids_key(s: Seq<ResourceIdView>) -> Seq<i64>
    decreases s.len(),
{
    if s.len() == 0 {
        seq![0]
    } else {
        seq![1] + id_key(s[0]) + ids_key(s.drop_first())
    }
}

/// The key of an optional count.
pub open spec fn opt_count_key(n: Option<usize>) -> Seq<i64> {
    match n {
        None => seq![0],
        Some(v) => seq![1, v as i64],
    }
}

/// The key of a finding: code, subject, related identities, field, occurrence, then count.
pub open spec fn finding_key(f: PlanningFindingView) -> Seq<i64> {
    seq![code_number(f.code)] + opt_id_key(f.subject) + ids_key(f.related) + opt_text_key(f.field)
        + opt_count_key(f.occurrence) + opt_count_key(f.count)
}

/// One redacted, structured reason why deployment planning did not produce a plan.
#[derive(Clone, Debug, Eq, PartialEq)]
pub struct PlanningFinding {
    code: DiagnosticCode,
    subject: Option<DeploymentResourceId>,
    related: Vec<DeploymentResourceId>,
    field: Option<&'static str>,
    occurrence: Option<usize>,
    count: Option<usize>,
}

impl View for PlanningFinding {
    type V = PlanningFindingView;

    closed spec fn view(&self) -> PlanningFindingView {
        PlanningFindingView {
            code: self.code,
            subject: opt_view(self.subject),
            related: id_views(self.related@),
            field: match self.field {
                Some(f) => Some(f@),
                None => None,
            },
            occurrence: self.occurrence,
            count: self.count,
        }
    }
}

/// A finding with its parts.
pub open spec fn finding(
    code: DiagnosticCode,
    subject: Option<ResourceIdView>,
    related: Seq<ResourceIdView>,
    field: Option<Seq<char>>,
    occurrence: Option<usize>,
    count: Option<usize>,
) -> PlanningFindingView {
    PlanningFindingView { code, subject, related, field, occurrence, count }
}

fn opt_key_exec(n: Option<usize>, out: &mut Vec<i64>)
    ensures
        final(out)@ == old(out)@ + opt_count_key(n),
{
    match n {
        None => {
            out.push(0);
        },
        Some(v) => {
            out.push(1);
            out.push(v as i64);
        },
    }
    assert(out@ =~= old(out)@ + opt_count_key(n));
}

fn ids_key_exec(ids: &Vec<DeploymentResourceId>, out: &mut Vec<i64>)
    ensures
        final(out)@ == old(out)@ + ids_key(id_views(ids@)),
{
    let ghost all = id_views(ids@);
    assert(all.skip(0) =~= all);
    let mut i: usize = 0;
    while i < ids.len()
        invariant
            i <= ids.len(),
            all == id_views(ids@),
            old(out)@ + ids_key(all) == out@ + ids_key(all.skip(i as int)),
        decreases ids.len() - i,
    {
        let k = id_key_exec(&ids[i]);
        assert(all.skip(i as int)[0] == ids@[i as int]@);
        assert(all.skip(i as int).drop_first() =~= all.skip(i + 1));
        out.push(1);
        append_key(out, &k);
        assert(out@ + ids_key(all.skip(i + 1)) =~= old(out)@ + ids_key(all));
        i = i + 1;
    }
    assert(all.skip(ids.len() as int) =~= Seq::<ResourceIdView>::empty());
    out.push(0);
    assert(out@ =~= old(out)@ + ids_key(all));
}

fn code_number_exec(code: DiagnosticCode) -> (r: i64)
    ensures
        r == code_number(code),
{
    match code {
        DiagnosticCode::DeploymentDuplicateResource => 35,
        DiagnosticCode::DeploymentConflictingResource => 36,
        DiagnosticCode::DeploymentUnresolvedPrerequisite => 37,
        DiagnosticCode::DeploymentUnsupportedCombination => 38,
        DiagnosticCode::DeploymentCycle => 39,
        DiagnosticCode::SensitivePayloadEmbedded => 40,
        DiagnosticCode::InvalidImageReference => 41,
        DiagnosticCode::DeploymentPodMembership => 43,
        DiagnosticCode::SamePodStartupDependency => 44,
        _ => 0,
    }
}

impl SameValue for PlanningFinding {
    fn same_value(&self, other: &Self) -> (r: bool) {
        let related = crate::once::same_vec(&self.related, &other.related);
        proof {
            assert(id_views(self.related@) == views(self.related@));
            assert(id_views(other.related@) == views(other.related@));
        }
        let field = match (self.field, other.field) {
            (Some(a), Some(b)) => crate::text::str_eq(a, b),
            (None, None) => true,
            _ => false,
        };
        self.code == other.code && crate::once::same_option(&self.subject, &other.subject) && related
            && field && self.occurrence == other.occurrence && self.count == other.count
    }
}

impl Keyed for PlanningFinding {
    open spec fn key_of(v: PlanningFindingView) -> Seq<i64> {
        finding_key(v)
    }

    fn key(&self) -> (r: Vec<i64>) {
        let mut out: Vec<i64> = Vec::new();
        out.push(code_number_exec(self.code));
        match &self.subject {
            None => {
                out.push(0);
            },
            Some(id) => {
                out.push(1);
                let k = id_key_exec(id);
                append_key(&mut out, &k);
            },
        }
        let ghost a = out@;
        ids_key_exec(&self.related, &mut out);
        match self.field {
            None => {
                out.push(0);
            },
            Some(f) => {
                out.push(1);
                let k = text_key_exec(f);
                append_key(&mut out, &k);
            },
        }
        opt_key_exec(self.occurrence, &mut out);
        opt_key_exec(self.count, &mut out);
        assert(out@ =~= finding_key(self@));
        out
    }
}

impl PlanningFinding {
    pub(crate) fn detailed(
        code: DiagnosticCode,
        subject: Option<DeploymentResourceId>,
        related: Vec<DeploymentResourceId>,
        field: Option<&'static str>,
        occurrence: Option<usize>,
        count: Option<usize>,
    ) -> (r: Self)
        ensures
            r@ == finding(
                code,
                opt_view(subject),
                id_views(related@),
                match field {
                    Some(f) => Some(f@),
                    None => None,
                },
                occurrence,
                count,
            ),
    {
        PlanningFinding { code, subject, related, field, occurrence, count }
    }

    /// Returns the stable diagnostic code.
    pub fn code(&self) -> (r: DiagnosticCode)
        ensures
            r == self@.code,
    {
        self.code
    }

    /// Returns the redacted human-facing explanation associated with the code.
    pub fn message(&self) -> (r: &'static str)
        ensures
            r@ == diagnostic_message(self@.code),
    {
        self.code.message()
    }

    /// Returns the affected target resource, when one exact resource caused the finding.
    pub fn subject(&self) -> (r: Option<&DeploymentResourceId>)
        ensures
            opt_view(r) == self@.subject,
    {
        match &self.subject {
            Some(s) => Some(s),
            None => None,
        }
    }

    /// Returns exact safe resource identities related to this finding.
    pub fn related(&self) -> (r: &[DeploymentResourceId])
        ensures
            id_views(r@) == self@.related,
    {
        self.related.as_slice()
    }

    /// Returns the stable intent field that caused the finding, when applicable.
    pub fn field(&self) -> (r: Option<&'static str>)
        ensures
            match r {
                Some(f) => self@.field == Some(f@),
                None => self@.field is None,
            },
    {
        self.field
    }

    /// Returns the one-based position of a duplicate prerequisite or startup edge.
    pub fn occurrence(&self) -> (r: Option<usize>)
        ensures
            r == self@.occurrence,
    {
        self.occurrence
    }

    /// Returns the number of equivalent conflicting or duplicate declarations, when grouped.
    pub fn count(&self) -> (r: Option<usize>)
        ensures
            r == self@.count,
    {
        self.count
    }
}

/// The contents of a sequence of findings.
pub open spec fn finding_views(s: Seq<PlanningFinding>) -> Seq<PlanningFindingView> {
    s.map_values(|f: PlanningFinding| f@)
}

/// The content of a planning outcome.
pub struct PlanningOutcomeView {
    pub plan: Option<DeploymentPlanView>,
    pub findings: Seq<PlanningFindingView>,
}

/// The complete structured outcome of semantic deployment planning.
#[derive(Clone, Eq, PartialEq)]
pub struct PlanningOutcome {
    plan: Option<DeploymentPlan>,
    findings: Vec<PlanningFinding>,
}

impl View for PlanningOutcome {
    type V = PlanningOutcomeView;

    closed spec fn view(&self) -> PlanningOutcomeView {
        PlanningOutcomeView { plan: opt_view(self.plan), findings: finding_views(self.findings@) }
    }
}

impl PlanningOutcome {
    pub(crate) fn new(plan: Option<DeploymentPlan>, findings: Vec<PlanningFinding>) -> (r: Self)
        ensures
            r@ == (PlanningOutcomeView { plan: opt_view(plan), findings: finding_views(findings@) }),
    {
        PlanningOutcome { plan, findings }
    }

    /// Returns the semantic plan when no error findings were produced.
    pub fn plan(&self) -> (r: Option<&DeploymentPlan>)
        ensures
            opt_view(r) == self@.plan,
    {
        match &self.plan {
            Some(p) => Some(p),
            None => None,
        }
    }

    /// Returns all findings, ordered by code, subject, related identities, and field.
    pub fn findings(&self) -> (r: &[PlanningFinding])
        ensures
            finding_views(r@) == self@.findings,
    {
        self.findings.as_slice()
    }

    /// Returns whether planning produced an executable semantic plan.
    pub fn is_success(&self) -> (r: bool)
        ensures
            r == self@.plan is Some,
    {
        self.plan.is_some()
    }
}

} // verus!
