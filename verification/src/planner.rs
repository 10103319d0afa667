//! The deterministic deployment planner: indexing, validation, and ordering of intent.
//!
//! Planning runs in stages. Declarations are indexed by identity; every accepted declaration is
//! validated against the others; startup edges are lifted to start operations and checked for
//! duplicates and cycles. Only when no stage found anything is the operation graph built and
//! ordered, each step taking the ready operation with the smallest scheduling key.

use vstd::prelude::*;

use crate::deployment::{DeploymentIntent, DeploymentIntentView, ExternalPrecondition, ImagePullPolicy, StartupDependency, StartupDependencyView, declared_identity, DeploymentResource, DeploymentResourceId, DeploymentResourceView, ResourceIdView};
use crate::inventory::{kind_rank, ResourceKind};
use crate::settings::{NamedVolumeMount, NamedVolumeMountView};
use crate::deployment::{id_views, mount_views, portable_pull_reference, is_portable_pull_reference, ContainerIntent, ContainerIntentView, PodIntent, PodIntentView};
use crate::diagnostic::DiagnosticCode;
use crate::once::{duplicate_vec, opt_view, views, Duplicate, SameValue};
use crate::order::{distinct, keys_sorted};
use crate::planning::{DeploymentPlan, DeploymentPlanView, PlanningOutcome, operation_views, op_views, DeploymentOperation, DeploymentOperationView, SemanticOperationAction, action_rank, finding, finding_views, id_key, op_key, schedule_key, text_key, DeploymentOperationId, OperationIdView, PlanningFinding, PlanningFindingView};
use crate::order::lex_lt;
use crate::order::lex_less;

verus! {

// ---------------------------------------------------------------------------------------------
// Indexing declarations by identity.
// ---------------------------------------------------------------------------------------------
/// The number of declarations of `id`.
pub open spec fn declaration_count(rs: Seq<DeploymentResourceView>, id: ResourceIdView) -> nat
    decreases rs.len(),
{
    if rs.len() == 0 {
        0
    } else {
        declaration_count(rs.drop_last(), id) + if declared_identity(rs.last()) == id {
            1nat
        } else {
            0nat
        }
    }
}

/// Some declaration among the first `n` declares `id`.
pub open spec fn declared_before(rs: Seq<DeploymentResourceView>, id: ResourceIdView, n: int) -> bool {
    exists|k: int| 0 <= k < n && #[trigger] declared_identity(rs[k]) == id
}

/// A declaration of `id`.
pub open spec fn entry(rs: Seq<DeploymentResourceView>, id: ResourceIdView) -> DeploymentResourceView {
    rs[choose|k: int| 0 <= k < rs.len() && #[trigger] declared_identity(rs[k]) == id]
}

/// `id` is declared, and every declaration of it is the same declaration.
pub open spec fn accepted(rs: Seq<DeploymentResourceView>, id: ResourceIdView) -> bool {
    declared_before(rs, id, rs.len() as int) && forall|k: int|
        0 <= k < rs.len() && #[trigger] declared_identity(rs[k]) == id ==> rs[k] == entry(rs, id)
}

/// The accepted declaration of `id`, if any.
pub open spec fn lookup(rs: Seq<DeploymentResourceView>, id: ResourceIdView) -> Option<DeploymentResourceView> {
    if accepted(rs, id) {
        Some(entry(rs, id))
    } else {
        None
    }
}

/// The finding for an identity declared more than once: a duplicate when all declarations are
/// the same, a conflict otherwise; both carry the number of declarations.
pub open spec fn index_finding(rs: Seq<DeploymentResourceView>, id: ResourceIdView) -> PlanningFindingView {
    finding(
        if accepted(rs, id) {
            DiagnosticCode::DeploymentDuplicateResource
        } else {
            DiagnosticCode::DeploymentConflictingResource
        },
        Some(id),
        Seq::empty(),
        Some("resources"@),
        None,
        Some(declaration_count(rs, id) as usize),
    )
}

/// `f` is the index finding of an identity declared more than once.
pub open spec fn is_index_finding(rs: Seq<DeploymentResourceView>, f: PlanningFindingView) -> bool {
    exists|id: ResourceIdView| declaration_count(rs, id) > 1 && f == #[trigger] index_finding(rs, id)
}

proof fn lemma_count_declared(rs: Seq<DeploymentResourceView>, id: ResourceIdView)
    ensures
        declaration_count(rs, id) <= rs.len(),
        declaration_count(rs, id) > 0 ==> declared_before(rs, id, rs.len() as int),
    decreases rs.len(),
{
    if rs.len() > 0 {
        lemma_count_declared(rs.drop_last(), id);
        if declaration_count(rs.drop_last(), id) > 0 {
            let k = choose|k: int| 0 <= k < rs.len() - 1 && #[trigger] declared_identity(rs.drop_last()[k]) == id;
            assert(declared_identity(rs[k]) == id);
        }
        if declared_identity(rs.last()) == id {
            assert(declared_identity(rs[rs.len() - 1]) == id);
        }
    }
}

/// The first declaration of each identity decides acceptance: the identity is accepted exactly
/// when every declaration of it equals this one.
proof fn lemma_accepted_by_first(rs: Seq<DeploymentResourceView>, k: int)
    requires
        0 <= k < rs.len(),
    ensures
        accepted(rs, declared_identity(rs[k])) <==> forall|j: int|
            0 <= j < rs.len() && #[trigger] declared_identity(rs[j]) == declared_identity(rs[k]) ==> rs[j] == rs[k],
{
    let id = declared_identity(rs[k]);
    assert(declared_before(rs, id, rs.len() as int));
    let c = choose|c: int| 0 <= c < rs.len() && #[trigger] declared_identity(rs[c]) == id;
    assert(entry(rs, id) == rs[c]);
}

/// Whether no declaration before position `k` declares the identity declared at `k`.
fn is_first_declaration(resources: &[DeploymentResource], k: usize) -> (r: bool)
    requires
        k < resources.len(),
    ensures
        r == !declared_before(views(resources@), declared_identity(views(resources@)[k as int]), k as int),
{
    let ghost rs = views(resources@);
    let id = resources[k].identity();
    assert(rs[k as int] == resources@[k as int]@);
    let mut j: usize = 0;
    while j < k
        invariant
            j <= k < resources.len(),
            rs == views(resources@),
            id@ == declared_identity(rs[k as int]),
            forall|i: int| 0 <= i < j ==> declared_identity(#[trigger] rs[i]) != id@,
        decreases k - j,
    {
        assert(rs[j as int] == resources@[j as int]@);
        if resources[j].identity().same_id(id) {
            assert(declared_identity(rs[j as int]) == id@);
            return false;
        }
        j = j + 1;
    }
    proof {
        if declared_before(rs, id@, k as int) {
            let i = choose|i: int| 0 <= i < k && #[trigger] declared_identity(rs[i]) == id@;
            assert(false);
        }
    }
    true
}

/// The number of declarations of the identity declared at `k`, and whether that identity is
/// accepted.
fn declaration_summary(resources: &[DeploymentResource], k: usize) -> (r: (usize, bool))
    requires
        k < resources.len(),
    ensures
        r.0 == declaration_count(views(resources@), declared_identity(views(resources@)[k as int])),
        r.1 == accepted(views(resources@), declared_identity(views(resources@)[k as int])),
{
    let ghost rs = views(resources@);
    let n = resources.len();
    let id = resources[k].identity();
    assert(rs[k as int] == resources@[k as int]@);
    let mut count: usize = 0;
    let mut same = true;
    let mut m: usize = 0;
    while m < n
        invariant
            m <= n,
            k < n,
            n == resources.len(),
            rs == views(resources@),
            id@ == declared_identity(rs[k as int]),
            count == declaration_count(rs.take(m as int), id@),
            count <= m,
            same <==> forall|i: int|
                0 <= i < m && #[trigger] declared_identity(rs[i]) == id@ ==> rs[i] == rs[k as int],
        decreases n - m,
    {
        assert(rs[m as int] == resources@[m as int]@);
        assert(rs.take(m + 1).drop_last() =~= rs.take(m as int));
        if resources[m].identity().same_id(id) {
            count = count + 1;
            if !resources[m].same_value(&resources[k]) {
                same = false;
            }
        }
        m = m + 1;
    }
    assert(rs.take(n as int) =~= rs);
    proof {
        lemma_accepted_by_first(rs, k as int);
    }
    (count, same)
}

proof fn lemma_declared_step(rs: Seq<DeploymentResourceView>, k: int, x: ResourceIdView)
    requires
        0 <= k < rs.len(),
    ensures
        declared_before(rs, x, k + 1) <==> (declared_before(rs, x, k) || x == declared_identity(rs[k])),
{
    if declared_before(rs, x, k + 1) && x != declared_identity(rs[k]) {
        let i = choose|i: int| 0 <= i < k + 1 && #[trigger] declared_identity(rs[i]) == x;
        assert(declared_before(rs, x, k));
    }
    if x == declared_identity(rs[k]) {
        assert(declared_identity(rs[k]) == x);
    }
}

proof fn lemma_push_contains<T>(s: Seq<T>, v: T, x: T)
    ensures
        s.push(v).contains(x) <==> (s.contains(x) || x == v),
{
    if s.push(v).contains(x) && x != v {
        let i = choose|i: int| 0 <= i < s.push(v).len() && s.push(v)[i] == x;
        assert(s[i] == x);
    }
    if s.contains(x) {
        let i = choose|i: int| 0 <= i < s.len() && s[i] == x;
        assert(s.push(v)[i] == x);
    }
    if x == v {
        assert(s.push(v)[s.len() as int] == x);
    }
}

#[verifier::spinoff_prover]
fn index_resources(resources: &[DeploymentResource]) -> (out: (Vec<DeploymentResourceId>, Vec<PlanningFinding>))
    ensures
        forall|id: ResourceIdView| views(out.0@).contains(id) <==> accepted(views(resources@), id),
        distinct(views(out.0@)),
        forall|f: PlanningFindingView|
            finding_views(out.1@).contains(f) <==> is_index_finding(views(resources@), f),
{
    let ghost rs = views(resources@);
    let n = resources.len();
    let mut ids: Vec<DeploymentResourceId> = Vec::new();
    let mut findings: Vec<PlanningFinding> = Vec::new();
    let mut k: usize = 0;
    while k < n
        invariant
            k <= n,
            n == resources.len(),
            rs == views(resources@),
            forall|id: ResourceIdView|
                #[trigger] views(ids@).contains(id) <==> (declared_before(rs, id, k as int) && accepted(rs, id)),
            distinct(views(ids@)),
            forall|f: PlanningFindingView|
                finding_views(findings@).contains(f) <==> exists|id: ResourceIdView|
                    declared_before(rs, id, k as int) && declaration_count(rs, id) > 1 && f == #[trigger] index_finding(
                        rs,
                        id,
                    ),
        decreases n - k,
    {
        let id = resources[k].identity();
        assert(rs[k as int] == resources@[k as int]@);
        let first = is_first_declaration(resources, k);
        let ghost before_ids = views(ids@);
        let ghost before_findings = finding_views(findings@);
        let ghost mut added: Option<PlanningFindingView> = None;
        let ghost mut pushed = false;
        if first {
            let (count, same) = declaration_summary(resources, k);
            if same {
                proof {
                    assert(!before_ids.contains(id@));
                    lemma_distinct_push(before_ids, id@);
                }
                ids.push(id.duplicate());
                assert(views(ids@) =~= before_ids.push(id@));
                proof {
                    pushed = true;
                }
            }
            if count > 1 {
                let code = if same {
                    DiagnosticCode::DeploymentDuplicateResource
                } else {
                    DiagnosticCode::DeploymentConflictingResource
                };
                let f = PlanningFinding::detailed(code, Some(id.duplicate()), Vec::new(), Some("resources"), None, Some(count));
                assert(f@ == index_finding(rs, id@)) by {
                    assert(crate::deployment::id_views(Seq::<DeploymentResourceId>::empty()) =~= Seq::<ResourceIdView>::empty());
                }
                findings.push(f);
                assert(finding_views(findings@) =~= before_findings.push(index_finding(rs, id@)));
                proof {
                    added = Some(index_finding(rs, id@));
                }
            }
        }
        proof {
            assert(pushed ==> views(ids@) == before_ids.push(id@));
            assert(!pushed ==> views(ids@) == before_ids);
            assert(pushed <==> first && accepted(rs, id@));
            assert forall|x: ResourceIdView| #[trigger] views(ids@).contains(x) <==> (declared_before(rs, x, k + 1) && accepted(rs, x)) by {
                lemma_declared_step(rs, k as int, x);
                lemma_push_contains(before_ids, id@, x);
                assert(before_ids.contains(x) <==> declared_before(rs, x, k as int) && accepted(rs, x));
                if x == id@ {
                    assert(first == !declared_before(rs, x, k as int));
                }
            }
            assert forall|f: PlanningFindingView| finding_views(findings@).contains(f) <==> exists|x: ResourceIdView|
                declared_before(rs, x, k + 1) && declaration_count(rs, x) > 1 && f == #[trigger] index_finding(rs, x) by {
                lemma_push_contains(before_findings, index_finding(rs, id@), f);
                if finding_views(findings@).contains(f) {
                    if before_findings.contains(f) {
                        let x = choose|x: ResourceIdView|
                            declared_before(rs, x, k as int) && declaration_count(rs, x) > 1 && f == #[trigger] index_finding(rs, x);
                        lemma_declared_step(rs, k as int, x);
                    } else {
                        lemma_declared_step(rs, k as int, id@);
                    }
                }
                if exists|x: ResourceIdView|
                    declared_before(rs, x, k + 1) && declaration_count(rs, x) > 1 && f == #[trigger] index_finding(rs, x) {
                    let x = choose|x: ResourceIdView|
                        declared_before(rs, x, k + 1) && declaration_count(rs, x) > 1 && f == #[trigger] index_finding(rs, x);
                    lemma_declared_step(rs, k as int, x);
                }
            }
        }
        k = k + 1;
    }
    proof {
        assert forall|id: ResourceIdView| declaration_count(rs, id) > 1 implies declared_before(rs, id, n as int) by {
            lemma_count_declared(rs, id);
        }
    }
    (ids, findings)
}

// ---------------------------------------------------------------------------------------------
// Resolving references.
// ---------------------------------------------------------------------------------------------
/// `ids` holds exactly the accepted identities.
pub open spec fn indexes(rs: Seq<DeploymentResourceView>, ids: Seq<ResourceIdView>) -> bool {
    forall|x: ResourceIdView| #[trigger] ids.contains(x) <==> accepted(rs, x)
}

/// The accepted declaration of `id`, when `id` has the expected kind.
pub open spec fn resolved(rs: Seq<DeploymentResourceView>, id: ResourceIdView, kind: ResourceKind) -> Option<
    DeploymentResourceView,
> {
    if id.kind == kind {
        lookup(rs, id)
    } else {
        None
    }
}

proof fn lemma_entry_declares(rs: Seq<DeploymentResourceView>, id: ResourceIdView)
    requires
        declared_before(rs, id, rs.len() as int),
    ensures
        declared_identity(entry(rs, id)) == id,
{
}

/// Returns the accepted declaration of `id`.
fn lookup_exec<'a>(resources: &'a [DeploymentResource], ids: &Vec<DeploymentResourceId>, id: &DeploymentResourceId) -> (r:
    Option<&'a DeploymentResource>)
    requires
        indexes(views(resources@), views(ids@)),
    ensures
        opt_view(r) == lookup(views(resources@), id@),
{
    let ghost rs = views(resources@);
    let mut i: usize = 0;
    let mut found = false;
    while i < ids.len()
        invariant
            i <= ids.len(),
            !found ==> forall|j: int| 0 <= j < i ==> ids@[j]@ != id@,
            found ==> views(ids@).contains(id@),
        ensures
            found <==> views(ids@).contains(id@),
        decreases ids.len() - i,
    {
        if ids[i].same_id(id) {
            found = true;
            assert(views(ids@)[i as int] == id@);
            break;
        }
        i = i + 1;
    }
    proof {
        if !found && views(ids@).contains(id@) {
            let j = choose|j: int| 0 <= j < views(ids@).len() && views(ids@)[j] == id@;
            assert(ids@[j]@ == id@);
        }
    }
    if !found {
        return None;
    }
    assert(accepted(rs, id@));
    let mut k: usize = 0;
    while k < resources.len()
        invariant
            k <= resources.len(),
            rs == views(resources@),
            accepted(rs, id@),
            forall|j: int| 0 <= j < k ==> declared_identity(#[trigger] rs[j]) != id@,
        decreases resources.len() - k,
    {
        assert(rs[k as int] == resources@[k as int]@);
        if resources[k].identity().same_id(id) {
            assert(declared_identity(rs[k as int]) == id@);
            return Some(&resources[k]);
        }
        k = k + 1;
    }
    proof {
        let c = choose|c: int| 0 <= c < rs.len() && #[trigger] declared_identity(rs[c]) == id@;
        assert(declared_identity(rs[c]) != id@);
    }
    None
}

/// Returns the accepted declaration of `id` when `id` has the expected kind.
fn resolve<'a>(resources: &'a [DeploymentResource], ids: &Vec<DeploymentResourceId>, id: &DeploymentResourceId, kind: ResourceKind) -> (r:
    Option<&'a DeploymentResource>)
    requires
        indexes(views(resources@), views(ids@)),
    ensures
        opt_view(r) == resolved(views(resources@), id@, kind),
{
    if id.kind() == kind {
        lookup_exec(resources, ids, id)
    } else {
        None
    }
}

// ---------------------------------------------------------------------------------------------
// Validating accepted declarations.
// ---------------------------------------------------------------------------------------------
/// Position `k` of `s` repeats an earlier position.
pub open spec fn repeats_earlier<T>(s: Seq<T>, k: int) -> bool {
    exists|j: int| 0 <= j < k && s[j] == s[k]
}

/// The finding for a repeated reference at position `k` of a list field.
pub open spec fn repeated_reference(s: Seq<ResourceIdView>, subject: ResourceIdView, field: Seq<char>, k: int) -> PlanningFindingView {
    finding(DiagnosticCode::DeploymentDuplicateResource, Some(subject), seq![s[k]], Some(field), Some((k + 1) as usize), None)
}

/// `f` reports a repeated reference in the list field `field`.
pub open spec fn repeated_reference_finding(s: Seq<ResourceIdView>, subject: ResourceIdView, field: Seq<char>, f: PlanningFindingView) -> bool {
    exists|k: int| 0 <= k < s.len() && repeats_earlier(s, k) && f == #[trigger] repeated_reference(s, subject, field, k)
}

/// Position `k` of `ms` mounts at a destination an earlier mount already uses.
pub open spec fn destination_repeats(ms: Seq<NamedVolumeMountView>, k: int) -> bool {
    exists|j: int| 0 <= j < k && ms[j].destination == ms[k].destination
}

/// The finding for a mount whose destination repeats an earlier mount's.
pub open spec fn repeated_mount(ms: Seq<NamedVolumeMountView>, subject: ResourceIdView, field: Seq<char>, k: int) -> PlanningFindingView {
    finding(
        DiagnosticCode::DeploymentDuplicateResource,
        Some(subject),
        seq![ms[k].source],
        Some(field),
        Some((k + 1) as usize),
        None,
    )
}

/// The finding for a reference that does not resolve.
pub open spec fn unresolved_reference(subject: ResourceIdView, reference: ResourceIdView, field: Seq<char>) -> PlanningFindingView {
    finding(DiagnosticCode::DeploymentUnresolvedPrerequisite, Some(subject), seq![reference], Some(field), None, None)
}

/// `f` reports an unresolved reference of the list `s`.
pub open spec fn unresolved_finding(
    rs: Seq<DeploymentResourceView>,
    s: Seq<ResourceIdView>,
    kind: ResourceKind,
    subject: ResourceIdView,
    field: Seq<char>,
    f: PlanningFindingView,
) -> bool {
    exists|k: int| 0 <= k < s.len() && resolved(rs, s[k], kind) is None && f == unresolved_reference(subject, #[trigger] s[k], field)
}

/// The named volumes of a list of mounts.
pub open spec fn mount_sources(ms: Seq<NamedVolumeMountView>) -> Seq<ResourceIdView> {
    ms.map_values(|m: NamedVolumeMountView| m.source)
}

/// `f` reports a problem with a list of named-volume mounts: a repeated destination or an
/// unresolved volume.
pub open spec fn mount_finding(
    rs: Seq<DeploymentResourceView>,
    ms: Seq<NamedVolumeMountView>,
    subject: ResourceIdView,
    field: Seq<char>,
    f: PlanningFindingView,
) -> bool {
    ||| exists|k: int| 0 <= k < ms.len() && destination_repeats(ms, k) && f == #[trigger] repeated_mount(ms, subject, field, k)
    ||| unresolved_finding(rs, mount_sources(ms), ResourceKind::Volume, subject, field, f)
}

fn push_finding(findings: &mut Vec<PlanningFinding>, f: PlanningFinding)
    ensures
        forall|g: PlanningFindingView|
            #[trigger] finding_views(final(findings)@).contains(g) <==> (finding_views(old(findings)@).contains(g) || g == f@),
{
    let ghost before = finding_views(findings@);
    findings.push(f);
    assert(finding_views(findings@) =~= before.push(f@));
    proof {
        assert forall|g: PlanningFindingView| #[trigger] finding_views(findings@).contains(g) <==> (before.contains(g) || g == f@) by {
            lemma_push_contains(before, f@, g);
        }
    }
}

fn validate_distinct(
    values: &[DeploymentResourceId],
    subject: &DeploymentResourceId,
    field: &'static str,
    findings: &mut Vec<PlanningFinding>,
)
    ensures
        forall|g: PlanningFindingView|
            #[trigger] finding_views(final(findings)@).contains(g) <==> (finding_views(old(findings)@).contains(g)
                || repeated_reference_finding(views(values@), subject@, field@, g)),
{
    let ghost s = views(values@);
    let ghost start = finding_views(findings@);
    let mut k: usize = 0;
    while k < values.len()
        invariant
            k <= values.len(),
            s == views(values@),
            start == finding_views(old(findings)@),
            forall|g: PlanningFindingView|
                #[trigger] finding_views(findings@).contains(g) <==> (start.contains(g) || exists|i: int|
                    0 <= i < k && repeats_earlier(s, i) && g == #[trigger] repeated_reference(s, subject@, field@, i)),
        decreases values.len() - k,
    {
        let mut j: usize = 0;
        let mut repeated = false;
        while j < k
            invariant
                j <= k < values.len(),
                s == views(values@),
                !repeated ==> forall|i: int| 0 <= i < j ==> s[i] != s[k as int],
                repeated ==> repeats_earlier(s, k as int),
            ensures
                repeated <==> repeats_earlier(s, k as int),
            decreases k - j,
        {
            if values[j].same_id(&values[k]) {
                assert(s[j as int] == s[k as int]);
                repeated = true;
                break;
            }
            j = j + 1;
        }
        let ghost before = finding_views(findings@);
        let ghost newf = repeated_reference(s, subject@, field@, k as int);
        if repeated {
            let related = vec![values[k].duplicate()];
            assert(crate::deployment::id_views(related@) =~= seq![s[k as int]]);
            let f = PlanningFinding::detailed(
                DiagnosticCode::DeploymentDuplicateResource,
                Some(subject.duplicate()),
                related,
                Some(field),
                Some(k + 1),
                None,
            );
            push_finding(findings, f);
        }
        assert forall|g: PlanningFindingView| #[trigger] finding_views(findings@).contains(g) <==> (start.contains(g) || exists|i: int|
            0 <= i < k + 1 && repeats_earlier(s, i) && g == #[trigger] repeated_reference(s, subject@, field@, i)) by {
            assert(before.contains(g) <==> (start.contains(g) || exists|i: int|
                0 <= i < k && repeats_earlier(s, i) && g == #[trigger] repeated_reference(s, subject@, field@, i)));
            if finding_views(findings@).contains(g) && !before.contains(g) {
                assert(repeated && g == newf);
            }
            if exists|i: int| 0 <= i < k + 1 && repeats_earlier(s, i) && g == #[trigger] repeated_reference(s, subject@, field@, i) {
                let i = choose|i: int| 0 <= i < k + 1 && repeats_earlier(s, i) && g == #[trigger] repeated_reference(s, subject@, field@, i);
                if i < k {
                    assert(before.contains(g));
                } else {
                    assert(repeated);
                    assert(g == newf);
                }
            }
        }
        k = k + 1;
    }
}

fn require_resolved_all(
    resources: &[DeploymentResource],
    ids: &Vec<DeploymentResourceId>,
    refs: &[DeploymentResourceId],
    kind: ResourceKind,
    subject: &DeploymentResourceId,
    field: &'static str,
    findings: &mut Vec<PlanningFinding>,
)
    requires
        indexes(views(resources@), views(ids@)),
    ensures
        forall|g: PlanningFindingView|
            #[trigger] finding_views(final(findings)@).contains(g) <==> (finding_views(old(findings)@).contains(g)
                || unresolved_finding(views(resources@), views(refs@), kind, subject@, field@, g)),
{
    let ghost rs = views(resources@);
    let ghost s = views(refs@);
    let ghost start = finding_views(findings@);
    let mut k: usize = 0;
    while k < refs.len()
        invariant
            k <= refs.len(),
            s == views(refs@),
            rs == views(resources@),
            indexes(rs, views(ids@)),
            start == finding_views(old(findings)@),
            forall|g: PlanningFindingView|
                #[trigger] finding_views(findings@).contains(g) <==> (start.contains(g) || exists|i: int|
                    0 <= i < k && resolved(rs, s[i], kind) is None && g == unresolved_reference(subject@, #[trigger] s[i], field@)),
        decreases refs.len() - k,
    {
        let ghost before = finding_views(findings@);
        let ghost newf = unresolved_reference(subject@, s[k as int], field@);
        let missing = resolve(resources, ids, &refs[k], kind).is_none();
        if missing {
            let related = vec![refs[k].duplicate()];
            assert(crate::deployment::id_views(related@) =~= seq![s[k as int]]);
            let f = PlanningFinding::detailed(
                DiagnosticCode::DeploymentUnresolvedPrerequisite,
                Some(subject.duplicate()),
                related,
                Some(field),
                None,
                None,
            );
            push_finding(findings, f);
        }
        assert forall|g: PlanningFindingView| #[trigger] finding_views(findings@).contains(g) <==> (start.contains(g) || exists|i: int|
            0 <= i < k + 1 && resolved(rs, s[i], kind) is None && g == unresolved_reference(subject@, #[trigger] s[i], field@)) by {
            assert(before.contains(g) <==> (start.contains(g) || exists|i: int|
                0 <= i < k && resolved(rs, s[i], kind) is None && g == unresolved_reference(subject@, #[trigger] s[i], field@)));
            if finding_views(findings@).contains(g) && !before.contains(g) {
                assert(missing && g == newf);
            }
            if exists|i: int| 0 <= i < k + 1 && resolved(rs, s[i], kind) is None && g == unresolved_reference(subject@, #[trigger] s[i], field@) {
                let i = choose|i: int| 0 <= i < k + 1 && resolved(rs, s[i], kind) is None && g == unresolved_reference(subject@, #[trigger] s[i], field@);
                if i < k {
                    assert(before.contains(g));
                } else {
                    assert(missing);
                }
            }
        }
        k = k + 1;
    }
}

#[verifier::spinoff_prover]
fn validate_mounts(
    resources: &[DeploymentResource],
    ids: &Vec<DeploymentResourceId>,
    mounts: &[NamedVolumeMount],
    subject: &DeploymentResourceId,
    field: &'static str,
    findings: &mut Vec<PlanningFinding>,
)
    requires
        indexes(views(resources@), views(ids@)),
    ensures
        forall|g: PlanningFindingView|
            #[trigger] finding_views(final(findings)@).contains(g) <==> (finding_views(old(findings)@).contains(g)
                || mount_finding(views(resources@), mount_views(mounts@), subject@, field@, g)),
{
    let ghost rs = views(resources@);
    let ghost ms = mount_views(mounts@);
    let ghost start = finding_views(findings@);
    let mut k: usize = 0;
    while k < mounts.len()
        invariant
            k <= mounts.len(),
            ms == mount_views(mounts@),
            rs == views(resources@),
            indexes(rs, views(ids@)),
            start == finding_views(old(findings)@),
            forall|g: PlanningFindingView|
                #[trigger] finding_views(findings@).contains(g) <==> (start.contains(g) || (exists|i: int|
                    0 <= i < k && destination_repeats(ms, i) && g == #[trigger] repeated_mount(ms, subject@, field@, i))
                    || (exists|i: int|
                    0 <= i < k && resolved(rs, mount_sources(ms)[i], ResourceKind::Volume) is None && g
                        == unresolved_reference(subject@, #[trigger] mount_sources(ms)[i], field@))),
        decreases mounts.len() - k,
    {
        let mut j: usize = 0;
        let mut repeated = false;
        let dest = mounts[k].destination().as_str();
        while j < k
            invariant
                j <= k < mounts.len(),
                ms == mount_views(mounts@),
                dest@ == ms[k as int].destination,
                !repeated ==> forall|i: int| 0 <= i < j ==> ms[i].destination != ms[k as int].destination,
                repeated ==> destination_repeats(ms, k as int),
            ensures
                repeated <==> destination_repeats(ms, k as int),
            decreases k - j,
        {
            if crate::text::str_eq(mounts[j].destination().as_str(), dest) {
                assert(ms[j as int].destination == ms[k as int].destination);
                repeated = true;
                break;
            }
            j = j + 1;
        }
        let ghost before = finding_views(findings@);
        let ghost dupf = repeated_mount(ms, subject@, field@, k as int);
        let ghost unresf = unresolved_reference(subject@, mount_sources(ms)[k as int], field@);
        let source = mounts[k].source();
        assert(source@ == mount_sources(ms)[k as int]);
        if repeated {
            let related = vec![source.duplicate()];
            assert(crate::deployment::id_views(related@) =~= seq![ms[k as int].source]);
            let f = PlanningFinding::detailed(
                DiagnosticCode::DeploymentDuplicateResource,
                Some(subject.duplicate()),
                related,
                Some(field),
                Some(k + 1),
                None,
            );
            push_finding(findings, f);
        }
        let middle = Ghost(finding_views(findings@));
        let missing = resolve(resources, ids, source, ResourceKind::Volume).is_none();
        if missing {
            let related = vec![source.duplicate()];
            assert(crate::deployment::id_views(related@) =~= seq![source@]);
            let f = PlanningFinding::detailed(
                DiagnosticCode::DeploymentUnresolvedPrerequisite,
                Some(subject.duplicate()),
                related,
                Some(field),
                None,
                None,
            );
            push_finding(findings, f);
        }
        assert forall|g: PlanningFindingView| #[trigger] finding_views(findings@).contains(g) <==> (start.contains(g) || (exists|i: int|
            0 <= i < k + 1 && destination_repeats(ms, i) && g == #[trigger] repeated_mount(ms, subject@, field@, i)) || (exists|i: int|
            0 <= i < k + 1 && resolved(rs, mount_sources(ms)[i], ResourceKind::Volume) is None && g == unresolved_reference(
                subject@,
                #[trigger] mount_sources(ms)[i],
                field@,
            ))) by {
            assert(before.contains(g) <==> (start.contains(g) || (exists|i: int|
                0 <= i < k && destination_repeats(ms, i) && g == #[trigger] repeated_mount(ms, subject@, field@, i)) || (exists|i: int|
                0 <= i < k && resolved(rs, mount_sources(ms)[i], ResourceKind::Volume) is None && g == unresolved_reference(
                    subject@,
                    #[trigger] mount_sources(ms)[i],
                    field@,
                ))));
            assert(middle@.contains(g) <==> (before.contains(g) || (repeated && g == dupf)));
            assert(finding_views(findings@).contains(g) <==> (middle@.contains(g) || (missing && g == unresf)));
            if exists|i: int| 0 <= i < k + 1 && destination_repeats(ms, i) && g == #[trigger] repeated_mount(ms, subject@, field@, i) {
                let i = choose|i: int| 0 <= i < k + 1 && destination_repeats(ms, i) && g == #[trigger] repeated_mount(ms, subject@, field@, i);
                if i < k {
                    assert(before.contains(g));
                }
            }
            if exists|i: int| 0 <= i < k + 1 && resolved(rs, mount_sources(ms)[i], ResourceKind::Volume) is None && g == unresolved_reference(
                subject@,
                #[trigger] mount_sources(ms)[i],
                field@,
            ) {
                let i = choose|i: int| 0 <= i < k + 1 && resolved(rs, mount_sources(ms)[i], ResourceKind::Volume) is None && g == unresolved_reference(
                    subject@,
                    #[trigger] mount_sources(ms)[i],
                    field@,
                );
                if i < k {
                    assert(before.contains(g));
                }
            }
            if missing && g == unresf {
                assert(resolved(rs, mount_sources(ms)[k as int], ResourceKind::Volume) is None);
            }
        }
        k = k + 1;
    }
    proof {
        assert forall|g: PlanningFindingView| #[trigger] finding_views(findings@).contains(g) implies (start.contains(g) || mount_finding(rs, ms, subject@, field@, g)) by {
        }
        assert forall|g: PlanningFindingView| mount_finding(rs, ms, subject@, field@, g) implies #[trigger] finding_views(findings@).contains(g) by {
            if unresolved_finding(rs, mount_sources(ms), ResourceKind::Volume, subject@, field@, g) {
                let i = choose|i: int| 0 <= i < mount_sources(ms).len() && resolved(rs, mount_sources(ms)[i], ResourceKind::Volume) is None && g == unresolved_reference(subject@, #[trigger] mount_sources(ms)[i], field@);
                assert(0 <= i < k);
            }
        }
    }
}

/// `m` resolves to a container that names `pod` as its pod.
pub open spec fn member_of(rs: Seq<DeploymentResourceView>, m: ResourceIdView, pod: ResourceIdView) -> bool {
    match resolved(rs, m, ResourceKind::Container) {
        Some(DeploymentResourceView::Container(c)) => c.pod == Some(pod),
        _ => false,
    }
}

/// The finding for a pod membership that the other side does not confirm.
pub open spec fn membership_finding(subject: ResourceIdView, related: ResourceIdView, field: Seq<char>) -> PlanningFindingView {
    finding(DiagnosticCode::DeploymentPodMembership, Some(subject), seq![related], Some(field), None, None)
}

/// `f` reports a member that is not a container of this pod.
pub open spec fn member_finding(rs: Seq<DeploymentResourceView>, p: PodIntentView, f: PlanningFindingView) -> bool {
    exists|k: int|
        0 <= k < p.members.len() && !member_of(rs, p.members[k], p.identity) && f == membership_finding(
            p.identity,
            #[trigger] p.members[k],
            "members"@,
        )
}

/// `f` reports a problem with an accepted pod declaration.
pub open spec fn pod_finding(rs: Seq<DeploymentResourceView>, p: PodIntentView, f: PlanningFindingView) -> bool {
    ||| repeated_reference_finding(p.networks, p.identity, "networks"@, f)
    ||| mount_finding(rs, p.infra_mounts, p.identity, "infra_mounts"@, f)
    ||| repeated_reference_finding(p.members, p.identity, "members"@, f)
    ||| unresolved_finding(rs, p.networks, ResourceKind::Network, p.identity, "networks"@, f)
    ||| member_finding(rs, p, f)
}

/// `f` reports a problem with the pod a container names.
pub open spec fn container_pod_finding(rs: Seq<DeploymentResourceView>, c: ContainerIntentView, f: PlanningFindingView) -> bool {
    match c.pod {
        None => false,
        Some(p) => {
            ||| c.networks.len() > 0 && f == finding(
                DiagnosticCode::DeploymentUnsupportedCombination,
                Some(c.identity),
                Seq::empty(),
                Some("networks"@),
                None,
                None,
            )
            ||| resolved(rs, p, ResourceKind::Pod) is None && f == unresolved_reference(c.identity, p, "pod"@)
            ||| (match resolved(rs, p, ResourceKind::Pod) {
                Some(DeploymentResourceView::Pod(pp)) => !pp.members.contains(c.identity),
                _ => false,
            }) && f == membership_finding(c.identity, p, "pod"@)
        },
    }
}

/// `f` reports a problem with an accepted container declaration.
pub open spec fn container_finding(rs: Seq<DeploymentResourceView>, c: ContainerIntentView, f: PlanningFindingView) -> bool {
    ||| repeated_reference_finding(c.networks, c.identity, "networks"@, f)
    ||| mount_finding(rs, c.mounts, c.identity, "mounts"@, f)
    ||| repeated_reference_finding(c.secrets, c.identity, "secrets"@, f)
    ||| resolved(rs, c.image, ResourceKind::Image) is None && f == unresolved_reference(c.identity, c.image, "image"@)
    ||| container_pod_finding(rs, c, f)
    ||| unresolved_finding(rs, c.networks, ResourceKind::Network, c.identity, "networks"@, f)
    ||| unresolved_finding(rs, c.secrets, ResourceKind::Secret, c.identity, "secrets"@, f)
}

/// `f` reports a problem with the accepted declaration `r`.
pub open spec fn resource_finding(rs: Seq<DeploymentResourceView>, r: DeploymentResourceView, f: PlanningFindingView) -> bool {
    match r {
        DeploymentResourceView::Image(i) => !portable_pull_reference(i.source) && f == finding(
            DiagnosticCode::InvalidImageReference,
            Some(i.identity),
            Seq::empty(),
            Some("source"@),
            None,
            None,
        ),
        DeploymentResourceView::Secret(sc) => sc.material.len() == 0 && f == finding(
            DiagnosticCode::SensitivePayloadEmbedded,
            Some(sc.identity),
            Seq::empty(),
            Some("material"@),
            None,
            None,
        ),
        DeploymentResourceView::Pod(p) => pod_finding(rs, p, f),
        DeploymentResourceView::Container(c) => container_finding(rs, c, f),
        _ => false,
    }
}

fn contains_id(values: &[DeploymentResourceId], id: &DeploymentResourceId) -> (r: bool)
    ensures
        r == id_views(values@).contains(id@),
{
    let mut i: usize = 0;
    while i < values.len()
        invariant
            i <= values.len(),
            forall|j: int| 0 <= j < i ==> values@[j]@ != id@,
        decreases values.len() - i,
    {
        if values[i].same_id(id) {
            assert(id_views(values@)[i as int] == id@);
            return true;
        }
        i = i + 1;
    }
    proof {
        if id_views(values@).contains(id@) {
            let j = choose|j: int| 0 <= j < id_views(values@).len() && id_views(values@)[j] == id@;
            assert(values@[j]@ == id@);
        }
    }
    false
}

fn validate_members(
    resources: &[DeploymentResource],
    ids: &Vec<DeploymentResourceId>,
    pod: &PodIntent,
    findings: &mut Vec<PlanningFinding>,
)
    requires
        indexes(views(resources@), views(ids@)),
    ensures
        forall|g: PlanningFindingView|
            #[trigger] finding_views(final(findings)@).contains(g) <==> (finding_views(old(findings)@).contains(g)
                || member_finding(views(resources@), pod@, g)),
{
    let ghost rs = views(resources@);
    let ghost p = pod@;
    let ghost start = finding_views(findings@);
    let members = pod.members();
    let mut k: usize = 0;
    while k < members.len()
        invariant
            k <= members.len(),
            id_views(members@) == p.members,
            p == pod@,
            rs == views(resources@),
            indexes(rs, views(ids@)),
            start == finding_views(old(findings)@),
            forall|g: PlanningFindingView|
                #[trigger] finding_views(findings@).contains(g) <==> (start.contains(g) || exists|i: int|
                    0 <= i < k && !member_of(rs, p.members[i], p.identity) && g == membership_finding(
                        p.identity,
                        #[trigger] p.members[i],
                        "members"@,
                    )),
        decreases members.len() - k,
    {
        let ghost before = finding_views(findings@);
        let m = &members[k];
        assert(m@ == p.members[k as int]);
        let ghost newf = membership_finding(p.identity, m@, "members"@);
        let confirmed = match resolve(resources, ids, m, ResourceKind::Container) {
            Some(DeploymentResource::Container(c)) => match c.pod() {
                Some(named) => named.same_id(pod.identity()),
                None => false,
            },
            _ => false,
        };
        assert(confirmed == member_of(rs, m@, p.identity));
        if !confirmed {
            let related = vec![m.duplicate()];
            assert(crate::deployment::id_views(related@) =~= seq![m@]);
            let f = PlanningFinding::detailed(
                DiagnosticCode::DeploymentPodMembership,
                Some(pod.identity().duplicate()),
                related,
                Some("members"),
                None,
                None,
            );
            push_finding(findings, f);
        }
        assert forall|g: PlanningFindingView| #[trigger] finding_views(findings@).contains(g) <==> (start.contains(g) || exists|i: int|
            0 <= i < k + 1 && !member_of(rs, p.members[i], p.identity) && g == membership_finding(
                p.identity,
                #[trigger] p.members[i],
                "members"@,
            )) by {
            assert(before.contains(g) <==> (start.contains(g) || exists|i: int|
                0 <= i < k && !member_of(rs, p.members[i], p.identity) && g == membership_finding(
                    p.identity,
                    #[trigger] p.members[i],
                    "members"@,
                )));
            if finding_views(findings@).contains(g) && !before.contains(g) {
                assert(!confirmed && g == newf);
            }
            if exists|i: int| 0 <= i < k + 1 && !member_of(rs, p.members[i], p.identity) && g == membership_finding(
                p.identity,
                #[trigger] p.members[i],
                "members"@,
            ) {
                let i = choose|i: int| 0 <= i < k + 1 && !member_of(rs, p.members[i], p.identity) && g == membership_finding(
                    p.identity,
                    #[trigger] p.members[i],
                    "members"@,
                );
                if i < k {
                    assert(before.contains(g));
                }
            }
        }
        k = k + 1;
    }
}

fn validate_pod(
    resources: &[DeploymentResource],
    ids: &Vec<DeploymentResourceId>,
    pod: &PodIntent,
    findings: &mut Vec<PlanningFinding>,
)
    requires
        indexes(views(resources@), views(ids@)),
    ensures
        forall|g: PlanningFindingView|
            #[trigger] finding_views(final(findings)@).contains(g) <==> (finding_views(old(findings)@).contains(g)
                || pod_finding(views(resources@), pod@, g)),
{
    let ghost rs = views(resources@);
    let ghost s0 = finding_views(findings@);
    let networks = pod.networks();
    let members = pod.members();
    assert(views(networks@) =~= id_views(networks@));
    assert(views(members@) =~= id_views(members@));
    validate_distinct(networks, pod.identity(), "networks", findings);
    let ghost s1 = finding_views(findings@);
    validate_mounts(resources, ids, pod.infra_mounts(), pod.identity(), "infra_mounts", findings);
    let ghost s2 = finding_views(findings@);
    validate_distinct(members, pod.identity(), "members", findings);
    let ghost s3 = finding_views(findings@);
    require_resolved_all(resources, ids, networks, ResourceKind::Network, pod.identity(), "networks", findings);
    let ghost s4 = finding_views(findings@);
    validate_members(resources, ids, pod, findings);
    assert forall|g: PlanningFindingView| #[trigger] finding_views(findings@).contains(g) <==> (s0.contains(g) || pod_finding(rs, pod@, g)) by {
        assert(s1.contains(g) <==> (s0.contains(g) || repeated_reference_finding(pod@.networks, pod@.identity, "networks"@, g)));
        assert(s2.contains(g) <==> (s1.contains(g) || mount_finding(rs, pod@.infra_mounts, pod@.identity, "infra_mounts"@, g)));
        assert(s3.contains(g) <==> (s2.contains(g) || repeated_reference_finding(pod@.members, pod@.identity, "members"@, g)));
        assert(s4.contains(g) <==> (s3.contains(g) || unresolved_finding(rs, pod@.networks, ResourceKind::Network, pod@.identity, "networks"@, g)));
    }
}

fn validate_container_pod(
    resources: &[DeploymentResource],
    ids: &Vec<DeploymentResourceId>,
    container: &ContainerIntent,
    findings: &mut Vec<PlanningFinding>,
)
    requires
        indexes(views(resources@), views(ids@)),
    ensures
        forall|g: PlanningFindingView|
            #[trigger] finding_views(final(findings)@).contains(g) <==> (finding_views(old(findings)@).contains(g)
                || container_pod_finding(views(resources@), container@, g)),
{
    let ghost rs = views(resources@);
    let ghost c = container@;
    let ghost s0 = finding_views(findings@);
    match container.pod() {
        None => {},
        Some(pod) => {
            let subject = container.identity();
            let ghost f1 = finding(
                DiagnosticCode::DeploymentUnsupportedCombination,
                Some(c.identity),
                Seq::empty(),
                Some("networks"@),
                None,
                None,
            );
            let ghost f2 = unresolved_reference(c.identity, pod@, "pod"@);
            let ghost f3 = membership_finding(c.identity, pod@, "pod"@);
            let has_networks = container.networks().len() > 0;
            if has_networks {
                let f = PlanningFinding::detailed(
                    DiagnosticCode::DeploymentUnsupportedCombination,
                    Some(subject.duplicate()),
                    Vec::new(),
                    Some("networks"),
                    None,
                    None,
                );
                assert(crate::deployment::id_views(Seq::<DeploymentResourceId>::empty()) =~= Seq::<ResourceIdView>::empty());
                push_finding(findings, f);
            }
            let ghost s1 = finding_views(findings@);
            let target = resolve(resources, ids, pod, ResourceKind::Pod);
            let missing = target.is_none();
            if missing {
                let related = vec![pod.duplicate()];
                assert(crate::deployment::id_views(related@) =~= seq![pod@]);
                let f = PlanningFinding::detailed(
                    DiagnosticCode::DeploymentUnresolvedPrerequisite,
                    Some(subject.duplicate()),
                    related,
                    Some("pod"),
                    None,
                    None,
                );
                push_finding(findings, f);
            }
            let ghost s2 = finding_views(findings@);
            let unconfirmed = match target {
                Some(DeploymentResource::Pod(pp)) => !contains_id(pp.members(), subject),
                _ => false,
            };
            if unconfirmed {
                let related = vec![pod.duplicate()];
                assert(crate::deployment::id_views(related@) =~= seq![pod@]);
                let f = PlanningFinding::detailed(
                    DiagnosticCode::DeploymentPodMembership,
                    Some(subject.duplicate()),
                    related,
                    Some("pod"),
                    None,
                    None,
                );
                push_finding(findings, f);
            }
            assert forall|g: PlanningFindingView| #[trigger] finding_views(findings@).contains(g) <==> (s0.contains(g)
                || container_pod_finding(rs, c, g)) by {
                assert(s1.contains(g) <==> (s0.contains(g) || (has_networks && g == f1)));
                assert(s2.contains(g) <==> (s1.contains(g) || (missing && g == f2)));
            }
        },
    }
}

#[verifier::spinoff_prover]
fn validate_container(
    resources: &[DeploymentResource],
    ids: &Vec<DeploymentResourceId>,
    container: &ContainerIntent,
    findings: &mut Vec<PlanningFinding>,
)
    requires
        indexes(views(resources@), views(ids@)),
    ensures
        forall|g: PlanningFindingView|
            #[trigger] finding_views(final(findings)@).contains(g) <==> (finding_views(old(findings)@).contains(g)
                || container_finding(views(resources@), container@, g)),
{
    let ghost rs = views(resources@);
    let ghost c = container@;
    let ghost s0 = finding_views(findings@);
    let networks = container.networks();
    let secrets = container.secrets();
    let subject = container.identity();
    assert(views(networks@) =~= id_views(networks@));
    assert(views(secrets@) =~= id_views(secrets@));
    validate_distinct(networks, subject, "networks", findings);
    let ghost s1 = finding_views(findings@);
    validate_mounts(resources, ids, container.mounts(), subject, "mounts", findings);
    let ghost s2 = finding_views(findings@);
    validate_distinct(secrets, subject, "secrets", findings);
    let ghost s3 = finding_views(findings@);
    let image = container.image();
    let ghost fi = unresolved_reference(c.identity, c.image, "image"@);
    let missing_image = resolve(resources, ids, image, ResourceKind::Image).is_none();
    if missing_image {
        let related = vec![image.duplicate()];
        assert(crate::deployment::id_views(related@) =~= seq![image@]);
        let f = PlanningFinding::detailed(
            DiagnosticCode::DeploymentUnresolvedPrerequisite,
            Some(subject.duplicate()),
            related,
            Some("image"),
            None,
            None,
        );
        push_finding(findings, f);
    }
    let ghost s4 = finding_views(findings@);
    validate_container_pod(resources, ids, container, findings);
    let ghost s5 = finding_views(findings@);
    require_resolved_all(resources, ids, networks, ResourceKind::Network, subject, "networks", findings);
    let ghost s6 = finding_views(findings@);
    require_resolved_all(resources, ids, secrets, ResourceKind::Secret, subject, "secrets", findings);
    assert forall|g: PlanningFindingView| #[trigger] finding_views(findings@).contains(g) <==> (s0.contains(g) || container_finding(rs, c, g)) by {
        assert(s1.contains(g) <==> (s0.contains(g) || repeated_reference_finding(c.networks, c.identity, "networks"@, g)));
        assert(s2.contains(g) <==> (s1.contains(g) || mount_finding(rs, c.mounts, c.identity, "mounts"@, g)));
        assert(s3.contains(g) <==> (s2.contains(g) || repeated_reference_finding(c.secrets, c.identity, "secrets"@, g)));
        assert(s4.contains(g) <==> (s3.contains(g) || (missing_image && g == fi)));
        assert(s5.contains(g) <==> (s4.contains(g) || container_pod_finding(rs, c, g)));
        assert(s6.contains(g) <==> (s5.contains(g) || unresolved_finding(rs, c.networks, ResourceKind::Network, c.identity, "networks"@, g)));
    }
}

fn validate_resource(
    resources: &[DeploymentResource],
    ids: &Vec<DeploymentResourceId>,
    resource: &DeploymentResource,
    findings: &mut Vec<PlanningFinding>,
)
    requires
        indexes(views(resources@), views(ids@)),
    ensures
        forall|g: PlanningFindingView|
            #[trigger] finding_views(final(findings)@).contains(g) <==> (finding_views(old(findings)@).contains(g)
                || resource_finding(views(resources@), resource@, g)),
{
    match resource {
        DeploymentResource::Image(image) => {
            if !is_portable_pull_reference(image.source()) {
                let f = PlanningFinding::detailed(
                    DiagnosticCode::InvalidImageReference,
                    Some(image.identity().duplicate()),
                    Vec::new(),
                    Some("source"),
                    None,
                    None,
                );
                assert(crate::deployment::id_views(Seq::<DeploymentResourceId>::empty()) =~= Seq::<ResourceIdView>::empty());
                push_finding(findings, f);
            }
        },
        DeploymentResource::Secret(secret) => {
            if crate::text::to_chars(secret.material().as_str()).len() == 0 {
                let f = PlanningFinding::detailed(
                    DiagnosticCode::SensitivePayloadEmbedded,
                    Some(secret.identity().duplicate()),
                    Vec::new(),
                    Some("material"),
                    None,
                    None,
                );
                assert(crate::deployment::id_views(Seq::<DeploymentResourceId>::empty()) =~= Seq::<ResourceIdView>::empty());
                push_finding(findings, f);
            }
        },
        DeploymentResource::Pod(pod) => validate_pod(resources, ids, pod, findings),
        DeploymentResource::Container(container) => validate_container(resources, ids, container, findings),
        _ => {},
    }
}

/// `f` reports a problem with some accepted declaration.
pub open spec fn is_validation_finding(rs: Seq<DeploymentResourceView>, f: PlanningFindingView) -> bool {
    exists|id: ResourceIdView| accepted(rs, id) && resource_finding(rs, #[trigger] entry(rs, id), f)
}

fn validate_resources(
    resources: &[DeploymentResource],
    ids: &Vec<DeploymentResourceId>,
    findings: &mut Vec<PlanningFinding>,
)
    requires
        indexes(views(resources@), views(ids@)),
    ensures
        forall|g: PlanningFindingView|
            #[trigger] finding_views(final(findings)@).contains(g) <==> (finding_views(old(findings)@).contains(g)
                || is_validation_finding(views(resources@), g)),
{
    let ghost rs = views(resources@);
    let ghost start = finding_views(findings@);
    let mut i: usize = 0;
    while i < ids.len()
        invariant
            i <= ids.len(),
            rs == views(resources@),
            indexes(rs, views(ids@)),
            start == finding_views(old(findings)@),
            forall|g: PlanningFindingView|
                #[trigger] finding_views(findings@).contains(g) <==> (start.contains(g) || exists|j: int|
                    0 <= j < i && resource_finding(rs, entry(rs, #[trigger] views(ids@)[j]), g)),
        decreases ids.len() - i,
    {
        let ghost before = finding_views(findings@);
        assert(views(ids@).contains(views(ids@)[i as int]));
        let r = lookup_exec(resources, ids, &ids[i]);
        match r {
            Some(resource) => {
                validate_resource(resources, ids, resource, findings);
            },
            None => {
                assert(false);
            },
        }
        assert forall|g: PlanningFindingView| #[trigger] finding_views(findings@).contains(g) <==> (start.contains(g) || exists|j: int|
            0 <= j < i + 1 && resource_finding(rs, entry(rs, #[trigger] views(ids@)[j]), g)) by {
            assert(before.contains(g) <==> (start.contains(g) || exists|j: int|
                0 <= j < i && resource_finding(rs, entry(rs, #[trigger] views(ids@)[j]), g)));
            if exists|j: int| 0 <= j < i + 1 && resource_finding(rs, entry(rs, #[trigger] views(ids@)[j]), g) {
                let j = choose|j: int| 0 <= j < i + 1 && resource_finding(rs, entry(rs, #[trigger] views(ids@)[j]), g);
                if j < i {
                    assert(before.contains(g));
                }
            }
        }
        i = i + 1;
    }
    assert forall|g: PlanningFindingView| #[trigger] finding_views(findings@).contains(g) <==> (start.contains(g) || is_validation_finding(rs, g)) by {
        if is_validation_finding(rs, g) {
            let id = choose|id: ResourceIdView| accepted(rs, id) && resource_finding(rs, #[trigger] entry(rs, id), g);
            assert(views(ids@).contains(id));
            let j = choose|j: int| 0 <= j < views(ids@).len() && views(ids@)[j] == id;
            assert(resource_finding(rs, entry(rs, views(ids@)[j]), g));
        }
        if finding_views(findings@).contains(g) && !start.contains(g) {
            let j = choose|j: int| 0 <= j < ids.len() && resource_finding(rs, entry(rs, #[trigger] views(ids@)[j]), g);
            assert(views(ids@).contains(views(ids@)[j]));
        }
    }
}

// ---------------------------------------------------------------------------------------------
// Ordering operations.
// ---------------------------------------------------------------------------------------------
/// One dependency edge: the operation `to` depends on the operation `from`.
pub struct DependencyEdge {
    from: DeploymentOperationId,
    to: DeploymentOperationId,
}

impl View for DependencyEdge {
    type V = (OperationIdView, OperationIdView);

    closed spec fn view(&self) -> (OperationIdView, OperationIdView) {
        (self.from@, self.to@)
    }
}

impl DependencyEdge {
    fn new(from: DeploymentOperationId, to: DeploymentOperationId) -> (r: Self)
        ensures
            r@ == (from@, to@),
    {
        DependencyEdge { from, to }
    }
}

/// The contents of a sequence of edges.
pub open spec fn edge_views(s: Seq<DependencyEdge>) -> Seq<(OperationIdView, OperationIdView)> {
    s.map_values(|e: DependencyEdge| e@)
}

/// Every operation `n` depends on is already among `done`.
pub open spec fn ready(edges: Seq<(OperationIdView, OperationIdView)>, done: Seq<OperationIdView>, n: OperationIdView) -> bool {
    forall|a: OperationIdView| #[trigger] edges.contains((a, n)) ==> done.contains(a)
}

/// `order` followed by `rest` arranges the distinct `nodes`: each operation of `order` is ready
/// when it is taken and has the smallest scheduling key among the operations ready at that
/// point, and no operation of `rest` is ready after all of `order`.
pub open spec fn scheduled(
    nodes: Seq<OperationIdView>,
    edges: Seq<(OperationIdView, OperationIdView)>,
    order: Seq<OperationIdView>,
    rest: Seq<OperationIdView>,
) -> bool {
    &&& distinct(order + rest)
    &&& forall|x: OperationIdView| #[trigger] (order + rest).contains(x) <==> nodes.contains(x)
    &&& forall|i: int| 0 <= i < order.len() ==> ready(edges, order.take(i), #[trigger] order[i])
    &&& forall|i: int, n: OperationIdView|
        #![trigger order[i], nodes.contains(n)]
        0 <= i < order.len() && nodes.contains(n) && !order.take(i).contains(n) && ready(edges, order.take(i), n)
            ==> !lex_lt(schedule_key(n), schedule_key(order[i]))
    &&& forall|n: OperationIdView| #[trigger] rest.contains(n) ==> !ready(edges, order, n)
}

fn contains_op(list: &Vec<DeploymentOperationId>, x: &DeploymentOperationId) -> (r: bool)
    ensures
        r == views(list@).contains(x@),
{
    let mut i: usize = 0;
    while i < list.len()
        invariant
            i <= list.len(),
            forall|j: int| 0 <= j < i ==> list@[j]@ != x@,
        decreases list.len() - i,
    {
        if list[i].same_value(x) {
            assert(views(list@)[i as int] == x@);
            return true;
        }
        i = i + 1;
    }
    proof {
        if views(list@).contains(x@) {
            let j = choose|j: int| 0 <= j < views(list@).len() && views(list@)[j] == x@;
            assert(list@[j]@ == x@);
        }
    }
    false
}

fn is_ready(edges: &Vec<DependencyEdge>, done: &Vec<DeploymentOperationId>, n: &DeploymentOperationId) -> (r: bool)
    ensures
        r == ready(edge_views(edges@), views(done@), n@),
{
    let ghost es = edge_views(edges@);
    let mut i: usize = 0;
    while i < edges.len()
        invariant
            i <= edges.len(),
            es == edge_views(edges@),
            forall|j: int| 0 <= j < i && (#[trigger] es[j]).1 == n@ ==> views(done@).contains(es[j].0),
        decreases edges.len() - i,
    {
        assert(es[i as int] == edges@[i as int]@);
        if edges[i].to.same_value(n) {
            if !contains_op(done, &edges[i].from) {
                assert(es.contains((es[i as int].0, n@)));
                return false;
            }
        }
        i = i + 1;
    }
    assert forall|a: OperationIdView| #[trigger] es.contains((a, n@)) implies views(done@).contains(a) by {
        let j = choose|j: int| 0 <= j < es.len() && es[j] == (a, n@);
        assert(es[j].1 == n@);
    }
    true
}

proof fn lemma_take_push<T>(s: Seq<T>, v: T, i: int)
    requires
        0 <= i <= s.len(),
    ensures
        s.push(v).take(i) == s.take(i),
{
    assert(s.push(v).take(i) =~= s.take(i));
}

/// Orders `nodes` by repeatedly taking the ready operation with the smallest scheduling key;
/// the operations never ready are returned separately.
#[verifier::spinoff_prover]
fn schedule(nodes: &Vec<DeploymentOperationId>, edges: &Vec<DependencyEdge>) -> (r: (Vec<DeploymentOperationId>, Vec<DeploymentOperationId>))
    requires
        distinct(views(nodes@)),
    ensures
        scheduled(views(nodes@), edge_views(edges@), views(r.0@), views(r.1@)),
{
    let ghost ns = views(nodes@);
    let ghost es = edge_views(edges@);
    let n = nodes.len();
    let mut taken: Vec<bool> = Vec::new();
    let mut t: usize = 0;
    while t < n
        invariant
            t <= n,
            taken@.len() == t,
            forall|j: int| 0 <= j < t ==> !taken@[j],
        decreases n - t,
    {
        taken.push(false);
        t = t + 1;
    }
    let mut order: Vec<DeploymentOperationId> = Vec::new();
    loop
        invariant
            n == nodes.len(),
            ns == views(nodes@),
            es == edge_views(edges@),
            distinct(ns),
            taken@.len() == n,
            distinct(views(order@)),
            order.len() <= n,
            forall|x: OperationIdView|
                #[trigger] views(order@).contains(x) <==> exists|j: int| 0 <= j < n && taken@[j] && ns[j] == x,
            forall|i: int| 0 <= i < order.len() ==> ready(es, views(order@).take(i), #[trigger] views(order@)[i]),
            forall|i: int, m: OperationIdView|
                #![trigger views(order@)[i], ns.contains(m)]
                0 <= i < order.len() && ns.contains(m) && !views(order@).take(i).contains(m) && ready(es, views(order@).take(i), m)
                    ==> !lex_lt(schedule_key(m), schedule_key(views(order@)[i])),
        ensures
            n == nodes.len(),
            taken@.len() == n,
            distinct(views(order@)),
            forall|x: OperationIdView|
                #[trigger] views(order@).contains(x) <==> exists|j: int| 0 <= j < n && taken@[j] && ns[j] == x,
            forall|i: int| 0 <= i < order.len() ==> ready(es, views(order@).take(i), #[trigger] views(order@)[i]),
            forall|i: int, m: OperationIdView|
                #![trigger views(order@)[i], ns.contains(m)]
                0 <= i < order.len() && ns.contains(m) && !views(order@).take(i).contains(m) && ready(es, views(order@).take(i), m)
                    ==> !lex_lt(schedule_key(m), schedule_key(views(order@)[i])),
            forall|j: int| 0 <= j < n && !taken@[j] ==> !ready(es, views(order@), #[trigger] ns[j]),
        decreases n - order.len(),
    {
        let mut best: Option<usize> = None;
        let mut best_key: Vec<i64> = Vec::new();
        let mut i: usize = 0;
        while i < n
            invariant
                i <= n,
                n == nodes.len(),
                ns == views(nodes@),
                es == edge_views(edges@),
                taken@.len() == n,
                match best {
                    Some(b) => b < i && !taken@[b as int] && ready(es, views(order@), ns[b as int]) && best_key@ == schedule_key(
                        ns[b as int],
                    ),
                    None => true,
                },
                forall|j: int|
                    0 <= j < i && !taken@[j] && ready(es, views(order@), #[trigger] ns[j]) ==> (best is Some && !lex_lt(
                        schedule_key(ns[j]),
                        best_key@,
                    )),
            decreases n - i,
        {
            assert(ns[i as int] == nodes@[i as int]@);
            if !taken[i] && is_ready(edges, &order, &nodes[i]) {
                let key = nodes[i].schedule_key();
                let better = match best {
                    None => true,
                    Some(_) => lex_less(&key, &best_key),
                };
                if better {
                    proof {
                        assert forall|j: int|
                            0 <= j < i && !taken@[j] && ready(es, views(order@), #[trigger] ns[j]) implies !lex_lt(
                            schedule_key(ns[j]),
                            key@,
                        ) by {
                            if lex_lt(schedule_key(ns[j]), key@) {
                                crate::order::lemma_lex_transitive(schedule_key(ns[j]), key@, best_key@);
                            }
                        }
                    }
                    proof {
                        crate::order::lemma_lex_irreflexive(key@);
                    }
                    best = Some(i);
                    best_key = key;
                }
            }
            i = i + 1;
        }
        match best {
            None => {
                assert forall|j: int| 0 <= j < n && !taken@[j] implies !ready(es, views(order@), #[trigger] ns[j]) by {
                }
                break;
            },
            Some(b) => {
                let ghost before = views(order@);
                let ghost chosen = ns[b as int];
                assert(!before.contains(chosen)) by {
                    if before.contains(chosen) {
                        let j = choose|j: int| 0 <= j < n && taken@[j] && ns[j] == chosen;
                        assert(j == b);
                    }
                }
                proof {
                    assert(before.len() < n) by {
                        // every element of `order` is a taken node, and `b` is not taken
                        lemma_order_within(ns, before, taken@, b as int);
                    }
                }
                order.push(nodes[b].duplicate());
                taken.set(b, true);
                assert(views(order@) =~= before.push(chosen));
                proof {
                    assert forall|x: OperationIdView| #[trigger] views(order@).contains(x) <==> exists|j: int|
                        0 <= j < n && taken@[j] && ns[j] == x by {
                        lemma_push_contains(before, chosen, x);
                        if exists|j: int| 0 <= j < n && taken@[j] && ns[j] == x {
                            let j = choose|j: int| 0 <= j < n && taken@[j] && ns[j] == x;
                            if j != b {
                                assert(before.contains(x));
                            }
                        }
                        if before.contains(x) {
                            let j = choose|j: int| 0 <= j < n && old_taken_at(taken@, b as int, j) && ns[j] == x;
                            assert(taken@[j]);
                        }
                    }
                    assert forall|i: int| 0 <= i < order.len() implies ready(es, views(order@).take(i), #[trigger] views(order@)[i]) by {
                        lemma_take_push(before, chosen, i);
                        if i == before.len() {
                            assert(before.take(i) =~= before);
                        }
                    }
                    assert forall|i: int, m: OperationIdView|
                        #![trigger views(order@)[i], ns.contains(m)]
                        0 <= i < order.len() && ns.contains(m) && !views(order@).take(i).contains(m) && ready(
                            es,
                            views(order@).take(i),
                            m,
                        ) implies !lex_lt(schedule_key(m), schedule_key(views(order@)[i])) by {
                        lemma_take_push(before, chosen, i);
                        if i == before.len() {
                            assert(before.take(i) =~= before);
                            let j = choose|j: int| 0 <= j < ns.len() && ns[j] == m;
                            if taken@[j] && j != b {
                            }
                            if j == b {
                            } else {
                                if !taken@[j] {
                                    assert(!lex_lt(schedule_key(ns[j]), best_key@));
                                } else {
                                    assert(before.contains(m));
                                }
                            }
                        }
                    }
                    assert(distinct(views(order@)));
                }
            },
        }
    }
    let ghost done = views(order@);
    let mut rest: Vec<DeploymentOperationId> = Vec::new();
    let mut k: usize = 0;
    while k < n
        invariant
            k <= n,
            n == nodes.len(),
            ns == views(nodes@),
            taken@.len() == n,
            done == views(order@),
            distinct(ns),
            distinct(done + views(rest@)),
            forall|x: OperationIdView|
                #[trigger] views(rest@).contains(x) <==> exists|j: int| 0 <= j < k && !taken@[j] && ns[j] == x,
            forall|x: OperationIdView|
                #[trigger] done.contains(x) <==> exists|j: int| 0 <= j < n && taken@[j] && ns[j] == x,
        decreases n - k,
    {
        assert(ns[k as int] == nodes@[k as int]@);
        if !taken[k] {
            let ghost before = views(rest@);
            rest.push(nodes[k].duplicate());
            assert(views(rest@) =~= before.push(ns[k as int]));
            proof {
                assert(!done.contains(ns[k as int])) by {
                    if done.contains(ns[k as int]) {
                        let j = choose|j: int| 0 <= j < n && taken@[j] && ns[j] == ns[k as int];
                    }
                }
                assert(!before.contains(ns[k as int])) by {
                    if before.contains(ns[k as int]) {
                        let j = choose|j: int| 0 <= j < k && !taken@[j] && ns[j] == ns[k as int];
                    }
                }
                assert(done + views(rest@) =~= (done + before).push(ns[k as int]));
                lemma_push_contains(done + before, ns[k as int], ns[k as int]);
                lemma_distinct_push(done + before, ns[k as int]);
                assert forall|x: OperationIdView| #[trigger] views(rest@).contains(x) <==> exists|j: int|
                    0 <= j < k + 1 && !taken@[j] && ns[j] == x by {
                    lemma_push_contains(before, ns[k as int], x);
                }
            }
        } else {
            assert forall|x: OperationIdView| #[trigger] views(rest@).contains(x) <==> exists|j: int|
                0 <= j < k + 1 && !taken@[j] && ns[j] == x by {
            }
        }
        k = k + 1;
    }
    proof {
        assert forall|x: OperationIdView| #[trigger] (done + views(rest@)).contains(x) <==> ns.contains(x) by {
            lemma_concat_contains(done, views(rest@), x);
            if ns.contains(x) {
                let j = choose|j: int| 0 <= j < ns.len() && ns[j] == x;
                if taken@[j] {
                    assert(done.contains(x));
                } else {
                    assert(views(rest@).contains(x));
                }
            }
        }
        assert forall|m: OperationIdView| #[trigger] views(rest@).contains(m) implies !ready(es, done, m) by {
            let j = choose|j: int| 0 <= j < n && !taken@[j] && ns[j] == m;
        }
        assert(done.take(done.len() as int) =~= done);
    }
    (order, rest)
}

spec fn old_taken_at(taken: Seq<bool>, b: int, j: int) -> bool {
    j != b && taken[j]
}

proof fn lemma_order_within(ns: Seq<OperationIdView>, order: Seq<OperationIdView>, taken: Seq<bool>, b: int)
    requires
        distinct(order),
        taken.len() == ns.len(),
        0 <= b < ns.len(),
        !taken[b],
        forall|x: OperationIdView| #[trigger] order.contains(x) ==> exists|j: int| 0 <= j < ns.len() && taken[j] && ns[j] == x,
    ensures
        order.len() < ns.len(),
{
    // Each element of `order` names a distinct taken position, and position `b` is not taken.
    let f = |x: OperationIdView| choose|j: int| 0 <= j < ns.len() && taken[j] && ns[j] == x;
    let idx = order.map_values(f);
    assert forall|i: int, k: int| 0 <= i < k < idx.len() implies idx[i] != idx[k] by {
        assert(order.contains(order[i]));
        assert(order.contains(order[k]));
    }
    let positions = Set::new(|j: int| 0 <= j < ns.len() && j != b);
    assert forall|i: int| 0 <= i < idx.len() implies positions.contains(#[trigger] idx[i]) by {
        assert(order.contains(order[i]));
    }
    lemma_distinct_seq_in_set(idx, positions, ns.len() as int, b);
}

proof fn lemma_distinct_seq_in_set(idx: Seq<int>, positions: Set<int>, n: int, b: int)
    requires
        forall|i: int, k: int| 0 <= i < k < idx.len() ==> idx[i] != idx[k],
        positions == Set::new(|j: int| 0 <= j < n && j != b),
        0 <= b < n,
        forall|i: int| 0 <= i < idx.len() ==> positions.contains(#[trigger] idx[i]),
    ensures
        idx.len() < n,
{
    let full = Set::new(|j: int| 0 <= j < n);
    assert(full =~= vstd::set_lib::set_int_range(0, n));
    vstd::set_lib::lemma_int_range(0, n);
    assert(positions =~= full.remove(b));
    assert(full.contains(b));
    let elems = idx.to_set();
    idx.unique_seq_to_set();
    assert(elems.subset_of(positions)) by {
        assert forall|x: int| elems.contains(x) implies positions.contains(x) by {
            let i = choose|i: int| 0 <= i < idx.len() && idx[i] == x;
        }
    }
    vstd::set_lib::lemma_len_subset(elems, positions);
}

proof fn lemma_concat_contains<T>(a: Seq<T>, b: Seq<T>, x: T)
    ensures
        (a + b).contains(x) <==> (a.contains(x) || b.contains(x)),
{
    if (a + b).contains(x) {
        let i = choose|i: int| 0 <= i < (a + b).len() && (a + b)[i] == x;
        if i < a.len() {
            assert(a[i] == x);
        } else {
            assert(b[i - a.len()] == x);
        }
    }
    if a.contains(x) {
        let i = choose|i: int| 0 <= i < a.len() && a[i] == x;
        assert((a + b)[i] == x);
    }
    if b.contains(x) {
        let i = choose|i: int| 0 <= i < b.len() && b[i] == x;
        assert((a + b)[a.len() + i] == x);
    }
}

proof fn lemma_distinct_push<T>(s: Seq<T>, v: T)
    requires
        distinct(s),
        !s.contains(v),
    ensures
        distinct(s.push(v)),
{
    assert forall|i: int, j: int| 0 <= i < j < s.push(v).len() implies s.push(v)[i] != s.push(v)[j] by {
        if j == s.len() {
            assert(s.contains(s[i]));
        }
    }
}

// ---------------------------------------------------------------------------------------------
// Uniqueness of orders and of stuck remainders.
// ---------------------------------------------------------------------------------------------
pub(crate) proof fn lemma_char_code_injective(c: char, d: char)
    requires
        ((c as u32) as i64) == ((d as u32) as i64),
    ensures
        c == d,
{
    assert((c as u32) as int == c as int);
    assert((d as u32) as int == d as int);
}

pub(crate) proof fn lemma_text_key_injective(a: Seq<char>, b: Seq<char>)
    requires
        text_key(a) == text_key(b),
    ensures
        a == b,
{
    assert(text_key(a).len() == a.len() + 1);
    assert(text_key(b).len() == b.len() + 1);
    let ma = a.map_values(|c: char| (c as u32) as i64);
    let mb = b.map_values(|c: char| (c as u32) as i64);
    assert(text_key(a) == ma.push(-1i64));
    assert(text_key(b) == mb.push(-1i64));
    assert forall|i: int| 0 <= i < a.len() implies a[i] == b[i] by {
        assert(text_key(a)[i] == ma[i]);
        assert(text_key(b)[i] == mb[i]);
        assert(ma[i] == (a[i] as u32) as i64);
        assert(mb[i] == (b[i] as u32) as i64);
        lemma_char_code_injective(a[i], b[i]);
    }
    assert(a =~= b);
}

proof fn lemma_id_key_injective(a: ResourceIdView, b: ResourceIdView)
    requires
        id_key(a) == id_key(b),
    ensures
        a == b,
{
    assert(id_key(a)[0] == id_key(b)[0]);
    assert(id_key(a)[0] == kind_rank(a.kind) as i64);
    assert(id_key(b)[0] == kind_rank(b.kind) as i64);
    assert(kind_rank(a.kind) < 6 && kind_rank(b.kind) < 6);
    assert(kind_rank(a.kind) == kind_rank(b.kind));
    crate::inventory::lemma_kind_rank_injective(a.kind, b.kind);
    assert(text_key(a.name) =~= id_key(a).skip(1));
    assert(text_key(b.name) =~= id_key(b).skip(1));
    lemma_text_key_injective(a.name, b.name);
}

/// Distinct operations have distinct keys.
pub proof fn lemma_op_key_injective(a: OperationIdView, b: OperationIdView)
    requires
        op_key(a) == op_key(b),
    ensures
        a == b,
{
    assert(op_key(a)[0] == op_key(b)[0]);
    assert(op_key(a)[0] == action_rank(a.action));
    assert(op_key(b)[0] == action_rank(b.action));
    assert(a.action == b.action);
    assert(id_key(a.resource) =~= op_key(a).skip(1));
    assert(id_key(b.resource) =~= op_key(b).skip(1));
    lemma_id_key_injective(a.resource, b.resource);
}

/// Two duplicate-free sequences of operations sorted by key that hold the same operations are
/// the same sequence.
pub proof fn lemma_sorted_ops_unique(s: Seq<OperationIdView>, t: Seq<OperationIdView>)
    requires
        keys_sorted::<DeploymentOperationId>(s),
        keys_sorted::<DeploymentOperationId>(t),
        distinct(s),
        distinct(t),
        forall|x: OperationIdView| s.contains(x) <==> t.contains(x),
    ensures
        s == t,
    decreases s.len(),
{
    if s.len() == 0 {
        if t.len() > 0 {
            assert(t.contains(t[0]));
        }
        assert(s =~= t);
    } else {
        assert(s.contains(s[0]));
        assert(t.len() > 0);
        assert(t.contains(t[0]));
        let i = choose|i: int| 0 <= i < t.len() && t[i] == s[0];
        let j = choose|j: int| 0 <= j < s.len() && s[j] == t[0];
        // s[0] is at position i of t, t[0] is at position j of s.
        assert(!lex_lt(op_key(t[i]), op_key(t[0])) || i == 0);
        assert(!lex_lt(op_key(s[j]), op_key(s[0])) || j == 0);
        if s[0] != t[0] {
            assert(i != 0);
            assert(j != 0);
            crate::order::lemma_lex_total(op_key(s[0]), op_key(t[0]));
            if op_key(s[0]) == op_key(t[0]) {
                lemma_op_key_injective(s[0], t[0]);
            }
        }
        let s1 = s.drop_first();
        let t1 = t.drop_first();
        assert forall|x: OperationIdView| s1.contains(x) <==> t1.contains(x) by {
            if s1.contains(x) {
                let a = choose|a: int| 0 <= a < s1.len() && s1[a] == x;
                assert(s[a + 1] == x);
                assert(s.contains(x));
                let b = choose|b: int| 0 <= b < t.len() && t[b] == x;
                if b == 0 {
                    assert(s[0] == s[a + 1]);
                }
                assert(t1[b - 1] == x);
            }
            if t1.contains(x) {
                let a = choose|a: int| 0 <= a < t1.len() && t1[a] == x;
                assert(t[a + 1] == x);
                assert(t.contains(x));
                let b = choose|b: int| 0 <= b < s.len() && s[b] == x;
                if b == 0 {
                    assert(t[0] == t[a + 1]);
                }
                assert(s1[b - 1] == x);
            }
        }
        assert forall|a: int, b: int| 0 <= a < b < s1.len() implies !lex_lt(op_key(#[trigger] s1[b]), op_key(#[trigger] s1[a])) by {
            assert(s1[a] == s[a + 1]);
            assert(s1[b] == s[b + 1]);
        }
        assert forall|a: int, b: int| 0 <= a < b < t1.len() implies !lex_lt(op_key(#[trigger] t1[b]), op_key(#[trigger] t1[a])) by {
            assert(t1[a] == t[a + 1]);
            assert(t1[b] == t[b + 1]);
        }
        lemma_sorted_ops_unique(s1, t1);
        assert(s =~= seq![s[0]] + s1);
        assert(t =~= seq![t[0]] + t1);
    }
}

/// Some prerequisite of `x` lies in `set`.
#[verifier::opaque]
pub open spec fn blocked_within(edges: Seq<(OperationIdView, OperationIdView)>, set: Seq<OperationIdView>, x: OperationIdView) -> bool {
    exists|a: OperationIdView| #[trigger] edges.contains((a, x)) && set.contains(a)
}

/// In a graph whose operations `order` are each preceded by all their prerequisites, no operation
/// of `order` lies in a set in which every member has a prerequisite in the set.
proof fn lemma_ordered_not_stuck(
    edges: Seq<(OperationIdView, OperationIdView)>,
    order: Seq<OperationIdView>,
    stuck: Seq<OperationIdView>,
    i: int,
)
    requires
        forall|k: int| 0 <= k < order.len() ==> #[trigger] ready(edges, order.take(k), order[k]),
        forall|x: OperationIdView| #[trigger] stuck.contains(x) ==> blocked_within(edges, stuck, x),
        0 <= i < order.len(),
    ensures
        !stuck.contains(order[i]),
    decreases i,
{
    if stuck.contains(order[i]) {
        assert(blocked_within(edges, stuck, order[i]));
        reveal(blocked_within);
        let a = choose|a: OperationIdView| #[trigger] edges.contains((a, order[i])) && stuck.contains(a);
        assert(ready(edges, order.take(i), order[i]));
        assert(order.take(i).contains(a));
        let j = choose|j: int| 0 <= j < order.take(i).len() && order.take(i)[j] == a;
        assert(order[j] == a);
        lemma_ordered_not_stuck(edges, order, stuck, j);
    }
}

// ---------------------------------------------------------------------------------------------
// Startup dependencies.
// ---------------------------------------------------------------------------------------------
/// The start operation a container start is lifted to: the start of the accepted pod the
/// container names, or the container's own start when it names no pod.
pub open spec fn start_anchor(rs: Seq<DeploymentResourceView>, c: ResourceIdView) -> Option<OperationIdView> {
    match lookup(rs, c) {
        Some(DeploymentResourceView::Container(ci)) => match ci.pod {
            Some(p) => match lookup(rs, p) {
                Some(DeploymentResourceView::Pod(_)) => Some(OperationIdView { action: SemanticOperationAction::StartPod, resource: p }),
                _ => None,
            },
            None => Some(OperationIdView { action: SemanticOperationAction::StartContainer, resource: c }),
        },
        _ => None,
    }
}

/// Both ends of a startup dependency lift to the start of the same pod.
pub open spec fn same_pod_dependency(rs: Seq<DeploymentResourceView>, d: StartupDependencyView) -> bool {
    match (start_anchor(rs, d.predecessor), start_anchor(rs, d.dependent)) {
        (Some(a), Some(b)) => a == b && a.action == SemanticOperationAction::StartPod,
        _ => false,
    }
}

/// The ordering edge a startup dependency contributes, if it is valid.
pub open spec fn startup_edge(rs: Seq<DeploymentResourceView>, d: StartupDependencyView) -> Option<(OperationIdView, OperationIdView)> {
    match (start_anchor(rs, d.predecessor), start_anchor(rs, d.dependent)) {
        (Some(a), Some(b)) => if a == b && a.action == SemanticOperationAction::StartPod {
            None
        } else {
            Some((a, b))
        },
        _ => None,
    }
}

/// The valid startup edges, each once, in input order.
pub open spec fn startup_edge_list(rs: Seq<DeploymentResourceView>, deps: Seq<StartupDependencyView>) -> Seq<(OperationIdView, OperationIdView)>
    decreases deps.len(),
{
    if deps.len() == 0 {
        Seq::empty()
    } else {
        let prev = startup_edge_list(rs, deps.drop_last());
        match startup_edge(rs, deps.last()) {
            Some(e) => if prev.contains(e) {
                prev
            } else {
                prev.push(e)
            },
            None => prev,
        }
    }
}

/// The dependency at position `k` contributes the same edge as an earlier one.
pub open spec fn repeated_edge(rs: Seq<DeploymentResourceView>, deps: Seq<StartupDependencyView>, k: int) -> bool {
    exists|j: int| 0 <= j < k && #[trigger] startup_edge(rs, deps[j]) == startup_edge(rs, deps[k])
}

/// A finding about the startup dependency at position `k`.
pub open spec fn edge_finding(code: DiagnosticCode, subject: ResourceIdView, related: ResourceIdView, k: int) -> PlanningFindingView {
    finding(code, Some(subject), seq![related], Some("startup_dependencies"@), Some((k + 1) as usize), None)
}

/// `f` reports a problem with the startup dependency at position `k`: an end that does not lift
/// to a start operation, two containers of one pod, or an edge already declared.
pub open spec fn startup_finding_at(rs: Seq<DeploymentResourceView>, deps: Seq<StartupDependencyView>, k: int, f: PlanningFindingView) -> bool {
    ||| start_anchor(rs, deps[k].predecessor) is None && f == edge_finding(
        DiagnosticCode::DeploymentUnresolvedPrerequisite,
        deps[k].predecessor,
        deps[k].dependent,
        k,
    )
    ||| start_anchor(rs, deps[k].dependent) is None && f == edge_finding(
        DiagnosticCode::DeploymentUnresolvedPrerequisite,
        deps[k].dependent,
        deps[k].predecessor,
        k,
    )
    ||| same_pod_dependency(rs, deps[k]) && f == edge_finding(
        DiagnosticCode::SamePodStartupDependency,
        deps[k].dependent,
        deps[k].predecessor,
        k,
    )
    ||| startup_edge(rs, deps[k]) is Some && repeated_edge(rs, deps, k) && f == edge_finding(
        DiagnosticCode::DeploymentDuplicateResource,
        deps[k].dependent,
        deps[k].predecessor,
        k,
    )
}

/// `f` reports a problem with some startup dependency.
pub open spec fn is_startup_finding(rs: Seq<DeploymentResourceView>, deps: Seq<StartupDependencyView>, f: PlanningFindingView) -> bool {
    exists|k: int| 0 <= k < deps.len() && #[trigger] startup_finding_at(rs, deps, k, f)
}

/// `x` is an end of some edge.
pub open spec fn graph_node(edges: Seq<(OperationIdView, OperationIdView)>, x: OperationIdView) -> bool {
    exists|e: (OperationIdView, OperationIdView)| #[trigger] edges.contains(e) && (e.0 == x || e.1 == x)
}

/// `rest` is what remains of the graph's operations after every operation that can be ordered
/// has been: the others can be ordered so that each follows its prerequisites, and every
/// operation of `rest` has a prerequisite in `rest`.
pub open spec fn cycle_remainder(edges: Seq<(OperationIdView, OperationIdView)>, rest: Seq<OperationIdView>) -> bool {
    exists|order: Seq<OperationIdView>|
        {
            &&& distinct(#[trigger] (order + rest))
            &&& forall|x: OperationIdView| #[trigger] (order + rest).contains(x) <==> graph_node(edges, x)
            &&& forall|i: int| 0 <= i < order.len() ==> #[trigger] ready(edges, order.take(i), order[i])
            &&& forall|x: OperationIdView| #[trigger] rest.contains(x) ==> blocked_within(edges, rest, x)
        }
}

/// The finding reporting the operations left on or behind a cycle, ordered by identity.
pub open spec fn cycle_finding(rest: Seq<OperationIdView>, field: Seq<char>) -> PlanningFindingView {
    finding(
        DiagnosticCode::DeploymentCycle,
        Some(rest[0].resource),
        rest.map_values(|o: OperationIdView| o.resource),
        Some(field),
        None,
        None,
    )
}

/// `f` reports the cycle of the graph `edges`, if it has one.
pub open spec fn is_cycle_finding(edges: Seq<(OperationIdView, OperationIdView)>, field: Seq<char>, f: PlanningFindingView) -> bool {
    exists|rest: Seq<OperationIdView>|
        keys_sorted::<DeploymentOperationId>(rest) && rest.len() > 0 && cycle_remainder(edges, rest) && f == #[trigger] cycle_finding(
            rest,
            field,
        )
}

proof fn lemma_startup_edge_list(rs: Seq<DeploymentResourceView>, deps: Seq<StartupDependencyView>, e: (OperationIdView, OperationIdView))
    ensures
        startup_edge_list(rs, deps).contains(e) <==> exists|j: int| 0 <= j < deps.len() && #[trigger] startup_edge(rs, deps[j]) == Some(e),
    decreases deps.len(),
{
    if deps.len() > 0 {
        let prev = deps.drop_last();
        lemma_startup_edge_list(rs, prev, e);
        match startup_edge(rs, deps.last()) {
            Some(x) => {
                if !startup_edge_list(rs, prev).contains(x) {
                    lemma_push_contains(startup_edge_list(rs, prev), x, e);
                }
            },
            None => {},
        }
        if e == startup_edge(rs, deps.last())->0 && startup_edge(rs, deps.last()) is Some {
            assert(startup_edge(rs, deps[deps.len() - 1]) == Some(e));
        }
        if exists|j: int| 0 <= j < deps.len() && #[trigger] startup_edge(rs, deps[j]) == Some(e) {
            let j = choose|j: int| 0 <= j < deps.len() && #[trigger] startup_edge(rs, deps[j]) == Some(e);
            if j < deps.len() - 1 {
                assert(startup_edge(rs, prev[j]) == Some(e));
            }
        }
        if exists|j: int| 0 <= j < prev.len() && #[trigger] startup_edge(rs, prev[j]) == Some(e) {
            let j = choose|j: int| 0 <= j < prev.len() && #[trigger] startup_edge(rs, prev[j]) == Some(e);
            assert(startup_edge(rs, deps[j]) == Some(e));
        }
    }
}

fn anchor_exec(resources: &[DeploymentResource], ids: &Vec<DeploymentResourceId>, c: &DeploymentResourceId) -> (r: Option<DeploymentOperationId>)
    requires
        indexes(views(resources@), views(ids@)),
    ensures
        opt_view(r) == start_anchor(views(resources@), c@),
{
    match lookup_exec(resources, ids, c) {
        Some(DeploymentResource::Container(ci)) => match ci.pod() {
            Some(p) => match lookup_exec(resources, ids, p) {
                Some(DeploymentResource::Pod(_)) => Some(DeploymentOperationId::new(SemanticOperationAction::StartPod, p.duplicate())),
                _ => None,
            },
            None => Some(DeploymentOperationId::new(SemanticOperationAction::StartContainer, c.duplicate())),
        },
        _ => None,
    }
}

fn contains_edge(edges: &Vec<DependencyEdge>, a: &DeploymentOperationId, b: &DeploymentOperationId) -> (r: bool)
    ensures
        r == edge_views(edges@).contains((a@, b@)),
{
    let mut i: usize = 0;
    while i < edges.len()
        invariant
            i <= edges.len(),
            forall|j: int| 0 <= j < i ==> edges@[j]@ != (a@, b@),
        decreases edges.len() - i,
    {
        if edges[i].from.same_value(a) && edges[i].to.same_value(b) {
            assert(edge_views(edges@)[i as int] == (a@, b@));
            return true;
        }
        i = i + 1;
    }
    proof {
        if edge_views(edges@).contains((a@, b@)) {
            let j = choose|j: int| 0 <= j < edge_views(edges@).len() && edge_views(edges@)[j] == (a@, b@);
            assert(edges@[j]@ == (a@, b@));
        }
    }
    false
}

fn dependency_finding(code: DiagnosticCode, subject: &DeploymentResourceId, related: &DeploymentResourceId, k: usize) -> (r: PlanningFinding)
    requires
        k < usize::MAX,
    ensures
        r@ == edge_finding(code, subject@, related@, k as int),
{
    let rel = vec![related.duplicate()];
    assert(crate::deployment::id_views(rel@) =~= seq![related@]);
    PlanningFinding::detailed(code, Some(subject.duplicate()), rel, Some("startup_dependencies"), Some(k + 1), None)
}

/// Checks every startup dependency and collects the valid, distinct ordering edges.
#[verifier::spinoff_prover]
fn check_startup_dependencies(
    resources: &[DeploymentResource],
    ids: &Vec<DeploymentResourceId>,
    deps: &[StartupDependency],
    findings: &mut Vec<PlanningFinding>,
) -> (edges: Vec<DependencyEdge>)
    requires
        indexes(views(resources@), views(ids@)),
    ensures
        forall|g: PlanningFindingView|
            #[trigger] finding_views(final(findings)@).contains(g) <==> (finding_views(old(findings)@).contains(g)
                || is_startup_finding(views(resources@), views(deps@), g)),
        edge_views(edges@) == startup_edge_list(views(resources@), views(deps@)),
{
    let ghost rs = views(resources@);
    let ghost ds = views(deps@);
    let ghost start = finding_views(findings@);
    let mut edges: Vec<DependencyEdge> = Vec::new();
    assert(edge_views(edges@) =~= startup_edge_list(rs, ds.take(0)));
    let mut k: usize = 0;
    while k < deps.len()
        invariant
            k <= deps.len(),
            rs == views(resources@),
            ds == views(deps@),
            indexes(rs, views(ids@)),
            start == finding_views(old(findings)@),
            forall|g: PlanningFindingView|
                #[trigger] finding_views(findings@).contains(g) <==> (start.contains(g) || exists|i: int|
                    0 <= i < k && #[trigger] startup_finding_at(rs, ds, i, g)),
            edge_views(edges@) == startup_edge_list(rs, ds.take(k as int)),
        decreases deps.len() - k,
    {
        let d = &deps[k];
        assert(ds[k as int] == d@);
        let ghost s0 = finding_views(findings@);
        let a = anchor_exec(resources, ids, d.predecessor());
        let b = anchor_exec(resources, ids, d.dependent());
        let ghost f1 = edge_finding(DiagnosticCode::DeploymentUnresolvedPrerequisite, d@.predecessor, d@.dependent, k as int);
        let ghost f2 = edge_finding(DiagnosticCode::DeploymentUnresolvedPrerequisite, d@.dependent, d@.predecessor, k as int);
        let ghost f3 = edge_finding(DiagnosticCode::SamePodStartupDependency, d@.dependent, d@.predecessor, k as int);
        let ghost f4 = edge_finding(DiagnosticCode::DeploymentDuplicateResource, d@.dependent, d@.predecessor, k as int);
        let a_missing = a.is_none();
        if a_missing {
            push_finding(findings, dependency_finding(DiagnosticCode::DeploymentUnresolvedPrerequisite, d.predecessor(), d.dependent(), k));
        }
        let ghost s1 = finding_views(findings@);
        let b_missing = b.is_none();
        if b_missing {
            push_finding(findings, dependency_finding(DiagnosticCode::DeploymentUnresolvedPrerequisite, d.dependent(), d.predecessor(), k));
        }
        let ghost s2 = finding_views(findings@);
        let ghost edges_before = edge_views(edges@);
        let mut same_pod = false;
        let mut repeated = false;
        match (a, b) {
            (Some(x), Some(y)) => {
                if x.same_value(&y) && x.action() == SemanticOperationAction::StartPod {
                    same_pod = true;
                    push_finding(findings, dependency_finding(DiagnosticCode::SamePodStartupDependency, d.dependent(), d.predecessor(), k));
                } else if contains_edge(&edges, &x, &y) {
                    repeated = true;
                    push_finding(findings, dependency_finding(DiagnosticCode::DeploymentDuplicateResource, d.dependent(), d.predecessor(), k));
                } else {
                    let ghost e = (x@, y@);
                    edges.push(DependencyEdge::new(x, y));
                    assert(edge_views(edges@) =~= edges_before.push(e));
                }
            },
            _ => {},
        }
        proof {
            assert(same_pod == same_pod_dependency(rs, ds[k as int]));
            let ghost this_edge = startup_edge(rs, ds[k as int]);
            assert(repeated <==> (this_edge is Some && repeated_edge(rs, ds, k as int))) by {
                if this_edge is Some {
                    let e = this_edge.unwrap();
                    lemma_startup_edge_list(rs, ds.take(k as int), e);
                    if repeated_edge(rs, ds, k as int) {
                        let j = choose|j: int| 0 <= j < k && #[trigger] startup_edge(rs, ds[j]) == startup_edge(rs, ds[k as int]);
                        assert(startup_edge(rs, ds.take(k as int)[j]) == Some(e));
                        assert(edges_before.contains(e));
                    }
                    if edges_before.contains(e) {
                        let j = choose|j: int| 0 <= j < k && #[trigger] startup_edge(rs, ds.take(k as int)[j]) == Some(e);
                        assert(startup_edge(rs, ds[j]) == Some(e));
                        assert(repeated_edge(rs, ds, k as int));
                    }
                }
            }
            assert forall|g: PlanningFindingView| #[trigger] finding_views(findings@).contains(g) <==> (start.contains(g) || exists|i: int|
                0 <= i < k + 1 && #[trigger] startup_finding_at(rs, ds, i, g)) by {
                assert(s0.contains(g) <==> (start.contains(g) || exists|i: int| 0 <= i < k && #[trigger] startup_finding_at(rs, ds, i, g)));
                assert(s1.contains(g) <==> (s0.contains(g) || (a_missing && g == f1)));
                assert(s2.contains(g) <==> (s1.contains(g) || (b_missing && g == f2)));
                assert(finding_views(findings@).contains(g) <==> (s2.contains(g) || (same_pod && g == f3) || (repeated && g == f4)));
                if exists|i: int| 0 <= i < k + 1 && #[trigger] startup_finding_at(rs, ds, i, g) {
                    let i = choose|i: int| 0 <= i < k + 1 && #[trigger] startup_finding_at(rs, ds, i, g);
                    if i < k {
                        assert(s0.contains(g));
                    }
                }
                if finding_views(findings@).contains(g) && !s0.contains(g) {
                    assert(startup_finding_at(rs, ds, k as int, g));
                }
            }
            assert(ds.take(k + 1).drop_last() =~= ds.take(k as int));
            assert(ds.take(k + 1).last() == ds[k as int]);
            assert(edge_views(edges@) == startup_edge_list(rs, ds.take(k + 1)));
        }
        k = k + 1;
    }
    assert(ds.take(deps.len() as int) =~= ds);
    edges
}

// ---------------------------------------------------------------------------------------------
// Cycles.
// ---------------------------------------------------------------------------------------------
fn graph_nodes(edges: &Vec<DependencyEdge>) -> (r: Vec<DeploymentOperationId>)
    ensures
        distinct(views(r@)),
        forall|x: OperationIdView| #[trigger] views(r@).contains(x) <==> graph_node(edge_views(edges@), x),
{
    let ghost es = edge_views(edges@);
    let mut out: Vec<DeploymentOperationId> = Vec::new();
    let mut i: usize = 0;
    while i < edges.len()
        invariant
            i <= edges.len(),
            es == edge_views(edges@),
            distinct(views(out@)),
            forall|x: OperationIdView| #[trigger] views(out@).contains(x) <==> exists|j: int|
                0 <= j < i && (es[j].0 == x || es[j].1 == x),
        decreases edges.len() - i,
    {
        assert(es[i as int] == edges@[i as int]@);
        let ghost o0 = views(out@);
        if !contains_op(&out, &edges[i].from) {
            proof {
                lemma_distinct_push(views(out@), edges@[i as int].from@);
            }
            out.push(edges[i].from.duplicate());
            assert(views(out@) =~= o0.push(es[i as int].0));
        }
        let ghost o1 = views(out@);
        if !contains_op(&out, &edges[i].to) {
            proof {
                lemma_distinct_push(views(out@), edges@[i as int].to@);
            }
            out.push(edges[i].to.duplicate());
            assert(views(out@) =~= o1.push(es[i as int].1));
        }
        proof {
            assert forall|x: OperationIdView| #[trigger] views(out@).contains(x) <==> exists|j: int|
                0 <= j < i + 1 && (es[j].0 == x || es[j].1 == x) by {
                lemma_push_contains(o0, es[i as int].0, x);
                lemma_push_contains(o1, es[i as int].1, x);
                assert(o0.contains(x) <==> exists|j: int| 0 <= j < i && (es[j].0 == x || es[j].1 == x));
                if exists|j: int| 0 <= j < i + 1 && (es[j].0 == x || es[j].1 == x) {
                    let j = choose|j: int| 0 <= j < i + 1 && (es[j].0 == x || es[j].1 == x);
                    if j < i {
                        assert(o0.contains(x));
                    }
                }
            }
        }
        i = i + 1;
    }
    proof {
        assert forall|x: OperationIdView| #[trigger] views(out@).contains(x) <==> graph_node(es, x) by {
            if views(out@).contains(x) {
                let j = choose|j: int| 0 <= j < es.len() && (es[j].0 == x || es[j].1 == x);
                assert(es.contains(es[j]));
            }
            if graph_node(es, x) {
                let e = choose|e: (OperationIdView, OperationIdView)| #[trigger] es.contains(e) && (e.0 == x || e.1 == x);
                let j = choose|j: int| 0 <= j < es.len() && es[j] == e;
            }
        }
    }
    out
}

proof fn lemma_distinct_suffix<T>(a: Seq<T>, b: Seq<T>)
    requires
        distinct(a + b),
    ensures
        distinct(b),
        distinct(a),
        forall|x: T| a.contains(x) ==> !b.contains(x),
{
    assert forall|i: int, j: int| 0 <= i < j < b.len() implies b[i] != b[j] by {
        assert((a + b)[a.len() + i] == b[i]);
        assert((a + b)[a.len() + j] == b[j]);
    }
    assert forall|i: int, j: int| 0 <= i < j < a.len() implies a[i] != a[j] by {
        assert((a + b)[i] == a[i]);
        assert((a + b)[j] == a[j]);
    }
    assert forall|x: T| a.contains(x) implies !b.contains(x) by {
        if b.contains(x) {
            let i = choose|i: int| 0 <= i < a.len() && a[i] == x;
            let j = choose|j: int| 0 <= j < b.len() && b[j] == x;
            assert((a + b)[i] == x);
            assert((a + b)[a.len() + j] == x);
        }
    }
}

proof fn lemma_distinct_concat<T>(a: Seq<T>, c: Seq<T>)
    requires
        distinct(a),
        distinct(c),
        forall|x: T| a.contains(x) ==> !c.contains(x),
    ensures
        distinct(a + c),
{
    assert forall|i: int, j: int| 0 <= i < j < (a + c).len() implies (a + c)[i] != (a + c)[j] by {
        if i < a.len() && j >= a.len() {
            assert(a.contains(a[i]));
            assert(c[j - a.len()] == (a + c)[j]);
        } else if i >= a.len() {
            assert((a + c)[i] == c[i - a.len()]);
            assert((a + c)[j] == c[j - a.len()]);
        }
    }
}

/// The identities of a sequence of operations.
pub open spec fn op_resources(s: Seq<OperationIdView>) -> Seq<ResourceIdView> {
    s.map_values(|o: OperationIdView| o.resource)
}

fn resources_of(ops: &Vec<DeploymentOperationId>) -> (r: Vec<DeploymentResourceId>)
    ensures
        id_views(r@) == op_resources(views(ops@)),
{
    let mut out: Vec<DeploymentResourceId> = Vec::new();
    let mut i: usize = 0;
    while i < ops.len()
        invariant
            i <= ops.len(),
            id_views(out@) == op_resources(views(ops@)).take(i as int),
        decreases ops.len() - i,
    {
        let ghost before = id_views(out@);
        let r = ops[i].resource().duplicate();
        assert(views(ops@)[i as int] == ops@[i as int]@);
        assert(r@ == op_resources(views(ops@))[i as int]);
        out.push(r);
        assert(id_views(out@) =~= before.push(r@));
        assert(op_resources(views(ops@)).take(i + 1) =~= op_resources(views(ops@)).take(i as int).push(r@));
        i = i + 1;
    }
    assert(op_resources(views(ops@)).take(ops.len() as int) =~= op_resources(views(ops@)));
    out
}

/// `order` arranges every operation of the graph after its prerequisites.
pub open spec fn acyclic_order(edges: Seq<(OperationIdView, OperationIdView)>, order: Seq<OperationIdView>) -> bool {
    &&& forall|x: OperationIdView| #[trigger] order.contains(x) <==> graph_node(edges, x)
    &&& forall|i: int| 0 <= i < order.len() ==> #[trigger] ready(edges, order.take(i), order[i])
}

/// Reports the operations of `edges` that cannot be ordered, if any.
#[verifier::spinoff_prover]
#[verifier::rlimit(40)]
fn check_cycle(edges: &Vec<DependencyEdge>, field: &'static str, findings: &mut Vec<PlanningFinding>)
    ensures
        forall|g: PlanningFindingView|
            #[trigger] finding_views(final(findings)@).contains(g) <==> (finding_views(old(findings)@).contains(g)
                || is_cycle_finding(edge_views(edges@), field@, g)),
        (exists|g: PlanningFindingView| is_cycle_finding(edge_views(edges@), field@, g)) || exists|o: Seq<OperationIdView>|
            acyclic_order(edge_views(edges@), o),
{
    let ghost es = edge_views(edges@);
    let nodes = graph_nodes(edges);
    let (order, rest) = schedule(&nodes, edges);
    let ghost ov = views(order@);
    let ghost rv = views(rest@);
    proof {
        lemma_distinct_suffix(ov, rv);
        lemma_concat_contains_all(ov, rv);
        assert forall|x: OperationIdView| #[trigger] rv.contains(x) implies blocked_within(es, rv, x) by {
            assert(!ready(es, ov, x));
            let a = choose|a: OperationIdView| #[trigger] es.contains((a, x)) && !ov.contains(a);
            assert(graph_node(es, a)) by {
                assert(es.contains((a, x)));
            }
            assert(views(nodes@).contains(a));
            assert((ov + rv).contains(a));
            reveal(blocked_within);
        }
    }
    let ghost before = finding_views(findings@);
    if rest.len() > 0 {
        let sorted = crate::order::sort_distinct(rest);
        let ghost sv = views(sorted@);
        proof {
            lemma_distinct_concat(ov, sv);
            assert forall|x: OperationIdView| #[trigger] (ov + sv).contains(x) <==> graph_node(es, x) by {
                lemma_concat_contains(ov, sv, x);
                lemma_concat_contains(ov, rv, x);
            }
            assert forall|x: OperationIdView| #[trigger] sv.contains(x) implies blocked_within(es, sv, x) by {
                reveal(blocked_within);
                assert(blocked_within(es, rv, x));
                let a = choose|a: OperationIdView| #[trigger] es.contains((a, x)) && rv.contains(a);
                assert(sv.contains(a));
            }
            assert(cycle_remainder(es, sv)) by {
                assert(distinct(ov + sv));
            }
            assert(sv.contains(rv[0]));
        }
        let related = resources_of(&sorted);
        let subject = sorted[0].resource().duplicate();
        let f = PlanningFinding::detailed(DiagnosticCode::DeploymentCycle, Some(subject), related, Some(field), None, None);
        assert(f@ == cycle_finding(sv, field@));
        push_finding(findings, f);
        proof {
            assert(is_cycle_finding(es, field@, cycle_finding(sv, field@)));
            assert forall|g: PlanningFindingView| #[trigger] finding_views(findings@).contains(g) <==> (before.contains(g)
                || is_cycle_finding(es, field@, g)) by {
                if is_cycle_finding(es, field@, g) {
                    let r2 = choose|r2: Seq<OperationIdView>|
                        keys_sorted::<DeploymentOperationId>(r2) && r2.len() > 0 && cycle_remainder(es, r2) && g == #[trigger] cycle_finding(r2, field@);
                    lemma_remainder_unique(es, ov, sv, r2);
                }
            }
        }
    } else {
        proof {
            assert(ov + rv =~= ov);
            assert(acyclic_order(es, ov));
            assert forall|g: PlanningFindingView| !is_cycle_finding(es, field@, g) by {
                if is_cycle_finding(es, field@, g) {
                    let r2 = choose|r2: Seq<OperationIdView>|
                        keys_sorted::<DeploymentOperationId>(r2) && r2.len() > 0 && cycle_remainder(es, r2) && g == #[trigger] cycle_finding(r2, field@);
                    lemma_remainder_within(es, ov, rv, r2);
                    assert(r2.contains(r2[0]));
                    assert(rv.contains(r2[0]));
                }
            }
        }
    }
}

proof fn lemma_concat_contains_all<T>(a: Seq<T>, b: Seq<T>)
    ensures
        forall|x: T| #[trigger] (a + b).contains(x) <==> (a.contains(x) || b.contains(x)),
{
    assert forall|x: T| #[trigger] (a + b).contains(x) <==> (a.contains(x) || b.contains(x)) by {
        lemma_concat_contains(a, b, x);
    }
}

/// A stuck remainder lies within the operations an ordering leaves behind.
proof fn lemma_remainder_within(
    es: Seq<(OperationIdView, OperationIdView)>,
    ov: Seq<OperationIdView>,
    rv: Seq<OperationIdView>,
    r2: Seq<OperationIdView>,
)
    requires
        forall|x: OperationIdView| #[trigger] (ov + rv).contains(x) <==> graph_node(es, x),
        forall|i: int| 0 <= i < ov.len() ==> ready(es, ov.take(i), #[trigger] ov[i]),
        cycle_remainder(es, r2),
    ensures
        forall|x: OperationIdView| #[trigger] r2.contains(x) ==> rv.contains(x),
{
    let o2 = choose|o2: Seq<OperationIdView>|
        {
            &&& distinct(#[trigger] (o2 + r2))
            &&& forall|x: OperationIdView| #[trigger] (o2 + r2).contains(x) <==> graph_node(es, x)
            &&& forall|i: int| 0 <= i < o2.len() ==> #[trigger] ready(es, o2.take(i), o2[i])
            &&& forall|x: OperationIdView| #[trigger] r2.contains(x) ==> blocked_within(es, r2, x)
        };
    assert forall|x: OperationIdView| #[trigger] r2.contains(x) implies rv.contains(x) by {
        lemma_concat_contains(o2, r2, x);
        lemma_concat_contains(ov, rv, x);
        if ov.contains(x) {
            let i = choose|i: int| 0 <= i < ov.len() && ov[i] == x;
            lemma_ordered_not_stuck(es, ov, r2, i);
        }
    }
}

/// The stuck remainder of a graph is unique once sorted.
proof fn lemma_remainder_unique(
    es: Seq<(OperationIdView, OperationIdView)>,
    ov: Seq<OperationIdView>,
    sv: Seq<OperationIdView>,
    r2: Seq<OperationIdView>,
)
    requires
        forall|x: OperationIdView| #[trigger] (ov + sv).contains(x) <==> graph_node(es, x),
        forall|i: int| 0 <= i < ov.len() ==> ready(es, ov.take(i), #[trigger] ov[i]),
        forall|x: OperationIdView| #[trigger] sv.contains(x) ==> blocked_within(es, sv, x),
        keys_sorted::<DeploymentOperationId>(sv),
        distinct(sv),
        keys_sorted::<DeploymentOperationId>(r2),
        cycle_remainder(es, r2),
    ensures
        r2 == sv,
{
    lemma_remainder_within(es, ov, sv, r2);
    let o2 = choose|o2: Seq<OperationIdView>|
        {
            &&& distinct(#[trigger] (o2 + r2))
            &&& forall|x: OperationIdView| #[trigger] (o2 + r2).contains(x) <==> graph_node(es, x)
            &&& forall|i: int| 0 <= i < o2.len() ==> #[trigger] ready(es, o2.take(i), o2[i])
            &&& forall|x: OperationIdView| #[trigger] r2.contains(x) ==> blocked_within(es, r2, x)
        };
    lemma_distinct_suffix(o2, r2);
    assert forall|x: OperationIdView| sv.contains(x) <==> r2.contains(x) by {
        if sv.contains(x) {
            lemma_concat_contains(ov, sv, x);
            lemma_concat_contains(o2, r2, x);
            if o2.contains(x) {
                let i = choose|i: int| 0 <= i < o2.len() && o2[i] == x;
                lemma_ordered_not_stuck(es, o2, sv, i);
            }
        }
    }
    lemma_sorted_ops_unique(sv, r2);
}

// ---------------------------------------------------------------------------------------------
// The operation graph.
// ---------------------------------------------------------------------------------------------
/// The creation of an identity.
pub open spec fn create_op(id: ResourceIdView) -> OperationIdView {
    OperationIdView { action: SemanticOperationAction::Create, resource: id }
}

/// `id` is not declared as an external precondition.
pub open spec fn is_managed(rs: Seq<DeploymentResourceView>, id: ResourceIdView) -> bool {
    !(lookup(rs, id) matches Some(DeploymentResourceView::ExternalPrecondition(_)))
}

/// `x` creates one of the managed identities of `refs`.
pub open spec fn creates_one_of(rs: Seq<DeploymentResourceView>, refs: Seq<ResourceIdView>, x: OperationIdView) -> bool {
    exists|k: int| 0 <= k < refs.len() && is_managed(rs, refs[k]) && x == create_op(#[trigger] refs[k])
}

/// `x` must run before the declaration `r` is created: the creation of every managed network,
/// volume, secret, and pod it references, and the acquisition of its managed image.
pub open spec fn create_dep(rs: Seq<DeploymentResourceView>, r: DeploymentResourceView, x: OperationIdView) -> bool {
    match r {
        DeploymentResourceView::Pod(p) => creates_one_of(rs, p.networks, x) || creates_one_of(rs, mount_sources(p.infra_mounts), x),
        DeploymentResourceView::Container(c) => {
            ||| is_managed(rs, c.image) && x == (OperationIdView { action: SemanticOperationAction::EnsureImage, resource: c.image })
            ||| (c.pod matches Some(pp) && is_managed(rs, pp) && x == create_op(pp))
            ||| creates_one_of(rs, c.networks, x)
            ||| creates_one_of(rs, mount_sources(c.mounts), x)
            ||| creates_one_of(rs, c.secrets, x)
        },
        _ => false,
    }
}

/// The first operation of a managed declaration: acquiring an image, creating anything else.
pub open spec fn first_action(id: ResourceIdView) -> SemanticOperationAction {
    if id.kind == ResourceKind::Image {
        SemanticOperationAction::EnsureImage
    } else {
        SemanticOperationAction::Create
    }
}

/// `n` is an operation of the plan: the first operation of every accepted managed declaration,
/// the start of every pod with members, and the start of every container outside a pod.
#[verifier::opaque]
pub open spec fn plan_node(rs: Seq<DeploymentResourceView>, n: OperationIdView) -> bool {
    &&& accepted(rs, n.resource)
    &&& !(entry(rs, n.resource) is ExternalPrecondition)
    &&& {
        ||| n.action == first_action(n.resource)
        ||| n.action == SemanticOperationAction::StartPod && (entry(rs, n.resource) matches DeploymentResourceView::Pod(p)
            && p.members.len() > 0)
        ||| n.action == SemanticOperationAction::StartContainer && (entry(rs, n.resource) matches DeploymentResourceView::Container(
            c,
        ) && c.pod is None)
    }
}

/// `x` must run before the plan operation `n`.
pub open spec fn plan_dep(
    rs: Seq<DeploymentResourceView>,
    deps: Seq<StartupDependencyView>,
    n: OperationIdView,
    x: OperationIdView,
) -> bool {
    if n.action == SemanticOperationAction::StartPod {
        ||| x == create_op(n.resource)
        ||| (entry(rs, n.resource) matches DeploymentResourceView::Pod(p) && creates_one_of(rs, p.members, x))
        ||| startup_edge_list(rs, deps).contains((x, n))
    } else if n.action == SemanticOperationAction::StartContainer {
        ||| x == create_op(n.resource)
        ||| startup_edge_list(rs, deps).contains((x, n))
    } else {
        create_dep(rs, entry(rs, n.resource), x)
    }
}

/// Every operation `n` depends on is among `done`.
pub open spec fn plan_ready(
    rs: Seq<DeploymentResourceView>,
    deps: Seq<StartupDependencyView>,
    done: Seq<OperationIdView>,
    n: OperationIdView,
) -> bool {
    forall|x: OperationIdView| #[trigger] plan_dep(rs, deps, n, x) ==> done.contains(x)
}

fn managed_exec(resources: &[DeploymentResource], ids: &Vec<DeploymentResourceId>, id: &DeploymentResourceId) -> (r: bool)
    requires
        indexes(views(resources@), views(ids@)),
    ensures
        r == is_managed(views(resources@), id@),
{
    match lookup_exec(resources, ids, id) {
        Some(DeploymentResource::ExternalPrecondition(_)) => false,
        _ => true,
    }
}

fn add_op(out: &mut Vec<DeploymentOperationId>, op: DeploymentOperationId)
    ensures
        forall|x: OperationIdView| #[trigger] views(final(out)@).contains(x) <==> (views(old(out)@).contains(x) || x == op@),
{
    let ghost before = views(out@);
    let ghost v = op@;
    out.push(op);
    assert(views(out@) =~= before.push(v));
    assert forall|x: OperationIdView| #[trigger] views(out@).contains(x) <==> (before.contains(x) || x == v) by {
        lemma_push_contains(before, v, x);
    }
}

fn add_creations(
    resources: &[DeploymentResource],
    ids: &Vec<DeploymentResourceId>,
    refs: &[DeploymentResourceId],
    out: &mut Vec<DeploymentOperationId>,
)
    requires
        indexes(views(resources@), views(ids@)),
    ensures
        forall|x: OperationIdView|
            #[trigger] views(final(out)@).contains(x) <==> (views(old(out)@).contains(x) || creates_one_of(
                views(resources@),
                id_views(refs@),
                x,
            )),
{
    let ghost rs = views(resources@);
    let ghost s = id_views(refs@);
    let ghost start = views(out@);
    let mut k: usize = 0;
    while k < refs.len()
        invariant
            k <= refs.len(),
            rs == views(resources@),
            s == id_views(refs@),
            indexes(rs, views(ids@)),
            start == views(old(out)@),
            forall|x: OperationIdView| #[trigger] views(out@).contains(x) <==> (start.contains(x) || exists|i: int|
                0 <= i < k && is_managed(rs, s[i]) && x == create_op(#[trigger] s[i])),
        decreases refs.len() - k,
    {
        let ghost before = views(out@);
        let managed = managed_exec(resources, ids, &refs[k]);
        assert(s[k as int] == refs@[k as int]@);
        if managed {
            add_op(out, DeploymentOperationId::new(SemanticOperationAction::Create, refs[k].duplicate()));
        }
        assert forall|x: OperationIdView| #[trigger] views(out@).contains(x) <==> (start.contains(x) || exists|i: int|
            0 <= i < k + 1 && is_managed(rs, s[i]) && x == create_op(#[trigger] s[i])) by {
            assert(views(out@).contains(x) <==> (before.contains(x) || (managed && x == create_op(s[k as int]))));
            assert(before.contains(x) <==> (start.contains(x) || exists|i: int|
                0 <= i < k && is_managed(rs, s[i]) && x == create_op(#[trigger] s[i])));
            if exists|i: int| 0 <= i < k + 1 && is_managed(rs, s[i]) && x == create_op(#[trigger] s[i]) {
                let i = choose|i: int| 0 <= i < k + 1 && is_managed(rs, s[i]) && x == create_op(#[trigger] s[i]);
                if i < k {
                    assert(before.contains(x));
                }
            }
        }
        k = k + 1;
    }
}

fn mount_source_ids(mounts: &[NamedVolumeMount]) -> (r: Vec<DeploymentResourceId>)
    ensures
        id_views(r@) == mount_sources(mount_views(mounts@)),
{
    let mut out: Vec<DeploymentResourceId> = Vec::new();
    let mut i: usize = 0;
    while i < mounts.len()
        invariant
            i <= mounts.len(),
            id_views(out@) == mount_sources(mount_views(mounts@)).take(i as int),
        decreases mounts.len() - i,
    {
        let ghost before = id_views(out@);
        let src = mounts[i].source().duplicate();
        assert(src@ == mount_sources(mount_views(mounts@))[i as int]);
        out.push(src);
        assert(id_views(out@) =~= before.push(src@));
        assert(mount_sources(mount_views(mounts@)).take(i + 1) =~= mount_sources(mount_views(mounts@)).take(i as int).push(src@));
        i = i + 1;
    }
    assert(mount_sources(mount_views(mounts@)).take(mounts.len() as int) =~= mount_sources(mount_views(mounts@)));
    out
}

fn create_dependencies(resources: &[DeploymentResource], ids: &Vec<DeploymentResourceId>, resource: &DeploymentResource) -> (r: Vec<
    DeploymentOperationId,
>)
    requires
        indexes(views(resources@), views(ids@)),
    ensures
        forall|x: OperationIdView| #[trigger] views(r@).contains(x) <==> create_dep(views(resources@), resource@, x),
{
    let ghost rs = views(resources@);
    let mut out: Vec<DeploymentOperationId> = Vec::new();
    assert(views(out@) =~= Seq::<OperationIdView>::empty());
    match resource {
        DeploymentResource::Pod(pod) => {
            add_creations(resources, ids, pod.networks(), &mut out);
            let ghost s1 = views(out@);
            let sources = mount_source_ids(pod.infra_mounts());
            add_creations(resources, ids, sources.as_slice(), &mut out);
            assert forall|x: OperationIdView| #[trigger] views(out@).contains(x) <==> create_dep(rs, resource@, x) by {
                assert(s1.contains(x) <==> creates_one_of(rs, pod@.networks, x));
            }
        },
        DeploymentResource::Container(container) => {
            let c = Ghost(container@);
            let image = container.image();
            if managed_exec(resources, ids, image) {
                add_op(&mut out, DeploymentOperationId::new(SemanticOperationAction::EnsureImage, image.duplicate()));
            }
            let ghost s1 = views(out@);
            match container.pod() {
                Some(p) => {
                    if managed_exec(resources, ids, p) {
                        add_op(&mut out, DeploymentOperationId::new(SemanticOperationAction::Create, p.duplicate()));
                    }
                },
                None => {},
            }
            let ghost s2 = views(out@);
            add_creations(resources, ids, container.networks(), &mut out);
            let ghost s3 = views(out@);
            let sources = mount_source_ids(container.mounts());
            add_creations(resources, ids, sources.as_slice(), &mut out);
            let ghost s4 = views(out@);
            add_creations(resources, ids, container.secrets(), &mut out);
            assert forall|x: OperationIdView| #[trigger] views(out@).contains(x) <==> create_dep(rs, resource@, x) by {
                assert(s1.contains(x) <==> (is_managed(rs, c@.image) && x == (OperationIdView {
                    action: SemanticOperationAction::EnsureImage,
                    resource: c@.image,
                })));
                assert(s2.contains(x) <==> (s1.contains(x) || (c@.pod matches Some(pp) && is_managed(rs, pp) && x == create_op(pp))));
                assert(s3.contains(x) <==> (s2.contains(x) || creates_one_of(rs, c@.networks, x)));
                assert(s4.contains(x) <==> (s3.contains(x) || creates_one_of(rs, mount_sources(c@.mounts), x)));
            }
        },
        _ => {},
    }
    out
}

/// The first operation of the accepted managed declaration of `id`.
#[verifier::opaque]
pub open spec fn first_node_of(rs: Seq<DeploymentResourceView>, id: ResourceIdView, x: OperationIdView) -> bool {
    accepted(rs, id) && !(entry(rs, id) is ExternalPrecondition) && x == (OperationIdView { action: first_action(id), resource: id })
}

/// The start operation of the accepted declaration of `id`, when it has one.
#[verifier::opaque]
pub open spec fn start_node_of(rs: Seq<DeploymentResourceView>, id: ResourceIdView, x: OperationIdView) -> bool {
    &&& accepted(rs, id)
    &&& {
        ||| x == (OperationIdView { action: SemanticOperationAction::StartPod, resource: id }) && (entry(
            rs,
            id,
        ) matches DeploymentResourceView::Pod(p) && p.members.len() > 0)
        ||| x == (OperationIdView { action: SemanticOperationAction::StartContainer, resource: id }) && (entry(
            rs,
            id,
        ) matches DeploymentResourceView::Container(c) && c.pod is None)
    }
}

fn add_predecessors(edges: &Vec<DependencyEdge>, node: &DeploymentOperationId, out: &mut Vec<DeploymentOperationId>)
    ensures
        forall|x: OperationIdView|
            #[trigger] views(final(out)@).contains(x) <==> (views(old(out)@).contains(x) || edge_views(edges@).contains((x, node@))),
{
    let ghost es = edge_views(edges@);
    let ghost start = views(out@);
    let mut i: usize = 0;
    while i < edges.len()
        invariant
            i <= edges.len(),
            es == edge_views(edges@),
            start == views(old(out)@),
            forall|x: OperationIdView| #[trigger] views(out@).contains(x) <==> (start.contains(x) || exists|j: int|
                0 <= j < i && #[trigger] es[j] == (x, node@)),
        decreases edges.len() - i,
    {
        let ghost before = views(out@);
        assert(es[i as int] == edges@[i as int]@);
        let hit = edges[i].to.same_value(node);
        if hit {
            add_op(out, edges[i].from.duplicate());
        }
        assert forall|x: OperationIdView| #[trigger] views(out@).contains(x) <==> (start.contains(x) || exists|j: int|
            0 <= j < i + 1 && #[trigger] es[j] == (x, node@)) by {
            assert(views(out@).contains(x) <==> (before.contains(x) || (hit && x == es[i as int].0)));
            if exists|j: int| 0 <= j < i + 1 && #[trigger] es[j] == (x, node@) {
                let j = choose|j: int| 0 <= j < i + 1 && #[trigger] es[j] == (x, node@);
                if j < i {
                    assert(before.contains(x));
                }
            }
        }
        i = i + 1;
    }
    assert forall|x: OperationIdView| #[trigger] views(out@).contains(x) <==> (start.contains(x) || es.contains((x, node@))) by {
        if es.contains((x, node@)) {
            let j = choose|j: int| 0 <= j < es.len() && es[j] == (x, node@);
        }
    }
}

/// The prerequisites recorded for each node are exactly its plan dependencies.
pub open spec fn deps_recorded(
    rs: Seq<DeploymentResourceView>,
    ds: Seq<StartupDependencyView>,
    nodes: Seq<DeploymentOperationId>,
    lists: Seq<Vec<DeploymentOperationId>>,
) -> bool {
    &&& nodes.len() == lists.len()
    &&& forall|j: int, x: OperationIdView|
        #![trigger views(lists[j]@).contains(x)]
        0 <= j < nodes.len() ==> (views(lists[j]@).contains(x) <==> plan_dep(rs, ds, nodes[j]@, x))
}

proof fn lemma_node_kinds(rs: Seq<DeploymentResourceView>, id: ResourceIdView, x: OperationIdView)
    ensures
        first_node_of(rs, id, x) ==> x.resource == id && accepted(rs, id) && x.action != SemanticOperationAction::StartPod
            && x.action != SemanticOperationAction::StartContainer,
        start_node_of(rs, id, x) ==> x.resource == id && accepted(rs, id) && (x.action == SemanticOperationAction::StartPod
            || x.action == SemanticOperationAction::StartContainer),
        plan_node(rs, x) <==> (first_node_of(rs, x.resource, x) || start_node_of(rs, x.resource, x)),
        first_node_of(rs, id, x) ==> x == (OperationIdView { action: first_action(id), resource: id }),
{
    reveal(first_node_of);
    reveal(start_node_of);
    reveal(plan_node);
}

proof fn lemma_start_node_unique(rs: Seq<DeploymentResourceView>, id: ResourceIdView, x: OperationIdView, y: OperationIdView)
    requires
        start_node_of(rs, id, x),
        start_node_of(rs, id, y),
    ensures
        x == y,
{
    reveal(start_node_of);
}

/// The first operation of the accepted declaration at position `i` of `ids`, with its
/// prerequisites, unless it is an external precondition.
fn first_node(resources: &[DeploymentResource], ids: &Vec<DeploymentResourceId>, deps: &[StartupDependency], i: usize) -> (r: Option<
    (DeploymentOperationId, Vec<DeploymentOperationId>),
>)
    requires
        indexes(views(resources@), views(ids@)),
        i < ids.len(),
    ensures
        match r {
            Some((n, l)) => first_node_of(views(resources@), views(ids@)[i as int], n@) && forall|x: OperationIdView|
                #[trigger] views(l@).contains(x) <==> plan_dep(views(resources@), views(deps@), n@, x),
            None => forall|x: OperationIdView| !first_node_of(views(resources@), views(ids@)[i as int], x),
        },
{
    proof {
        reveal(first_node_of);
    }
    let id = &ids[i];
    assert(views(ids@)[i as int] == id@);
    assert(views(ids@).contains(id@));
    let resource = match lookup_exec(resources, ids, id) {
        Some(r) => r,
        None => {
            return None;
        },
    };
    match resource {
        DeploymentResource::ExternalPrecondition(_) => {
            return None;
        },
        _ => {},
    }
    let action = if id.kind() == ResourceKind::Image {
        SemanticOperationAction::EnsureImage
    } else {
        SemanticOperationAction::Create
    };
    let node = DeploymentOperationId::new(action, id.duplicate());
    let list = create_dependencies(resources, ids, resource);
    proof {
        reveal(first_node_of);
    }
    Some((node, list))
}

/// The start operation of the accepted declaration at position `i` of `ids`, with its
/// prerequisites, when it has one.
fn start_node(
    resources: &[DeploymentResource],
    ids: &Vec<DeploymentResourceId>,
    deps: &[StartupDependency],
    edges: &Vec<DependencyEdge>,
    i: usize,
) -> (r: Option<(DeploymentOperationId, Vec<DeploymentOperationId>)>)
    requires
        indexes(views(resources@), views(ids@)),
        i < ids.len(),
        edge_views(edges@) == startup_edge_list(views(resources@), views(deps@)),
    ensures
        match r {
            Some((n, l)) => start_node_of(views(resources@), views(ids@)[i as int], n@) && forall|x: OperationIdView|
                #[trigger] views(l@).contains(x) <==> plan_dep(views(resources@), views(deps@), n@, x),
            None => forall|x: OperationIdView| !start_node_of(views(resources@), views(ids@)[i as int], x),
        },
{
    let ghost rs = views(resources@);
    let ghost ds = views(deps@);
    proof {
        reveal(start_node_of);
    }
    let id = &ids[i];
    assert(views(ids@)[i as int] == id@);
    assert(views(ids@).contains(id@));
    let resource = match lookup_exec(resources, ids, id) {
        Some(r) => r,
        None => {
            return None;
        },
    };
    let node = match resource {
        DeploymentResource::Pod(pod) => {
            if pod.members().len() > 0 {
                DeploymentOperationId::new(SemanticOperationAction::StartPod, id.duplicate())
            } else {
                return None;
            }
        },
        DeploymentResource::Container(container) => {
            if container.pod().is_none() {
                DeploymentOperationId::new(SemanticOperationAction::StartContainer, id.duplicate())
            } else {
                return None;
            }
        },
        _ => {
            return None;
        },
    };
    let mut list: Vec<DeploymentOperationId> = Vec::new();
    assert(views(list@) =~= Seq::<OperationIdView>::empty());
    add_op(&mut list, DeploymentOperationId::new(SemanticOperationAction::Create, id.duplicate()));
    let ghost l1 = views(list@);
    match resource {
        DeploymentResource::Pod(pod) => {
            add_creations(resources, ids, pod.members(), &mut list);
        },
        _ => {},
    }
    add_predecessors(edges, &node, &mut list);
    proof {
        assert forall|x: OperationIdView| #[trigger] views(list@).contains(x) <==> plan_dep(rs, ds, node@, x) by {
            assert(l1.contains(x) <==> x == create_op(id@));
        }
    }
    Some((node, list))
}

/// Appends a node and its prerequisites.
fn push_node(
    nodes: &mut Vec<DeploymentOperationId>,
    lists: &mut Vec<Vec<DeploymentOperationId>>,
    node: DeploymentOperationId,
    list: Vec<DeploymentOperationId>,
    Ghost(rs): Ghost<Seq<DeploymentResourceView>>,
    Ghost(ds): Ghost<Seq<StartupDependencyView>>,
)
    requires
        deps_recorded(rs, ds, old(nodes)@, old(lists)@),
        distinct(views(old(nodes)@)),
        !views(old(nodes)@).contains(node@),
        forall|x: OperationIdView| #[trigger] views(list@).contains(x) <==> plan_dep(rs, ds, node@, x),
    ensures
        deps_recorded(rs, ds, final(nodes)@, final(lists)@),
        distinct(views(final(nodes)@)),
        views(final(nodes)@) == views(old(nodes)@).push(node@),
{
    let ghost old_lists = lists@;
    let ghost old_nodes = nodes@;
    let ghost nv = node@;
    proof {
        lemma_distinct_push(views(old_nodes), nv);
    }
    nodes.push(node);
    lists.push(list);
    assert(views(nodes@) =~= views(old_nodes).push(nv));
    assert forall|j: int, x: OperationIdView|
        #![trigger views(lists@[j]@).contains(x)]
        0 <= j < nodes@.len() implies (views(lists@[j]@).contains(x) <==> plan_dep(rs, ds, nodes@[j]@, x)) by {
        if j < old_nodes.len() {
            assert(lists@[j] == old_lists[j]);
            assert(nodes@[j] == old_nodes[j]);
        }
    }
}

#[verifier::spinoff_prover]
fn build_nodes(
    resources: &[DeploymentResource],
    ids: &Vec<DeploymentResourceId>,
    deps: &[StartupDependency],
    edges: &Vec<DependencyEdge>,
) -> (r: (Vec<DeploymentOperationId>, Vec<Vec<DeploymentOperationId>>))
    requires
        indexes(views(resources@), views(ids@)),
        distinct(views(ids@)),
        edge_views(edges@) == startup_edge_list(views(resources@), views(deps@)),
    ensures
        distinct(views(r.0@)),
        forall|x: OperationIdView| #[trigger] views(r.0@).contains(x) <==> plan_node(views(resources@), x),
        deps_recorded(views(resources@), views(deps@), r.0@, r.1@),
{
    let ghost rs = views(resources@);
    let ghost ds = views(deps@);
    let ghost iv = views(ids@);
    let mut nodes: Vec<DeploymentOperationId> = Vec::new();
    let mut lists: Vec<Vec<DeploymentOperationId>> = Vec::new();
    assert(views(nodes@) =~= Seq::<OperationIdView>::empty());
    let mut i: usize = 0;
    while i < ids.len()
        invariant
            i <= ids.len(),
            rs == views(resources@),
            ds == views(deps@),
            iv == views(ids@),
            indexes(rs, iv),
            distinct(iv),
            distinct(views(nodes@)),
            forall|x: OperationIdView| #[trigger] views(nodes@).contains(x) <==> exists|j: int|
                0 <= j < i && first_node_of(rs, #[trigger] iv[j], x),
            deps_recorded(rs, ds, nodes@, lists@),
        decreases ids.len() - i,
    {
        let ghost before = views(nodes@);
        let found = first_node(resources, ids, deps, i);
        let ghost added: Option<OperationIdView> = None;
        match found {
            Some((node, list)) => {
                proof {
                    assert(!before.contains(node@)) by {
                        if before.contains(node@) {
                            let j = choose|j: int| 0 <= j < i && first_node_of(rs, #[trigger] iv[j], node@);
                            lemma_node_kinds(rs, iv[j], node@);
                            lemma_node_kinds(rs, iv[i as int], node@);
                            assert(iv[j] == iv[i as int]);
                        }
                    }
                }
                let ghost nv = node@;
                push_node(&mut nodes, &mut lists, node, list, Ghost(rs), Ghost(ds));
                assert forall|x: OperationIdView| #[trigger] views(nodes@).contains(x) <==> exists|j: int|
                    0 <= j < i + 1 && first_node_of(rs, #[trigger] iv[j], x) by {
                    lemma_push_contains(before, nv, x);
                    lemma_node_kinds(rs, iv[i as int], x);
                    lemma_node_kinds(rs, iv[i as int], nv);
                    if exists|j: int| 0 <= j < i + 1 && first_node_of(rs, #[trigger] iv[j], x) {
                        let j = choose|j: int| 0 <= j < i + 1 && first_node_of(rs, #[trigger] iv[j], x);
                        if j < i {
                            assert(before.contains(x));
                        }
                    }
                    if x == nv {
                        assert(first_node_of(rs, iv[i as int], x));
                    }
                }
            },
            None => {
                assert forall|x: OperationIdView| #[trigger] views(nodes@).contains(x) <==> exists|j: int|
                    0 <= j < i + 1 && first_node_of(rs, #[trigger] iv[j], x) by {
                    if exists|j: int| 0 <= j < i + 1 && first_node_of(rs, #[trigger] iv[j], x) {
                        let j = choose|j: int| 0 <= j < i + 1 && first_node_of(rs, #[trigger] iv[j], x);
                        if j < i {
                            assert(before.contains(x));
                        }
                    }
                }
            },
        }
        i = i + 1;
    }
    let ghost firsts = views(nodes@);
    proof {
        assert forall|x: OperationIdView| #[trigger] firsts.contains(x) <==> first_node_of(rs, x.resource, x) by {
            lemma_node_kinds(rs, x.resource, x);
            if first_node_of(rs, x.resource, x) {
                assert(iv.contains(x.resource));
                let j = choose|j: int| 0 <= j < iv.len() && iv[j] == x.resource;
                assert(first_node_of(rs, iv[j], x));
            }
            if views(nodes@).contains(x) {
                let j = choose|j: int| 0 <= j < iv.len() && first_node_of(rs, #[trigger] iv[j], x);
                lemma_node_kinds(rs, iv[j], x);
            }
        }
    }
    let mut i: usize = 0;
    while i < ids.len()
        invariant
            i <= ids.len(),
            rs == views(resources@),
            ds == views(deps@),
            iv == views(ids@),
            indexes(rs, iv),
            distinct(iv),
            edge_views(edges@) == startup_edge_list(rs, ds),
            distinct(views(nodes@)),
            forall|x: OperationIdView| #[trigger] firsts.contains(x) <==> first_node_of(rs, x.resource, x),
            forall|x: OperationIdView| #[trigger] views(nodes@).contains(x) <==> (firsts.contains(x) || exists|j: int|
                0 <= j < i && start_node_of(rs, #[trigger] iv[j], x)),
            deps_recorded(rs, ds, nodes@, lists@),
        decreases ids.len() - i,
    {
        let ghost before = views(nodes@);
        let found = start_node(resources, ids, deps, edges, i);
        match found {
            Some((node, list)) => {
                proof {
                    assert(!before.contains(node@)) by {
                        if before.contains(node@) {
                            lemma_node_kinds(rs, iv[i as int], node@);
                            lemma_node_kinds(rs, node@.resource, node@);
                            if firsts.contains(node@) {
                            } else {
                                let j = choose|j: int| 0 <= j < i && start_node_of(rs, #[trigger] iv[j], node@);
                                lemma_node_kinds(rs, iv[j], node@);
                                assert(iv[j] == iv[i as int]);
                            }
                        }
                    }
                }
                let ghost nv = node@;
                push_node(&mut nodes, &mut lists, node, list, Ghost(rs), Ghost(ds));
                assert forall|x: OperationIdView| #[trigger] views(nodes@).contains(x) <==> (firsts.contains(x) || exists|j: int|
                    0 <= j < i + 1 && start_node_of(rs, #[trigger] iv[j], x)) by {
                    lemma_push_contains(before, nv, x);
                    if exists|j: int| 0 <= j < i + 1 && start_node_of(rs, #[trigger] iv[j], x) {
                        let j = choose|j: int| 0 <= j < i + 1 && start_node_of(rs, #[trigger] iv[j], x);
                        if j < i {
                            assert(before.contains(x));
                        } else {
                            lemma_start_node_unique(rs, iv[i as int], x, nv);
                        }
                    }
                    if x == nv {
                        assert(start_node_of(rs, iv[i as int], x));
                    }
                }
            },
            None => {
                assert forall|x: OperationIdView| #[trigger] views(nodes@).contains(x) <==> (firsts.contains(x) || exists|j: int|
                    0 <= j < i + 1 && start_node_of(rs, #[trigger] iv[j], x)) by {
                    if exists|j: int| 0 <= j < i + 1 && start_node_of(rs, #[trigger] iv[j], x) {
                        let j = choose|j: int| 0 <= j < i + 1 && start_node_of(rs, #[trigger] iv[j], x);
                        if j < i {
                            assert(before.contains(x));
                        }
                    }
                }
            },
        }
        i = i + 1;
    }
    proof {
        assert forall|x: OperationIdView| #[trigger] views(nodes@).contains(x) <==> plan_node(rs, x) by {
            lemma_node_kinds(rs, x.resource, x);
            if plan_node(rs, x) && !first_node_of(rs, x.resource, x) {
                assert(iv.contains(x.resource));
                let j = choose|j: int| 0 <= j < iv.len() && iv[j] == x.resource;
                assert(start_node_of(rs, iv[j], x));
            }
            if views(nodes@).contains(x) && !firsts.contains(x) {
                let j = choose|j: int| 0 <= j < iv.len() && start_node_of(rs, #[trigger] iv[j], x);
                lemma_node_kinds(rs, iv[j], x);
            }
        }
    }
    (nodes, lists)
}

/// The schedule edges hold exactly the plan dependencies of plan operations.
pub open spec fn plan_edges(rs: Seq<DeploymentResourceView>, ds: Seq<StartupDependencyView>, es: Seq<(OperationIdView, OperationIdView)>) -> bool {
    forall|e: (OperationIdView, OperationIdView)| #[trigger] es.contains(e) <==> (plan_node(rs, e.1) && plan_dep(rs, ds, e.1, e.0))
}

#[verifier::spinoff_prover]
fn build_edges(
    nodes: &Vec<DeploymentOperationId>,
    lists: &Vec<Vec<DeploymentOperationId>>,
    Ghost(rs): Ghost<Seq<DeploymentResourceView>>,
    Ghost(ds): Ghost<Seq<StartupDependencyView>>,
) -> (r: Vec<DependencyEdge>)
    requires
        deps_recorded(rs, ds, nodes@, lists@),
        forall|x: OperationIdView| #[trigger] views(nodes@).contains(x) <==> plan_node(rs, x),
    ensures
        plan_edges(rs, ds, edge_views(r@)),
{
    let mut out: Vec<DependencyEdge> = Vec::new();
    let mut j: usize = 0;
    while j < nodes.len()
        invariant
            j <= nodes.len(),
            deps_recorded(rs, ds, nodes@, lists@),
            forall|x: OperationIdView| #[trigger] views(nodes@).contains(x) <==> plan_node(rs, x),
            forall|e: (OperationIdView, OperationIdView)| #[trigger] edge_views(out@).contains(e) <==> exists|m: int|
                0 <= m < j && nodes@[m]@ == e.1 && #[trigger] views(lists@[m]@).contains(e.0),
        decreases nodes.len() - j,
    {
        let list = &lists[j];
        let ghost lv = views(list@);
        let ghost before_j = edge_views(out@);
        let mut k: usize = 0;
        while k < list.len()
            invariant
                k <= list.len(),
                j < nodes.len(),
                nodes@.len() == lists@.len(),
                list == lists@[j as int],
                lv == views(list@),
                forall|e: (OperationIdView, OperationIdView)| #[trigger] edge_views(out@).contains(e) <==> (before_j.contains(e) || exists|m: int|
                    0 <= m < k && nodes@[j as int]@ == e.1 && #[trigger] lv[m] == e.0),
            decreases list.len() - k,
        {
            let ghost before = edge_views(out@);
            let e = DependencyEdge::new(list[k].duplicate(), nodes[j].duplicate());
            let ghost ev = e@;
            assert(ev == (lv[k as int], nodes@[j as int]@));
            out.push(e);
            assert(edge_views(out@) =~= before.push(ev));
            assert forall|x: (OperationIdView, OperationIdView)| #[trigger] edge_views(out@).contains(x) <==> (before_j.contains(x) || exists|m: int|
                0 <= m < k + 1 && nodes@[j as int]@ == x.1 && #[trigger] lv[m] == x.0) by {
                lemma_push_contains(before, ev, x);
                if exists|m: int| 0 <= m < k + 1 && nodes@[j as int]@ == x.1 && #[trigger] lv[m] == x.0 {
                    let m = choose|m: int| 0 <= m < k + 1 && nodes@[j as int]@ == x.1 && #[trigger] lv[m] == x.0;
                    if m < k {
                        assert(before.contains(x));
                    }
                }
            }
            k = k + 1;
        }
        assert forall|e: (OperationIdView, OperationIdView)| #[trigger] edge_views(out@).contains(e) <==> exists|m: int|
            0 <= m < j + 1 && nodes@[m]@ == e.1 && #[trigger] views(lists@[m]@).contains(e.0) by {
            if exists|m: int| 0 <= m < list.len() && nodes@[j as int]@ == e.1 && #[trigger] lv[m] == e.0 {
                let m = choose|m: int| 0 <= m < list.len() && nodes@[j as int]@ == e.1 && #[trigger] lv[m] == e.0;
                assert(lv.contains(e.0));
            }
            if nodes@[j as int]@ == e.1 && lv.contains(e.0) {
                let m = choose|m: int| 0 <= m < lv.len() && lv[m] == e.0;
            }
            if exists|m: int| 0 <= m < j + 1 && nodes@[m]@ == e.1 && #[trigger] views(lists@[m]@).contains(e.0) {
                let m = choose|m: int| 0 <= m < j + 1 && nodes@[m]@ == e.1 && #[trigger] views(lists@[m]@).contains(e.0);
                if m < j {
                    assert(before_j.contains(e));
                }
            }
        }
        j = j + 1;
    }
    assert forall|e: (OperationIdView, OperationIdView)| #[trigger] edge_views(out@).contains(e) <==> (plan_node(rs, e.1) && plan_dep(
        rs,
        ds,
        e.1,
        e.0,
    )) by {
        if edge_views(out@).contains(e) {
            let m = choose|m: int| 0 <= m < nodes.len() && nodes@[m]@ == e.1 && #[trigger] views(lists@[m]@).contains(e.0);
            assert(views(nodes@)[m] == e.1);
            assert(views(nodes@).contains(e.1));
        }
        if plan_node(rs, e.1) && plan_dep(rs, ds, e.1, e.0) {
            assert(views(nodes@).contains(e.1));
            let m = choose|m: int| 0 <= m < views(nodes@).len() && views(nodes@)[m] == e.1;
            assert(nodes@[m]@ == e.1);
            assert(views(lists@[m]@).contains(e.0));
        }
    }
    out
}

proof fn lemma_plan_ready(
    rs: Seq<DeploymentResourceView>,
    ds: Seq<StartupDependencyView>,
    es: Seq<(OperationIdView, OperationIdView)>,
    done: Seq<OperationIdView>,
    n: OperationIdView,
)
    requires
        plan_edges(rs, ds, es),
        plan_node(rs, n),
    ensures
        ready(es, done, n) == plan_ready(rs, ds, done, n),
{
    if ready(es, done, n) {
        assert forall|x: OperationIdView| #[trigger] plan_dep(rs, ds, n, x) implies done.contains(x) by {
            assert(es.contains((x, n)));
        }
    }
    if plan_ready(rs, ds, done, n) {
        assert forall|a: OperationIdView| #[trigger] es.contains((a, n)) implies done.contains(a) by {
            assert(plan_dep(rs, ds, n, a));
        }
    }
}

/// The image-acquisition policy of an operation.
pub open spec fn pull_policy_of(rs: Seq<DeploymentResourceView>, id: OperationIdView) -> Option<ImagePullPolicy> {
    if id.action == SemanticOperationAction::EnsureImage {
        match entry(rs, id.resource) {
            DeploymentResourceView::Image(im) => Some(im.pull_policy),
            _ => None,
        }
    } else {
        None
    }
}

/// The content of one planned operation: its prerequisites sorted by identity, the declaration
/// it acts on, and the image policy of an image acquisition.
pub open spec fn operation_content(rs: Seq<DeploymentResourceView>, ds: Seq<StartupDependencyView>, op: DeploymentOperationView) -> bool {
    &&& keys_sorted::<DeploymentOperationId>(op.depends_on)
    &&& distinct(op.depends_on)
    &&& forall|x: OperationIdView| #[trigger] op.depends_on.contains(x) <==> plan_dep(rs, ds, op.id, x)
    &&& op.resource_intent == entry(rs, op.id.resource)
    &&& op.image_pull_policy == pull_policy_of(rs, op.id)
}

/// The operation identities of a plan, in order.
pub open spec fn op_ids(ops: Seq<DeploymentOperationView>) -> Seq<OperationIdView> {
    ops.map_values(|o: DeploymentOperationView| o.id)
}

/// `ops` runs every plan operation once, each after all its prerequisites and, among the
/// operations ready at its turn, the one with the smallest scheduling key.
pub open spec fn planned_operations(rs: Seq<DeploymentResourceView>, ds: Seq<StartupDependencyView>, ops: Seq<DeploymentOperationView>) -> bool {
    &&& distinct(op_ids(ops))
    &&& forall|x: OperationIdView| #[trigger] op_ids(ops).contains(x) <==> plan_node(rs, x)
    &&& forall|i: int| 0 <= i < ops.len() ==> #[trigger] plan_ready(rs, ds, op_ids(ops).take(i), op_ids(ops)[i])
    &&& forall|i: int, n: OperationIdView|
        #![trigger op_ids(ops)[i], plan_node(rs, n)]
        0 <= i < ops.len() && plan_node(rs, n) && !op_ids(ops).take(i).contains(n) && plan_ready(rs, ds, op_ids(ops).take(i), n)
            ==> !lex_lt(schedule_key(n), schedule_key(op_ids(ops)[i]))
    &&& forall|i: int| 0 <= i < ops.len() ==> #[trigger] operation_content(rs, ds, ops[i])
}

fn find_node(nodes: &Vec<DeploymentOperationId>, x: &DeploymentOperationId) -> (r: usize)
    requires
        views(nodes@).contains(x@),
    ensures
        r < nodes.len(),
        nodes@[r as int]@ == x@,
{
    let mut i: usize = 0;
    while i < nodes.len()
        invariant
            i <= nodes.len(),
            views(nodes@).contains(x@),
            forall|j: int| 0 <= j < i ==> nodes@[j]@ != x@,
        decreases nodes.len() - i,
    {
        if nodes[i].same_value(x) {
            return i;
        }
        i = i + 1;
    }
    proof {
        let j = choose|j: int| 0 <= j < views(nodes@).len() && views(nodes@)[j] == x@;
        assert(nodes@[j]@ == x@);
    }
    0
}

#[verifier::spinoff_prover]
fn build_operation(
    resources: &[DeploymentResource],
    ids: &Vec<DeploymentResourceId>,
    nodes: &Vec<DeploymentOperationId>,
    lists: &Vec<Vec<DeploymentOperationId>>,
    id: &DeploymentOperationId,
    Ghost(ds): Ghost<Seq<StartupDependencyView>>,
) -> (r: DeploymentOperation)
    requires
        indexes(views(resources@), views(ids@)),
        deps_recorded(views(resources@), ds, nodes@, lists@),
        forall|x: OperationIdView| #[trigger] views(nodes@).contains(x) <==> plan_node(views(resources@), x),
        plan_node(views(resources@), id@),
    ensures
        r@.id == id@,
        operation_content(views(resources@), ds, r@),
{
    let ghost rs = views(resources@);
    proof {
        lemma_node_kinds(rs, id@.resource, id@);
        reveal(first_node_of);
        reveal(start_node_of);
    }
    let j = find_node(nodes, id);
    let copy = duplicate_vec(&lists[j]);
    let depends_on = crate::order::sort_distinct(copy);
    assert forall|x: OperationIdView| #[trigger] views(depends_on@).contains(x) <==> plan_dep(rs, ds, id@, x) by {
        assert(views(lists@[j as int]@).contains(x) <==> plan_dep(rs, ds, nodes@[j as int]@, x));
    }
    let resource = match lookup_exec(resources, ids, id.resource()) {
        Some(r) => r,
        None => {
            assert(false);
            return DeploymentOperation::new(id.duplicate(), resources[0].duplicate_value(), depends_on, None);
        },
    };
    let policy = if id.action() == SemanticOperationAction::EnsureImage {
        match resource {
            DeploymentResource::Image(image) => Some(image.pull_policy()),
            _ => None,
        }
    } else {
        None
    };
    let op = DeploymentOperation::new(id.duplicate(), resource.duplicate_value(), depends_on, policy);
    assert(op_views(depends_on@) == views(depends_on@)) by {
        assert(op_views(depends_on@) =~= views(depends_on@));
    }
    op
}

fn build_operations(
    resources: &[DeploymentResource],
    ids: &Vec<DeploymentResourceId>,
    nodes: &Vec<DeploymentOperationId>,
    lists: &Vec<Vec<DeploymentOperationId>>,
    order: &Vec<DeploymentOperationId>,
    Ghost(ds): Ghost<Seq<StartupDependencyView>>,
) -> (r: Vec<DeploymentOperation>)
    requires
        indexes(views(resources@), views(ids@)),
        deps_recorded(views(resources@), ds, nodes@, lists@),
        forall|x: OperationIdView| #[trigger] views(nodes@).contains(x) <==> plan_node(views(resources@), x),
        forall|x: OperationIdView| #[trigger] views(order@).contains(x) ==> views(nodes@).contains(x),
    ensures
        op_ids(operation_views(r@)) == views(order@),
        forall|i: int| 0 <= i < r.len() ==> #[trigger] operation_content(views(resources@), ds, operation_views(r@)[i]),
{
    let ghost rs = views(resources@);
    let mut out: Vec<DeploymentOperation> = Vec::new();
    let mut i: usize = 0;
    while i < order.len()
        invariant
            i <= order.len(),
            rs == views(resources@),
            indexes(rs, views(ids@)),
            deps_recorded(rs, ds, nodes@, lists@),
            forall|x: OperationIdView| #[trigger] views(nodes@).contains(x) <==> plan_node(rs, x),
            forall|x: OperationIdView| #[trigger] views(order@).contains(x) ==> views(nodes@).contains(x),
            op_ids(operation_views(out@)) == views(order@).take(i as int),
            forall|k: int| 0 <= k < out.len() ==> #[trigger] operation_content(rs, ds, operation_views(out@)[k]),
        decreases order.len() - i,
    {
        assert(views(order@)[i as int] == order@[i as int]@);
        assert(views(order@).contains(order@[i as int]@));
        let ghost before = operation_views(out@);
        let op = build_operation(resources, ids, nodes, lists, &order[i], Ghost(ds));
        let ghost opv = op@;
        out.push(op);
        assert(operation_views(out@) =~= before.push(opv));
        assert(op_ids(operation_views(out@)) =~= op_ids(before).push(opv.id));
        assert(views(order@).take(i + 1) =~= views(order@).take(i as int).push(views(order@)[i as int]));
        assert(op_ids(operation_views(out@)) =~= views(order@).take(i + 1));
        assert(forall|k: int| 0 <= k < before.len() ==> operation_views(out@)[k] == before[k]);
        i = i + 1;
    }
    assert(views(order@).take(order.len() as int) =~= views(order@));
    out
}

/// `x` is declared as an external precondition.
pub open spec fn external_id(rs: Seq<DeploymentResourceView>, x: ResourceIdView) -> bool {
    accepted(rs, x) && entry(rs, x) is ExternalPrecondition
}

fn external_preconditions(resources: &[DeploymentResource], ids: &Vec<DeploymentResourceId>) -> (r: Vec<ExternalPrecondition>)
    requires
        indexes(views(resources@), views(ids@)),
    ensures
        keys_sorted::<ExternalPrecondition>(views(r@)),
        distinct(views(r@)),
        forall|x: ResourceIdView| #[trigger] views(r@).contains(x) <==> external_id(views(resources@), x),
{
    let ghost rs = views(resources@);
    let mut out: Vec<ExternalPrecondition> = Vec::new();
    let mut i: usize = 0;
    while i < ids.len()
        invariant
            i <= ids.len(),
            rs == views(resources@),
            indexes(rs, views(ids@)),
            forall|x: ResourceIdView| #[trigger] views(out@).contains(x) <==> exists|j: int|
                0 <= j < i && external_id(rs, #[trigger] views(ids@)[j]) && views(ids@)[j] == x,
        decreases ids.len() - i,
    {
        let ghost before = views(out@);
        assert(views(ids@)[i as int] == ids@[i as int]@);
        assert(views(ids@).contains(ids@[i as int]@));
        let mut hit = false;
        match lookup_exec(resources, ids, &ids[i]) {
            Some(DeploymentResource::ExternalPrecondition(p)) => {
                proof {
                    lemma_entry_declares(rs, ids@[i as int]@);
                }
                assert(p@ == ids@[i as int]@);
                out.push(p.duplicate());
                hit = true;
                assert(views(out@) =~= before.push(ids@[i as int]@));
            },
            _ => {},
        }
        assert forall|x: ResourceIdView| #[trigger] views(out@).contains(x) <==> exists|j: int|
            0 <= j < i + 1 && external_id(rs, #[trigger] views(ids@)[j]) && views(ids@)[j] == x by {
            if hit {
                lemma_push_contains(before, ids@[i as int]@, x);
            }
            if exists|j: int| 0 <= j < i + 1 && external_id(rs, #[trigger] views(ids@)[j]) && views(ids@)[j] == x {
                let j = choose|j: int| 0 <= j < i + 1 && external_id(rs, #[trigger] views(ids@)[j]) && views(ids@)[j] == x;
                if j < i {
                    assert(before.contains(x));
                }
            }
        }
        i = i + 1;
    }
    let sorted = crate::order::sort_distinct(out);
    assert forall|x: ResourceIdView| #[trigger] views(sorted@).contains(x) <==> external_id(rs, x) by {
        if external_id(rs, x) {
            assert(views(ids@).contains(x));
            let j = choose|j: int| 0 <= j < views(ids@).len() && views(ids@)[j] == x;
            assert(external_id(rs, views(ids@)[j]));
        }
    }
    sorted
}

/// A schedule of the plan graph, stated over the plan's own terms.
proof fn lemma_schedule_is_plan(
    rs: Seq<DeploymentResourceView>,
    ds: Seq<StartupDependencyView>,
    ns: Seq<OperationIdView>,
    es: Seq<(OperationIdView, OperationIdView)>,
    ov: Seq<OperationIdView>,
    rv: Seq<OperationIdView>,
)
    requires
        scheduled(ns, es, ov, rv),
        plan_edges(rs, ds, es),
        forall|x: OperationIdView| #[trigger] ns.contains(x) <==> plan_node(rs, x),
    ensures
        distinct(ov + rv),
        forall|x: OperationIdView| #[trigger] (ov + rv).contains(x) <==> plan_node(rs, x),
        forall|i: int| 0 <= i < ov.len() ==> #[trigger] plan_ready(rs, ds, ov.take(i), ov[i]),
        forall|i: int, n: OperationIdView|
            #![trigger ov[i], plan_node(rs, n)]
            0 <= i < ov.len() && plan_node(rs, n) && !ov.take(i).contains(n) && plan_ready(rs, ds, ov.take(i), n) ==> !lex_lt(
                schedule_key(n),
                schedule_key(ov[i]),
            ),
        forall|x: OperationIdView| #[trigger] rv.contains(x) ==> !plan_ready(rs, ds, ov, x),
{
    assert forall|i: int| 0 <= i < ov.len() implies #[trigger] plan_ready(rs, ds, ov.take(i), ov[i]) by {
        assert((ov + rv)[i] == ov[i]);
        assert((ov + rv).contains(ov[i]));
        lemma_plan_ready(rs, ds, es, ov.take(i), ov[i]);
    }
    assert forall|i: int, n: OperationIdView|
        #![trigger ov[i], plan_node(rs, n)]
        0 <= i < ov.len() && plan_node(rs, n) && !ov.take(i).contains(n) && plan_ready(rs, ds, ov.take(i), n) implies !lex_lt(
            schedule_key(n),
            schedule_key(ov[i]),
        ) by {
        lemma_plan_ready(rs, ds, es, ov.take(i), n);
        assert(ns.contains(n));
    }
    assert forall|x: OperationIdView| #[trigger] rv.contains(x) implies !plan_ready(rs, ds, ov, x) by {
        lemma_concat_contains(ov, rv, x);
        lemma_plan_ready(rs, ds, es, ov, x);
    }
}

// ---------------------------------------------------------------------------------------------
// Planning.
// ---------------------------------------------------------------------------------------------
/// `f` is a problem found before the operation graph is built: a duplicate or conflicting
/// declaration, a problem with an accepted declaration, a problem with a startup dependency, or
/// a cycle among startup dependencies.
pub open spec fn validation_problem(rs: Seq<DeploymentResourceView>, ds: Seq<StartupDependencyView>, f: PlanningFindingView) -> bool {
    ||| is_index_finding(rs, f)
    ||| is_validation_finding(rs, f)
    ||| is_startup_finding(rs, ds, f)
    ||| is_cycle_finding(startup_edge_list(rs, ds), "startup_dependencies"@, f)
}

/// `p` is the plan of `intent`: its target and connection, its external preconditions ordered
/// by identity, and its operations in the one order the scheduling rule gives.
pub open spec fn planned(intent: DeploymentIntentView, p: DeploymentPlanView) -> bool {
    &&& p.target == intent.target
    &&& p.connection == intent.connection
    &&& keys_sorted::<ExternalPrecondition>(p.external_preconditions)
    &&& distinct(p.external_preconditions)
    &&& forall|x: ResourceIdView| #[trigger] p.external_preconditions.contains(x) <==> external_id(intent.resources, x)
    &&& planned_operations(intent.resources, intent.startup_dependencies, p.operations)
}

fn kinds_hold(resources: &[DeploymentResource])
    ensures
        kinds_consistent(views(resources@)),
{
    let ghost rs = views(resources@);
    let mut k: usize = 0;
    while k < resources.len()
        invariant
            k <= resources.len(),
            rs == views(resources@),
            forall|j: int| 0 <= j < k ==> #[trigger] variant_names_kind(rs[j]),
        decreases resources.len() - k,
    {
        assert(rs[k as int] == resources@[k as int]@);
        match &resources[k] {
            DeploymentResource::Pod(p) => {
                let _ = p.identity();
            },
            DeploymentResource::Container(c) => {
                let _ = c.identity();
            },
            _ => {},
        }
        k = k + 1;
    }
}

/// Plans a caller-authored deployment intent without opening any connection.
///
/// Declarations are indexed by identity, validated, and lifted into an operation graph that is
/// ordered so every operation follows its prerequisites. A plan is returned exactly when no
/// problem was found; otherwise the findings are returned sorted and free of repeats.
pub fn plan_deployment(intent: &DeploymentIntent) -> (r: PlanningOutcome)
    ensures
        keys_sorted::<PlanningFinding>(r@.findings),
        distinct(r@.findings),
        forall|f: PlanningFindingView|
            #[trigger] r@.findings.contains(f) <==> validation_problem(intent@.resources, intent@.startup_dependencies, f),
        r@.plan is Some <==> r@.findings.len() == 0,
        r@.plan is Some <==> reviewed(intent@.resources, intent@.startup_dependencies),
        r@.plan matches Some(p) ==> planned(intent@, p),
{
    let resources = intent.resources();
    let deps = intent.startup_dependencies();
    let ghost rs = intent@.resources;
    let ghost ds = intent@.startup_dependencies;
    kinds_hold(resources);
    let (ids, mut findings) = index_resources(resources);
    let ghost s0 = finding_views(findings@);
    validate_resources(resources, &ids, &mut findings);
    let ghost s1 = finding_views(findings@);
    let edges = check_startup_dependencies(resources, &ids, deps, &mut findings);
    let ghost s2 = finding_views(findings@);
    check_cycle(&edges, "startup_dependencies", &mut findings);
    assert forall|f: PlanningFindingView| #[trigger] finding_views(findings@).contains(f) <==> validation_problem(rs, ds, f) by {
        assert(s0.contains(f) <==> is_index_finding(rs, f));
        assert(s1.contains(f) <==> (s0.contains(f) || is_validation_finding(rs, f)));
        assert(s2.contains(f) <==> (s1.contains(f) || is_startup_finding(rs, ds, f)));
    }
    if findings.len() == 0 {
        assert forall|g: PlanningFindingView| !#[trigger] validation_problem(rs, ds, g) by {
            if validation_problem(rs, ds, g) {
                assert(finding_views(findings@).contains(g));
            }
        }
        assert(reviewed(rs, ds));
        let (nodes, lists) = build_nodes(resources, &ids, deps, &edges);
        let es = build_edges(&nodes, &lists, Ghost(rs), Ghost(ds));
        let (order, rest) = schedule(&nodes, &es);
        let ghost ov = views(order@);
        let ghost rv = views(rest@);
        proof {
            lemma_schedule_is_plan(rs, ds, views(nodes@), edge_views(es@), ov, rv);
            assert(!exists|g: PlanningFindingView| is_cycle_finding(edge_views(edges@), "startup_dependencies"@, g)) by {
                if exists|g: PlanningFindingView| is_cycle_finding(edge_views(edges@), "startup_dependencies"@, g) {
                    let g = choose|g: PlanningFindingView| is_cycle_finding(edge_views(edges@), "startup_dependencies"@, g);
                    assert(validation_problem(rs, ds, g));
                }
            }
            let o = choose|o: Seq<OperationIdView>| acyclic_order(edge_views(edges@), o);
            assert forall|x: OperationIdView| #[trigger] rv.contains(x) implies plan_node(rs, x) && depends_within(rs, ds, rv, x) by {
                lemma_concat_contains(ov, rv, x);
                assert(!plan_ready(rs, ds, ov, x));
                let y = choose|y: OperationIdView| #[trigger] plan_dep(rs, ds, x, y) && !ov.contains(y);
                lemma_dep_is_node(rs, ds, x, y);
                lemma_concat_contains(ov, rv, y);
                reveal(depends_within);
            }
            lemma_reviewed_not_stuck(rs, ds, o, rv);
            assert(ov + rv =~= ov);
        }
        assert forall|x: OperationIdView| #[trigger] views(order@).contains(x) implies views(nodes@).contains(x) by {
            assert((ov + rv).contains(x));
        }
        let operations = build_operations(resources, &ids, &nodes, &lists, &order, Ghost(ds));
        let externals = external_preconditions(resources, &ids);
        let connection = match intent.connection() {
            Some(c) => Some(c.duplicate()),
            None => None,
        };
        let plan = DeploymentPlan::new(intent.target().duplicate_value(), connection, externals, operations);
        assert(planned(intent@, plan@)) by {
            assert(op_ids(operation_views(operations@)) == ov);
        }
        return PlanningOutcome::new(Some(plan), findings);
    }
    assert(finding_views(findings@)[0] == findings@[0]@);
    assert(finding_views(findings@).contains(findings@[0]@));
    assert(!reviewed(rs, ds)) by {
        assert(validation_problem(rs, ds, findings@[0]@));
    }
    let ghost all = finding_views(findings@);
    assert(views(findings@) =~= all);
    let sorted = crate::order::sort_distinct(findings);
    assert(views(sorted@) =~= finding_views(sorted@));
    proof {
        assert(all.contains(all[0]));
        assert(finding_views(sorted@).contains(all[0]));
    }
    PlanningOutcome::new(None, sorted)
}

// ---------------------------------------------------------------------------------------------
// A reviewed intent can always be ordered.
// ---------------------------------------------------------------------------------------------
/// A pod declaration names a pod and a container declaration names a container.
pub open spec fn variant_names_kind(r: DeploymentResourceView) -> bool {
    match r {
        DeploymentResourceView::Pod(p) => p.identity.kind == ResourceKind::Pod,
        DeploymentResourceView::Container(c) => c.identity.kind == ResourceKind::Container,
        _ => true,
    }
}

/// Every declaration names the kind of its variant, as the constructors guarantee.
pub open spec fn kinds_consistent(rs: Seq<DeploymentResourceView>) -> bool {
    forall|k: int| 0 <= k < rs.len() ==> #[trigger] variant_names_kind(rs[k])
}

/// The layer of a plan operation: creations of plain resources, then pods, then containers,
/// then starts.
pub open spec fn node_rank(rs: Seq<DeploymentResourceView>, x: OperationIdView) -> int {
    if x.action == SemanticOperationAction::StartPod || x.action == SemanticOperationAction::StartContainer {
        3
    } else {
        match entry(rs, x.resource) {
            DeploymentResourceView::Container(_) => 2,
            DeploymentResourceView::Pod(_) => 1,
            _ => 0,
        }
    }
}

/// No problem is found before the operation graph is built.
pub open spec fn reviewed(rs: Seq<DeploymentResourceView>, ds: Seq<StartupDependencyView>) -> bool {
    forall|g: PlanningFindingView| !#[trigger] validation_problem(rs, ds, g)
}

proof fn lemma_entry_kind(rs: Seq<DeploymentResourceView>, id: ResourceIdView)
    requires
        kinds_consistent(rs),
        accepted(rs, id),
    ensures
        variant_names_kind(entry(rs, id)),
        declared_identity(entry(rs, id)) == id,
{
    let k = choose|k: int| 0 <= k < rs.len() && #[trigger] declared_identity(rs[k]) == id;
    assert(variant_names_kind(rs[k]));
}

proof fn lemma_clean_entry(rs: Seq<DeploymentResourceView>, ds: Seq<StartupDependencyView>, id: ResourceIdView, f: PlanningFindingView)
    requires
        reviewed(rs, ds),
        accepted(rs, id),
    ensures
        !resource_finding(rs, entry(rs, id), f),
{
    if resource_finding(rs, entry(rs, id), f) {
        assert(is_validation_finding(rs, f));
        assert(validation_problem(rs, ds, f));
    }
}

/// A reference that resolves to a managed declaration of a kind other than image has a
/// creation operation in the plan.
proof fn lemma_ref_node(rs: Seq<DeploymentResourceView>, r: ResourceIdView, kind: ResourceKind)
    requires
        kinds_consistent(rs),
        resolved(rs, r, kind) is Some,
        kind != ResourceKind::Image,
        is_managed(rs, r),
    ensures
        plan_node(rs, create_op(r)),
        kind == ResourceKind::Pod ==> node_rank(rs, create_op(r)) <= 1,
        kind == ResourceKind::Container ==> node_rank(rs, create_op(r)) <= 2,
        kind != ResourceKind::Pod && kind != ResourceKind::Container ==> node_rank(rs, create_op(r)) == 0,
{
    lemma_entry_kind(rs, r);
    reveal(first_node_of);
    assert(first_node_of(rs, r, create_op(r)));
    lemma_node_kinds(rs, r, create_op(r));
}

proof fn lemma_image_node(rs: Seq<DeploymentResourceView>, r: ResourceIdView)
    requires
        kinds_consistent(rs),
        resolved(rs, r, ResourceKind::Image) is Some,
        is_managed(rs, r),
    ensures
        plan_node(rs, OperationIdView { action: SemanticOperationAction::EnsureImage, resource: r }),
        node_rank(rs, OperationIdView { action: SemanticOperationAction::EnsureImage, resource: r }) == 0,
{
    let x = OperationIdView { action: SemanticOperationAction::EnsureImage, resource: r };
    lemma_entry_kind(rs, r);
    reveal(first_node_of);
    assert(first_node_of(rs, r, x));
    lemma_node_kinds(rs, r, x);
}

/// The start operation a valid startup dependency lifts to is a plan operation.
proof fn lemma_anchor_node(rs: Seq<DeploymentResourceView>, ds: Seq<StartupDependencyView>, c: ResourceIdView, a: OperationIdView)
    requires
        reviewed(rs, ds),
        kinds_consistent(rs),
        start_anchor(rs, c) == Some(a),
    ensures
        plan_node(rs, a),
        node_rank(rs, a) == 3,
{
    reveal(start_node_of);
    let ci = entry(rs, c)->Container_0;
    assert(accepted(rs, c));
    match ci.pod {
        Some(p) => {
            let pp = entry(rs, p)->Pod_0;
            lemma_clean_entry(rs, ds, c, unresolved_reference(ci.identity, p, "pod"@));
            lemma_clean_entry(rs, ds, c, membership_finding(ci.identity, p, "pod"@));
            assert(resolved(rs, p, ResourceKind::Pod) is Some);
            assert(pp.members.contains(ci.identity));
            assert(pp.members.len() > 0);
            assert(start_node_of(rs, p, a));
            lemma_node_kinds(rs, p, a);
        },
        None => {
            assert(start_node_of(rs, c, a));
            lemma_node_kinds(rs, c, a);
        },
    }
}

proof fn lemma_pred_node(rs: Seq<DeploymentResourceView>, ds: Seq<StartupDependencyView>, y: OperationIdView, x: OperationIdView)
    requires
        reviewed(rs, ds),
        kinds_consistent(rs),
        startup_edge_list(rs, ds).contains((y, x)),
    ensures
        plan_node(rs, y),
        node_rank(rs, y) == 3,
{
    lemma_startup_edge_list(rs, ds, (y, x));
    let j = choose|j: int| 0 <= j < ds.len() && #[trigger] startup_edge(rs, ds[j]) == Some((y, x));
    lemma_anchor_node(rs, ds, ds[j].predecessor, y);
}

/// Every prerequisite of a plan operation of a reviewed intent is itself a plan operation, on
/// a lower layer unless both are starts ordered by a startup dependency.
proof fn lemma_dep_is_node(rs: Seq<DeploymentResourceView>, ds: Seq<StartupDependencyView>, x: OperationIdView, y: OperationIdView)
    requires
        reviewed(rs, ds),
        kinds_consistent(rs),
        plan_node(rs, x),
        plan_dep(rs, ds, x, y),
    ensures
        plan_node(rs, y),
        node_rank(rs, y) < node_rank(rs, x) || (node_rank(rs, x) == 3 && startup_edge_list(rs, ds).contains((y, x))),
{
    let id = x.resource;
    lemma_node_kinds(rs, id, x);
    lemma_entry_kind(rs, id);
    if start_node_of(rs, id, x) {
        reveal(start_node_of);
        if startup_edge_list(rs, ds).contains((y, x)) {
            lemma_pred_node(rs, ds, y, x);
        } else if y == create_op(id) {
            lemma_clean_entry(rs, ds, id, unresolved_reference(id, id, "image"@));
            reveal(first_node_of);
            assert(first_node_of(rs, id, y));
            lemma_node_kinds(rs, id, y);
        } else {
            let p = entry(rs, id)->Pod_0;
            let k = choose|k: int| 0 <= k < p.members.len() && is_managed(rs, p.members[k]) && y == create_op(#[trigger] p.members[k]);
            let m = p.members[k];
            lemma_clean_entry(rs, ds, id, membership_finding(p.identity, m, "members"@));
            assert(member_of(rs, m, p.identity));
            lemma_ref_node(rs, m, ResourceKind::Container);
        }
    } else {
        reveal(first_node_of);
        match entry(rs, id) {
            DeploymentResourceView::Pod(p) => {
                if creates_one_of(rs, p.networks, y) {
                    let k = choose|k: int| 0 <= k < p.networks.len() && is_managed(rs, p.networks[k]) && y == create_op(#[trigger] p.networks[k]);
                    lemma_clean_entry(rs, ds, id, unresolved_reference(p.identity, p.networks[k], "networks"@));
                    lemma_ref_node(rs, p.networks[k], ResourceKind::Network);
                } else {
                    let srcs = mount_sources(p.infra_mounts);
                    let k = choose|k: int| 0 <= k < srcs.len() && is_managed(rs, srcs[k]) && y == create_op(#[trigger] srcs[k]);
                    lemma_clean_entry(rs, ds, id, unresolved_reference(p.identity, srcs[k], "infra_mounts"@));
                    lemma_ref_node(rs, srcs[k], ResourceKind::Volume);
                }
            },
            DeploymentResourceView::Container(c) => {
                if is_managed(rs, c.image) && y == (OperationIdView { action: SemanticOperationAction::EnsureImage, resource: c.image }) {
                    lemma_clean_entry(rs, ds, id, unresolved_reference(c.identity, c.image, "image"@));
                    lemma_image_node(rs, c.image);
                } else if c.pod matches Some(pp) && is_managed(rs, pp) && y == create_op(pp) {
                    let pp = c.pod->0;
                    lemma_clean_entry(rs, ds, id, unresolved_reference(c.identity, pp, "pod"@));
                    lemma_ref_node(rs, pp, ResourceKind::Pod);
                } else if creates_one_of(rs, c.networks, y) {
                    let k = choose|k: int| 0 <= k < c.networks.len() && is_managed(rs, c.networks[k]) && y == create_op(#[trigger] c.networks[k]);
                    lemma_clean_entry(rs, ds, id, unresolved_reference(c.identity, c.networks[k], "networks"@));
                    lemma_ref_node(rs, c.networks[k], ResourceKind::Network);
                } else if creates_one_of(rs, mount_sources(c.mounts), y) {
                    let srcs = mount_sources(c.mounts);
                    let k = choose|k: int| 0 <= k < srcs.len() && is_managed(rs, srcs[k]) && y == create_op(#[trigger] srcs[k]);
                    lemma_clean_entry(rs, ds, id, unresolved_reference(c.identity, srcs[k], "mounts"@));
                    lemma_ref_node(rs, srcs[k], ResourceKind::Volume);
                } else {
                    let k = choose|k: int| 0 <= k < c.secrets.len() && is_managed(rs, c.secrets[k]) && y == create_op(#[trigger] c.secrets[k]);
                    lemma_clean_entry(rs, ds, id, unresolved_reference(c.identity, c.secrets[k], "secrets"@));
                    lemma_ref_node(rs, c.secrets[k], ResourceKind::Secret);
                }
            },
            _ => {},
        }
    }
}

/// Some prerequisite of `x` lies in `set`.
#[verifier::opaque]
pub open spec fn depends_within(rs: Seq<DeploymentResourceView>, ds: Seq<StartupDependencyView>, set: Seq<OperationIdView>, x: OperationIdView) -> bool {
    exists|y: OperationIdView| #[trigger] plan_dep(rs, ds, x, y) && set.contains(y)
}

/// In a reviewed intent whose startup dependencies can be ordered, no set of plan operations
/// is stuck: some member of every non-empty set has no prerequisite inside the set.
proof fn lemma_reviewed_not_stuck(
    rs: Seq<DeploymentResourceView>,
    ds: Seq<StartupDependencyView>,
    o: Seq<OperationIdView>,
    stuck: Seq<OperationIdView>,
)
    requires
        reviewed(rs, ds),
        kinds_consistent(rs),
        acyclic_order(startup_edge_list(rs, ds), o),
        forall|x: OperationIdView| #[trigger] stuck.contains(x) ==> plan_node(rs, x) && depends_within(rs, ds, stuck, x),
    ensures
        stuck.len() == 0,
{
    let es = startup_edge_list(rs, ds);
    assert forall|x: OperationIdView| #[trigger] stuck.contains(x) implies node_rank(rs, x) >= 1 by {
        reveal(depends_within);
        let y = choose|y: OperationIdView| #[trigger] plan_dep(rs, ds, x, y) && stuck.contains(y);
        lemma_dep_is_node(rs, ds, x, y);
        lemma_rank_nonneg(rs, y);
    }
    assert forall|x: OperationIdView| #[trigger] stuck.contains(x) implies node_rank(rs, x) >= 2 by {
        reveal(depends_within);
        let y = choose|y: OperationIdView| #[trigger] plan_dep(rs, ds, x, y) && stuck.contains(y);
        lemma_dep_is_node(rs, ds, x, y);
    }
    assert forall|x: OperationIdView| #[trigger] stuck.contains(x) implies node_rank(rs, x) >= 3 by {
        reveal(depends_within);
        let y = choose|y: OperationIdView| #[trigger] plan_dep(rs, ds, x, y) && stuck.contains(y);
        lemma_dep_is_node(rs, ds, x, y);
    }
    assert forall|x: OperationIdView| #[trigger] stuck.contains(x) implies blocked_within(es, stuck, x) by {
        reveal(depends_within);
        let y = choose|y: OperationIdView| #[trigger] plan_dep(rs, ds, x, y) && stuck.contains(y);
        lemma_dep_is_node(rs, ds, x, y);
        lemma_rank_at_most(rs, x);
        assert(es.contains((y, x)));
        reveal(blocked_within);
    }
    if stuck.len() > 0 {
        let x = stuck[0];
        assert(stuck.contains(x));
        assert(blocked_within(es, stuck, x));
        reveal(blocked_within);
        let y = choose|y: OperationIdView| #[trigger] es.contains((y, x)) && stuck.contains(y);
        assert(graph_node(es, x));
        assert(o.contains(x));
        let i = choose|i: int| 0 <= i < o.len() && o[i] == x;
        lemma_ordered_not_stuck(es, o, stuck, i);
    }
}

proof fn lemma_rank_nonneg(rs: Seq<DeploymentResourceView>, x: OperationIdView)
    ensures
        node_rank(rs, x) >= 0,
{
}

proof fn lemma_rank_at_most(rs: Seq<DeploymentResourceView>, x: OperationIdView)
    ensures
        node_rank(rs, x) <= 3,
{
}


/// A container that mounts a managed named volume is created only after that volume: its
/// creation lists the volume's creation among its prerequisites, and the volume's creation comes
/// earlier in the plan.
pub proof fn lemma_mounted_volume_precedes_container(intent: DeploymentIntentView, p: DeploymentPlanView, i: int, k: int)
    requires
        planned(intent, p),
        0 <= i < p.operations.len(),
        p.operations[i].id.action == SemanticOperationAction::Create,
        p.operations[i].resource_intent matches DeploymentResourceView::Container(c) && 0 <= k < c.mounts.len()
            && is_managed(intent.resources, c.mounts[k].source),
    ensures
        ({
            let v = p.operations[i].resource_intent->Container_0.mounts[k].source;
            let x = OperationIdView { action: SemanticOperationAction::Create, resource: v };
            &&& p.operations[i].depends_on.contains(x)
            &&& op_ids(p.operations).take(i).contains(x)
        }),
{
    let rs = intent.resources;
    let ds = intent.startup_dependencies;
    let op = p.operations[i];
    let c = op.resource_intent->Container_0;
    let v = c.mounts[k].source;
    let x = OperationIdView { action: SemanticOperationAction::Create, resource: v };
    assert(operation_content(rs, ds, op));
    assert(mount_sources(c.mounts)[k] == v);
    assert(creates_one_of(rs, mount_sources(c.mounts), x));
    assert(create_dep(rs, entry(rs, op.id.resource), x));
    assert(plan_dep(rs, ds, op.id, x));
    assert(op_ids(p.operations)[i] == op.id);
    assert(plan_ready(rs, ds, op_ids(p.operations).take(i), op_ids(p.operations)[i]));
}


/// A declaration is created only after everything it names that the plan manages: a
/// container after its image is acquired and after its pod, networks, mounted volumes and
/// secrets are created; a pod after its networks and the volumes its infra container mounts.
/// Each such operation is among the creation's prerequisites and comes earlier in the plan.
pub proof fn lemma_references_precede_creation(intent: DeploymentIntentView, p: DeploymentPlanView, i: int, x: OperationIdView)
    requires
        planned(intent, p),
        0 <= i < p.operations.len(),
        p.operations[i].id.action == SemanticOperationAction::Create,
        match p.operations[i].resource_intent {
            DeploymentResourceView::Container(c) => {
                ||| is_managed(intent.resources, c.image) && x == (OperationIdView {
                    action: SemanticOperationAction::EnsureImage,
                    resource: c.image,
                })
                ||| (c.pod matches Some(pp) && is_managed(intent.resources, pp) && x == (OperationIdView {
                    action: SemanticOperationAction::Create,
                    resource: pp,
                }))
                ||| exists|k: int|
                    0 <= k < c.networks.len() && is_managed(intent.resources, c.networks[k]) && x == (OperationIdView {
                        action: SemanticOperationAction::Create,
                        resource: #[trigger] c.networks[k],
                    })
                ||| exists|k: int|
                    0 <= k < c.mounts.len() && is_managed(intent.resources, c.mounts[k].source) && x == (OperationIdView {
                        action: SemanticOperationAction::Create,
                        resource: (#[trigger] c.mounts[k]).source,
                    })
                ||| exists|k: int|
                    0 <= k < c.secrets.len() && is_managed(intent.resources, c.secrets[k]) && x == (OperationIdView {
                        action: SemanticOperationAction::Create,
                        resource: #[trigger] c.secrets[k],
                    })
            },
            DeploymentResourceView::Pod(pd) => {
                ||| exists|k: int|
                    0 <= k < pd.networks.len() && is_managed(intent.resources, pd.networks[k]) && x == (OperationIdView {
                        action: SemanticOperationAction::Create,
                        resource: #[trigger] pd.networks[k],
                    })
                ||| exists|k: int|
                    0 <= k < pd.infra_mounts.len() && is_managed(intent.resources, pd.infra_mounts[k].source) && x == (
                    OperationIdView { action: SemanticOperationAction::Create, resource: (#[trigger] pd.infra_mounts[k]).source })
            },
            _ => false,
        },
    ensures
        p.operations[i].depends_on.contains(x),
        op_ids(p.operations).take(i).contains(x),
{
    let rs = intent.resources;
    let ds = intent.startup_dependencies;
    let op = p.operations[i];
    assert(operation_content(rs, ds, op));
    match op.resource_intent {
        DeploymentResourceView::Container(c) => {
            if exists|k: int|
                0 <= k < c.networks.len() && is_managed(rs, c.networks[k]) && x == create_op(#[trigger] c.networks[k]) {
                let k = choose|k: int|
                    0 <= k < c.networks.len() && is_managed(rs, c.networks[k]) && x == create_op(#[trigger] c.networks[k]);
                assert(creates_one_of(rs, c.networks, x));
            }
            if exists|k: int|
                0 <= k < c.mounts.len() && is_managed(rs, c.mounts[k].source) && x == create_op((#[trigger] c.mounts[k]).source) {
                let k = choose|k: int|
                    0 <= k < c.mounts.len() && is_managed(rs, c.mounts[k].source) && x == create_op((#[trigger] c.mounts[k]).source);
                assert(mount_sources(c.mounts)[k] == c.mounts[k].source);
                assert(creates_one_of(rs, mount_sources(c.mounts), x));
            }
            if exists|k: int|
                0 <= k < c.secrets.len() && is_managed(rs, c.secrets[k]) && x == create_op(#[trigger] c.secrets[k]) {
                let k = choose|k: int|
                    0 <= k < c.secrets.len() && is_managed(rs, c.secrets[k]) && x == create_op(#[trigger] c.secrets[k]);
                assert(creates_one_of(rs, c.secrets, x));
            }
        },
        DeploymentResourceView::Pod(pd) => {
            if exists|k: int|
                0 <= k < pd.networks.len() && is_managed(rs, pd.networks[k]) && x == create_op(#[trigger] pd.networks[k]) {
                let k = choose|k: int|
                    0 <= k < pd.networks.len() && is_managed(rs, pd.networks[k]) && x == create_op(#[trigger] pd.networks[k]);
                assert(creates_one_of(rs, pd.networks, x));
            }
            if exists|k: int|
                0 <= k < pd.infra_mounts.len() && is_managed(rs, pd.infra_mounts[k].source) && x == create_op(
                    (#[trigger] pd.infra_mounts[k]).source,
                ) {
                let k = choose|k: int|
                    0 <= k < pd.infra_mounts.len() && is_managed(rs, pd.infra_mounts[k].source) && x == create_op(
                        (#[trigger] pd.infra_mounts[k]).source,
                    );
                assert(mount_sources(pd.infra_mounts)[k] == pd.infra_mounts[k].source);
                assert(creates_one_of(rs, mount_sources(pd.infra_mounts), x));
            }
        },
        _ => {},
    }
    assert(create_dep(rs, entry(rs, op.id.resource), x));
    assert(plan_dep(rs, ds, op.id, x));
    assert(op_ids(p.operations)[i] == op.id);
    assert(plan_ready(rs, ds, op_ids(p.operations).take(i), op_ids(p.operations)[i]));
}

} // verus!
