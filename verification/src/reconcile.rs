//! Cross-resource reconciliation of native relationships after an inventory was read.
//!
//! Each relationship is resolved against every observed identity, name, and image alias of its
//! target kind; a relationship that does not name exactly one resource, a pod and container that
//! disagree about membership, and a container whose configured and local images differ are
//! reported on the resource that asserted them.

use vstd::prelude::*;

use crate::diagnostic::DiagnosticCode;
use crate::discovery::{observed_contains, observed_relationship_list, observed_relationships, observed_texts};
use crate::inventory::ResourceKind;
use crate::observation::{texts, IdentityView, ObservationField, ObservationRecord, RelationshipView, ResourceIdentity};
use crate::once::{opt_view, same_text, views};

verus! {

// ---------------------------------------------------------------------------------------------
// Findings.
// ---------------------------------------------------------------------------------------------
/// The content of an inventory finding.
pub struct InventoryFindingView {
    pub code: DiagnosticCode,
    pub resource: Option<IdentityView>,
    pub field_path: Option<Seq<char>>,
    pub occurrence: Option<usize>,
}

/// One structured non-fatal acquisition finding.
#[derive(Debug)]
pub struct InventoryFinding {
    code: DiagnosticCode,
    resource: Option<ResourceIdentity>,
    field_path: Option<String>,
    occurrence: Option<usize>,
}

impl View for InventoryFinding {
    type V = InventoryFindingView;

    closed spec fn view(&self) -> InventoryFindingView {
        InventoryFindingView {
            code: self.code,
            resource: opt_view(self.resource),
            field_path: opt_view(self.field_path),
            occurrence: self.occurrence,
        }
    }
}

/// A finding about one source path of one resource.
pub open spec fn field_finding(code: DiagnosticCode, resource: IdentityView, path: Seq<char>) -> InventoryFindingView {
    InventoryFindingView { code, resource: Some(resource), field_path: Some(path), occurrence: None }
}

/// A finding about one item of a source array of one resource.
pub open spec fn occurrence_finding(code: DiagnosticCode, resource: IdentityView, path: Seq<char>, index: int) -> InventoryFindingView {
    InventoryFindingView { code, resource: Some(resource), field_path: Some(path), occurrence: Some(index as usize) }
}

/// A finding about one resource as a whole.
pub open spec fn resource_finding(code: DiagnosticCode, resource: IdentityView) -> InventoryFindingView {
    InventoryFindingView { code, resource: Some(resource), field_path: None, occurrence: None }
}

/// A finding about a whole inventory section.
pub open spec fn section_finding(code: DiagnosticCode) -> InventoryFindingView {
    InventoryFindingView { code, resource: None, field_path: None, occurrence: None }
}

impl InventoryFinding {
    pub(crate) fn field(code: DiagnosticCode, resource: ResourceIdentity, field_path: String) -> (r: Self)
        ensures
            r@ == field_finding(code, resource@, field_path@),
    {
        InventoryFinding { code, resource: Some(resource), field_path: Some(field_path), occurrence: None }
    }

    pub(crate) fn at_occurrence(code: DiagnosticCode, resource: ResourceIdentity, field_path: String, index: usize) -> (r: Self)
        ensures
            r@ == occurrence_finding(code, resource@, field_path@, index as int),
    {
        InventoryFinding { code, resource: Some(resource), field_path: Some(field_path), occurrence: Some(index) }
    }

    pub(crate) fn for_resource(code: DiagnosticCode, resource: ResourceIdentity) -> (r: Self)
        ensures
            r@ == resource_finding(code, resource@),
    {
        InventoryFinding { code, resource: Some(resource), field_path: None, occurrence: None }
    }

    pub(crate) fn section(code: DiagnosticCode) -> (r: Self)
        ensures
            r@ == section_finding(code),
    {
        InventoryFinding { code, resource: None, field_path: None, occurrence: None }
    }

    /// Returns the stable diagnostic rule code.
    pub fn code(&self) -> (r: DiagnosticCode)
        ensures
            r == self@.code,
    {
        self.code
    }

    /// Returns the affected resource, when the finding has a stable resource identity.
    pub fn resource(&self) -> (r: Option<&ResourceIdentity>)
        ensures
            opt_view(r) == self@.resource,
    {
        self.resource.as_ref()
    }

    /// Returns the source JSON path for a field-specific finding.
    pub fn field_path(&self) -> (r: Option<&str>)
        ensures
            match r {
                Some(p) => self@.field_path == Some(p@),
                None => self@.field_path is None,
            },
    {
        match &self.field_path {
            Some(p) => Some(p.as_str()),
            None => None,
        }
    }

    /// Returns the zero-based source-array occurrence for an item-specific finding.
    pub fn occurrence(&self) -> (r: Option<usize>)
        ensures
            r == self@.occurrence,
    {
        self.occurrence
    }
}

// ---------------------------------------------------------------------------------------------
// Targets.
// ---------------------------------------------------------------------------------------------
/// Record `i` is a `kind` resource named by `reference`: by ID, by name, or by image alias.
pub open spec fn candidate(recs: Seq<ObservationRecord>, kind: ResourceKind, reference: Seq<char>, i: int) -> bool {
    &&& 0 <= i < recs.len()
    &&& recs[i].identity@.kind == kind
    &&& (recs[i].identity@.id == reference || recs[i].identity@.name == Some(reference) || (kind == ResourceKind::Image
        && observed_texts(recs[i].image_aliases).contains(reference)))
}

/// What one reference names among all observed resources.
pub enum Target {
    Unresolved,
    One(Seq<char>),
    Ambiguous,
}

/// No resource, the resources of exactly one ID, or resources of several IDs are named.
pub open spec fn target_of(recs: Seq<ObservationRecord>, kind: ResourceKind, reference: Seq<char>) -> Target {
    if exists|i: int, j: int|
        #[trigger] candidate(recs, kind, reference, i) && #[trigger] candidate(recs, kind, reference, j)
            && recs[i].identity@.id != recs[j].identity@.id {
        Target::Ambiguous
    } else if exists|i: int| #[trigger] candidate(recs, kind, reference, i) {
        Target::One(recs[choose|i: int| #[trigger] candidate(recs, kind, reference, i)].identity@.id)
    } else {
        Target::Unresolved
    }
}

/// The outcome of resolving one relationship's references.
pub enum Reconciled {
    Unresolved,
    One(Seq<char>),
    Ambiguous,
    Conflict,
}

/// Resolves the remaining references after the distinct target IDs `acc` were found.
pub open spec fn reconcile_from(
    recs: Seq<ObservationRecord>,
    kind: ResourceKind,
    refs: Seq<Seq<char>>,
    acc: Seq<Seq<char>>,
) -> Reconciled
    decreases refs.len(),
{
    if refs.len() == 0 {
        if acc.len() == 1 {
            Reconciled::One(acc[0])
        } else if acc.len() == 0 {
            Reconciled::Unresolved
        } else {
            Reconciled::Conflict
        }
    } else {
        match target_of(recs, kind, refs[0]) {
            Target::Unresolved => Reconciled::Unresolved,
            Target::Ambiguous => Reconciled::Ambiguous,
            Target::One(t) => reconcile_from(
                recs,
                kind,
                refs.drop_first(),
                if acc.contains(t) {
                    acc
                } else {
                    acc.push(t)
                },
            ),
        }
    }
}

/// The outcome of resolving a relationship against every observed resource.
pub open spec fn reconciled(recs: Seq<ObservationRecord>, rel: RelationshipView) -> Reconciled {
    reconcile_from(recs, rel.kind, rel.references, Seq::empty())
}

enum TargetResolution {
    One(String),
    Unresolved,
    Ambiguous,
}

spec fn target_view(r: TargetResolution) -> Target {
    match r {
        TargetResolution::One(t) => Target::One(t@),
        TargetResolution::Unresolved => Target::Unresolved,
        TargetResolution::Ambiguous => Target::Ambiguous,
    }
}

fn is_candidate(records: &[ObservationRecord], kind: ResourceKind, reference: &str, i: usize) -> (r: bool)
    requires
        i < records@.len(),
    ensures
        r == candidate(records@, kind, reference@, i as int),
{
    let rec = &records[i];
    if rec.identity.kind() != kind {
        return false;
    }
    if crate::text::str_eq(rec.identity.id(), reference) {
        return true;
    }
    match rec.identity.name() {
        Some(n) => {
            if crate::text::str_eq(n, reference) {
                return true;
            }
        },
        None => {},
    }
    match kind {
        ResourceKind::Image => observed_contains(&rec.image_aliases, reference),
        _ => false,
    }
}

fn lookup_target(records: &[ObservationRecord], kind: ResourceKind, reference: &str) -> (r: TargetResolution)
    ensures
        target_view(r) == target_of(records@, kind, reference@),
{
    let ghost recs = records@;
    let mut first: Option<usize> = None;
    let mut i: usize = 0;
    while i < records.len()
        invariant
            i <= records.len(),
            recs == records@,
            match first {
                None => forall|k: int| 0 <= k < i ==> !#[trigger] candidate(recs, kind, reference@, k),
                Some(f) => f < i && candidate(recs, kind, reference@, f as int) && forall|k: int|
                    0 <= k < i && #[trigger] candidate(recs, kind, reference@, k) ==> recs[k].identity@.id == recs[f as int].identity@.id,
            },
        decreases records.len() - i,
    {
        if is_candidate(records, kind, reference, i) {
            match first {
                Some(f) => {
                    if !crate::text::str_eq(records[i].identity.id(), records[f].identity.id()) {
                        proof {
                            assert(candidate(recs, kind, reference@, i as int) && candidate(recs, kind, reference@, f as int));
                        }
                        return TargetResolution::Ambiguous;
                    }
                },
                None => {
                    first = Some(i);
                },
            }
        }
        i = i + 1;
    }
    match first {
        None => {
            proof {
                assert forall|k: int| !#[trigger] candidate(recs, kind, reference@, k) by {
                    if 0 <= k < recs.len() {
                    }
                }
            }
            TargetResolution::Unresolved
        },
        Some(f) => {
            proof {
                assert forall|a: int, b: int|
                    #[trigger] candidate(recs, kind, reference@, a) && #[trigger] candidate(recs, kind, reference@, b)
                        implies recs[a].identity@.id == recs[b].identity@.id by {}
                let c = choose|c: int| #[trigger] candidate(recs, kind, reference@, c);
            }
            TargetResolution::One(records[f].identity.id().to_owned())
        },
    }
}

enum RelationshipTarget {
    One(String),
    Unresolved,
    Ambiguous,
    Conflict,
}

spec fn relationship_target_view(r: RelationshipTarget) -> Reconciled {
    match r {
        RelationshipTarget::One(t) => Reconciled::One(t@),
        RelationshipTarget::Unresolved => Reconciled::Unresolved,
        RelationshipTarget::Ambiguous => Reconciled::Ambiguous,
        RelationshipTarget::Conflict => Reconciled::Conflict,
    }
}

fn texts_include(items: &Vec<String>, item: &String) -> (r: bool)
    ensures
        r == texts(items@).contains(item@),
{
    crate::discovery::texts_contain(items, item.as_str())
}

fn resolve_target(records: &[ObservationRecord], kind: ResourceKind, references: &[String]) -> (r: RelationshipTarget)
    ensures
        relationship_target_view(r) == reconcile_from(records@, kind, texts(references@), Seq::empty()),
{
    let ghost recs = records@;
    let ghost refs = texts(references@);
    let mut resolved: Vec<String> = Vec::new();
    let mut i: usize = 0;
    proof {
        assert(refs.skip(0) =~= refs);
        assert(texts(resolved@) =~= Seq::<Seq<char>>::empty());
    }
    while i < references.len()
        invariant
            i <= references.len(),
            recs == records@,
            refs == texts(references@),
            reconcile_from(recs, kind, refs, Seq::empty()) == reconcile_from(recs, kind, refs.skip(i as int), texts(resolved@)),
        decreases references.len() - i,
    {
        let ghost rest = refs.skip(i as int);
        let ghost acc = texts(resolved@);
        assert(rest[0] == references@[i as int]@);
        assert(rest.drop_first() =~= refs.skip(i + 1));
        match lookup_target(records, kind, references[i].as_str()) {
            TargetResolution::One(t) => {
                let ghost tv = t@;
                if !texts_include(&resolved, &t) {
                    resolved.push(t);
                    assert(texts(resolved@) =~= acc.push(tv));
                }
                assert(reconcile_from(recs, kind, rest, acc) == reconcile_from(
                    recs,
                    kind,
                    rest.drop_first(),
                    if acc.contains(tv) {
                        acc
                    } else {
                        acc.push(tv)
                    },
                ));
            },
            TargetResolution::Unresolved => {
                return RelationshipTarget::Unresolved;
            },
            TargetResolution::Ambiguous => {
                return RelationshipTarget::Ambiguous;
            },
        }
        i = i + 1;
    }
    assert(refs.skip(i as int).len() == 0);
    if resolved.len() == 1 {
        let one = resolved.pop().unwrap();
        RelationshipTarget::One(one)
    } else if resolved.len() == 0 {
        RelationshipTarget::Unresolved
    } else {
        RelationshipTarget::Conflict
    }
}

// ---------------------------------------------------------------------------------------------
// What each resource is told.
// ---------------------------------------------------------------------------------------------
/// The finding code of a relationship that did not resolve to one target.
pub open spec fn reconciled_code(o: Reconciled) -> DiagnosticCode {
    match o {
        Reconciled::Unresolved => DiagnosticCode::UnresolvedRelationship,
        Reconciled::Ambiguous => DiagnosticCode::RelationshipAmbiguous,
        _ => DiagnosticCode::RelationshipConflict,
    }
}

/// The findings of relationship `rel` of the resource `identity`: one per source path, unless
/// its kind's section is unavailable or it names exactly one resource.
pub open spec fn rel_findings(
    recs: Seq<ObservationRecord>,
    available: Seq<ResourceKind>,
    identity: IdentityView,
    rel: RelationshipView,
) -> Seq<InventoryFindingView> {
    if available.contains(rel.kind) && !(reconciled(recs, rel) is One) {
        rel.field_paths.map_values(|p: Seq<char>| field_finding(reconciled_code(reconciled(recs, rel)), identity, p))
    } else {
        Seq::empty()
    }
}

/// The findings of relationships `rels` of the resource `identity`, in order.
pub open spec fn rels_findings(
    recs: Seq<ObservationRecord>,
    available: Seq<ResourceKind>,
    identity: IdentityView,
    rels: Seq<RelationshipView>,
) -> Seq<InventoryFindingView>
    decreases rels.len(),
{
    if rels.len() == 0 {
        Seq::empty()
    } else {
        rels_findings(recs, available, identity, rels.drop_last()) + rel_findings(recs, available, identity, rels.last())
    }
}

/// The findings of the observed relationships of record `i`.
pub open spec fn relationship_findings_of(recs: Seq<ObservationRecord>, available: Seq<ResourceKind>, i: int) -> Seq<InventoryFindingView> {
    match observed_relationships(recs[i]) {
        Some(rels) => rels_findings(recs, available, recs[i].identity@, rels),
        None => Seq::empty(),
    }
}

/// A pod's member relationship does not name exactly one container.
pub open spec fn pod_member_unresolved(recs: Seq<ObservationRecord>, i: int) -> bool {
    &&& recs[i].identity@.kind == ResourceKind::Pod
    &&& observed_relationships(recs[i]) matches Some(rels)
    &&& exists|k: int| 0 <= k < rels.len() && (#[trigger] rels[k]).kind == ResourceKind::Container && !(reconciled(recs, rels[k]) is One)
}

/// A resource of an available section asserts, by one of its relationships of `rel_kind`, that
/// the `from_kind` resource `from` relates to `to`.
pub open spec fn link(
    recs: Seq<ObservationRecord>,
    available: Seq<ResourceKind>,
    from_kind: ResourceKind,
    rel_kind: ResourceKind,
    from: Seq<char>,
    to: Seq<char>,
) -> bool {
    exists|j: int, k: int| #[trigger] link_at(recs, available, from_kind, rel_kind, from, to, j, k)
}

pub open spec fn link_at(
    recs: Seq<ObservationRecord>,
    available: Seq<ResourceKind>,
    from_kind: ResourceKind,
    rel_kind: ResourceKind,
    from: Seq<char>,
    to: Seq<char>,
    j: int,
    k: int,
) -> bool {
    &&& 0 <= j < recs.len()
    &&& available.contains(recs[j].identity@.kind)
    &&& recs[j].identity@.kind == from_kind
    &&& recs[j].identity@.id == from
    &&& observed_relationships(recs[j]) matches Some(rels)
    &&& 0 <= k < rels.len()
    &&& rels[k].kind == rel_kind
    &&& reconciled(recs, rels[k]) == Reconciled::One(to)
}

/// A pod lists a member that does not name the pod back, or a container names a pod that does
/// not list it.
pub open spec fn membership_disagrees(recs: Seq<ObservationRecord>, available: Seq<ResourceKind>, i: int) -> bool {
    let id = recs[i].identity@.id;
    ||| recs[i].identity@.kind == ResourceKind::Pod && exists|m: Seq<char>|
        #[trigger] link(recs, available, ResourceKind::Pod, ResourceKind::Container, id, m) && !link(
            recs,
            available,
            ResourceKind::Container,
            ResourceKind::Pod,
            m,
            id,
        )
    ||| recs[i].identity@.kind == ResourceKind::Container && exists|p: Seq<char>|
        #[trigger] link(recs, available, ResourceKind::Container, ResourceKind::Pod, id, p) && !link(
            recs,
            available,
            ResourceKind::Pod,
            ResourceKind::Container,
            p,
            id,
        )
}

/// A container's configured image and local image ID each name one image, and not the same one.
pub open spec fn image_disagrees(recs: Seq<ObservationRecord>, i: int) -> bool {
    &&& recs[i].identity@.kind == ResourceKind::Container
    &&& recs[i].configured_image matches Some(ObservationField::Observed(c))
    &&& recs[i].local_image_id matches Some(ObservationField::Observed(l))
    &&& target_of(recs, ResourceKind::Image, c.spec_value()@) matches Target::One(a)
    &&& target_of(recs, ResourceKind::Image, l.spec_value()@) matches Target::One(b)
    &&& a != b
}

/// Every finding reconciliation reports on record `i`, in order: its relationships' findings,
/// then an unresolved pod member, one-sided pod membership, and a container image conflict.
pub open spec fn reconciliation_findings(recs: Seq<ObservationRecord>, available: Seq<ResourceKind>, i: int) -> Seq<InventoryFindingView> {
    let id = recs[i].identity@;
    relationship_findings_of(recs, available, i) + (if pod_member_unresolved(recs, i) {
        seq![field_finding(DiagnosticCode::PodMembershipConflict, id, "$.Containers"@)]
    } else {
        Seq::empty()
    }) + (if membership_disagrees(recs, available, i) {
        seq![field_finding(DiagnosticCode::PodMembershipConflict, id, "$.PodMembership"@)]
    } else {
        Seq::empty()
    }) + (if image_disagrees(recs, i) {
        seq![field_finding(DiagnosticCode::RelationshipConflict, id, "$.ImageName"@)]
    } else {
        Seq::empty()
    })
}

fn kind_available(available: &[ResourceKind], kind: ResourceKind) -> (r: bool)
    ensures
        r == available@.contains(kind),
{
    let mut i: usize = 0;
    while i < available.len()
        invariant
            i <= available.len(),
            forall|k: int| 0 <= k < i ==> available@[k] != kind,
        decreases available.len() - i,
    {
        if available[i] == kind {
            return true;
        }
        i = i + 1;
    }
    false
}

fn push_finding(out: Vec<InventoryFinding>, f: InventoryFinding) -> (r: Vec<InventoryFinding>)
    ensures
        views(r@) == views(out@).push(f@),
{
    let mut out = out;
    let ghost before = views(out@);
    let ghost fv = f@;
    out.push(f);
    assert(views(out@) =~= before.push(fv));
    out
}

fn relationship_findings(records: &[ObservationRecord], available: &[ResourceKind], i: usize) -> (r: Vec<InventoryFinding>)
    requires
        i < records@.len(),
    ensures
        views(r@) == relationship_findings_of(records@, available@, i as int),
{
    let ghost recs = records@;
    let ghost ii = i as int;
    let mut out: Vec<InventoryFinding> = Vec::new();
    proof {
        assert(views(out@) =~= Seq::<InventoryFindingView>::empty());
    }
    match observed_relationship_list(&records[i]) {
        None => out,
        Some(rels) => {
            let ghost rv = views(rels@);
            let identity = &records[i].identity;
            let ghost idv = identity@;
            let mut k: usize = 0;
            while k < rels.len()
                invariant
                    k <= rels.len(),
                    recs == records@,
                    rv == views(rels@),
                    identity@ == idv,
                    views(out@) == rels_findings(recs, available@, idv, rv.take(k as int)),
                decreases rels.len() - k,
            {
                let rel = &rels[k];
                let ghost kk = k as int;
                assert(rv[kk] == rel@);
                proof {
                    assert(rv.take(kk + 1).drop_last() =~= rv.take(kk));
                    assert(rv.take(kk + 1).last() == rel@);
                }
                let ghost before = views(out@);
                let ghost expected = rel_findings(recs, available@, idv, rel@);
                if kind_available(available, rel.kind()) {
                    let outcome = resolve_target(records, rel.kind(), rel.references());
                    let code = match outcome {
                        RelationshipTarget::One(_) => None,
                        RelationshipTarget::Unresolved => Some(DiagnosticCode::UnresolvedRelationship),
                        RelationshipTarget::Ambiguous => Some(DiagnosticCode::RelationshipAmbiguous),
                        RelationshipTarget::Conflict => Some(DiagnosticCode::RelationshipConflict),
                    };
                    match code {
                        Some(code) => {
                            let paths = rel.field_paths();
                            let ghost pv = texts(paths@);
                            let ghost make = |p: Seq<char>| field_finding(code, idv, p);
                            let mut m: usize = 0;
                            while m < paths.len()
                                invariant
                                    m <= paths.len(),
                                    pv == texts(paths@),
                                    identity@ == idv,
                                    make == (|p: Seq<char>| field_finding(code, idv, p)),
                                    views(out@) == before + pv.take(m as int).map_values(make),
                                decreases paths.len() - m,
                            {
                                let ghost ob = out@;
                                let fnd = InventoryFinding::field(code, identity.clone(), paths[m].clone());
                                let ghost fv = fnd@;
                                out = push_finding(out, fnd);
                                proof {
                                    assert(pv[m as int] == paths@[m as int]@);
                                    assert(pv.take(m + 1) =~= pv.take(m as int).push(pv[m as int]));
                                    assert(views(out@) =~= before + pv.take(m + 1).map_values(make));
                                }
                                m = m + 1;
                            }
                            proof {
                                assert(pv.take(paths.len() as int) =~= pv);
                                assert(expected =~= pv.map_values(make));
                            }
                        },
                        None => {
                            assert(expected =~= Seq::<InventoryFindingView>::empty());
                            assert(views(out@) =~= before + expected);
                        },
                    }
                } else {
                    assert(expected =~= Seq::<InventoryFindingView>::empty());
                    assert(views(out@) =~= before + expected);
                }
                k = k + 1;
            }
            assert(rv.take(rels.len() as int) =~= rv);
            out
        },
    }
}


/// Finds, over the relationships of available `from_kind` resources with ID `from`, the targets
/// of kind `rel_kind` they name exactly; `check` says whether some such target `to` has
/// `accept(to)`.
fn linked_target_with(
    records: &[ObservationRecord],
    available: &[ResourceKind],
    from_kind: ResourceKind,
    rel_kind: ResourceKind,
    from: &str,
    to: Option<&str>,
    back: bool,
) -> (r: bool)
    ensures
        to matches Some(t) ==> (r == link(records@, available@, from_kind, rel_kind, from@, t@)),
        to is None && back ==> (r == exists|m: Seq<char>|
            #[trigger] link(records@, available@, from_kind, rel_kind, from@, m) && !link(
                records@,
                available@,
                rel_kind,
                from_kind,
                m,
                from@,
            )),
    decreases (if back { 1int } else { 0int }),
{
    let ghost recs = records@;
    let mut j: usize = 0;
    while j < records.len()
        invariant
            j <= records.len(),
            recs == records@,
            to matches Some(t) ==> forall|j2: int, k2: int| 0 <= j2 < j ==> !#[trigger] link_at(recs, available@, from_kind, rel_kind, from@, t@, j2, k2),
            to is None && back ==> forall|j2: int, k2: int, m: Seq<char>|
                0 <= j2 < j && #[trigger] link_at(recs, available@, from_kind, rel_kind, from@, m, j2, k2) ==> link(
                    recs,
                    available@,
                    rel_kind,
                    from_kind,
                    m,
                    from@,
                ),
        decreases records.len() - j,
    {
        let rec = &records[j];
        let ghost jj = j as int;
        let eligible = kind_available(available, rec.identity.kind()) && rec.identity.kind() == from_kind
            && crate::text::str_eq(rec.identity.id(), from);
        if eligible {
            match observed_relationship_list(rec) {
                Some(rels) => {
                    let ghost rv = views(rels@);
                    let mut k: usize = 0;
                    while k < rels.len()
                        invariant
                            k <= rels.len(),
                            j < records@.len(),
                            jj == j as int,
                            recs == records@,
                            *rec == recs[jj],
                            available@.contains(recs[jj].identity@.kind),
                            recs[jj].identity@.kind == from_kind,
                            recs[jj].identity@.id == from@,
                            observed_relationships(recs[jj]) == Some(rv),
                            rv == views(rels@),
                            to matches Some(t) ==> forall|j2: int, k2: int|
                                (0 <= j2 < j || (j2 == j && k2 < k)) ==> !#[trigger] link_at(recs, available@, from_kind, rel_kind, from@, t@, j2, k2),
                            to is None && back ==> forall|j2: int, k2: int, m: Seq<char>|
                                (0 <= j2 < j || (j2 == j && k2 < k)) && #[trigger] link_at(recs, available@, from_kind, rel_kind, from@, m, j2, k2)
                                    ==> link(recs, available@, rel_kind, from_kind, m, from@),
                        decreases rels.len() - k,
                    {
                        let rel = &rels[k];
                        let ghost kk = k as int;
                        assert(rv[kk] == rel@);
                        if rel.kind() == rel_kind {
                            match resolve_target(records, rel.kind(), rel.references()) {
                                RelationshipTarget::One(t) => {
                                    proof {
                                        assert(link_at(recs, available@, from_kind, rel_kind, from@, t@, jj, kk));
                                    }
                                    match to {
                                        Some(wanted) => {
                                            if crate::text::str_eq(t.as_str(), wanted) {
                                                return true;
                                            }
                                        },
                                        None => {
                                            if back && !linked_target_with(
                                                records,
                                                available,
                                                rel_kind,
                                                from_kind,
                                                t.as_str(),
                                                Some(from),
                                                false,
                                            ) {
                                                proof {
                                                    assert(link(recs, available@, from_kind, rel_kind, from@, t@));
                                                    assert(!link(recs, available@, rel_kind, from_kind, t@, from@));
                                                }
                                                return true;
                                            }
                                        },
                                    }
                                },
                                _ => {},
                            }
                        }
                        k = k + 1;
                    }
                },
                None => {},
            }
        }
        j = j + 1;
    }
    proof {
        if to is None && back {
            if exists|m: Seq<char>|
                #[trigger] link(recs, available@, from_kind, rel_kind, from@, m) && !link(recs, available@, rel_kind, from_kind, m, from@) {
                let m = choose|m: Seq<char>|
                    #[trigger] link(recs, available@, from_kind, rel_kind, from@, m) && !link(recs, available@, rel_kind, from_kind, m, from@);
                let (j2, k2) = choose|j2: int, k2: int| #[trigger] link_at(recs, available@, from_kind, rel_kind, from@, m, j2, k2);
            }
        }
    }
    false
}


fn has_unresolved_member(records: &[ObservationRecord], i: usize) -> (r: bool)
    requires
        i < records@.len(),
    ensures
        r == pod_member_unresolved(records@, i as int),
{
    let rec = &records[i];
    if rec.identity.kind() != ResourceKind::Pod {
        return false;
    }
    match observed_relationship_list(rec) {
        Some(rels) => {
            let ghost rv = views(rels@);
            let mut k: usize = 0;
            while k < rels.len()
                invariant
                    k <= rels.len(),
                    i < records@.len(),
                    *rec == records@[i as int],
                    rec.identity@.kind == ResourceKind::Pod,
                    observed_relationships(records@[i as int]) == Some(rv),
                    rv == views(rels@),
                    forall|x: int| 0 <= x < k ==> !((#[trigger] rv[x]).kind == ResourceKind::Container && !(reconciled(records@, rv[x]) is One)),
                decreases rels.len() - k,
            {
                let rel = &rels[k];
                assert(rv[k as int] == rel@);
                if rel.kind() == ResourceKind::Container {
                    match resolve_target(records, rel.kind(), rel.references()) {
                        RelationshipTarget::One(_) => {},
                        _ => {
                            proof {
                                assert(rv[k as int].kind == ResourceKind::Container && !(reconciled(records@, rv[k as int]) is One));
                            }
                            return true;
                        },
                    }
                }
                k = k + 1;
            }
            false
        },
        None => false,
    }
}

fn images_disagree(records: &[ObservationRecord], i: usize) -> (r: bool)
    requires
        i < records@.len(),
    ensures
        r == image_disagrees(records@, i as int),
{
    let rec = &records[i];
    if rec.identity.kind() != ResourceKind::Container {
        return false;
    }
    match (&rec.configured_image, &rec.local_image_id) {
        (Some(ObservationField::Observed(c)), Some(ObservationField::Observed(l))) => {
            match (lookup_target(records, ResourceKind::Image, c.value().as_str()), lookup_target(records, ResourceKind::Image, l.value().as_str())) {
                (TargetResolution::One(a), TargetResolution::One(b)) => !same_text(&a, &b),
                _ => false,
            }
        },
        _ => false,
    }
}

/// Reconciles the relationships of every observed resource: `available` names the kinds whose
/// inventory sections were acquired. The result holds, for each record in order, the findings
/// reported on it.
pub fn reconcile_relationships(records: &[ObservationRecord], available: &[ResourceKind]) -> (r: Vec<Vec<InventoryFinding>>)
    ensures
        r@.len() == records@.len(),
        forall|i: int| 0 <= i < records@.len() ==> views((#[trigger] r@[i])@) == reconciliation_findings(records@, available@, i),
{
    let ghost recs = records@;
    let mut out: Vec<Vec<InventoryFinding>> = Vec::new();
    let mut i: usize = 0;
    while i < records.len()
        invariant
            i <= records.len(),
            recs == records@,
            out@.len() == i,
            forall|x: int| 0 <= x < i ==> views((#[trigger] out@[x])@) == reconciliation_findings(recs, available@, x),
        decreases records.len() - i,
    {
        let ghost ii = i as int;
        let identity = &records[i].identity;
        let mut found = relationship_findings(records, available, i);
        let ghost s1 = views(found@);
        let unresolved_member = has_unresolved_member(records, i);
        if unresolved_member {
            found = push_finding(
                found,
                InventoryFinding::field(DiagnosticCode::PodMembershipConflict, identity.clone(), "$.Containers".to_string()),
            );
        }
        let ghost s2 = views(found@);
        let kind = identity.kind();
        let disagrees = match kind {
            ResourceKind::Pod => linked_target_with(records, available, ResourceKind::Pod, ResourceKind::Container, identity.id(), None, true),
            ResourceKind::Container => linked_target_with(records, available, ResourceKind::Container, ResourceKind::Pod, identity.id(), None, true),
            _ => false,
        };
        if disagrees {
            found = push_finding(
                found,
                InventoryFinding::field(DiagnosticCode::PodMembershipConflict, identity.clone(), "$.PodMembership".to_string()),
            );
        }
        let ghost s3 = views(found@);
        let image_conflict = images_disagree(records, i);
        if image_conflict {
            found = push_finding(
                found,
                InventoryFinding::field(DiagnosticCode::RelationshipConflict, identity.clone(), "$.ImageName".to_string()),
            );
        }
        proof {
            reveal_strlit("$.Containers");
            reveal_strlit("$.PodMembership");
            reveal_strlit("$.ImageName");
            assert(disagrees == membership_disagrees(recs, available@, ii));
            let id = recs[ii].identity@;
            let c = if unresolved_member {
                seq![field_finding(DiagnosticCode::PodMembershipConflict, id, "$.Containers"@)]
            } else {
                Seq::empty()
            };
            let d = if disagrees {
                seq![field_finding(DiagnosticCode::PodMembershipConflict, id, "$.PodMembership"@)]
            } else {
                Seq::empty()
            };
            let e = if image_conflict {
                seq![field_finding(DiagnosticCode::RelationshipConflict, id, "$.ImageName"@)]
            } else {
                Seq::empty()
            };
            assert(s2 =~= s1 + c);
            assert(s3 =~= s2 + d);
            assert(views(found@) =~= s3 + e);
            assert(views(found@) =~= reconciliation_findings(recs, available@, ii));
        }
        let ghost before = out@;
        out.push(found);
        proof {
            assert forall|x: int| 0 <= x < ii + 1 implies views((#[trigger] out@[x])@) == reconciliation_findings(recs, available@, x) by {
                if x < ii {
                    assert(out@[x] == before[x]);
                }
            }
        }
        i = i + 1;
    }
    out
}


/// When every remaining reference names exactly one resource and every ID found so far and
/// every such resource has the ID `x`, the references resolve to `x`.
proof fn lemma_reconcile_same_target(recs: Seq<ObservationRecord>, kind: ResourceKind, refs: Seq<Seq<char>>, acc: Seq<Seq<char>>, x: Seq<char>)
    requires
        forall|k: int| 0 <= k < refs.len() ==> #[trigger] target_of(recs, kind, refs[k]) == Target::One(x),
        acc.len() <= 1,
        forall|j: int| 0 <= j < acc.len() ==> acc[j] == x,
        refs.len() + acc.len() > 0,
    ensures
        reconcile_from(recs, kind, refs, acc) == Reconciled::One(x),
    decreases refs.len(),
{
    if refs.len() > 0 {
        assert(target_of(recs, kind, refs[0]) == Target::One(x));
        let next = if acc.contains(x) {
            acc
        } else {
            acc.push(x)
        };
        if acc.len() == 1 {
            assert(acc.contains(acc[0]));
        }
        assert forall|k: int| 0 <= k < refs.drop_first().len() implies #[trigger] target_of(recs, kind, refs.drop_first()[k])
            == Target::One(x) by {
            assert(refs.drop_first()[k] == refs[k + 1]);
        }
        lemma_reconcile_same_target(recs, kind, refs.drop_first(), next, x);
    }
}

/// Once two different IDs are found, references that each name one resource end in a conflict.
proof fn lemma_reconcile_conflict_kept(recs: Seq<ObservationRecord>, kind: ResourceKind, refs: Seq<Seq<char>>, acc: Seq<Seq<char>>, a: Seq<char>, b: Seq<char>)
    requires
        forall|k: int| 0 <= k < refs.len() ==> #[trigger] target_of(recs, kind, refs[k]) is One,
        acc.contains(a),
        acc.contains(b),
        a != b,
    ensures
        reconcile_from(recs, kind, refs, acc) == Reconciled::Conflict,
    decreases refs.len(),
{
    if refs.len() == 0 {
        if acc.len() == 1 {
            assert(acc[0] == a && acc[0] == b);
        }
    } else {
        let t = target_of(recs, kind, refs[0])->One_0;
        let next = if acc.contains(t) {
            acc
        } else {
            acc.push(t)
        };
        assert(next.contains(a) && next.contains(b)) by {
            if !acc.contains(t) {
                let ia = choose|j: int| 0 <= j < acc.len() && acc[j] == a;
                let ib = choose|j: int| 0 <= j < acc.len() && acc[j] == b;
                assert(next[ia] == a && next[ib] == b);
            }
        }
        assert forall|k: int| 0 <= k < refs.drop_first().len() implies #[trigger] target_of(recs, kind, refs.drop_first()[k]) is One by {
            assert(refs.drop_first()[k] == refs[k + 1]);
        }
        lemma_reconcile_conflict_kept(recs, kind, refs.drop_first(), next, a, b);
    }
}

/// An ID found so far and a later reference naming a resource of another ID end in a conflict.
proof fn lemma_reconcile_conflict_found(recs: Seq<ObservationRecord>, kind: ResourceKind, refs: Seq<Seq<char>>, acc: Seq<Seq<char>>, a: Seq<char>, k: int)
    requires
        forall|m: int| 0 <= m < refs.len() ==> #[trigger] target_of(recs, kind, refs[m]) is One,
        acc.contains(a),
        0 <= k < refs.len(),
        target_of(recs, kind, refs[k]) != Target::One(a),
    ensures
        reconcile_from(recs, kind, refs, acc) == Reconciled::Conflict,
    decreases refs.len(),
{
    let t = target_of(recs, kind, refs[0])->One_0;
    let next = if acc.contains(t) {
        acc
    } else {
        acc.push(t)
    };
    assert(next.contains(a) && next.contains(t)) by {
        if !acc.contains(t) {
            let ia = choose|j: int| 0 <= j < acc.len() && acc[j] == a;
            assert(next[ia] == a);
            assert(next[acc.len() as int] == t);
        }
    }
    assert forall|m: int| 0 <= m < refs.drop_first().len() implies #[trigger] target_of(recs, kind, refs.drop_first()[m]) is One by {
        assert(refs.drop_first()[m] == refs[m + 1]);
    }
    if k == 0 {
        lemma_reconcile_conflict_kept(recs, kind, refs.drop_first(), next, a, t);
    } else {
        assert(refs.drop_first()[k - 1] == refs[k]);
        lemma_reconcile_conflict_found(recs, kind, refs.drop_first(), next, a, k - 1);
    }
}

/// A relationship whose references each name exactly one resource depends only on the set of
/// IDs they name: when all name the same ID it resolves to that ID and gives no finding, however
/// many references repeat it; when two name different IDs it is a conflict, reported at every
/// source path when its kind is available.
pub proof fn lemma_relationship_depends_on_named_ids(
    recs: Seq<ObservationRecord>,
    available: Seq<ResourceKind>,
    identity: IdentityView,
    rel: RelationshipView,
)
    requires
        rel.references.len() > 0,
        forall|k: int| 0 <= k < rel.references.len() ==> #[trigger] target_of(recs, rel.kind, rel.references[k]) is One,
    ensures
        (forall|k: int, l: int|
            0 <= k < rel.references.len() && 0 <= l < rel.references.len() ==> #[trigger] target_of(recs, rel.kind, rel.references[k])
                == #[trigger] target_of(recs, rel.kind, rel.references[l])) ==> reconciled(recs, rel) == Reconciled::One(
            target_of(recs, rel.kind, rel.references[0])->One_0,
        ) && rel_findings(recs, available, identity, rel) == Seq::<InventoryFindingView>::empty(),
        (exists|k: int, l: int|
            0 <= k < rel.references.len() && 0 <= l < rel.references.len() && #[trigger] target_of(recs, rel.kind, rel.references[k])
                != #[trigger] target_of(recs, rel.kind, rel.references[l])) ==> reconciled(recs, rel) == Reconciled::Conflict
            && rel_findings(recs, available, identity, rel) == if available.contains(rel.kind) {
            rel.field_paths.map_values(|p: Seq<char>| field_finding(DiagnosticCode::RelationshipConflict, identity, p))
        } else {
            Seq::<InventoryFindingView>::empty()
        },
{
    let refs = rel.references;
    let kind = rel.kind;
    let x = target_of(recs, kind, refs[0])->One_0;
    assert(target_of(recs, kind, refs[0]) is One);
    if forall|k: int, l: int|
        0 <= k < refs.len() && 0 <= l < refs.len() ==> #[trigger] target_of(recs, kind, refs[k]) == #[trigger] target_of(recs, kind, refs[l]) {
        assert forall|k: int| 0 <= k < refs.len() implies #[trigger] target_of(recs, kind, refs[k]) == Target::One(x) by {
            assert(target_of(recs, kind, refs[k]) == target_of(recs, kind, refs[0]));
        }
        lemma_reconcile_same_target(recs, kind, refs, Seq::empty(), x);
    }
    if exists|k: int, l: int|
        0 <= k < refs.len() && 0 <= l < refs.len() && #[trigger] target_of(recs, kind, refs[k]) != #[trigger] target_of(recs, kind, refs[l]) {
        let (k, l) = choose|k: int, l: int|
            0 <= k < refs.len() && 0 <= l < refs.len() && #[trigger] target_of(recs, kind, refs[k]) != #[trigger] target_of(recs, kind, refs[l]);
        let m = if target_of(recs, kind, refs[k]) != Target::One(x) {
            k
        } else {
            l
        };
        assert(target_of(recs, kind, refs[m]) != Target::One(x));
        assert(m != 0);
        let acc = Seq::<Seq<char>>::empty().push(x);
        assert(acc[0] == x);
        assert forall|j: int| 0 <= j < refs.drop_first().len() implies #[trigger] target_of(recs, kind, refs.drop_first()[j]) is One by {
            assert(refs.drop_first()[j] == refs[j + 1]);
        }
        assert(refs.drop_first()[m - 1] == refs[m]);
        lemma_reconcile_conflict_found(recs, kind, refs.drop_first(), acc, x, m - 1);
        assert(reconcile_from(recs, kind, refs, Seq::empty()) == reconcile_from(recs, kind, refs.drop_first(), acc));
    }
}

} // verus!
