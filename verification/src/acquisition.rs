//! Assembly of a native inventory: request paths, the unknown-field budget shared by one
//! acquisition, listed sections, and the reconciliation of every observation's relationships.
//!
//! Requests themselves are sent by the caller; every decision about what they return is made
//! here and in the decoders.

use vstd::prelude::*;

use crate::decode::{ResourceObservation, ListedSection};
use crate::diagnostic::DiagnosticCode;
use crate::inventory::{kind_collection, ResourceKind, MAX_UNKNOWN_FIELDS_PER_INVENTORY, MAX_UNKNOWN_FIELDS_PER_RECORD};
use crate::observation::{IdentityView, ObservationField, ObservationRecord, ResourceIdentity};
use crate::once::SameValue;
use crate::once::views;
use crate::reconcile::{reconcile_relationships, reconciliation_findings, section_finding, InventoryFinding, InventoryFindingView};
use crate::text::{append_chars, string_from_chars, to_chars};
use crate::sequence::{ServiceObservation, ServiceObservationView};
use crate::version::{ObservedApiVersion, VersionView};

verus! {

// ---------------------------------------------------------------------------------------------
// Request paths.
// ---------------------------------------------------------------------------------------------
/// The query of a list request: containers include stopped ones and synchronize their state,
/// images include intermediate ones.
pub open spec fn list_query(kind: ResourceKind) -> Seq<char> {
    match kind {
        ResourceKind::Container => "?all=true&sync=true"@,
        ResourceKind::Image => "?all=true"@,
        _ => ""@,
    }
}

/// The path of the list request of `kind`.
pub open spec fn list_path_text(api: VersionView, kind: ResourceKind) -> Seq<char> {
    "/v"@ + api.text + "/libpod/"@ + kind_collection(kind) + "/json"@ + list_query(kind)
}

/// The path of the inspect request of one resource.
pub open spec fn inspect_path_text(api: VersionView, identity: IdentityView) -> Seq<char> {
    "/v"@ + api.text + "/libpod/"@ + kind_collection(identity.kind) + "/"@ + identity.id + "/json"@
}

/// Returns the path of the list request of `kind` under the service's API version.
pub fn list_path(api_version: &ObservedApiVersion, kind: ResourceKind) -> (r: String)
    ensures
        r@ == list_path_text(api_version@, kind),
{
    let query = match kind {
        ResourceKind::Container => "?all=true&sync=true",
        ResourceKind::Image => "?all=true",
        _ => "",
    };
    let mut cs = to_chars("/v");
    append_chars(&mut cs, &to_chars(api_version.original()));
    append_chars(&mut cs, &to_chars("/libpod/"));
    append_chars(&mut cs, &to_chars(kind.collection()));
    append_chars(&mut cs, &to_chars("/json"));
    append_chars(&mut cs, &to_chars(query));
    string_from_chars(&cs)
}

/// Returns the path of the inspect request of a listed resource.
pub fn inspect_path(api_version: &ObservedApiVersion, identity: &ResourceIdentity) -> (r: String)
    ensures
        r@ == inspect_path_text(api_version@, identity@),
{
    let mut cs = to_chars("/v");
    append_chars(&mut cs, &to_chars(api_version.original()));
    append_chars(&mut cs, &to_chars("/libpod/"));
    append_chars(&mut cs, &to_chars(identity.kind().collection()));
    append_chars(&mut cs, &to_chars("/"));
    append_chars(&mut cs, &to_chars(identity.id()));
    append_chars(&mut cs, &to_chars("/json"));
    string_from_chars(&cs)
}

// ---------------------------------------------------------------------------------------------
// The unknown-field budget.
// ---------------------------------------------------------------------------------------------
/// How many unknown native fields one acquisition may still retain.
pub struct UnknownFieldBudget {
    remaining: usize,
}

impl UnknownFieldBudget {
    pub closed spec fn spec_remaining(&self) -> usize {
        self.remaining
    }

    /// The budget of a whole inventory.
    pub fn new() -> (r: Self)
        ensures
            r.spec_remaining() == MAX_UNKNOWN_FIELDS_PER_INVENTORY,
    {
        UnknownFieldBudget { remaining: MAX_UNKNOWN_FIELDS_PER_INVENTORY }
    }

    /// The limit for the next record: what remains, but no more than one record may retain.
    pub fn record_limit(&self) -> (r: usize)
        ensures
            r == if self.spec_remaining() < MAX_UNKNOWN_FIELDS_PER_RECORD {
                self.spec_remaining()
            } else {
                MAX_UNKNOWN_FIELDS_PER_RECORD
            },
    {
        if self.remaining < MAX_UNKNOWN_FIELDS_PER_RECORD {
            self.remaining
        } else {
            MAX_UNKNOWN_FIELDS_PER_RECORD
        }
    }

    /// Spends what one observation retained, down to zero.
    pub fn spend(&mut self, observation: &ResourceObservation)
        ensures
            final(self).spec_remaining() == if old(self).spec_remaining() >= observation.spec_unmodelled().len() {
                (old(self).spec_remaining() - observation.spec_unmodelled().len()) as usize
            } else {
                0
            },
    {
        let fields = observation.unmodelled_fields();
        let used = fields.len();
        assert(views(fields@).len() == fields@.len());
        self.remaining = self.remaining.saturating_sub(used);
    }
}

/// The limit `record_limit` gives when `remaining` fields may still be retained.
pub open spec fn record_limit_of(remaining: nat) -> nat {
    if remaining < MAX_UNKNOWN_FIELDS_PER_RECORD {
        remaining
    } else {
        MAX_UNKNOWN_FIELDS_PER_RECORD as nat
    }
}

/// What `spend` leaves after records retained `used` fields in turn, from `remaining`.
pub open spec fn remaining_after(remaining: nat, used: Seq<nat>) -> nat
    decreases used.len(),
{
    if used.len() == 0 {
        remaining
    } else {
        let r = remaining_after(remaining, used.drop_last());
        if r >= used.last() {
            (r - used.last()) as nat
        } else {
            0
        }
    }
}

/// Each record retained no more than the limit it was given.
pub open spec fn within_limits(remaining: nat, used: Seq<nat>) -> bool {
    forall|i: int| 0 <= i < used.len() ==> #[trigger] used[i] <= record_limit_of(remaining_after(remaining, used.take(i)))
}

/// The sum of `used`.
pub open spec fn total(used: Seq<nat>) -> nat
    decreases used.len(),
{
    if used.len() == 0 {
        0
    } else {
        total(used.drop_last()) + used.last()
    }
}

/// One budget bounds the whole inventory: when every record retains no more unknown fields than
/// the limit the budget gives it, the records together retain no more than the budget began
/// with, which is at most `MAX_UNKNOWN_FIELDS_PER_INVENTORY` for a new budget.
pub proof fn lemma_budget_bounds_inventory(remaining: nat, used: Seq<nat>)
    requires
        within_limits(remaining, used),
    ensures
        total(used) + remaining_after(remaining, used) == remaining,
    decreases used.len(),
{
    if used.len() > 0 {
        let init = used.drop_last();
        assert forall|i: int| 0 <= i < init.len() implies #[trigger] init[i] <= record_limit_of(remaining_after(remaining, init.take(i))) by {
            assert(init[i] == used[i]);
            assert(init.take(i) =~= used.take(i));
        }
        lemma_budget_bounds_inventory(remaining, init);
        let n = used.len() - 1;
        assert(used.take(n) =~= init);
        assert(used[n] <= record_limit_of(remaining_after(remaining, init)));
    }
}

// ---------------------------------------------------------------------------------------------
// Sections.
// ---------------------------------------------------------------------------------------------
/// Acquisition state of one listed resource kind.
#[derive(Clone, Copy, Debug, Eq, PartialEq, Structural)]
#[non_exhaustive]
pub enum InventorySectionAvailability {
    /// The list response decoded; individual observations retain their own state.
    Available,
    /// The list endpoint could not be acquired.
    Unavailable,
    /// The list endpoint returned malformed or unsupported data.
    Malformed,
}

/// The observations of one listed resource kind and the findings of its listing.
pub struct InventorySection {
    kind: ResourceKind,
    availability: InventorySectionAvailability,
    observations: Vec<ResourceObservation>,
    findings: Vec<InventoryFinding>,
}

impl InventorySection {
    pub closed spec fn spec_kind(&self) -> ResourceKind {
        self.kind
    }

    pub closed spec fn spec_availability(&self) -> InventorySectionAvailability {
        self.availability
    }

    pub closed spec fn spec_observations(&self) -> Seq<ResourceObservation> {
        self.observations@
    }

    pub closed spec fn spec_findings(&self) -> Seq<InventoryFindingView> {
        views(self.findings@)
    }

    /// The section of a kind whose list request failed with `code`: malformed for a JSON or
    /// shape error, unavailable otherwise, with one section finding of `code`.
    pub fn unavailable(kind: ResourceKind, code: DiagnosticCode) -> (r: Self)
        ensures
            r.spec_kind() == kind,
            r.spec_availability() == if code == DiagnosticCode::InventoryJson || code == DiagnosticCode::InventoryShape {
                InventorySectionAvailability::Malformed
            } else {
                InventorySectionAvailability::Unavailable
            },
            r.spec_observations() == Seq::<ResourceObservation>::empty(),
            r.spec_findings() == seq![section_finding(code)],
    {
        let availability = if code == DiagnosticCode::InventoryJson || code == DiagnosticCode::InventoryShape {
            InventorySectionAvailability::Malformed
        } else {
            InventorySectionAvailability::Unavailable
        };
        let f = InventoryFinding::section(code);
        let ghost fv = f@;
        let mut findings: Vec<InventoryFinding> = Vec::new();
        findings.push(f);
        let r = InventorySection { kind, availability, observations: Vec::new(), findings };
        assert(views(r.findings@) =~= seq![fv]);
        r
    }

    /// The section of a listed kind: the listing's findings and the observations of its
    /// identities.
    pub fn available(kind: ResourceKind, listing: ListedSection, observations: Vec<ResourceObservation>) -> (r: Self)
        ensures
            r.spec_kind() == kind,
            r.spec_availability() == InventorySectionAvailability::Available,
            r.spec_observations() == observations@,
            r.spec_findings() == listing.spec_findings(),
    {
        let findings = listing.into_findings();
        InventorySection { kind, availability: InventorySectionAvailability::Available, observations, findings }
    }

    /// Returns the resource kind of this section.
    pub fn kind(&self) -> (r: ResourceKind)
        ensures
            r == self.spec_kind(),
    {
        self.kind
    }

    /// Returns the list-acquisition state of this kind.
    pub fn availability(&self) -> (r: InventorySectionAvailability)
        ensures
            r == self.spec_availability(),
    {
        self.availability
    }

    /// Returns the observations in list order.
    pub fn observations(&self) -> (r: &[ResourceObservation])
        ensures
            r@ == self.spec_observations(),
    {
        self.observations.as_slice()
    }

    /// Returns the kind-wide findings that have no stable individual resource.
    pub fn findings(&self) -> (r: &[InventoryFinding])
        ensures
            views(r@) == self.spec_findings(),
    {
        self.findings.as_slice()
    }

    /// Whether the list response of this kind decoded.
    pub fn is_available(&self) -> (r: bool)
        ensures
            r == (self.spec_availability() == InventorySectionAvailability::Available),
    {
        self.availability == InventorySectionAvailability::Available
    }
}

// ---------------------------------------------------------------------------------------------
// The inventory.
// ---------------------------------------------------------------------------------------------
/// Every observation of the sections, in section order and then list order.
pub open spec fn all_observations(sections: Seq<InventorySection>) -> Seq<ResourceObservation>
    decreases sections.len(),
{
    if sections.len() == 0 {
        Seq::empty()
    } else {
        all_observations(sections.drop_last()) + sections.last().spec_observations()
    }
}

/// The kinds whose list responses decoded, in section order.
pub open spec fn available_kinds(sections: Seq<InventorySection>) -> Seq<ResourceKind>
    decreases sections.len(),
{
    if sections.len() == 0 {
        Seq::empty()
    } else {
        available_kinds(sections.drop_last()) + if sections.last().spec_availability()
            == InventorySectionAvailability::Available {
            seq![sections.last().spec_kind()]
        } else {
            Seq::empty()
        }
    }
}

/// The observations that a sequence of references points to.
pub open spec fn derefs(s: Seq<&ResourceObservation>) -> Seq<ResourceObservation> {
    s.map_values(|x: &ResourceObservation| *x)
}

/// The records of the observations that have one, in order.
pub open spec fn records_of(obs: Seq<ResourceObservation>) -> Seq<ObservationRecord>
    decreases obs.len(),
{
    if obs.len() == 0 {
        Seq::empty()
    } else {
        records_of(obs.drop_last()) + match obs.last().spec_record() {
            Some(r) => seq![r],
            None => Seq::empty(),
        }
    }
}

/// A record that asserts nothing reconciliation reads beyond its identity.
pub open spec fn inert(rec: ObservationRecord) -> bool {
    &&& !(rec.relationships matches Some(ObservationField::Observed(_)))
    &&& !(rec.image_aliases matches Some(ObservationField::Observed(_)))
    &&& !(rec.configured_image matches Some(ObservationField::Observed(_)))
}

/// `rec` is what reconciliation reads of the observation `o`: its record, or, for an
/// observation without one, an inert record of its identity.
pub open spec fn stands_for(rec: ObservationRecord, o: ResourceObservation) -> bool {
    match o.spec_record() {
        Some(x) => rec == x,
        None => rec.identity@ == o.spec_identity() && inert(rec),
    }
}

/// Each record stands for the observation at its position.
pub open spec fn records_stand_for(recs: Seq<ObservationRecord>, obs: Seq<ResourceObservation>) -> bool {
    recs.len() == obs.len() && forall|i: int| 0 <= i < obs.len() ==> stands_for(#[trigger] recs[i], obs[i])
}

/// `a` is `b` with findings appended.
pub open spec fn extends(a: ResourceObservation, b: ResourceObservation) -> bool {
    &&& a.spec_identity() == b.spec_identity()
    &&& a.spec_state() == b.spec_state()
    &&& a.spec_unmodelled() == b.spec_unmodelled()
    &&& a.spec_completeness() == b.spec_completeness()
    &&& a.spec_record() == b.spec_record()
    &&& a.spec_findings().len() >= b.spec_findings().len()
    &&& a.spec_findings().take(b.spec_findings().len() as int) == b.spec_findings()
}

/// The findings appended to `b` to make `a`.
pub open spec fn added(a: ResourceObservation, b: ResourceObservation) -> Seq<InventoryFindingView> {
    a.spec_findings().skip(b.spec_findings().len() as int)
}

/// `after` is `before` with the findings of reconciliation appended to each observation: the
/// sections keep their kinds, states, findings, and observations, and each observation gains
/// exactly the findings, in order, that reconciling every observation reports on it.
pub open spec fn reconciled_sections(before: Seq<InventorySection>, after: Seq<InventorySection>) -> bool {
    let b = all_observations(before);
    let a = all_observations(after);
    &&& after.len() == before.len()
    &&& forall|k: int|
        0 <= k < before.len() ==> {
            &&& (#[trigger] after[k]).spec_kind() == before[k].spec_kind()
            &&& after[k].spec_availability() == before[k].spec_availability()
            &&& after[k].spec_findings() == before[k].spec_findings()
            &&& after[k].spec_observations().len() == before[k].spec_observations().len()
        }
    &&& a.len() == b.len()
    &&& forall|i: int| 0 <= i < b.len() ==> extends(#[trigger] a[i], b[i])
    &&& exists|recs: Seq<ObservationRecord>|
        #[trigger] records_stand_for(recs, b) && forall|i: int|
            0 <= i < b.len() ==> #[trigger] added(a[i], b[i]) == reconciliation_findings(recs, available_kinds(before), i)
}

/// A section without its observations: how many it had.
struct SectionShell {
    kind: ResourceKind,
    availability: InventorySectionAvailability,
    findings: Vec<InventoryFinding>,
    count: usize,
}

spec fn shell_matches(shell: SectionShell, section: InventorySection) -> bool {
    &&& shell.kind == section.spec_kind()
    &&& shell.availability == section.spec_availability()
    &&& views(shell.findings@) == section.spec_findings()
    &&& shell.count == section.spec_observations().len()
}

spec fn shell_total(shells: Seq<SectionShell>) -> nat
    decreases shells.len(),
{
    if shells.len() == 0 {
        0
    } else {
        (shell_total(shells.drop_last()) + shells.last().count) as nat
    }
}

proof fn lemma_shell_total_prefix(shells: Seq<SectionShell>, k: int)
    requires
        0 <= k <= shells.len(),
    ensures
        shell_total(shells.take(k)) <= shell_total(shells),
    decreases shells.len(),
{
    if k < shells.len() {
        assert(shells.take(k) =~= shells.drop_last().take(k));
        lemma_shell_total_prefix(shells.drop_last(), k);
    } else {
        assert(shells.take(k) =~= shells);
    }
}

proof fn lemma_all_observations_len(sections: Seq<InventorySection>, shells: Seq<SectionShell>)
    requires
        sections.len() == shells.len(),
        forall|k: int| 0 <= k < sections.len() ==> shell_matches(#[trigger] shells[k], sections[k]),
    ensures
        all_observations(sections).len() == shell_total(shells),
    decreases sections.len(),
{
    if sections.len() > 0 {
        lemma_all_observations_len(sections.drop_last(), shells.drop_last());
        assert(shell_matches(shells[shells.len() - 1], sections[sections.len() - 1]));
    }
}

fn flatten(sections: Vec<InventorySection>) -> (r: (Vec<SectionShell>, Vec<ResourceObservation>))
    ensures
        r.0@.len() == sections@.len(),
        forall|k: int| 0 <= k < sections@.len() ==> shell_matches(#[trigger] r.0@[k], sections@[k]),
        r.1@ == all_observations(sections@),
{
    let ghost orig = sections@;
    let mut rest = sections;
    let mut shells: Vec<SectionShell> = Vec::new();
    let mut flat: Vec<ResourceObservation> = Vec::new();
    let ghost mut k: int = 0;
    assert(orig.skip(0) =~= orig);
    while rest.len() > 0
        invariant
            0 <= k <= orig.len(),
            rest@ == orig.skip(k),
            shells@.len() == k,
            forall|j: int| 0 <= j < k ==> shell_matches(#[trigger] shells@[j], orig[j]),
            flat@ == all_observations(orig.take(k)),
        decreases rest.len(),
    {
        let s = rest.remove(0);
        assert(s == orig[k]);
        let InventorySection { kind, availability, mut observations, findings } = s;
        let count = observations.len();
        let ghost before = flat@;
        let ghost added_obs = observations@;
        flat.append(&mut observations);
        shells.push(SectionShell { kind, availability, findings, count });
        proof {
            assert(orig.take(k + 1).drop_last() =~= orig.take(k));
            assert(orig.take(k + 1).last() == orig[k]);
            assert(flat@ == all_observations(orig.take(k + 1)));
            assert(orig.skip(k).drop_first() =~= orig.skip(k + 1));
            k = k + 1;
        }
    }
    assert(orig.take(k) =~= orig);
    (shells, flat)
}

fn take_records(obs: Vec<ResourceObservation>) -> (r: (Vec<ResourceObservation>, Vec<ObservationRecord>, Vec<bool>))
    ensures
        r.0@.len() == obs@.len(),
        records_stand_for(r.1@, obs@),
        r.2@.len() == obs@.len(),
        forall|i: int|
            0 <= i < obs@.len() ==> {
                &&& (#[trigger] r.0@[i]).spec_record() is None
                &&& r.0@[i].spec_identity() == obs@[i].spec_identity()
                &&& r.0@[i].spec_state() == obs@[i].spec_state()
                &&& r.0@[i].spec_unmodelled() == obs@[i].spec_unmodelled()
                &&& r.0@[i].spec_completeness() == obs@[i].spec_completeness()
                &&& r.0@[i].spec_findings() == obs@[i].spec_findings()
                &&& r.2@[i] == obs@[i].spec_record() is Some
            },
{
    let ghost orig = obs@;
    let mut rest = obs;
    let mut stripped: Vec<ResourceObservation> = Vec::new();
    let mut records: Vec<ObservationRecord> = Vec::new();
    let mut had: Vec<bool> = Vec::new();
    let ghost mut i: int = 0;
    assert(orig.skip(0) =~= orig);
    while rest.len() > 0
        invariant
            0 <= i <= orig.len(),
            rest@ == orig.skip(i),
            stripped@.len() == i,
            records@.len() == i,
            had@.len() == i,
            forall|j: int| 0 <= j < i ==> stands_for(#[trigger] records@[j], orig[j]),
            forall|j: int|
                0 <= j < i ==> {
                    &&& (#[trigger] stripped@[j]).spec_record() is None
                    &&& stripped@[j].spec_identity() == orig[j].spec_identity()
                    &&& stripped@[j].spec_state() == orig[j].spec_state()
                    &&& stripped@[j].spec_unmodelled() == orig[j].spec_unmodelled()
                    &&& stripped@[j].spec_completeness() == orig[j].spec_completeness()
                    &&& stripped@[j].spec_findings() == orig[j].spec_findings()
                    &&& had@[j] == orig[j].spec_record() is Some
                },
        decreases rest.len(),
    {
        let mut o = rest.remove(0);
        assert(o == orig[i]);
        let taken = o.take_record();
        match taken {
            Some(rec) => {
                records.push(rec);
                had.push(true);
            },
            None => {
                let blank = ObservationRecord::new(o.identity().clone());
                records.push(blank);
                had.push(false);
            },
        }
        stripped.push(o);
        proof {
            assert(orig.skip(i).drop_first() =~= orig.skip(i + 1));
            i = i + 1;
        }
    }
    proof {
        assert(i == orig.len());
    }
    (stripped, records, had)
}

fn kinds_available(shells: &Vec<SectionShell>, Ghost(sections): Ghost<Seq<InventorySection>>) -> (r: Vec<ResourceKind>)
    requires
        shells@.len() == sections.len(),
        forall|k: int| 0 <= k < sections.len() ==> shell_matches(#[trigger] shells@[k], sections[k]),
    ensures
        r@ == available_kinds(sections),
{
    let mut out: Vec<ResourceKind> = Vec::new();
    let mut k: usize = 0;
    while k < shells.len()
        invariant
            k <= shells.len(),
            shells@.len() == sections.len(),
            forall|j: int| 0 <= j < sections.len() ==> shell_matches(#[trigger] shells@[j], sections[j]),
            out@ == available_kinds(sections.take(k as int)),
        decreases shells.len() - k,
    {
        assert(shell_matches(shells@[k as int], sections[k as int]));
        assert(sections.take(k + 1).drop_last() =~= sections.take(k as int));
        let ghost before = out@;
        if shells[k].availability == InventorySectionAvailability::Available {
            out.push(shells[k].kind);
            assert(out@ =~= before + seq![sections[k as int].spec_kind()]);
        } else {
            assert(out@ =~= before + Seq::<ResourceKind>::empty());
        }
        k = k + 1;
    }
    assert(sections.take(shells.len() as int) =~= sections);
    out
}

fn restore(
    stripped: Vec<ResourceObservation>,
    records: Vec<ObservationRecord>,
    had: Vec<bool>,
    more: Vec<Vec<InventoryFinding>>,
) -> (r: Vec<ResourceObservation>)
    requires
        records@.len() == stripped@.len(),
        had@.len() == stripped@.len(),
        more@.len() == stripped@.len(),
    ensures
        r@.len() == stripped@.len(),
        forall|i: int|
            0 <= i < stripped@.len() ==> {
                &&& (#[trigger] r@[i]).spec_identity() == stripped@[i].spec_identity()
                &&& r@[i].spec_state() == stripped@[i].spec_state()
                &&& r@[i].spec_unmodelled() == stripped@[i].spec_unmodelled()
                &&& r@[i].spec_completeness() == stripped@[i].spec_completeness()
                &&& r@[i].spec_record() == if had@[i] {
                    Some(records@[i])
                } else {
                    None
                }
                &&& r@[i].spec_findings() == stripped@[i].spec_findings() + views(more@[i]@)
            },
{
    let ghost s0 = stripped@;
    let ghost r0 = records@;
    let ghost m0 = more@;
    let mut stripped = stripped;
    let mut records = records;
    let mut more = more;
    let mut out: Vec<ResourceObservation> = Vec::new();
    let mut i: usize = 0;
    assert(s0.skip(0) =~= s0);
    assert(r0.skip(0) =~= r0);
    assert(m0.skip(0) =~= m0);
    while i < had.len()
        invariant
            i <= had.len(),
            had@.len() == s0.len(),
            r0.len() == s0.len(),
            m0.len() == s0.len(),
            stripped@ == s0.skip(i as int),
            records@ == r0.skip(i as int),
            more@ == m0.skip(i as int),
            out@.len() == i,
            forall|j: int|
                0 <= j < i ==> {
                    &&& (#[trigger] out@[j]).spec_identity() == s0[j].spec_identity()
                    &&& out@[j].spec_state() == s0[j].spec_state()
                    &&& out@[j].spec_unmodelled() == s0[j].spec_unmodelled()
                    &&& out@[j].spec_completeness() == s0[j].spec_completeness()
                    &&& out@[j].spec_record() == if had@[j] {
                        Some(r0[j])
                    } else {
                        None
                    }
                    &&& out@[j].spec_findings() == s0[j].spec_findings() + views(m0[j]@)
                },
        decreases had.len() - i,
    {
        let mut o = stripped.remove(0);
        let rec = records.remove(0);
        let extra = more.remove(0);
        assert(o == s0[i as int]);
        assert(rec == r0[i as int]);
        assert(extra == m0[i as int]);
        if had[i] {
            o.put_record(Some(rec));
        } else {
            o.put_record(None);
        }
        o.add_findings(extra);
        out.push(o);
        proof {
            assert(s0.skip(i as int).drop_first() =~= s0.skip(i + 1));
            assert(r0.skip(i as int).drop_first() =~= r0.skip(i + 1));
            assert(m0.skip(i as int).drop_first() =~= m0.skip(i + 1));
        }
        i = i + 1;
    }
    out
}

fn unflatten(shells: Vec<SectionShell>, obs: Vec<ResourceObservation>) -> (r: Vec<InventorySection>)
    requires
        shell_total(shells@) == obs@.len(),
    ensures
        r@.len() == shells@.len(),
        forall|k: int|
            0 <= k < shells@.len() ==> {
                &&& (#[trigger] r@[k]).spec_kind() == shells@[k].kind
                &&& r@[k].spec_availability() == shells@[k].availability
                &&& r@[k].spec_findings() == views(shells@[k].findings@)
                &&& r@[k].spec_observations().len() == shells@[k].count
            },
        all_observations(r@) == obs@,
{
    let ghost sh = shells@;
    let ghost all = obs@;
    let mut shells = shells;
    let mut rest = obs;
    let mut out: Vec<InventorySection> = Vec::new();
    let ghost mut k: int = 0;
    let ghost mut start: int = 0;
    proof {
        assert(sh.skip(0) =~= sh);
        assert(all.skip(0) =~= all);
        assert(sh.take(0) =~= Seq::<SectionShell>::empty());
    }
    while shells.len() > 0
        invariant
            0 <= k <= sh.len(),
            shells@ == sh.skip(k),
            start == shell_total(sh.take(k)),
            shell_total(sh) == all.len(),
            0 <= start <= all.len(),
            rest@ == all.skip(start),
            out@.len() == k,
            forall|j: int|
                0 <= j < k ==> {
                    &&& (#[trigger] out@[j]).spec_kind() == sh[j].kind
                    &&& out@[j].spec_availability() == sh[j].availability
                    &&& out@[j].spec_findings() == views(sh[j].findings@)
                    &&& out@[j].spec_observations().len() == sh[j].count
                },
            all_observations(out@) == all.take(start),
        decreases shells.len(),
    {
        let shell = shells.remove(0);
        assert(shell == sh[k]);
        proof {
            assert(sh.take(k + 1).drop_last() =~= sh.take(k));
            lemma_shell_total_prefix(sh, k + 1);
        }
        let SectionShell { kind, availability, findings, count } = shell;
        let mut observations: Vec<ResourceObservation> = Vec::new();
        let mut j: usize = 0;
        proof {
            assert(sh.take(k + 1).last() == sh[k]);
        }
        while j < count
            invariant
                j <= count,
                0 <= start,
                start + count <= all.len(),
                rest@ == all.skip(start + j),
                observations@ == all.subrange(start, start + j),
            decreases count - j,
        {
            let o = rest.remove(0);
            observations.push(o);
            proof {
                assert(all.skip(start + j).drop_first() =~= all.skip(start + j + 1));
                assert(observations@ =~= all.subrange(start, start + j + 1));
            }
            j = j + 1;
        }
        let section = InventorySection { kind, availability, observations, findings };
        let ghost before = out@;
        out.push(section);
        proof {
            assert(out@.drop_last() =~= before);
            assert(all.take(start) + all.subrange(start, start + count) =~= all.take(start + count));
            assert(sh.skip(k).drop_first() =~= sh.skip(k + 1));
            start = start + count;
            k = k + 1;
        }
    }
    proof {
        assert(k == sh.len());
        assert(sh.take(k) =~= sh);
        assert(all.take(start) =~= all);
    }
    out
}

/// A complete native inventory: every listed section, with each observation's findings from
/// cross-resource reconciliation, and the observation of the service it was read from.
pub struct ResourceInventory {
    sections: Vec<InventorySection>,
    service: Option<ServiceObservation>,
}

impl ResourceInventory {
    pub closed spec fn spec_service(&self) -> Option<ServiceObservationView> {
        match self.service {
            Some(s) => Some(s@),
            None => None,
        }
    }

    /// The same inventory, read from the service `service` observes.
    pub fn with_service(self, service: ServiceObservation) -> (r: Self)
        ensures
            r.spec_sections() == self.spec_sections(),
            r.spec_service() == Some(service@),
    {
        ResourceInventory { sections: self.sections, service: Some(service) }
    }

    /// Returns the version observation performed before every list and inspect request, when
    /// the inventory was acquired from a service.
    pub fn service(&self) -> (r: Option<&ServiceObservation>)
        ensures
            match (r, self.spec_service()) {
                (Some(a), Some(b)) => a@ == b,
                (None, None) => true,
                _ => false,
            },
    {
        self.service.as_ref()
    }

    pub closed spec fn spec_sections(&self) -> Seq<InventorySection> {
        self.sections@
    }

    /// Assembles the inventory of `sections`, reconciling the relationships of every
    /// observation against every other.
    pub fn assemble(sections: Vec<InventorySection>) -> (r: Self)
        ensures
            reconciled_sections(sections@, r.spec_sections()),
            r.spec_service() is None,
    {
        let ghost before = sections@;
        let ghost b = all_observations(before);
        let (shells, flat) = flatten(sections);
        proof {
            lemma_all_observations_len(before, shells@);
        }
        let available = kinds_available(&shells, Ghost(before));
        let (stripped, records, had) = take_records(flat);
        let ghost recs = records@;
        let more = reconcile_relationships(records.as_slice(), available.as_slice());
        let ghost m = more@;
        let restored = restore(stripped, records, had, more);
        let ghost a = restored@;
        let sections = unflatten(shells, restored);
        proof {
            assert forall|i: int| 0 <= i < b.len() implies extends(#[trigger] a[i], b[i]) by {
                assert(stands_for(recs[i], b[i]));
                assert(a[i].spec_findings().take(b[i].spec_findings().len() as int) =~= b[i].spec_findings());
            }
            assert forall|i: int| 0 <= i < b.len() implies #[trigger] added(a[i], b[i]) == reconciliation_findings(
                recs,
                available_kinds(before),
                i,
            ) by {
                assert(added(a[i], b[i]) =~= views(m[i]@));
            }
            assert(records_stand_for(recs, b));
        }
        ResourceInventory { sections, service: None }
    }

    /// Gives up the inventory for the records of its observations, in section order and list
    /// order, as discovery reads them.
    pub fn into_records(self) -> (r: Vec<ObservationRecord>)
        ensures
            r@ == records_of(all_observations(self.spec_sections())),
    {
        let ghost all = all_observations(self.spec_sections());
        let (_shells, flat) = flatten(self.sections);
        let mut rest = flat;
        let mut out: Vec<ObservationRecord> = Vec::new();
        let ghost mut i: int = 0;
        assert(all.skip(0) =~= all);
        assert(all.take(0) =~= Seq::<ResourceObservation>::empty());
        while rest.len() > 0
            invariant
                0 <= i <= all.len(),
                rest@ == all.skip(i),
                out@ == records_of(all.take(i)),
            decreases rest.len(),
        {
            let mut o = rest.remove(0);
            assert(o == all[i]);
            let taken = o.take_record();
            proof {
                assert(all.take(i + 1).drop_last() =~= all.take(i));
                assert(all.take(i + 1).last() == all[i]);
            }
            match taken {
                Some(rec) => {
                    out.push(rec);
                },
                None => {
                    assert(out@ =~= records_of(all.take(i)) + Seq::<ObservationRecord>::empty());
                },
            }
            proof {
                assert(all.skip(i).drop_first() =~= all.skip(i + 1));
                i = i + 1;
            }
        }
        assert(all.take(i) =~= all);
        out
    }

    /// Returns every section in the order it was given.
    pub fn sections(&self) -> (r: &[InventorySection])
        ensures
            r@ == self.spec_sections(),
    {
        self.sections.as_slice()
    }

    /// Finds the first section of `kind`.
    pub fn section(&self, kind: ResourceKind) -> (r: Option<&InventorySection>)
        ensures
            match r {
                Some(s) => exists|k: int|
                    0 <= k < self.spec_sections().len() && self.spec_sections()[k] == *s && s.spec_kind() == kind && forall|j: int|
                        0 <= j < k ==> (#[trigger] self.spec_sections()[j]).spec_kind() != kind,
                None => forall|k: int| 0 <= k < self.spec_sections().len() ==> (#[trigger] self.spec_sections()[k]).spec_kind() != kind,
            },
    {
        let mut k: usize = 0;
        while k < self.sections.len()
            invariant
                k <= self.sections.len(),
                forall|j: int| 0 <= j < k ==> (#[trigger] self.sections@[j]).spec_kind() != kind,
            decreases self.sections.len() - k,
        {
            if self.sections[k].kind() == kind {
                return Some(&self.sections[k]);
            }
            k = k + 1;
        }
        None
    }

    /// Returns every observation in section order and list order.
    pub fn observations(&self) -> (r: Vec<&ResourceObservation>)
        ensures
            derefs(r@) == all_observations(self.spec_sections()),
    {
        let mut out: Vec<&ResourceObservation> = Vec::new();
        let mut k: usize = 0;
        while k < self.sections.len()
            invariant
                k <= self.sections.len(),
                derefs(out@) == all_observations(self.sections@.take(k as int)),
            decreases self.sections.len() - k,
        {
            let obs = self.sections[k].observations();
            let mut i: usize = 0;
            let ghost before = derefs(out@);
            while i < obs.len()
                invariant
                    i <= obs.len(),
                    derefs(out@) == before + obs@.take(i as int),
                decreases obs.len() - i,
            {
                let ghost prev = out@;
                out.push(&obs[i]);
                assert(obs@.take(i + 1) =~= obs@.take(i as int).push(obs@[i as int]));
                assert(derefs(out@) =~= derefs(prev).push(obs@[i as int]));
                assert(derefs(out@) =~= before + obs@.take(i + 1));
                i = i + 1;
            }
            proof {
                assert(obs@.take(obs.len() as int) =~= obs@);
                assert(self.sections@.take(k + 1).drop_last() =~= self.sections@.take(k as int));
            }
            k = k + 1;
        }
        assert(self.sections@.take(self.sections.len() as int) =~= self.sections@);
        out
    }

    /// Finds the first observation of `identity`.
    pub fn observation(&self, identity: &ResourceIdentity) -> (r: Option<&ResourceObservation>)
        ensures
            match r {
                Some(o) => o.spec_identity() == identity@ && exists|i: int|
                    0 <= i < all_observations(self.spec_sections()).len() && all_observations(self.spec_sections())[i] == *o
                        && forall|j: int|
                        0 <= j < i ==> (#[trigger] all_observations(self.spec_sections())[j]).spec_identity() != identity@,
                None => forall|i: int|
                    0 <= i < all_observations(self.spec_sections()).len() ==> (#[trigger] all_observations(
                        self.spec_sections(),
                    )[i]).spec_identity() != identity@,
            },
    {
        let all = self.observations();
        let ghost flat = all_observations(self.spec_sections());
        let mut i: usize = 0;
        while i < all.len()
            invariant
                i <= all.len(),
                flat == all_observations(self.spec_sections()),
                derefs(all@) == flat,
                forall|j: int| 0 <= j < i ==> (#[trigger] flat[j]).spec_identity() != identity@,
            decreases all.len() - i,
        {
            assert(flat[i as int] == *all@[i as int]);
            if all[i].identity().same_value(identity) {
                return Some(all[i]);
            }
            i = i + 1;
        }
        None
    }
}

} // verus!
