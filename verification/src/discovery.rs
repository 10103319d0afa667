//! Deterministic, evidence-backed grouping over a read-only native inventory.
//!
//! A dependency edge always points from dependent to prerequisite. Networks, volumes, images, and
//! secrets remain prerequisites and never join their consumers merely because they are shared.

use vstd::prelude::*;

use crate::diagnostic::{fails_with, rule_code, Diagnostic, DiagnosticCode, PodmanLensResult};
use crate::inventory::{kind_rank, ResourceKind};
use crate::observation::{
    identity_key, identity_key_exec, label_value, observed_value, opt_text_key, opt_text_key_exec, texts,
    ObservationRecord, IdentityView, Labels, ObservationField, RelationshipView, ResourceIdentity,
};
use crate::once::{opt_view, same_text, views, Duplicate, SameValue};
use crate::order::{distinct, keys_sorted, lex_less, lex_lt, sort_distinct, sort_keeping, sorted_insert, Keyed};
use crate::planning::{append_key, text_key, text_key_exec};
use crate::text::{contains_char, has_no_whitespace, no_whitespace, to_chars};

verus! {

// ---------------------------------------------------------------------------------------------
// Exact references and selectors.
// ---------------------------------------------------------------------------------------------
/// A concrete reference: nonempty, without whitespace, and without wildcard syntax.
pub open spec fn exact_reference(s: Seq<char>) -> bool {
    &&& s.len() > 0
    &&& no_whitespace(s)
    &&& !s.contains('*')
    &&& !s.contains('?')
    &&& !s.contains('[')
    &&& !s.contains(']')
}

fn is_exact_reference(value: &str) -> (r: bool)
    ensures
        r == exact_reference(value@),
{
    let chars = to_chars(value);
    chars.len() > 0 && has_no_whitespace(&chars) && !contains_char(&chars, '*') && !contains_char(&chars, '?')
        && !contains_char(&chars, '[') && !contains_char(&chars, ']')
}

impl SameValue for String {
    fn same_value(&self, other: &Self) -> (r: bool) {
        same_text(self, other)
    }
}

impl Keyed for String {
    open spec fn key_of(v: Seq<char>) -> Seq<i64> {
        text_key(v)
    }

    fn key(&self) -> (r: Vec<i64>) {
        text_key_exec(self.as_str())
    }
}

/// The content of a resource selector.
pub struct SelectorView {
    pub kind: ResourceKind,
    pub reference: Seq<char>,
}

/// One exact resource selector for discovery.
#[derive(Debug)]
pub struct ResourceSelector {
    kind: ResourceKind,
    reference: String,
}

impl View for ResourceSelector {
    type V = SelectorView;

    closed spec fn view(&self) -> SelectorView {
        SelectorView { kind: self.kind, reference: self.reference@ }
    }
}

impl Clone for ResourceSelector {
    fn clone(&self) -> (r: Self)
        ensures
            r@ == self@,
    {
        ResourceSelector { kind: self.kind, reference: self.reference.clone() }
    }
}

impl ResourceSelector {
    /// Creates an exact, non-empty native resource selector; wildcards are unsupported.
    ///
    /// # Errors
    ///
    /// Returns `PLN0027` when the reference is empty, contains whitespace, or has wildcard syntax.
    pub fn exact(kind: ResourceKind, reference: String) -> (r: PodmanLensResult<Self>)
        ensures
            r is Ok <==> exact_reference(reference@),
            r matches Ok(s) ==> s@ == (SelectorView { kind, reference: reference@ }),
            !exact_reference(reference@) ==> fails_with(r, DiagnosticCode::InvalidDiscoveryRequest),
    {
        if !is_exact_reference(reference.as_str()) {
            return Err(Diagnostic::new(DiagnosticCode::InvalidDiscoveryRequest));
        }
        Ok(ResourceSelector { kind, reference })
    }

    /// Returns the selected resource kind.
    pub fn kind(&self) -> (r: ResourceKind)
        ensures
            r == self@.kind,
    {
        self.kind
    }

    /// Returns the exact native ID, name, or image alias requested by the caller.
    pub fn reference(&self) -> (r: &str)
        ensures
            r@ == self@.reference,
    {
        self.reference.as_str()
    }
}

/// The order key of a resource selector: kind rank, then reference.
pub open spec fn selector_key(v: SelectorView) -> Seq<i64> {
    seq![kind_rank(v.kind) as i64] + text_key(v.reference)
}

fn selector_key_exec(s: &ResourceSelector) -> (r: Vec<i64>)
    ensures
        r@ == selector_key(s@),
{
    let mut out: Vec<i64> = Vec::new();
    out.push(s.kind().canonical_rank() as i64);
    let k = text_key_exec(s.reference());
    append_key(&mut out, &k);
    out
}

impl SameValue for ResourceSelector {
    fn same_value(&self, other: &Self) -> (r: bool) {
        self.kind == other.kind && same_text(&self.reference, &other.reference)
    }
}

impl Keyed for ResourceSelector {
    open spec fn key_of(v: SelectorView) -> Seq<i64> {
        selector_key(v)
    }

    fn key(&self) -> (r: Vec<i64>) {
        selector_key_exec(self)
    }
}

/// The content of a label selector.
pub struct LabelSelectorView {
    pub name: Seq<char>,
    pub value: Option<Seq<char>>,
}

/// A validated label-root selector with presence or exact-value semantics.
#[derive(Debug)]
pub struct LabelSelector {
    name: String,
    value: Option<String>,
}

impl View for LabelSelector {
    type V = LabelSelectorView;

    closed spec fn view(&self) -> LabelSelectorView {
        LabelSelectorView { name: self.name@, value: opt_view(self.value) }
    }
}

impl Clone for LabelSelector {
    fn clone(&self) -> (r: Self)
        ensures
            r@ == self@,
    {
        let value = match &self.value {
            Some(v) => Some(v.clone()),
            None => None,
        };
        LabelSelector { name: self.name.clone(), value }
    }
}

impl LabelSelector {
    /// Selects every resource carrying the exact label name, regardless of its value.
    ///
    /// # Errors
    ///
    /// Returns `PLN0027` when the name is empty, contains whitespace, or uses wildcard syntax.
    pub fn presence(name: String) -> (r: PodmanLensResult<Self>)
        ensures
            r is Ok <==> exact_reference(name@),
            r matches Ok(s) ==> s@ == (LabelSelectorView { name: name@, value: None }),
            !exact_reference(name@) ==> fails_with(r, DiagnosticCode::InvalidDiscoveryRequest),
    {
        Self::with_value(name, None)
    }

    /// Selects every resource whose exact label name has the exact supplied value.
    ///
    /// Empty values are valid label values and remain distinct from presence-only selection.
    ///
    /// # Errors
    ///
    /// Returns `PLN0027` when the name is empty, contains whitespace, or uses wildcard syntax.
    pub fn exact(name: String, value: String) -> (r: PodmanLensResult<Self>)
        ensures
            r is Ok <==> exact_reference(name@),
            r matches Ok(s) ==> s@ == (LabelSelectorView { name: name@, value: Some(value@) }),
            !exact_reference(name@) ==> fails_with(r, DiagnosticCode::InvalidDiscoveryRequest),
    {
        Self::with_value(name, Some(value))
    }

    fn with_value(name: String, value: Option<String>) -> (r: PodmanLensResult<Self>)
        ensures
            r is Ok <==> exact_reference(name@),
            r matches Ok(s) ==> s@ == (LabelSelectorView { name: name@, value: opt_view(value) }),
            !exact_reference(name@) ==> fails_with(r, DiagnosticCode::InvalidDiscoveryRequest),
    {
        if !is_exact_reference(name.as_str()) {
            return Err(Diagnostic::new(DiagnosticCode::InvalidDiscoveryRequest));
        }
        Ok(LabelSelector { name, value })
    }

    /// Returns the exact label key.
    pub fn name(&self) -> (r: &str)
        ensures
            r@ == self@.name,
    {
        self.name.as_str()
    }

    /// Returns the requested exact value, or `None` for presence.
    pub fn value(&self) -> (r: Option<&str>)
        ensures
            match r {
                Some(v) => self@.value == Some(v@),
                None => self@.value is None,
            },
    {
        match &self.value {
            Some(v) => Some(v.as_str()),
            None => None,
        }
    }
}

/// The order key of a label selector: name, then value (presence first).
pub open spec fn label_selector_key(v: LabelSelectorView) -> Seq<i64> {
    text_key(v.name) + opt_text_key(v.value)
}

fn label_selector_key_exec(s: &LabelSelector) -> (r: Vec<i64>)
    ensures
        r@ == label_selector_key(s@),
{
    let mut out = text_key_exec(s.name());
    let v = opt_text_key_exec(s.value());
    append_key(&mut out, &v);
    out
}

impl SameValue for LabelSelector {
    fn same_value(&self, other: &Self) -> (r: bool) {
        let values = match (&self.value, &other.value) {
            (Some(a), Some(b)) => same_text(a, b),
            (None, None) => true,
            _ => false,
        };
        same_text(&self.name, &other.name) && values
    }
}

impl Keyed for LabelSelector {
    open spec fn key_of(v: LabelSelectorView) -> Seq<i64> {
        label_selector_key(v)
    }

    fn key(&self) -> (r: Vec<i64>) {
        label_selector_key_exec(self)
    }
}

// ---------------------------------------------------------------------------------------------
// Requests.
// ---------------------------------------------------------------------------------------------
/// The content of a discovery request: each collection sorted and free of repeats.
pub struct RequestView {
    pub roots: Seq<SelectorView>,
    pub all: bool,
    pub network_boundary_overrides: Seq<Seq<char>>,
    pub label_selectors: Seq<LabelSelectorView>,
}

/// Explicit inputs controlling resource discovery.
#[derive(Debug)]
pub struct DiscoveryRequest {
    roots: Vec<ResourceSelector>,
    all: bool,
    network_boundary_overrides: Vec<String>,
    label_selectors: Vec<LabelSelector>,
}

impl View for DiscoveryRequest {
    type V = RequestView;

    closed spec fn view(&self) -> RequestView {
        RequestView {
            roots: views(self.roots@),
            all: self.all,
            network_boundary_overrides: views(self.network_boundary_overrides@),
            label_selectors: views(self.label_selectors@),
        }
    }
}

/// Each collection of a request is sorted by key and free of repeats.
pub open spec fn request_well_formed(r: RequestView) -> bool {
    &&& keys_sorted::<ResourceSelector>(r.roots)
    &&& distinct(r.roots)
    &&& keys_sorted::<String>(r.network_boundary_overrides)
    &&& distinct(r.network_boundary_overrides)
    &&& keys_sorted::<LabelSelector>(r.label_selectors)
    &&& distinct(r.label_selectors)
}

impl DiscoveryRequest {
    #[verifier::type_invariant]
    spec fn sorted_sets(self) -> bool {
        request_well_formed(self@)
    }

    /// Creates a request with no roots. A caller must add a root or select all eligible roots.
    pub fn new() -> (r: Self)
        ensures
            r@.roots.len() == 0,
            !r@.all,
            r@.network_boundary_overrides.len() == 0,
            r@.label_selectors.len() == 0,
    {
        let r = DiscoveryRequest {
            roots: Vec::new(),
            all: false,
            network_boundary_overrides: Vec::new(),
            label_selectors: Vec::new(),
        };
        proof {
            assert(views(r.roots@) =~= Seq::<SelectorView>::empty());
            assert(views(r.network_boundary_overrides@) =~= Seq::<Seq<char>>::empty());
            assert(views(r.label_selectors@) =~= Seq::<LabelSelectorView>::empty());
        }
        r
    }

    /// Adds one exact selector root.
    pub fn add_root(&mut self, selector: ResourceSelector)
        ensures
            forall|s: SelectorView| final(self)@.roots.contains(s) <==> (old(self)@.roots.contains(s) || s == selector@),
            request_well_formed(final(self)@),
            old(self)@.roots.contains(selector@) ==> final(self)@ == old(self)@,
            final(self)@.all == old(self)@.all,
            final(self)@.network_boundary_overrides == old(self)@.network_boundary_overrides,
            final(self)@.label_selectors == old(self)@.label_selectors,
    {
        proof {
            use_type_invariant(&*self);
        }
        let mut roots: Vec<ResourceSelector> = Vec::new();
        std::mem::swap(&mut roots, &mut self.roots);
        sorted_insert(&mut roots, selector);
        let mut overrides: Vec<String> = Vec::new();
        std::mem::swap(&mut overrides, &mut self.network_boundary_overrides);
        let mut labels: Vec<LabelSelector> = Vec::new();
        std::mem::swap(&mut labels, &mut self.label_selectors);
        *self = DiscoveryRequest { roots, all: self.all, network_boundary_overrides: overrides, label_selectors: labels };
    }

    /// Selects every eligible application root in the inventory.
    pub fn select_all(&mut self)
        ensures
            final(self)@.all,
            final(self)@.roots == old(self)@.roots,
            final(self)@.network_boundary_overrides == old(self)@.network_boundary_overrides,
            final(self)@.label_selectors == old(self)@.label_selectors,
    {
        proof {
            use_type_invariant(&*self);
        }
        self.all = true;
    }

    /// Authorizes crossing one exact named-or-ID network boundary to its direct consumers.
    ///
    /// # Errors
    ///
    /// Returns `PLN0027` when the identifier is not exact; the request is then unchanged.
    pub fn add_network_boundary_override(&mut self, identifier: String) -> (r: PodmanLensResult<()>)
        ensures
            r is Ok <==> exact_reference(identifier@),
            !exact_reference(identifier@) ==> fails_with(r, DiagnosticCode::InvalidDiscoveryRequest),
            forall|s: Seq<char>|
                final(self)@.network_boundary_overrides.contains(s) <==> (old(
                    self,
                )@.network_boundary_overrides.contains(s) || (r is Ok && s == identifier@)),
            final(self)@.all == old(self)@.all,
            final(self)@.roots == old(self)@.roots,
            final(self)@.label_selectors == old(self)@.label_selectors,
    {
        if !is_exact_reference(identifier.as_str()) {
            return Err(Diagnostic::new(DiagnosticCode::InvalidDiscoveryRequest));
        }
        proof {
            use_type_invariant(&*self);
        }
        let mut roots: Vec<ResourceSelector> = Vec::new();
        std::mem::swap(&mut roots, &mut self.roots);
        let mut overrides: Vec<String> = Vec::new();
        std::mem::swap(&mut overrides, &mut self.network_boundary_overrides);
        sorted_insert(&mut overrides, identifier);
        let mut labels: Vec<LabelSelector> = Vec::new();
        std::mem::swap(&mut labels, &mut self.label_selectors);
        *self = DiscoveryRequest { roots, all: self.all, network_boundary_overrides: overrides, label_selectors: labels };
        Ok(())
    }

    /// Adds one validated label selector as a discovery root.
    pub fn add_label_root(&mut self, selector: LabelSelector)
        ensures
            forall|s: LabelSelectorView|
                final(self)@.label_selectors.contains(s) <==> (old(self)@.label_selectors.contains(s) || s == selector@),
            request_well_formed(final(self)@),
            old(self)@.label_selectors.contains(selector@) ==> final(self)@ == old(self)@,
            final(self)@.all == old(self)@.all,
            final(self)@.roots == old(self)@.roots,
            final(self)@.network_boundary_overrides == old(self)@.network_boundary_overrides,
    {
        proof {
            use_type_invariant(&*self);
        }
        let mut roots: Vec<ResourceSelector> = Vec::new();
        std::mem::swap(&mut roots, &mut self.roots);
        let mut overrides: Vec<String> = Vec::new();
        std::mem::swap(&mut overrides, &mut self.network_boundary_overrides);
        let mut labels: Vec<LabelSelector> = Vec::new();
        std::mem::swap(&mut labels, &mut self.label_selectors);
        sorted_insert(&mut labels, selector);
        *self = DiscoveryRequest { roots, all: self.all, network_boundary_overrides: overrides, label_selectors: labels };
    }

    fn roots_copy(&self) -> (r: Vec<ResourceSelector>)
        ensures
            views(r@) == self@.roots,
    {
        let mut out: Vec<ResourceSelector> = Vec::new();
        let mut i: usize = 0;
        while i < self.roots.len()
            invariant
                i <= self.roots.len(),
                views(out@) == views(self.roots@).take(i as int),
            decreases self.roots.len() - i,
        {
            let ghost before = views(out@);
            let c = self.roots[i].clone();
            let ghost cv = c@;
            out.push(c);
            assert(cv == views(self.roots@)[i as int]);
            assert(views(out@) =~= before.push(cv));
            assert(views(out@) =~= views(self.roots@).take(i + 1));
            i = i + 1;
        }
        assert(views(self.roots@).take(i as int) =~= views(self.roots@));
        out
    }

    fn label_roots_copy(&self) -> (r: Vec<LabelSelector>)
        ensures
            views(r@) == self@.label_selectors,
    {
        let mut out: Vec<LabelSelector> = Vec::new();
        let mut i: usize = 0;
        while i < self.label_selectors.len()
            invariant
                i <= self.label_selectors.len(),
                views(out@) == views(self.label_selectors@).take(i as int),
            decreases self.label_selectors.len() - i,
        {
            let ghost before = views(out@);
            let c = self.label_selectors[i].clone();
            let ghost cv = c@;
            out.push(c);
            assert(cv == views(self.label_selectors@)[i as int]);
            assert(views(out@) =~= before.push(cv));
            assert(views(out@) =~= views(self.label_selectors@).take(i + 1));
            i = i + 1;
        }
        assert(views(self.label_selectors@).take(i as int) =~= views(self.label_selectors@));
        out
    }

    /// Returns explicit selector roots in deterministic order.
    pub fn roots(&self) -> (r: &[ResourceSelector])
        ensures
            views(r@) == self@.roots,
    {
        self.roots.as_slice()
    }

    /// Returns label selector roots in deterministic order.
    pub fn label_roots(&self) -> (r: &[LabelSelector])
        ensures
            views(r@) == self@.label_selectors,
    {
        self.label_selectors.as_slice()
    }

    /// Returns whether all eligible roots are selected.
    pub fn all(&self) -> (r: bool)
        ensures
            r == self@.all,
    {
        self.all
    }

    /// Returns exact named network-boundary overrides in deterministic order.
    pub fn network_boundary_overrides(&self) -> (r: &[String])
        ensures
            views(r@) == self@.network_boundary_overrides,
    {
        self.network_boundary_overrides.as_slice()
    }
}

impl Default for DiscoveryRequest {
    fn default() -> (r: Self)
        ensures
            r@.roots.len() == 0,
            !r@.all,
            r@.network_boundary_overrides.len() == 0,
            r@.label_selectors.len() == 0,
    {
        DiscoveryRequest::new()
    }
}


// ---------------------------------------------------------------------------------------------
// Reading records.
// ---------------------------------------------------------------------------------------------
/// Whether record `i` is the one discovery reads for its identity: no later record repeats it.
pub open spec fn effective(recs: Seq<ObservationRecord>, i: int) -> bool {
    &&& 0 <= i < recs.len()
    &&& forall|j: int| i < j < recs.len() ==> (#[trigger] recs[j]).identity@ != recs[i].identity@
}

fn is_effective(records: &[ObservationRecord], i: usize) -> (r: bool)
    requires
        i < records@.len(),
    ensures
        r == effective(records@, i as int),
{
    let n = records.len();
    let mut j: usize = i + 1;
    while j < n
        invariant
            i < j <= n,
            n == records@.len(),
            forall|k: int| i < k < j ==> (#[trigger] records@[k]).identity@ != records@[i as int].identity@,
        decreases n - j,
    {
        if records[j].identity.same_value(&records[i].identity) {
            return false;
        }
        j = j + 1;
    }
    true
}

/// The observed texts of an optional field of strings; nothing when it was not observed.
pub open spec fn observed_texts(field: Option<ObservationField<Vec<String>>>) -> Seq<Seq<char>> {
    match field {
        Some(ObservationField::Observed(v)) => texts(v.spec_value()@),
        _ => Seq::empty(),
    }
}

/// Whether an image record carries `reference` as a locally resolved alias.
pub open spec fn alias_matches(rec: ObservationRecord, reference: Seq<char>) -> bool {
    observed_texts(rec.image_aliases).contains(reference)
}

/// Whether a record of `kind` is named by `reference`: by its ID, its name, or an image alias.
pub open spec fn identity_matches(rec: ObservationRecord, kind: ResourceKind, reference: Seq<char>) -> bool {
    &&& rec.identity@.kind == kind
    &&& (rec.identity@.id == reference || rec.identity@.name == Some(reference) || (kind == ResourceKind::Image
        && alias_matches(rec, reference)))
}

/// Whether the read record `i` is named by a `kind` reference.
pub open spec fn selector_hit(recs: Seq<ObservationRecord>, kind: ResourceKind, reference: Seq<char>, i: int) -> bool {
    effective(recs, i) && identity_matches(recs[i], kind, reference)
}

/// The outcome of resolving one reference against the read records.
pub enum Resolved {
    Unresolved,
    Unique(IdentityView),
    Ambiguous,
}

/// No record, exactly one record, or several records are named by a `kind` reference.
pub open spec fn resolution(recs: Seq<ObservationRecord>, kind: ResourceKind, reference: Seq<char>) -> Resolved {
    if exists|i: int, j: int|
        i != j && #[trigger] selector_hit(recs, kind, reference, i) && #[trigger] selector_hit(recs, kind, reference, j) {
        Resolved::Ambiguous
    } else if exists|i: int| #[trigger] selector_hit(recs, kind, reference, i) {
        let i = choose|i: int| #[trigger] selector_hit(recs, kind, reference, i);
        Resolved::Unique(recs[i].identity@)
    } else {
        Resolved::Unresolved
    }
}

pub(crate) fn texts_contain(values: &Vec<String>, reference: &str) -> (r: bool)
    ensures
        r == texts(values@).contains(reference@),
{
    let mut i: usize = 0;
    while i < values.len()
        invariant
            i <= values.len(),
            forall|k: int| 0 <= k < i ==> (#[trigger] values@[k])@ != reference@,
        decreases values.len() - i,
    {
        if crate::text::str_eq(values[i].as_str(), reference) {
            assert(texts(values@)[i as int] == reference@);
            return true;
        }
        i = i + 1;
    }
    proof {
        if texts(values@).contains(reference@) {
            let k = choose|k: int| 0 <= k < texts(values@).len() && texts(values@)[k] == reference@;
            assert(values@[k]@ == reference@);
        }
    }
    false
}

pub(crate) fn observed_contains(field: &Option<ObservationField<Vec<String>>>, reference: &str) -> (r: bool)
    ensures
        r == observed_texts(*field).contains(reference@),
{
    match field {
        Some(ObservationField::Observed(v)) => texts_contain(v.value(), reference),
        _ => false,
    }
}

fn record_matches(rec: &ObservationRecord, kind: ResourceKind, reference: &str) -> (r: bool)
    ensures
        r == identity_matches(*rec, kind, reference@),
{
    if rec.identity.kind() != kind {
        return false;
    }
    if crate::text::str_eq(rec.identity.id(), reference) {
        return true;
    }
    match rec.identity.name() {
        Some(n) => {
            if crate::text::str_eq(n, reference) {
                return true;
            }
        },
        None => {},
    }
    match kind {
        ResourceKind::Image => observed_contains(&rec.image_aliases, reference),
        _ => false,
    }
}

/// How one reference resolved against the read records.
pub enum SelectorResolution {
    Unresolved,
    One(ResourceIdentity),
    Many,
}

pub open spec fn selector_resolution_view(r: SelectorResolution) -> Resolved {
    match r {
        SelectorResolution::Unresolved => Resolved::Unresolved,
        SelectorResolution::One(id) => Resolved::Unique(id@),
        SelectorResolution::Many => Resolved::Ambiguous,
    }
}

fn resolve_reference(records: &[ObservationRecord], kind: ResourceKind, reference: &str) -> (r: SelectorResolution)
    ensures
        selector_resolution_view(r) == resolution(records@, kind, reference@),
{
    let ghost recs = records@;
    let mut first: Option<usize> = None;
    let mut i: usize = 0;
    while i < records.len()
        invariant
            i <= records.len(),
            recs == records@,
            match first {
                None => forall|k: int| 0 <= k < i ==> !#[trigger] selector_hit(recs, kind, reference@, k),
                Some(f) => f < i && selector_hit(recs, kind, reference@, f as int) && forall|k: int|
                    0 <= k < i && #[trigger] selector_hit(recs, kind, reference@, k) ==> k == f,
            },
        decreases records.len() - i,
    {
        if is_effective(records, i) && record_matches(&records[i], kind, reference) {
            assert(selector_hit(recs, kind, reference@, i as int));
            match first {
                Some(f) => {
                    assert(selector_hit(recs, kind, reference@, f as int));
                    assert(resolution(recs, kind, reference@) == Resolved::Ambiguous);
                    return SelectorResolution::Many;
                },
                None => {
                    first = Some(i);
                },
            }
        }
        i = i + 1;
    }
    match first {
        None => {
            proof {
                assert forall|k: int| !#[trigger] selector_hit(recs, kind, reference@, k) by {
                    if 0 <= k < recs.len() {
                    }
                }
            }
            SelectorResolution::Unresolved
        },
        Some(f) => {
            proof {
                assert forall|a: int, b: int|
                    #[trigger] selector_hit(recs, kind, reference@, a) && #[trigger] selector_hit(
                        recs,
                        kind,
                        reference@,
                        b,
                    ) implies a == b by {
                    assert(a == f);
                    assert(b == f);
                }
                let c = choose|c: int| #[trigger] selector_hit(recs, kind, reference@, c);
                assert(c == f as int);
            }
            SelectorResolution::One(records[f].identity.clone())
        },
    }
}

// ---------------------------------------------------------------------------------------------
// Relationship resolution.
// ---------------------------------------------------------------------------------------------
/// The outcome of resolving one native relationship.
pub enum RelOutcome {
    Unresolved,
    Unique(IdentityView),
    Ambiguous,
    Conflict,
}

/// Resolves the remaining references `refs` after the distinct targets `acc` were found: the
/// first unresolved or ambiguous reference decides; otherwise all references must agree.
pub open spec fn rel_outcome_from(
    recs: Seq<ObservationRecord>,
    kind: ResourceKind,
    refs: Seq<Seq<char>>,
    acc: Seq<IdentityView>,
) -> RelOutcome
    decreases refs.len(),
{
    if refs.len() == 0 {
        if acc.len() == 1 {
            RelOutcome::Unique(acc[0])
        } else if acc.len() == 0 {
            RelOutcome::Unresolved
        } else {
            RelOutcome::Conflict
        }
    } else {
        match resolution(recs, kind, refs[0]) {
            Resolved::Unresolved => RelOutcome::Unresolved,
            Resolved::Ambiguous => RelOutcome::Ambiguous,
            Resolved::Unique(v) => rel_outcome_from(
                recs,
                kind,
                refs.drop_first(),
                if acc.contains(v) {
                    acc
                } else {
                    acc.push(v)
                },
            ),
        }
    }
}

/// The outcome of resolving a relationship against the read records.
pub open spec fn relationship_outcome(recs: Seq<ObservationRecord>, rel: RelationshipView) -> RelOutcome {
    rel_outcome_from(recs, rel.kind, rel.references, Seq::empty())
}

/// How one native relationship resolved.
pub enum RelationshipResolution {
    One(ResourceIdentity),
    Unresolved,
    Many,
    Conflict,
}

pub open spec fn relationship_resolution_view(r: RelationshipResolution) -> RelOutcome {
    match r {
        RelationshipResolution::One(id) => RelOutcome::Unique(id@),
        RelationshipResolution::Unresolved => RelOutcome::Unresolved,
        RelationshipResolution::Many => RelOutcome::Ambiguous,
        RelationshipResolution::Conflict => RelOutcome::Conflict,
    }
}

pub(crate) fn contains_identity(items: &Vec<ResourceIdentity>, item: &ResourceIdentity) -> (r: bool)
    ensures
        r == views(items@).contains(item@),
{
    let mut i: usize = 0;
    while i < items.len()
        invariant
            i <= items.len(),
            forall|k: int| 0 <= k < i ==> (#[trigger] items@[k])@ != item@,
        decreases items.len() - i,
    {
        if items[i].same_value(item) {
            assert(views(items@)[i as int] == item@);
            return true;
        }
        i = i + 1;
    }
    proof {
        if views(items@).contains(item@) {
            let k = choose|k: int| 0 <= k < views(items@).len() && views(items@)[k] == item@;
            assert(items@[k]@ == item@);
        }
    }
    false
}

fn resolve_relationship(records: &[ObservationRecord], rel: &crate::observation::NativeRelationship) -> (r:
    RelationshipResolution)
    ensures
        relationship_resolution_view(r) == relationship_outcome(records@, rel@),
{
    let ghost recs = records@;
    let references = rel.references();
    let kind = rel.kind();
    let ghost refs = texts(references@);
    let mut resolved: Vec<ResourceIdentity> = Vec::new();
    let mut i: usize = 0;
    proof {
        assert(refs.skip(0) =~= refs);
        assert(views(resolved@) =~= Seq::<IdentityView>::empty());
    }
    while i < references.len()
        invariant
            i <= references.len(),
            recs == records@,
            refs == texts(references@),
            refs == rel@.references,
            kind == rel@.kind,
            relationship_outcome(recs, rel@) == rel_outcome_from(recs, kind, refs.skip(i as int), views(resolved@)),
        decreases references.len() - i,
    {
        let ghost rest = refs.skip(i as int);
        let ghost acc = views(resolved@);
        assert(rest[0] == references@[i as int]@);
        assert(rest.drop_first() =~= refs.skip(i + 1));
        match resolve_reference(records, kind, references[i].as_str()) {
            SelectorResolution::One(identity) => {
                let present = contains_identity(&resolved, &identity);
                if !present {
                    resolved.push(identity);
                    assert(views(resolved@) =~= acc.push(identity@));
                }
                assert(rel_outcome_from(recs, kind, rest, acc) == rel_outcome_from(
                    recs,
                    kind,
                    rest.drop_first(),
                    if acc.contains(identity@) {
                        acc
                    } else {
                        acc.push(identity@)
                    },
                ));
            },
            SelectorResolution::Unresolved => {
                return RelationshipResolution::Unresolved;
            },
            SelectorResolution::Many => {
                return RelationshipResolution::Many;
            },
        }
        i = i + 1;
    }
    assert(refs.skip(i as int).len() == 0);
    if resolved.len() == 1 {
        let one = resolved.pop().unwrap();
        RelationshipResolution::One(one)
    } else if resolved.len() == 0 {
        RelationshipResolution::Unresolved
    } else {
        RelationshipResolution::Conflict
    }
}

// ---------------------------------------------------------------------------------------------
// Advisory Compose labels.
// ---------------------------------------------------------------------------------------------
/// The observed labels of a record, when its labels were observed.
pub open spec fn observed_labels(rec: ObservationRecord) -> Option<Seq<(Seq<char>, Seq<char>)>> {
    match observed_value(rec.labels) {
        Some(l) => Some(l@),
        None => None,
    }
}

/// A project/service label pair: both absent, both nonempty, or incomplete; labels that were
/// neither observed nor absent are incomplete evidence.
pub open spec fn label_pair_status(
    field: ObservationField<Labels>,
    project: Seq<char>,
    service: Seq<char>,
) -> Result<Option<(Seq<char>, Seq<char>)>, DiagnosticCode> {
    match field {
        ObservationField::Absent => Ok(None),
        ObservationField::Observed(v) => {
            let p = label_value(v.spec_value()@, project);
            let s = label_value(v.spec_value()@, service);
            if p is None && s is None {
                Ok(None)
            } else if p matches Some(pv) && s matches Some(sv) && pv.len() > 0 && sv.len() > 0 {
                Ok(Some((p->0, s->0)))
            } else {
                Err(DiagnosticCode::AdvisoryLabelIncomplete)
            }
        },
        _ => Err(DiagnosticCode::AdvisoryLabelIncomplete),
    }
}

/// An optional label: absent, or a nonempty value; an empty value is incomplete evidence.
pub open spec fn optional_label_status(rec: ObservationRecord, key: Seq<char>) -> Result<
    Option<Seq<char>>,
    DiagnosticCode,
> {
    match observed_labels(rec) {
        None => Ok(None),
        Some(l) => match label_value(l, key) {
            None => Ok(None),
            Some(v) => if v.len() == 0 {
                Err(DiagnosticCode::AdvisoryLabelIncomplete)
            } else {
                Ok(Some(v))
            },
        },
    }
}

pub open spec fn docker_project_key() -> Seq<char> {
    "com.docker.compose.project"@
}

pub open spec fn docker_service_key() -> Seq<char> {
    "com.docker.compose.service"@
}

pub open spec fn podman_project_key() -> Seq<char> {
    "io.podman.compose.project"@
}

pub open spec fn podman_service_key() -> Seq<char> {
    "io.podman.compose.service"@
}

pub open spec fn docker_hash_key() -> Seq<char> {
    "com.docker.compose.config-hash"@
}

pub open spec fn podman_hash_key() -> Seq<char> {
    "io.podman.compose.config-hash"@
}

/// The Compose project that advisory labels assign a record to: matching Docker and Podman
/// project, service, and config-hash labels agree on one project; absent labels assign none;
/// partial labels are incomplete and disagreeing labels conflict.
pub open spec fn compose_status(rec: ObservationRecord) -> Result<Option<Seq<char>>, DiagnosticCode> {
    let docker = label_pair_status(rec.labels, docker_project_key(), docker_service_key());
    let podman = label_pair_status(rec.labels, podman_project_key(), podman_service_key());
    let docker_hash = optional_label_status(rec, docker_hash_key());
    let podman_hash = optional_label_status(rec, podman_hash_key());
    if docker is Err {
        Err(docker->Err_0)
    } else if podman is Err {
        Err(podman->Err_0)
    } else if docker_hash is Err {
        Err(docker_hash->Err_0)
    } else if podman_hash is Err {
        Err(podman_hash->Err_0)
    } else {
        let d = docker->Ok_0;
        let p = podman->Ok_0;
        let dh = docker_hash->Ok_0;
        let ph = podman_hash->Ok_0;
        if d is None && p is None {
            if dh is None && ph is None {
                Ok(None)
            } else {
                Err(DiagnosticCode::AdvisoryLabelIncomplete)
            }
        } else if dh is Some != ph is Some {
            Err(DiagnosticCode::AdvisoryLabelIncomplete)
        } else if dh is Some && dh != ph {
            Err(DiagnosticCode::AdvisoryLabelConflict)
        } else if d is Some && p is Some {
            if d->0 == p->0 {
                Ok(Some((d->0).0))
            } else {
                Err(DiagnosticCode::AdvisoryLabelConflict)
            }
        } else {
            Err(DiagnosticCode::AdvisoryLabelIncomplete)
        }
    }
}

fn label_pair(rec: &ObservationRecord, project: &str, service: &str) -> (r: Result<Option<(String, String)>, DiagnosticCode>)
    ensures
        match r {
            Ok(Some(pair)) => label_pair_status(rec.labels, project@, service@) == Ok::<
                Option<(Seq<char>, Seq<char>)>,
                DiagnosticCode,
            >(Some((pair.0@, pair.1@))),
            Ok(None) => label_pair_status(rec.labels, project@, service@) == Ok::<
                Option<(Seq<char>, Seq<char>)>,
                DiagnosticCode,
            >(None),
            Err(c) => label_pair_status(rec.labels, project@, service@) == Err::<
                Option<(Seq<char>, Seq<char>)>,
                DiagnosticCode,
            >(c),
        },
{
    let labels = match &rec.labels {
        ObservationField::Absent => {
            return Ok(None);
        },
        ObservationField::Observed(value) => value.value(),
        _ => {
            return Err(DiagnosticCode::AdvisoryLabelIncomplete);
        },
    };
    match (labels.get(project), labels.get(service)) {
        (None, None) => Ok(None),
        (Some(p), Some(s)) => {
            if !p.as_str().is_empty() && !s.as_str().is_empty() {
                Ok(Some((p.clone(), s.clone())))
            } else {
                proof {
                    assert(p@.len() == 0 || s@.len() == 0);
                }
                Err(DiagnosticCode::AdvisoryLabelIncomplete)
            }
        },
        _ => Err(DiagnosticCode::AdvisoryLabelIncomplete),
    }
}

fn optional_label(rec: &ObservationRecord, key: &str) -> (r: Result<Option<String>, DiagnosticCode>)
    ensures
        match r {
            Ok(o) => optional_label_status(*rec, key@) == Ok::<Option<Seq<char>>, DiagnosticCode>(opt_view(o)),
            Err(c) => optional_label_status(*rec, key@) == Err::<Option<Seq<char>>, DiagnosticCode>(c),
        },
{
    match &rec.labels {
        ObservationField::Observed(value) => match value.value().get(key) {
            None => Ok(None),
            Some(v) => {
                if v.as_str().is_empty() {
                    Err(DiagnosticCode::AdvisoryLabelIncomplete)
                } else {
                    Ok(Some(v.clone()))
                }
            },
        },
        _ => Ok(None),
    }
}

fn compose_label_status(rec: &ObservationRecord) -> (r: Result<Option<String>, DiagnosticCode>)
    ensures
        match r {
            Ok(o) => compose_status(*rec) == Ok::<Option<Seq<char>>, DiagnosticCode>(opt_view(o)),
            Err(c) => compose_status(*rec) == Err::<Option<Seq<char>>, DiagnosticCode>(c),
        },
{
    let docker = label_pair(rec, "com.docker.compose.project", "com.docker.compose.service")?;
    let podman = label_pair(rec, "io.podman.compose.project", "io.podman.compose.service")?;
    let docker_hash = optional_label(rec, "com.docker.compose.config-hash")?;
    let podman_hash = optional_label(rec, "io.podman.compose.config-hash")?;
    if docker.is_none() && podman.is_none() {
        if docker_hash.is_none() && podman_hash.is_none() {
            return Ok(None);
        }
        return Err(DiagnosticCode::AdvisoryLabelIncomplete);
    }
    if docker_hash.is_some() != podman_hash.is_some() {
        return Err(DiagnosticCode::AdvisoryLabelIncomplete);
    }
    match (&docker_hash, &podman_hash) {
        (Some(a), Some(b)) => {
            if !same_text(a, b) {
                return Err(DiagnosticCode::AdvisoryLabelConflict);
            }
        },
        _ => {},
    }
    match (docker, podman) {
        (Some((docker_project, docker_service)), Some((podman_project, podman_service))) => {
            if same_text(&docker_project, &podman_project) && same_text(&docker_service, &podman_service) {
                Ok(Some(docker_project))
            } else {
                Err(DiagnosticCode::AdvisoryLabelConflict)
            }
        },
        _ => Err(DiagnosticCode::AdvisoryLabelIncomplete),
    }
}


// ---------------------------------------------------------------------------------------------
// Graph content.
// ---------------------------------------------------------------------------------------------
/// The source of an edge in the dependency graph.
#[derive(Debug)]
#[non_exhaustive]
pub enum DependencyEvidence {
    /// A concrete native relationship from an inspect response.
    NativeRelationship {
        /// Every source field that jointly asserted this relationship.
        field_paths: Vec<String>,
    },
}

/// The content of a dependency edge.
pub struct DependencyView {
    pub dependent: IdentityView,
    pub prerequisite: IdentityView,
    pub field_paths: Seq<Seq<char>>,
}

/// A directed dependent-to-prerequisite edge.
#[derive(Debug)]
pub struct ResourceDependency {
    dependent: ResourceIdentity,
    prerequisite: ResourceIdentity,
    evidence: DependencyEvidence,
}

impl View for ResourceDependency {
    type V = DependencyView;

    closed spec fn view(&self) -> DependencyView {
        DependencyView {
            dependent: self.dependent@,
            prerequisite: self.prerequisite@,
            field_paths: match self.evidence {
                DependencyEvidence::NativeRelationship { field_paths } => views(field_paths@),
            },
        }
    }
}

impl ResourceDependency {
    /// Returns the dependent resource.
    pub fn dependent(&self) -> (r: &ResourceIdentity)
        ensures
            r@ == self@.dependent,
    {
        &self.dependent
    }

    /// Returns the prerequisite resource.
    pub fn prerequisite(&self) -> (r: &ResourceIdentity)
        ensures
            r@ == self@.prerequisite,
    {
        &self.prerequisite
    }

    /// Returns native evidence for the directed edge.
    pub fn evidence(&self) -> (r: &DependencyEvidence)
        ensures
            match r {
                DependencyEvidence::NativeRelationship { field_paths } => views(field_paths@) == self@.field_paths,
            },
    {
        &self.evidence
    }

    /// Returns the source paths of the relationships behind this edge, sorted, each once.
    pub fn field_paths(&self) -> (r: &[String])
        ensures
            views(r@) == self@.field_paths,
    {
        match &self.evidence {
            DependencyEvidence::NativeRelationship { field_paths } => field_paths.as_slice(),
        }
    }
}

impl Clone for ResourceDependency {
    fn clone(&self) -> (r: Self)
        ensures
            r@ == self@,
    {
        let paths = match &self.evidence {
            DependencyEvidence::NativeRelationship { field_paths } => crate::once::duplicate_strings(field_paths),
        };
        proof {
            assert(views(paths@) =~= self@.field_paths);
        }
        ResourceDependency {
            dependent: self.dependent.clone(),
            prerequisite: self.prerequisite.clone(),
            evidence: DependencyEvidence::NativeRelationship { field_paths: paths },
        }
    }
}

/// The order key of a dependency edge: dependent, then prerequisite.
pub open spec fn pair_key(a: IdentityView, b: IdentityView) -> Seq<i64> {
    identity_key(a) + identity_key(b)
}

impl SameValue for ResourceDependency {
    fn same_value(&self, other: &Self) -> (r: bool) {
        let paths = crate::once::same_vec(self.field_paths_vec(), other.field_paths_vec());
        self.dependent.same_value(&other.dependent) && self.prerequisite.same_value(&other.prerequisite) && paths
    }
}

impl ResourceDependency {
    fn field_paths_vec(&self) -> (r: &Vec<String>)
        ensures
            views(r@) == self@.field_paths,
    {
        match &self.evidence {
            DependencyEvidence::NativeRelationship { field_paths } => field_paths,
        }
    }
}

impl Keyed for ResourceDependency {
    open spec fn key_of(v: DependencyView) -> Seq<i64> {
        pair_key(v.dependent, v.prerequisite)
    }

    fn key(&self) -> (r: Vec<i64>) {
        let mut out = identity_key_exec(&self.dependent);
        let b = identity_key_exec(&self.prerequisite);
        append_key(&mut out, &b);
        out
    }
}

/// Evidence that joins two non-shared resources into one group.
#[derive(Debug)]
#[non_exhaustive]
pub enum GroupingEvidence {
    /// Pod/container membership is native, strong grouping evidence.
    PodMembership,
    /// A container's native dependency keeps the dependent and prerequisite together.
    ContainerDependency,
    /// Matching complete Docker and Podman Compose labels are advisory evidence.
    ComposeOwnership {
        /// Agreed non-empty Compose project name.
        project: String,
    },
}

/// The content of grouping evidence.
pub enum GroupingEvidenceView {
    PodMembership,
    ContainerDependency,
    ComposeOwnership(Seq<char>),
}

impl View for GroupingEvidence {
    type V = GroupingEvidenceView;

    closed spec fn view(&self) -> GroupingEvidenceView {
        match self {
            GroupingEvidence::PodMembership => GroupingEvidenceView::PodMembership,
            GroupingEvidence::ContainerDependency => GroupingEvidenceView::ContainerDependency,
            GroupingEvidence::ComposeOwnership { project } => GroupingEvidenceView::ComposeOwnership(project@),
        }
    }
}

impl Clone for GroupingEvidence {
    fn clone(&self) -> (r: Self)
        ensures
            r@ == self@,
    {
        match self {
            GroupingEvidence::PodMembership => GroupingEvidence::PodMembership,
            GroupingEvidence::ContainerDependency => GroupingEvidence::ContainerDependency,
            GroupingEvidence::ComposeOwnership { project } => GroupingEvidence::ComposeOwnership {
                project: project.clone(),
            },
        }
    }
}

/// The order key of grouping evidence, in declaration order.
pub open spec fn evidence_key(e: GroupingEvidenceView) -> Seq<i64> {
    match e {
        GroupingEvidenceView::PodMembership => seq![0i64],
        GroupingEvidenceView::ContainerDependency => seq![1i64],
        GroupingEvidenceView::ComposeOwnership(p) => seq![2i64] + text_key(p),
    }
}

fn evidence_key_exec(e: &GroupingEvidence) -> (r: Vec<i64>)
    ensures
        r@ == evidence_key(e@),
{
    let mut out: Vec<i64> = Vec::new();
    match e {
        GroupingEvidence::PodMembership => {
            out.push(0);
        },
        GroupingEvidence::ContainerDependency => {
            out.push(1);
        },
        GroupingEvidence::ComposeOwnership { project } => {
            out.push(2);
            let k = text_key_exec(project.as_str());
            append_key(&mut out, &k);
        },
    }
    out
}

fn same_evidence(a: &GroupingEvidence, b: &GroupingEvidence) -> (r: bool)
    ensures
        r == (a@ == b@),
{
    match (a, b) {
        (GroupingEvidence::PodMembership, GroupingEvidence::PodMembership) => true,
        (GroupingEvidence::ContainerDependency, GroupingEvidence::ContainerDependency) => true,
        (GroupingEvidence::ComposeOwnership { project: x }, GroupingEvidence::ComposeOwnership { project: y }) => {
            same_text(x, y)
        },
        _ => false,
    }
}

/// The content of a grouping edge.
pub struct GroupingEdgeView {
    pub left: IdentityView,
    pub right: IdentityView,
    pub evidence: GroupingEvidenceView,
    pub field_paths: Seq<Seq<char>>,
}

/// A non-directed grouping edge, kept separate from deployment dependency edges.
#[derive(Debug)]
pub struct GroupingEdge {
    left: ResourceIdentity,
    right: ResourceIdentity,
    evidence: GroupingEvidence,
    field_paths: Vec<String>,
}

impl View for GroupingEdge {
    type V = GroupingEdgeView;

    closed spec fn view(&self) -> GroupingEdgeView {
        GroupingEdgeView {
            left: self.left@,
            right: self.right@,
            evidence: self.evidence@,
            field_paths: views(self.field_paths@),
        }
    }
}

impl Clone for GroupingEdge {
    fn clone(&self) -> (r: Self)
        ensures
            r@ == self@,
    {
        let paths = crate::once::duplicate_strings(&self.field_paths);
        proof {
            assert(views(paths@) =~= views(self.field_paths@));
        }
        GroupingEdge {
            left: self.left.clone(),
            right: self.right.clone(),
            evidence: self.evidence.clone(),
            field_paths: paths,
        }
    }
}

impl GroupingEdge {
    /// Returns one grouped resource, the smaller of the two.
    pub fn left(&self) -> (r: &ResourceIdentity)
        ensures
            r@ == self@.left,
    {
        &self.left
    }

    /// Returns the other grouped resource.
    pub fn right(&self) -> (r: &ResourceIdentity)
        ensures
            r@ == self@.right,
    {
        &self.right
    }

    /// Returns evidence for grouping, distinct from a dependency ordering edge.
    pub fn evidence(&self) -> (r: &GroupingEvidence)
        ensures
            r@ == self@.evidence,
    {
        &self.evidence
    }

    /// Returns every native source path that supports this grouping edge.
    pub fn field_paths(&self) -> (r: &[String])
        ensures
            views(r@) == self@.field_paths,
    {
        self.field_paths.as_slice()
    }
}

/// The order key of a grouping edge: left, right, then evidence.
pub open spec fn grouping_key(left: IdentityView, right: IdentityView, e: GroupingEvidenceView) -> Seq<i64> {
    identity_key(left) + identity_key(right) + evidence_key(e)
}

impl SameValue for GroupingEdge {
    fn same_value(&self, other: &Self) -> (r: bool) {
        let paths = crate::once::same_vec(&self.field_paths, &other.field_paths);
        self.left.same_value(&other.left) && self.right.same_value(&other.right) && same_evidence(
            &self.evidence,
            &other.evidence,
        ) && paths
    }
}

impl Keyed for GroupingEdge {
    open spec fn key_of(v: GroupingEdgeView) -> Seq<i64> {
        grouping_key(v.left, v.right, v.evidence)
    }

    fn key(&self) -> (r: Vec<i64>) {
        let mut out = identity_key_exec(&self.left);
        let b = identity_key_exec(&self.right);
        append_key(&mut out, &b);
        let c = evidence_key_exec(&self.evidence);
        append_key(&mut out, &c);
        out
    }
}

/// The content of a discovery finding.
pub struct FindingView {
    pub code: DiagnosticCode,
    pub resource: Option<IdentityView>,
    pub selector: Option<SelectorView>,
    pub label_selector: Option<LabelSelectorView>,
    pub field_path: Option<Seq<char>>,
}

/// A structured, non-fatal discovery outcome.
#[derive(Debug)]
pub struct DiscoveryFinding {
    code: DiagnosticCode,
    resource: Option<ResourceIdentity>,
    selector: Option<ResourceSelector>,
    label_selector: Option<LabelSelector>,
    field_path: Option<String>,
}

impl View for DiscoveryFinding {
    type V = FindingView;

    closed spec fn view(&self) -> FindingView {
        FindingView {
            code: self.code,
            resource: opt_view(self.resource),
            selector: opt_view(self.selector),
            label_selector: opt_view(self.label_selector),
            field_path: opt_view(self.field_path),
        }
    }
}

/// A finding about one resource.
pub open spec fn resource_finding(code: DiagnosticCode, resource: IdentityView) -> FindingView {
    FindingView { code, resource: Some(resource), selector: None, label_selector: None, field_path: None }
}

/// A finding about one source path of one resource.
pub open spec fn path_finding(code: DiagnosticCode, resource: IdentityView, path: Seq<char>) -> FindingView {
    FindingView { code, resource: Some(resource), selector: None, label_selector: None, field_path: Some(path) }
}

/// A finding about one resource selector.
pub open spec fn selector_finding(code: DiagnosticCode, selector: SelectorView) -> FindingView {
    FindingView { code, resource: None, selector: Some(selector), label_selector: None, field_path: None }
}

/// A finding about one label selector.
pub open spec fn label_finding(code: DiagnosticCode, selector: LabelSelectorView) -> FindingView {
    FindingView { code, resource: None, selector: None, label_selector: Some(selector), field_path: None }
}

impl DiscoveryFinding {
    fn for_resource(code: DiagnosticCode, resource: ResourceIdentity) -> (r: Self)
        ensures
            r@ == resource_finding(code, resource@),
    {
        DiscoveryFinding { code, resource: Some(resource), selector: None, label_selector: None, field_path: None }
    }

    fn for_path(code: DiagnosticCode, resource: ResourceIdentity, path: String) -> (r: Self)
        ensures
            r@ == path_finding(code, resource@, path@),
    {
        DiscoveryFinding {
            code,
            resource: Some(resource),
            selector: None,
            label_selector: None,
            field_path: Some(path),
        }
    }

    fn for_optional_path(code: DiagnosticCode, resource: ResourceIdentity, path: Option<String>) -> (r: Self)
        ensures
            r@ == (FindingView {
                code,
                resource: Some(resource@),
                selector: None,
                label_selector: None,
                field_path: opt_view(path),
            }),
    {
        DiscoveryFinding { code, resource: Some(resource), selector: None, label_selector: None, field_path: path }
    }

    fn for_selector(code: DiagnosticCode, selector: ResourceSelector) -> (r: Self)
        ensures
            r@ == selector_finding(code, selector@),
    {
        DiscoveryFinding { code, resource: None, selector: Some(selector), label_selector: None, field_path: None }
    }

    fn for_label_selector(code: DiagnosticCode, selector: LabelSelector) -> (r: Self)
        ensures
            r@ == label_finding(code, selector@),
    {
        DiscoveryFinding { code, resource: None, selector: None, label_selector: Some(selector), field_path: None }
    }

    /// Returns the stable finding code.
    pub fn code(&self) -> (r: DiagnosticCode)
        ensures
            r == self@.code,
    {
        self.code
    }

    /// Returns the implicated resource, where one was resolved.
    pub fn resource_identity(&self) -> (r: Option<&ResourceIdentity>)
        ensures
            opt_view(r) == self@.resource,
    {
        self.resource.as_ref()
    }

    /// Returns the unresolved or ambiguous selector, where applicable.
    pub fn selector(&self) -> (r: Option<&ResourceSelector>)
        ensures
            opt_view(r) == self@.selector,
    {
        self.selector.as_ref()
    }

    /// Returns the unresolved label selector, where applicable.
    pub fn label_selector(&self) -> (r: Option<&LabelSelector>)
        ensures
            opt_view(r) == self@.label_selector,
    {
        self.label_selector.as_ref()
    }

    /// Returns the source relationship path where applicable.
    pub fn field_path(&self) -> (r: Option<&str>)
        ensures
            match r {
                Some(p) => self@.field_path == Some(p@),
                None => self@.field_path is None,
            },
    {
        match &self.field_path {
            Some(p) => Some(p.as_str()),
            None => None,
        }
    }
}

/// The key of an optional part: nothing sorts first.
pub open spec fn opt_key(k: Option<Seq<i64>>) -> Seq<i64> {
    match k {
        None => seq![-1i64],
        Some(k) => seq![0i64] + k,
    }
}

/// The order of findings: code, then resource, selector, label selector, and path.
pub open spec fn finding_key(f: FindingView) -> Seq<i64> {
    text_key(rule_code(f.code)) + opt_key(
        match f.resource {
            Some(r) => Some(identity_key(r)),
            None => None,
        },
    ) + opt_key(
        match f.selector {
            Some(s) => Some(selector_key(s)),
            None => None,
        },
    ) + opt_key(
        match f.label_selector {
            Some(s) => Some(label_selector_key(s)),
            None => None,
        },
    ) + opt_key(
        match f.field_path {
            Some(p) => Some(text_key(p)),
            None => None,
        },
    )
}

fn push_opt_key(out: &mut Vec<i64>, k: Option<Vec<i64>>)
    ensures
        final(out)@ == old(out)@ + opt_key(
            match k {
                Some(v) => Some(v@),
                None => None,
            },
        ),
{
    match k {
        None => {
            out.push(-1);
        },
        Some(v) => {
            out.push(0);
            append_key(out, &v);
        },
    }
}

impl Keyed for DiscoveryFinding {
    open spec fn key_of(v: FindingView) -> Seq<i64> {
        finding_key(v)
    }

    fn key(&self) -> (r: Vec<i64>) {
        let mut out = text_key_exec(self.code.as_str());
        let a = match &self.resource {
            Some(r) => Some(identity_key_exec(r)),
            None => None,
        };
        push_opt_key(&mut out, a);
        let b = match &self.selector {
            Some(s) => Some(selector_key_exec(s)),
            None => None,
        };
        push_opt_key(&mut out, b);
        let c = match &self.label_selector {
            Some(s) => Some(label_selector_key_exec(s)),
            None => None,
        };
        push_opt_key(&mut out, c);
        let d = match &self.field_path {
            Some(p) => Some(text_key_exec(p.as_str())),
            None => None,
        };
        push_opt_key(&mut out, d);
        out
    }
}

impl SameValue for DiscoveryFinding {
    fn same_value(&self, other: &Self) -> (r: bool) {
        let a = crate::once::same_option(&self.resource, &other.resource);
        let b = crate::once::same_option(&self.selector, &other.selector);
        let c = crate::once::same_option(&self.label_selector, &other.label_selector);
        let d = crate::once::same_option(&self.field_path, &other.field_path);
        self.code == other.code && a && b && c && d
    }
}


// ---------------------------------------------------------------------------------------------
// Dependency edges.
// ---------------------------------------------------------------------------------------------
/// The observed relationships of a record.
pub open spec fn observed_relationships(rec: ObservationRecord) -> Option<Seq<RelationshipView>> {
    match rec.relationships {
        Some(ObservationField::Observed(v)) => Some(views(v.spec_value()@)),
        _ => None,
    }
}

/// A relationship field that was neither observed nor absent blocks discovery of the resource.
pub open spec fn blocks_discovery(field: Option<ObservationField<Vec<crate::observation::NativeRelationship>>>) -> bool {
    match field {
        Some(f) => !(f is Observed) && !(f is Absent),
        None => false,
    }
}

/// Relationship `k` of the read record `i`, unless it is a pod's member container, is a
/// dependency source.
pub open spec fn dependency_source(recs: Seq<ObservationRecord>, i: int, k: int) -> bool {
    &&& effective(recs, i)
    &&& observed_relationships(recs[i]) is Some
    &&& 0 <= k < observed_relationships(recs[i])->0.len()
    &&& !(recs[i].identity@.kind == ResourceKind::Pod && observed_relationships(recs[i])->0[k].kind
        == ResourceKind::Container)
}

/// Relationship `k` of record `i`.
pub open spec fn source_rel(recs: Seq<ObservationRecord>, i: int, k: int) -> RelationshipView {
    observed_relationships(recs[i])->0[k]
}

/// Relationship `k` of record `i` resolves to the edge from `d` to `p`.
pub open spec fn supports(recs: Seq<ObservationRecord>, i: int, k: int, d: IdentityView, p: IdentityView) -> bool {
    &&& dependency_source(recs, i, k)
    &&& recs[i].identity@ == d
    &&& relationship_outcome(recs, source_rel(recs, i, k)) == RelOutcome::Unique(p)
}

/// Some relationship resolves to the dependency edge from `d` to `p`.
pub open spec fn dependency_edge(recs: Seq<ObservationRecord>, d: IdentityView, p: IdentityView) -> bool {
    exists|i: int, k: int| #[trigger] supports(recs, i, k, d, p)
}

/// Some relationship resolving to the edge from `d` to `p` was asserted at `path`.
pub open spec fn dependency_path(recs: Seq<ObservationRecord>, d: IdentityView, p: IdentityView, path: Seq<char>) -> bool {
    exists|i: int, k: int| #[trigger] supports(recs, i, k, d, p) && source_rel(recs, i, k).field_paths.contains(path)
}

/// The finding code of a relationship that did not resolve to one target.
pub open spec fn outcome_code(o: RelOutcome) -> DiagnosticCode {
    match o {
        RelOutcome::Unresolved => DiagnosticCode::UnresolvedRelationship,
        RelOutcome::Ambiguous => DiagnosticCode::RelationshipAmbiguous,
        _ => DiagnosticCode::RelationshipConflict,
    }
}

/// A finding that dependency collection reports: a blocked relationship field, or one finding
/// per source path of a relationship that did not resolve to exactly one target.
pub open spec fn dependency_finding(recs: Seq<ObservationRecord>, f: FindingView) -> bool {
    ||| exists|i: int|
        #[trigger] effective(recs, i) && blocks_discovery(recs[i].relationships) && f == resource_finding(
            DiagnosticCode::RelationshipConflict,
            recs[i].identity@,
        )
    ||| exists|i: int, k: int, m: int|
        #[trigger] dependency_source(recs, i, k) && !(relationship_outcome(recs, source_rel(recs, i, k)) is Unique)
            && 0 <= m < source_rel(recs, i, k).field_paths.len() && f == path_finding(
            outcome_code(relationship_outcome(recs, source_rel(recs, i, k))),
            recs[i].identity@,
            #[trigger] source_rel(recs, i, k).field_paths[m],
        )
}

/// Some edge in `es` runs from `d` to `p`.
pub open spec fn has_pair(es: Seq<DependencyView>, d: IdentityView, p: IdentityView) -> bool {
    exists|m: int| 0 <= m < es.len() && (#[trigger] es[m]).dependent == d && es[m].prerequisite == p
}

/// Some edge in `es` from `d` to `p` carries `path`.
pub open spec fn pair_path(es: Seq<DependencyView>, d: IdentityView, p: IdentityView, path: Seq<char>) -> bool {
    exists|m: int|
        0 <= m < es.len() && (#[trigger] es[m]).dependent == d && es[m].prerequisite == p && es[m].field_paths.contains(
            path,
        )
}

/// No two edges of `es` join the same pair, and each edge's paths are sorted and distinct.
pub open spec fn edges_well_formed(es: Seq<DependencyView>) -> bool {
    &&& forall|a: int, b: int|
        0 <= a < b < es.len() ==> !((#[trigger] es[a]).dependent == (#[trigger] es[b]).dependent
            && es[a].prerequisite == es[b].prerequisite)
    &&& forall|m: int|
        0 <= m < es.len() ==> keys_sorted::<String>((#[trigger] es[m]).field_paths) && distinct(es[m].field_paths)
}

fn insert_paths(start: Vec<String>, paths: &[String]) -> (into: Vec<String>)
    requires
        keys_sorted::<String>(views(start@)),
        distinct(views(start@)),
    ensures
        keys_sorted::<String>(views(into@)),
        distinct(views(into@)),
        forall|x: Seq<char>| views(into@).contains(x) <==> (views(start@).contains(x) || views(paths@).contains(x)),
{
    let ghost first = views(start@);
    let mut into = start;
    let mut i: usize = 0;
    while i < paths.len()
        invariant
            i <= paths.len(),
            keys_sorted::<String>(views(into@)),
            distinct(views(into@)),
            forall|x: Seq<char>|
                views(into@).contains(x) <==> (first.contains(x) || views(paths@).take(i as int).contains(x)),
        decreases paths.len() - i,
    {
        let item = paths[i].clone();
        let ghost mid = views(into@);
        assert(item@ == paths@[i as int]@);
        assert(forall|x: Seq<char>| mid.contains(x) <==> (first.contains(x) || views(paths@).take(i as int).contains(x)));
        sorted_insert(&mut into, item);
        proof {
            assert(forall|x: Seq<char>| views(into@).contains(x) <==> (mid.contains(x) || x == paths@[i as int]@));
            assert(views(paths@).take(i + 1) =~= views(paths@).take(i as int).push(paths@[i as int]@));
            assert forall|x: Seq<char>| views(into@).contains(x) <==> (first.contains(x) || views(paths@).take(
                i + 1,
            ).contains(x)) by {
                if views(paths@).take(i + 1).contains(x) && x != paths@[i as int]@ {
                    let t = views(paths@).take(i + 1);
                    let k = choose|k: int| 0 <= k < t.len() && t[k] == x;
                    assert(views(paths@).take(i as int)[k] == x);
                }
                if views(paths@).take(i as int).contains(x) {
                    let t = views(paths@).take(i as int);
                    let k = choose|k: int| 0 <= k < t.len() && t[k] == x;
                    assert(views(paths@).take(i + 1)[k] == x);
                }
                if x == paths@[i as int]@ {
                    assert(views(paths@).take(i + 1)[i as int] == x);
                }
            }
        }
        i = i + 1;
    }
    proof {
        assert(views(paths@).take(i as int) =~= views(paths@));
        assert forall|x: Seq<char>| views(into@).contains(x) <==> (first.contains(x) || views(paths@).contains(x)) by {
            assert(views(into@).contains(x) <==> (first.contains(x) || views(paths@).take(i as int).contains(x)));
        }
        assert(first == views(start@));
        assert forall|x: Seq<char>| #[trigger] views(into@).contains(x) <==> (views(start@).contains(x) || views(
            paths@,
        ).contains(x)) by {
            assert(views(into@).contains(x) <==> (first.contains(x) || views(paths@).contains(x)));
        }
    }
    into
}

fn merge_edge(edges: &mut Vec<ResourceDependency>, d: &ResourceIdentity, p: &ResourceIdentity, paths: &[String])
    requires
        edges_well_formed(views(old(edges)@)),
    ensures
        edges_well_formed(views(final(edges)@)),
        forall|x: IdentityView, y: IdentityView|
            has_pair(views(final(edges)@), x, y) <==> (has_pair(views(old(edges)@), x, y) || (x == d@ && y == p@)),
        forall|x: IdentityView, y: IdentityView, path: Seq<char>|
            pair_path(views(final(edges)@), x, y, path) <==> (pair_path(views(old(edges)@), x, y, path) || (x == d@
                && y == p@ && views(paths@).contains(path))),
{
    let ghost before = views(edges@);
    let mut i: usize = 0;
    while i < edges.len()
        invariant
            i <= edges.len(),
            views(edges@) == before,
            before == views(old(edges)@),
            edges_well_formed(before),
            forall|m: int| 0 <= m < i ==> !((#[trigger] edges@[m])@.dependent == d@ && edges@[m]@.prerequisite == p@),
        decreases edges.len() - i,
    {
        if edges[i].dependent.same_value(d) && edges[i].prerequisite.same_value(p) {
            let copied = crate::once::duplicate_strings(edges[i].field_paths_vec());
            proof {
                assert(before[i as int] == edges@[i as int]@);
                assert(views(copied@) =~= before[i as int].field_paths);
                assert(keys_sorted::<String>(before[i as int].field_paths) && distinct(before[i as int].field_paths));
            }
            let merged = insert_paths(copied, paths);
            let ghost merged_view = views(merged@);
            let replacement = ResourceDependency {
                dependent: d.clone(),
                prerequisite: p.clone(),
                evidence: DependencyEvidence::NativeRelationship { field_paths: merged },
            };
            let ghost rep = replacement@;
            assert(rep.field_paths == merged_view);
            edges.set(i, replacement);
            proof {
                let after = views(edges@);
                assert(after[i as int] == rep);
                assert(after =~= before.update(i as int, after[i as int]));
                assert forall|x: IdentityView, y: IdentityView| has_pair(after, x, y) <==> (has_pair(before, x, y) || (x
                    == d@ && y == p@)) by {
                    if has_pair(before, x, y) {
                        let m = choose|m: int| 0 <= m < before.len() && (#[trigger] before[m]).dependent == x && before[m].prerequisite == y;
                        assert(after[m].dependent == x && after[m].prerequisite == y);
                    }
                    if has_pair(after, x, y) {
                        let m = choose|m: int| 0 <= m < after.len() && (#[trigger] after[m]).dependent == x && after[m].prerequisite == y;
                        assert(before[m].dependent == x && before[m].prerequisite == y);
                    }
                    if x == d@ && y == p@ {
                        assert(after[i as int].dependent == x);
                    }
                }
                assert forall|x: IdentityView, y: IdentityView, path: Seq<char>|
                    pair_path(after, x, y, path) <==> (pair_path(before, x, y, path) || (x == d@ && y == p@ && views(
                        paths@,
                    ).contains(path))) by {
                    if pair_path(before, x, y, path) {
                        let m = choose|m: int|
                            0 <= m < before.len() && (#[trigger] before[m]).dependent == x && before[m].prerequisite == y
                                && before[m].field_paths.contains(path);
                        if m != i {
                            assert(after[m] == before[m]);
                        } else {
                            assert(merged_view.contains(path));
                            assert(after[m].field_paths.contains(path));
                        }
                    }
                    if pair_path(after, x, y, path) {
                        let m = choose|m: int|
                            0 <= m < after.len() && (#[trigger] after[m]).dependent == x && after[m].prerequisite == y
                                && after[m].field_paths.contains(path);
                        if m != i {
                            assert(before[m] == after[m]);
                        }
                    }
                    if x == d@ && y == p@ && views(paths@).contains(path) {
                        assert(after[i as int].field_paths.contains(path));
                    }
                }
            }
            return;
        }
        i = i + 1;
    }
    let empty: Vec<String> = Vec::new();
    proof {
        assert(views(empty@) =~= Seq::<Seq<char>>::empty());
    }
    let fresh = insert_paths(empty, paths);
    edges.push(
        ResourceDependency {
            dependent: d.clone(),
            prerequisite: p.clone(),
            evidence: DependencyEvidence::NativeRelationship { field_paths: fresh },
        },
    );
    proof {
        let after = views(edges@);
        let n = before.len() as int;
        assert(after =~= before.push(after[n]));
        assert forall|x: IdentityView, y: IdentityView| has_pair(after, x, y) <==> (has_pair(before, x, y) || (x == d@
            && y == p@)) by {
            if has_pair(before, x, y) {
                let m = choose|m: int| 0 <= m < before.len() && (#[trigger] before[m]).dependent == x && before[m].prerequisite == y;
                assert(after[m] == before[m]);
            }
            if has_pair(after, x, y) {
                let m = choose|m: int| 0 <= m < after.len() && (#[trigger] after[m]).dependent == x && after[m].prerequisite == y;
                if m < n {
                    assert(after[m] == before[m]);
                }
            }
            if x == d@ && y == p@ {
                assert(after[n].dependent == x);
            }
        }
        assert forall|x: IdentityView, y: IdentityView, path: Seq<char>|
            pair_path(after, x, y, path) <==> (pair_path(before, x, y, path) || (x == d@ && y == p@ && views(
                paths@,
            ).contains(path))) by {
            if pair_path(before, x, y, path) {
                let m = choose|m: int|
                    0 <= m < before.len() && (#[trigger] before[m]).dependent == x && before[m].prerequisite == y
                        && before[m].field_paths.contains(path);
                assert(after[m] == before[m]);
            }
            if pair_path(after, x, y, path) {
                let m = choose|m: int|
                    0 <= m < after.len() && (#[trigger] after[m]).dependent == x && after[m].prerequisite == y
                        && after[m].field_paths.contains(path);
                if m < n {
                    assert(after[m] == before[m]);
                }
            }
            if x == d@ && y == p@ && views(paths@).contains(path) {
                assert(after[n].field_paths.contains(path));
            }
        }
        assert forall|a: int, b: int|
            0 <= a < b < after.len() implies !((#[trigger] after[a]).dependent == (#[trigger] after[b]).dependent
                && after[a].prerequisite == after[b].prerequisite) by {
            if b == n {
                assert(before[a] == after[a]);
                assert(!(before[a].dependent == d@ && before[a].prerequisite == p@)) by {
                    assert(edges@[a]@ == before[a]);
                }
            } else {
                assert(before[a] == after[a]);
                assert(before[b] == after[b]);
            }
        }
        assert forall|m: int| 0 <= m < after.len() implies keys_sorted::<String>((#[trigger] after[m]).field_paths)
            && distinct(after[m].field_paths) by {
            if m < n {
                assert(before[m] == after[m]);
            }
        }
    }
}


/// Source `(i2, k2)` comes before source `(i, k)` in record-then-relationship order.
pub open spec fn source_lt(i2: int, k2: int, i: int, k: int) -> bool {
    i2 < i || (i2 == i && k2 < k)
}

spec fn supported_before(recs: Seq<ObservationRecord>, i: int, k: int, d: IdentityView, p: IdentityView) -> bool {
    exists|i2: int, k2: int| source_lt(i2, k2, i, k) && #[trigger] supports(recs, i2, k2, d, p)
}

spec fn path_before(
    recs: Seq<ObservationRecord>,
    i: int,
    k: int,
    d: IdentityView,
    p: IdentityView,
    path: Seq<char>,
) -> bool {
    exists|i2: int, k2: int|
        source_lt(i2, k2, i, k) && #[trigger] supports(recs, i2, k2, d, p) && source_rel(recs, i2, k2).field_paths.contains(
            path,
        )
}

spec fn blocked_finding(recs: Seq<ObservationRecord>, i2: int, f: FindingView) -> bool {
    effective(recs, i2) && blocks_discovery(recs[i2].relationships) && f == resource_finding(
        DiagnosticCode::RelationshipConflict,
        recs[i2].identity@,
    )
}

spec fn unresolved_finding(recs: Seq<ObservationRecord>, i2: int, k2: int, m: int, f: FindingView) -> bool {
    &&& dependency_source(recs, i2, k2)
    &&& !(relationship_outcome(recs, source_rel(recs, i2, k2)) is Unique)
    &&& 0 <= m < source_rel(recs, i2, k2).field_paths.len()
    &&& f == path_finding(
        outcome_code(relationship_outcome(recs, source_rel(recs, i2, k2))),
        recs[i2].identity@,
        source_rel(recs, i2, k2).field_paths[m],
    )
}

spec fn finding_before(recs: Seq<ObservationRecord>, i: int, k: int, f: FindingView) -> bool {
    ||| exists|i2: int| i2 <= i && #[trigger] blocked_finding(recs, i2, f) && (i2 < i || k > 0)
    ||| exists|i2: int, k2: int, m: int| source_lt(i2, k2, i, k) && #[trigger] unresolved_finding(recs, i2, k2, m, f)
}

proof fn lemma_dependency_finding(recs: Seq<ObservationRecord>, f: FindingView)
    ensures
        dependency_finding(recs, f) <==> finding_before(recs, recs.len() as int, 0, f),
{
    if dependency_finding(recs, f) {
        if exists|i: int|
            #[trigger] effective(recs, i) && blocks_discovery(recs[i].relationships) && f == resource_finding(
                DiagnosticCode::RelationshipConflict,
                recs[i].identity@,
            ) {
            let i = choose|i: int|
                #[trigger] effective(recs, i) && blocks_discovery(recs[i].relationships) && f == resource_finding(
                    DiagnosticCode::RelationshipConflict,
                    recs[i].identity@,
                );
            assert(blocked_finding(recs, i, f));
        } else {
            let (i, k, m) = choose|i: int, k: int, m: int|
                #[trigger] dependency_source(recs, i, k) && !(relationship_outcome(recs, source_rel(recs, i, k)) is Unique)
                    && 0 <= m < source_rel(recs, i, k).field_paths.len() && f == path_finding(
                    outcome_code(relationship_outcome(recs, source_rel(recs, i, k))),
                    recs[i].identity@,
                    #[trigger] source_rel(recs, i, k).field_paths[m],
                );
            assert(unresolved_finding(recs, i, k, m, f));
            assert(source_lt(i, k, recs.len() as int, 0));
        }
    }
    if finding_before(recs, recs.len() as int, 0, f) {
        if exists|i2: int| i2 <= recs.len() && #[trigger] blocked_finding(recs, i2, f) && (i2 < recs.len()) {
            let i2 = choose|i2: int| i2 <= recs.len() && #[trigger] blocked_finding(recs, i2, f) && (i2 < recs.len());
            assert(effective(recs, i2));
        } else {
            let (i2, k2, m) = choose|i2: int, k2: int, m: int|
                source_lt(i2, k2, recs.len() as int, 0) && #[trigger] unresolved_finding(recs, i2, k2, m, f);
            assert(dependency_source(recs, i2, k2));
            assert(f == path_finding(
                outcome_code(relationship_outcome(recs, source_rel(recs, i2, k2))),
                recs[i2].identity@,
                source_rel(recs, i2, k2).field_paths[m],
            ));
        }
    }
}

/// `f` reports one of the first `n` paths of `paths` for `resource` with `code`.
pub open spec fn reports_path(code: DiagnosticCode, resource: IdentityView, paths: Seq<Seq<char>>, n: int, f: FindingView) -> bool {
    exists|m: int| 0 <= m < n && f == path_finding(code, resource, #[trigger] paths[m])
}

proof fn lemma_reports_path_step(code: DiagnosticCode, resource: IdentityView, paths: Seq<Seq<char>>, n: int, f: FindingView)
    requires
        0 <= n < paths.len(),
    ensures
        reports_path(code, resource, paths, n + 1, f) <==> (reports_path(code, resource, paths, n, f) || f == path_finding(
            code,
            resource,
            paths[n],
        )),
{
    if reports_path(code, resource, paths, n + 1, f) {
        let m = choose|m: int| 0 <= m < n + 1 && f == path_finding(code, resource, #[trigger] paths[m]);
        if m < n {
            assert(0 <= m < n && f == path_finding(code, resource, paths[m]));
        }
    }
    if reports_path(code, resource, paths, n, f) {
        let m = choose|m: int| 0 <= m < n && f == path_finding(code, resource, #[trigger] paths[m]);
        assert(0 <= m < n + 1 && f == path_finding(code, resource, paths[m]));
    }
    if f == path_finding(code, resource, paths[n]) {
        assert(0 <= n < n + 1 && f == path_finding(code, resource, paths[n]));
    }
}

pub(crate) proof fn lemma_push_contains<A>(s: Seq<A>, x: A, y: A)
    ensures
        s.push(x).contains(y) <==> (s.contains(y) || y == x),
{
    if s.push(x).contains(y) {
        let j = choose|j: int| 0 <= j < s.push(x).len() && s.push(x)[j] == y;
        if j < s.len() {
            assert(s[j] == y);
        }
    }
    if s.contains(y) {
        let j = choose|j: int| 0 <= j < s.len() && s[j] == y;
        assert(s.push(x)[j] == y);
    }
    if y == x {
        assert(s.push(x)[s.len() as int] == y);
    }
}

fn push_path_findings(findings: Vec<DiscoveryFinding>, code: DiagnosticCode, resource: &ResourceIdentity, paths: &[String]) -> (r: Vec<
    DiscoveryFinding,
>)
    ensures
        forall|f: FindingView|
            #[trigger] views(r@).contains(f) <==> (views(findings@).contains(f) || reports_path(
                code,
                resource@,
                texts(paths@),
                paths@.len() as int,
                f,
            )),
{
    let ghost start = views(findings@);
    let ghost ps = texts(paths@);
    let mut out = findings;
    let mut i: usize = 0;
    while i < paths.len()
        invariant
            i <= paths.len(),
            ps == texts(paths@),
            forall|f: FindingView|
                #[trigger] views(out@).contains(f) <==> (start.contains(f) || reports_path(code, resource@, ps, i as int, f)),
        decreases paths.len() - i,
    {
        let ghost mid = views(out@);
        let item = DiscoveryFinding::for_path(code, resource.clone(), paths[i].clone());
        let ghost iv = item@;
        out.push(item);
        proof {
            assert(views(out@) =~= mid.push(iv));
            assert(iv == path_finding(code, resource@, ps[i as int]));
            assert forall|f: FindingView|
                #[trigger] views(out@).contains(f) <==> (start.contains(f) || reports_path(code, resource@, ps, i + 1, f)) by {
                lemma_push_contains(mid, iv, f);
                lemma_reports_path_step(code, resource@, ps, i as int, f);
            }
        }
        i = i + 1;
    }
    out
}

/// The observed relationships of a record, when they were observed.
pub(crate) fn observed_relationship_list(rec: &ObservationRecord) -> (r: Option<&Vec<crate::observation::NativeRelationship>>)
    ensures
        match r {
            Some(v) => observed_relationships(*rec) == Some(views(v@)),
            None => observed_relationships(*rec) is None,
        },
{
    match &rec.relationships {
        Some(ObservationField::Observed(v)) => Some(v.value()),
        _ => None,
    }
}

fn relationships_block(rec: &ObservationRecord) -> (r: bool)
    ensures
        r == blocks_discovery(rec.relationships),
{
    match &rec.relationships {
        Some(ObservationField::Observed(_)) => false,
        Some(ObservationField::Absent) => false,
        Some(_) => true,
        None => false,
    }
}

spec fn unresolved_at(recs: Seq<ObservationRecord>, i: int, k: int, f: FindingView) -> bool {
    exists|m: int| #[trigger] unresolved_finding(recs, i, k, m, f)
}

/// Collects every resolved dependency edge, with the union of its source paths, and reports each
/// relationship that blocks discovery or does not resolve to exactly one target.
fn collect_dependencies(records: &[ObservationRecord], findings: Vec<DiscoveryFinding>) -> (r: (
    Vec<ResourceDependency>,
    Vec<DiscoveryFinding>,
))
    ensures
        edges_well_formed(views(r.0@)),
        keys_sorted::<ResourceDependency>(views(r.0@)),
        distinct(views(r.0@)),
        forall|d: IdentityView, p: IdentityView| #[trigger] has_pair(views(r.0@), d, p) <==> dependency_edge(records@, d, p),
        forall|d: IdentityView, p: IdentityView, path: Seq<char>|
            #[trigger] pair_path(views(r.0@), d, p, path) <==> dependency_path(records@, d, p, path),
        forall|f: FindingView|
            #[trigger] views(r.1@).contains(f) <==> (views(findings@).contains(f) || dependency_finding(records@, f)),
{
    let ghost recs = records@;
    let ghost start = views(findings@);
    let mut findings = findings;
    let mut edges: Vec<ResourceDependency> = Vec::new();
    proof {
        assert(views(edges@) =~= Seq::<DependencyView>::empty());
        assert forall|d: IdentityView, p: IdentityView|
            #[trigger] has_pair(views(edges@), d, p) <==> supported_before(recs, 0, 0, d, p) by {
            if supported_before(recs, 0, 0, d, p) {
                let (i2, k2) = choose|i2: int, k2: int| source_lt(i2, k2, 0, 0) && #[trigger] supports(recs, i2, k2, d, p);
            }
        }
        assert forall|d: IdentityView, p: IdentityView, path: Seq<char>|
            #[trigger] pair_path(views(edges@), d, p, path) <==> path_before(recs, 0, 0, d, p, path) by {
            if path_before(recs, 0, 0, d, p, path) {
                let (i2, k2) = choose|i2: int, k2: int|
                    source_lt(i2, k2, 0, 0) && #[trigger] supports(recs, i2, k2, d, p) && source_rel(recs, i2, k2).field_paths.contains(path);
            }
        }
        assert forall|f: FindingView| #[trigger] views(findings@).contains(f) <==> (start.contains(f) || finding_before(recs, 0, 0, f)) by {
            if finding_before(recs, 0, 0, f) {
                if exists|i2: int| i2 <= 0 && #[trigger] blocked_finding(recs, i2, f) && (i2 < 0 || 0 > 0) {
                    let i2 = choose|i2: int| i2 <= 0 && #[trigger] blocked_finding(recs, i2, f) && (i2 < 0 || 0 > 0);
                } else {
                    let (i2, k2, m) = choose|i2: int, k2: int, m: int| source_lt(i2, k2, 0, 0) && #[trigger] unresolved_finding(recs, i2, k2, m, f);
                }
            }
        }
    }
    let mut i: usize = 0;
    while i < records.len()
        invariant
            i <= records.len(),
            recs == records@,
            edges_well_formed(views(edges@)),
            forall|d: IdentityView, p: IdentityView|
                #[trigger] has_pair(views(edges@), d, p) <==> supported_before(recs, i as int, 0, d, p),
            forall|d: IdentityView, p: IdentityView, path: Seq<char>|
                #[trigger] pair_path(views(edges@), d, p, path) <==> path_before(recs, i as int, 0, d, p, path),
            forall|f: FindingView| #[trigger] views(findings@).contains(f) <==> (start.contains(f) || finding_before(recs, i as int, 0, f)),
        decreases records.len() - i,
    {
        let ghost ii = i as int;
        if !is_effective(records, i) {
            proof {
                assert forall|k2: int| k2 >= 0 implies !dependency_source(recs, ii, k2) by {}
                assert forall|d: IdentityView, p: IdentityView|
                    #[trigger] has_pair(views(edges@), d, p) <==> supported_before(recs, ii + 1, 0, d, p) by {
                    lemma_record_end_support(recs, ii, 0, d, p);
                }
                assert forall|d: IdentityView, p: IdentityView, path: Seq<char>|
                    #[trigger] pair_path(views(edges@), d, p, path) <==> path_before(recs, ii + 1, 0, d, p, path) by {
                    lemma_record_end_path(recs, ii, 0, d, p, path);
                }
                assert forall|f: FindingView|
                    #[trigger] views(findings@).contains(f) <==> (start.contains(f) || finding_before(recs, ii + 1, 0, f)) by {
                    lemma_record_end_finding(recs, ii, 0, f);
                }
            }
            i = i + 1;
            continue;
        }
        let identity = &records[i].identity;
        match observed_relationship_list(&records[i]) {
            None => {
                let ghost mid = views(findings@);
                let blocked = relationships_block(&records[i]);
                let ghost bf = resource_finding(DiagnosticCode::RelationshipConflict, recs[ii].identity@);
                if blocked {
                    findings.push(DiscoveryFinding::for_resource(DiagnosticCode::RelationshipConflict, identity.clone()));
                    assert(views(findings@) =~= mid.push(bf));
                }
                proof {
                    assert forall|k2: int| k2 >= 0 implies !dependency_source(recs, ii, k2) by {}
                    assert forall|d: IdentityView, p: IdentityView|
                        #[trigger] has_pair(views(edges@), d, p) <==> supported_before(recs, ii + 1, 0, d, p) by {
                        lemma_record_end_support(recs, ii, 0, d, p);
                    }
                    assert forall|d: IdentityView, p: IdentityView, path: Seq<char>|
                        #[trigger] pair_path(views(edges@), d, p, path) <==> path_before(recs, ii + 1, 0, d, p, path) by {
                        lemma_record_end_path(recs, ii, 0, d, p, path);
                    }
                    assert forall|f: FindingView|
                        #[trigger] views(findings@).contains(f) <==> (start.contains(f) || finding_before(recs, ii + 1, 0, f)) by {
                        lemma_record_end_finding(recs, ii, 0, f);
                        if blocked {
                            lemma_push_contains(mid, bf, f);
                        }
                    }
                }
            },
            Some(rels) => {
                let ghost rv = views(rels@);
                let mut k: usize = 0;
                proof {
                    assert forall|f: FindingView|
                        #[trigger] views(findings@).contains(f) <==> (start.contains(f) || finding_before(recs, ii, 0, f)) by {}
                }
                while k < rels.len()
                    invariant
                        k <= rels.len(),
                        i < records.len(),
                        ii == i as int,
                        recs == records@,
                        effective(recs, ii),
                        identity@ == recs[ii].identity@,
                        observed_relationships(recs[ii]) == Some(rv),
                        rv == views(rels@),
                        edges_well_formed(views(edges@)),
                        forall|d: IdentityView, p: IdentityView|
                            #[trigger] has_pair(views(edges@), d, p) <==> supported_before(recs, ii, k as int, d, p),
                        forall|d: IdentityView, p: IdentityView, path: Seq<char>|
                            #[trigger] pair_path(views(edges@), d, p, path) <==> path_before(recs, ii, k as int, d, p, path),
                        forall|f: FindingView|
                            #[trigger] views(findings@).contains(f) <==> (start.contains(f) || finding_before(recs, ii, k as int, f)),
                    decreases rels.len() - k,
                {
                    let rel = &rels[k];
                    let paths = rel.field_paths();
                    let ghost kk = k as int;
                    proof {
                        assert(rv[kk] == rel@);
                    }
                    let skip = identity.kind() == ResourceKind::Pod && rel.kind() == ResourceKind::Container;
                    let ghost before_edges = views(edges@);
                    let ghost before_findings = views(findings@);
                    if skip {
                        proof {
                            assert(!dependency_source(recs, ii, kk));
                            assert forall|d: IdentityView, p: IdentityView|
                                #[trigger] has_pair(views(edges@), d, p) <==> supported_before(recs, ii, kk + 1, d, p) by {
                                lemma_support_step(recs, ii, kk, d, p);
                            }
                            assert forall|d: IdentityView, p: IdentityView, path: Seq<char>|
                                #[trigger] pair_path(views(edges@), d, p, path) <==> path_before(recs, ii, kk + 1, d, p, path) by {
                                lemma_path_step(recs, ii, kk, d, p, path);
                            }
                            assert forall|f: FindingView|
                                #[trigger] views(findings@).contains(f) <==> (start.contains(f) || finding_before(recs, ii, kk + 1, f)) by {
                                lemma_finding_k_step(recs, ii, kk, f);
                                if unresolved_at(recs, ii, kk, f) {
                                    let m = choose|m: int| #[trigger] unresolved_finding(recs, ii, kk, m, f);
                                }
                            }
                        }
                    } else {
                        assert(dependency_source(recs, ii, kk));
                        assert(source_rel(recs, ii, kk) == rel@);
                        match resolve_relationship(records, rel) {
                            RelationshipResolution::One(prerequisite) => {
                                merge_edge(&mut edges, identity, &prerequisite, paths);
                                proof {
                                    assert(views(paths@) =~= rel@.field_paths);
                                    assert forall|d: IdentityView, p: IdentityView|
                                        #[trigger] has_pair(views(edges@), d, p) <==> supported_before(recs, ii, kk + 1, d, p) by {
                                        lemma_support_step(recs, ii, kk, d, p);
                                    }
                                    assert forall|d: IdentityView, p: IdentityView, path: Seq<char>|
                                        #[trigger] pair_path(views(edges@), d, p, path) <==> path_before(recs, ii, kk + 1, d, p, path) by {
                                        lemma_path_step(recs, ii, kk, d, p, path);
                                    }
                                    assert forall|f: FindingView|
                                        #[trigger] views(findings@).contains(f) <==> (start.contains(f) || finding_before(recs, ii, kk + 1, f)) by {
                                        lemma_finding_k_step(recs, ii, kk, f);
                                        if unresolved_at(recs, ii, kk, f) {
                                            let m = choose|m: int| #[trigger] unresolved_finding(recs, ii, kk, m, f);
                                        }
                                    }
                                }
                            },
                            other => {
                                let code = match other {
                                    RelationshipResolution::Unresolved => DiagnosticCode::UnresolvedRelationship,
                                    RelationshipResolution::Many => DiagnosticCode::RelationshipAmbiguous,
                                    _ => DiagnosticCode::RelationshipConflict,
                                };
                                assert(code == outcome_code(relationship_outcome(recs, rel@)));
                                findings = push_path_findings(findings, code, identity, paths);
                                proof {
                                    assert forall|d: IdentityView, p: IdentityView|
                                        #[trigger] has_pair(views(edges@), d, p) <==> supported_before(recs, ii, kk + 1, d, p) by {
                                        lemma_support_step(recs, ii, kk, d, p);
                                    }
                                    assert forall|d: IdentityView, p: IdentityView, path: Seq<char>|
                                        #[trigger] pair_path(views(edges@), d, p, path) <==> path_before(recs, ii, kk + 1, d, p, path) by {
                                        lemma_path_step(recs, ii, kk, d, p, path);
                                    }
                                    assert forall|f: FindingView|
                                        #[trigger] views(findings@).contains(f) <==> (start.contains(f) || finding_before(recs, ii, kk + 1, f)) by {
                                        lemma_finding_k_step(recs, ii, kk, f);
                                        lemma_unresolved_paths(recs, ii, kk, code, texts(paths@), f);
                                    }
                                }
                            },
                        }
                    }
                    k = k + 1;
                }
                proof {
                    let n = rels.len() as int;
                    assert forall|k2: int| k2 >= n implies !dependency_source(recs, ii, k2) by {}
                    assert forall|d: IdentityView, p: IdentityView|
                        #[trigger] has_pair(views(edges@), d, p) <==> supported_before(recs, ii + 1, 0, d, p) by {
                        lemma_record_end_support(recs, ii, n, d, p);
                    }
                    assert forall|d: IdentityView, p: IdentityView, path: Seq<char>|
                        #[trigger] pair_path(views(edges@), d, p, path) <==> path_before(recs, ii + 1, 0, d, p, path) by {
                        lemma_record_end_path(recs, ii, n, d, p, path);
                    }
                    assert forall|f: FindingView|
                        #[trigger] views(findings@).contains(f) <==> (start.contains(f) || finding_before(recs, ii + 1, 0, f)) by {
                        lemma_record_end_finding(recs, ii, n, f);
                    }
                }
            },
        }
        i = i + 1;
    }
    proof {
        assert forall|d: IdentityView, p: IdentityView| #[trigger] has_pair(views(edges@), d, p) <==> dependency_edge(recs, d, p) by {
            if dependency_edge(recs, d, p) {
                let (i2, k2) = choose|i2: int, k2: int| #[trigger] supports(recs, i2, k2, d, p);
                assert(source_lt(i2, k2, i as int, 0));
            }
        }
        assert forall|d: IdentityView, p: IdentityView, path: Seq<char>|
            #[trigger] pair_path(views(edges@), d, p, path) <==> dependency_path(recs, d, p, path) by {
            if dependency_path(recs, d, p, path) {
                let (i2, k2) = choose|i2: int, k2: int|
                    #[trigger] supports(recs, i2, k2, d, p) && source_rel(recs, i2, k2).field_paths.contains(path);
                assert(source_lt(i2, k2, i as int, 0));
            }
        }
        assert forall|f: FindingView|
            #[trigger] views(findings@).contains(f) <==> (start.contains(f) || dependency_finding(recs, f)) by {
            lemma_dependency_finding(recs, f);
        }
    }
    let sorted = sort_distinct(edges);
    proof {
        lemma_same_edges(views(edges@), views(sorted@));
    }
    (sorted, findings)
}

/// Two edge lists holding the same edges, the second free of repeats, join the same pairs with
/// the same paths, and the second keeps the first's shape.
proof fn lemma_same_edges(a: Seq<DependencyView>, b: Seq<DependencyView>)
    requires
        edges_well_formed(a),
        distinct(b),
        forall|x: DependencyView| #[trigger] b.contains(x) <==> a.contains(x),
    ensures
        edges_well_formed(b),
        forall|d: IdentityView, p: IdentityView| #[trigger] has_pair(b, d, p) <==> has_pair(a, d, p),
        forall|d: IdentityView, p: IdentityView, path: Seq<char>| #[trigger] pair_path(b, d, p, path) <==> pair_path(a, d, p, path),
{
    assert forall|d: IdentityView, p: IdentityView| #[trigger] has_pair(b, d, p) <==> has_pair(a, d, p) by {
        if has_pair(b, d, p) {
            let m = choose|m: int| 0 <= m < b.len() && (#[trigger] b[m]).dependent == d && b[m].prerequisite == p;
            assert(b.contains(b[m]));
            assert(a.contains(b[m]));
            let j = choose|j: int| 0 <= j < a.len() && a[j] == b[m];
            assert(a[j].dependent == d);
        }
        if has_pair(a, d, p) {
            let m = choose|m: int| 0 <= m < a.len() && (#[trigger] a[m]).dependent == d && a[m].prerequisite == p;
            assert(a.contains(a[m]));
            assert(b.contains(a[m]));
            let j = choose|j: int| 0 <= j < b.len() && b[j] == a[m];
            assert(b[j].dependent == d);
        }
    }
    assert forall|d: IdentityView, p: IdentityView, path: Seq<char>| #[trigger] pair_path(b, d, p, path) <==> pair_path(a, d, p, path) by {
        if pair_path(b, d, p, path) {
            let m = choose|m: int|
                0 <= m < b.len() && (#[trigger] b[m]).dependent == d && b[m].prerequisite == p && b[m].field_paths.contains(path);
            assert(b.contains(b[m]));
            assert(a.contains(b[m]));
            let j = choose|j: int| 0 <= j < a.len() && a[j] == b[m];
            assert(a[j].dependent == d);
        }
        if pair_path(a, d, p, path) {
            let m = choose|m: int|
                0 <= m < a.len() && (#[trigger] a[m]).dependent == d && a[m].prerequisite == p && a[m].field_paths.contains(path);
            assert(a.contains(a[m]));
            assert(b.contains(a[m]));
            let j = choose|j: int| 0 <= j < b.len() && b[j] == a[m];
            assert(b[j].dependent == d);
        }
    }
    assert forall|x: int, y: int| 0 <= x < y < b.len() implies !((#[trigger] b[x]).dependent == (#[trigger] b[y]).dependent
        && b[x].prerequisite == b[y].prerequisite) by {
        assert(b.contains(b[x]) && b.contains(b[y]));
        let jx = choose|j: int| 0 <= j < a.len() && a[j] == b[x];
        let jy = choose|j: int| 0 <= j < a.len() && a[j] == b[y];
        if b[x].dependent == b[y].dependent && b[x].prerequisite == b[y].prerequisite {
            if jx == jy {
                assert(b[x] == b[y]);
            } else if jx < jy {
                assert(!((a[jx]).dependent == (a[jy]).dependent && a[jx].prerequisite == a[jy].prerequisite));
            } else {
                assert(!((a[jy]).dependent == (a[jx]).dependent && a[jy].prerequisite == a[jx].prerequisite));
            }
        }
    }
    assert forall|m: int| 0 <= m < b.len() implies keys_sorted::<String>((#[trigger] b[m]).field_paths) && distinct(
        b[m].field_paths,
    ) by {
        assert(b.contains(b[m]));
        let j = choose|j: int| 0 <= j < a.len() && a[j] == b[m];
        assert(keys_sorted::<String>(a[j].field_paths) && distinct(a[j].field_paths));
    }
}

proof fn lemma_support_step(recs: Seq<ObservationRecord>, i: int, k: int, d: IdentityView, p: IdentityView)
    ensures
        supported_before(recs, i, k + 1, d, p) <==> (supported_before(recs, i, k, d, p) || supports(recs, i, k, d, p)),
{
    if supported_before(recs, i, k + 1, d, p) {
        let (i2, k2) = choose|i2: int, k2: int| source_lt(i2, k2, i, k + 1) && #[trigger] supports(recs, i2, k2, d, p);
        if !(i2 == i && k2 == k) {
            assert(source_lt(i2, k2, i, k));
        }
    }
    if supported_before(recs, i, k, d, p) {
        let (i2, k2) = choose|i2: int, k2: int| source_lt(i2, k2, i, k) && #[trigger] supports(recs, i2, k2, d, p);
        assert(source_lt(i2, k2, i, k + 1));
    }
    if supports(recs, i, k, d, p) {
        assert(source_lt(i, k, i, k + 1));
    }
}

proof fn lemma_path_step(recs: Seq<ObservationRecord>, i: int, k: int, d: IdentityView, p: IdentityView, path: Seq<char>)
    ensures
        path_before(recs, i, k + 1, d, p, path) <==> (path_before(recs, i, k, d, p, path) || (supports(recs, i, k, d, p)
            && source_rel(recs, i, k).field_paths.contains(path))),
{
    if path_before(recs, i, k + 1, d, p, path) {
        let (i2, k2) = choose|i2: int, k2: int|
            source_lt(i2, k2, i, k + 1) && #[trigger] supports(recs, i2, k2, d, p) && source_rel(recs, i2, k2).field_paths.contains(path);
        if !(i2 == i && k2 == k) {
            assert(source_lt(i2, k2, i, k));
        }
    }
    if path_before(recs, i, k, d, p, path) {
        let (i2, k2) = choose|i2: int, k2: int|
            source_lt(i2, k2, i, k) && #[trigger] supports(recs, i2, k2, d, p) && source_rel(recs, i2, k2).field_paths.contains(path);
        assert(source_lt(i2, k2, i, k + 1));
    }
    if supports(recs, i, k, d, p) && source_rel(recs, i, k).field_paths.contains(path) {
        assert(source_lt(i, k, i, k + 1));
    }
}

proof fn lemma_finding_k_step(recs: Seq<ObservationRecord>, i: int, k: int, f: FindingView)
    requires
        0 <= k,
        observed_relationships(recs[i]) is Some,
    ensures
        finding_before(recs, i, k + 1, f) <==> (finding_before(recs, i, k, f) || unresolved_at(recs, i, k, f)),
{
    assert(!blocks_discovery(recs[i].relationships));
    if finding_before(recs, i, k + 1, f) {
        if exists|i2: int| i2 <= i && #[trigger] blocked_finding(recs, i2, f) && (i2 < i || k + 1 > 0) {
            let i2 = choose|i2: int| i2 <= i && #[trigger] blocked_finding(recs, i2, f) && (i2 < i || k + 1 > 0);
            assert(i2 != i);
            assert(i2 <= i && blocked_finding(recs, i2, f) && (i2 < i || k > 0));
        } else {
            let (i2, k2, m) = choose|i2: int, k2: int, m: int| source_lt(i2, k2, i, k + 1) && #[trigger] unresolved_finding(recs, i2, k2, m, f);
            if !(i2 == i && k2 == k) {
                assert(source_lt(i2, k2, i, k));
            }
        }
    }
    if finding_before(recs, i, k, f) {
        if exists|i2: int| i2 <= i && #[trigger] blocked_finding(recs, i2, f) && (i2 < i || k > 0) {
            let i2 = choose|i2: int| i2 <= i && #[trigger] blocked_finding(recs, i2, f) && (i2 < i || k > 0);
            assert(i2 <= i && blocked_finding(recs, i2, f) && (i2 < i || k + 1 > 0));
        } else {
            let (i2, k2, m) = choose|i2: int, k2: int, m: int| source_lt(i2, k2, i, k) && #[trigger] unresolved_finding(recs, i2, k2, m, f);
            assert(source_lt(i2, k2, i, k + 1));
        }
    }
    if unresolved_at(recs, i, k, f) {
        let m = choose|m: int| #[trigger] unresolved_finding(recs, i, k, m, f);
        assert(source_lt(i, k, i, k + 1));
    }
}

proof fn lemma_unresolved_paths(recs: Seq<ObservationRecord>, i: int, k: int, code: DiagnosticCode, paths: Seq<Seq<char>>, f: FindingView)
    requires
        dependency_source(recs, i, k),
        !(relationship_outcome(recs, source_rel(recs, i, k)) is Unique),
        code == outcome_code(relationship_outcome(recs, source_rel(recs, i, k))),
        paths == source_rel(recs, i, k).field_paths,
    ensures
        reports_path(code, recs[i].identity@, paths, paths.len() as int, f) <==> unresolved_at(recs, i, k, f),
{
    if reports_path(code, recs[i].identity@, paths, paths.len() as int, f) {
        let m = choose|m: int| 0 <= m < paths.len() && f == path_finding(code, recs[i].identity@, #[trigger] paths[m]);
        assert(unresolved_finding(recs, i, k, m, f));
    }
    if unresolved_at(recs, i, k, f) {
        let m = choose|m: int| #[trigger] unresolved_finding(recs, i, k, m, f);
        assert(0 <= m < paths.len() && f == path_finding(code, recs[i].identity@, paths[m]));
    }
}

proof fn lemma_record_end_support(recs: Seq<ObservationRecord>, i: int, n: int, d: IdentityView, p: IdentityView)
    requires
        forall|k2: int| k2 >= n ==> !#[trigger] dependency_source(recs, i, k2),
    ensures
        supported_before(recs, i + 1, 0, d, p) <==> supported_before(recs, i, n, d, p),
{
    if supported_before(recs, i + 1, 0, d, p) {
        let (i2, k2) = choose|i2: int, k2: int| source_lt(i2, k2, i + 1, 0) && #[trigger] supports(recs, i2, k2, d, p);
        if i2 == i {
            assert(dependency_source(recs, i, k2));
        }
        assert(source_lt(i2, k2, i, n));
    }
    if supported_before(recs, i, n, d, p) {
        let (i2, k2) = choose|i2: int, k2: int| source_lt(i2, k2, i, n) && #[trigger] supports(recs, i2, k2, d, p);
        assert(source_lt(i2, k2, i + 1, 0));
    }
}

proof fn lemma_record_end_path(recs: Seq<ObservationRecord>, i: int, n: int, d: IdentityView, p: IdentityView, path: Seq<char>)
    requires
        forall|k2: int| k2 >= n ==> !#[trigger] dependency_source(recs, i, k2),
    ensures
        path_before(recs, i + 1, 0, d, p, path) <==> path_before(recs, i, n, d, p, path),
{
    if path_before(recs, i + 1, 0, d, p, path) {
        let (i2, k2) = choose|i2: int, k2: int|
            source_lt(i2, k2, i + 1, 0) && #[trigger] supports(recs, i2, k2, d, p) && source_rel(recs, i2, k2).field_paths.contains(path);
        if i2 == i {
            assert(dependency_source(recs, i, k2));
        }
        assert(source_lt(i2, k2, i, n));
    }
    if path_before(recs, i, n, d, p, path) {
        let (i2, k2) = choose|i2: int, k2: int|
            source_lt(i2, k2, i, n) && #[trigger] supports(recs, i2, k2, d, p) && source_rel(recs, i2, k2).field_paths.contains(path);
        assert(source_lt(i2, k2, i + 1, 0));
    }
}

proof fn lemma_record_end_finding(recs: Seq<ObservationRecord>, i: int, n: int, f: FindingView)
    requires
        0 <= n,
        forall|k2: int| k2 >= n ==> !#[trigger] dependency_source(recs, i, k2),
        n > 0 ==> !blocks_discovery(recs[i].relationships),
    ensures
        finding_before(recs, i + 1, 0, f) <==> (finding_before(recs, i, n, f) || blocked_finding(recs, i, f)),
{
    if finding_before(recs, i + 1, 0, f) {
        if exists|i2: int| i2 <= i + 1 && #[trigger] blocked_finding(recs, i2, f) && (i2 < i + 1 || 0 > 0) {
            let i2 = choose|i2: int| i2 <= i + 1 && #[trigger] blocked_finding(recs, i2, f) && (i2 < i + 1 || 0 > 0);
            if i2 < i {
                assert(i2 <= i && blocked_finding(recs, i2, f) && (i2 < i || n > 0));
            }
        } else {
            let (i2, k2, m) = choose|i2: int, k2: int, m: int| source_lt(i2, k2, i + 1, 0) && #[trigger] unresolved_finding(recs, i2, k2, m, f);
            if i2 == i {
                assert(dependency_source(recs, i, k2));
            }
            assert(source_lt(i2, k2, i, n));
        }
    }
    if finding_before(recs, i, n, f) {
        if exists|i2: int| i2 <= i && #[trigger] blocked_finding(recs, i2, f) && (i2 < i || n > 0) {
            let i2 = choose|i2: int| i2 <= i && #[trigger] blocked_finding(recs, i2, f) && (i2 < i || n > 0);
            assert(i2 <= i + 1 && blocked_finding(recs, i2, f) && (i2 < i + 1 || 0 > 0));
        } else {
            let (i2, k2, m) = choose|i2: int, k2: int, m: int| source_lt(i2, k2, i, n) && #[trigger] unresolved_finding(recs, i2, k2, m, f);
            assert(source_lt(i2, k2, i + 1, 0));
        }
    }
    if blocked_finding(recs, i, f) {
        assert(i <= i + 1 && blocked_finding(recs, i, f) && (i < i + 1 || 0 > 0));
    }
}



// ---------------------------------------------------------------------------------------------
// Grouping edges.
// ---------------------------------------------------------------------------------------------
/// The content of one grouping claim: evidence that `a` and `b` belong together.
pub struct ClaimView {
    pub a: IdentityView,
    pub b: IdentityView,
    pub evidence: GroupingEvidenceView,
    pub path: Option<Seq<char>>,
}

/// One piece of grouping evidence before claims about the same pair are merged.
struct GroupingClaim {
    a: ResourceIdentity,
    b: ResourceIdentity,
    evidence: GroupingEvidence,
    path: Option<String>,
}

impl View for GroupingClaim {
    type V = ClaimView;

    closed spec fn view(&self) -> ClaimView {
        ClaimView { a: self.a@, b: self.b@, evidence: self.evidence@, path: opt_view(self.path) }
    }
}

/// The first source path of a relationship, if it has one.
pub open spec fn first_path(rel: RelationshipView) -> Option<Seq<char>> {
    if rel.field_paths.len() > 0 {
        Some(rel.field_paths[0])
    } else {
        None
    }
}

/// Relationship `k` of the read record `i` asserts pod membership: from a pod to a container or
/// from a container to a pod.
pub open spec fn membership_source(recs: Seq<ObservationRecord>, i: int, k: int) -> bool {
    &&& effective(recs, i)
    &&& observed_relationships(recs[i]) is Some
    &&& 0 <= k < observed_relationships(recs[i])->0.len()
    &&& ((recs[i].identity@.kind == ResourceKind::Pod && source_rel(recs, i, k).kind == ResourceKind::Container) || (
    recs[i].identity@.kind == ResourceKind::Container && source_rel(recs, i, k).kind == ResourceKind::Pod))
}

/// A resolved membership relationship claims that the resource and its pod or member belong
/// together.
pub open spec fn membership_claim(recs: Seq<ObservationRecord>, c: ClaimView) -> bool {
    exists|i: int, k: int|
        #[trigger] membership_source(recs, i, k) && relationship_outcome(recs, source_rel(recs, i, k)) is Unique && c
            == (ClaimView {
            a: recs[i].identity@,
            b: relationship_outcome(recs, source_rel(recs, i, k))->Unique_0,
            evidence: GroupingEvidenceView::PodMembership,
            path: first_path(source_rel(recs, i, k)),
        })
}

/// A pod whose membership relationship does not resolve to one target is reported.
pub open spec fn membership_finding(recs: Seq<ObservationRecord>, f: FindingView) -> bool {
    exists|i: int, k: int|
        #[trigger] membership_source(recs, i, k) && recs[i].identity@.kind == ResourceKind::Pod && !(relationship_outcome(
            recs,
            source_rel(recs, i, k),
        ) is Unique) && f == (FindingView {
            code: outcome_code(relationship_outcome(recs, source_rel(recs, i, k))),
            resource: Some(recs[i].identity@),
            selector: None,
            label_selector: None,
            field_path: first_path(source_rel(recs, i, k)),
        })
}

/// Each source path of a dependency between two containers claims that they belong together.
pub open spec fn dependency_claim(recs: Seq<ObservationRecord>, c: ClaimView) -> bool {
    &&& c.evidence == GroupingEvidenceView::ContainerDependency
    &&& c.a.kind == ResourceKind::Container
    &&& c.b.kind == ResourceKind::Container
    &&& c.path is Some
    &&& dependency_path(recs, c.a, c.b, c.path->0)
}

/// The Compose project of the read record `i`, when it is a container or pod with agreeing labels.
pub open spec fn owned_by(recs: Seq<ObservationRecord>, i: int, project: Seq<char>) -> bool {
    &&& effective(recs, i)
    &&& (recs[i].identity@.kind == ResourceKind::Container || recs[i].identity@.kind == ResourceKind::Pod)
    &&& compose_status(recs[i]) == Ok::<Option<Seq<char>>, DiagnosticCode>(Some(project))
}

/// Two containers or pods of one Compose project claim to belong together.
pub open spec fn compose_claim(recs: Seq<ObservationRecord>, c: ClaimView) -> bool {
    exists|i: int, j: int, project: Seq<char>|
        i < j && #[trigger] owned_by(recs, i, project) && #[trigger] owned_by(recs, j, project) && c == (ClaimView {
            a: recs[i].identity@,
            b: recs[j].identity@,
            evidence: GroupingEvidenceView::ComposeOwnership(project),
            path: None,
        })
}

/// All grouping claims of the read records.
pub open spec fn grouping_claim(recs: Seq<ObservationRecord>, c: ClaimView) -> bool {
    membership_claim(recs, c) || dependency_claim(recs, c) || compose_claim(recs, c)
}

/// A pair in key order.
pub open spec fn ordered_pair(a: IdentityView, b: IdentityView) -> (IdentityView, IdentityView) {
    if lex_lt(identity_key(b), identity_key(a)) {
        (b, a)
    } else {
        (a, b)
    }
}

/// Some claim of `claims` joins `l` and `r` (in key order) with evidence `e`.
pub open spec fn claimed(claims: Seq<ClaimView>, l: IdentityView, r: IdentityView, e: GroupingEvidenceView) -> bool {
    exists|c: ClaimView|
        #[trigger] claims.contains(c) && c.a != c.b && ordered_pair(c.a, c.b) == (l, r) && c.evidence == e
}

/// Some claim of `claims` joining `l` and `r` with evidence `e` was asserted at `path`.
pub open spec fn claimed_path(
    claims: Seq<ClaimView>,
    l: IdentityView,
    r: IdentityView,
    e: GroupingEvidenceView,
    path: Seq<char>,
) -> bool {
    exists|c: ClaimView|
        #[trigger] claims.contains(c) && c.a != c.b && ordered_pair(c.a, c.b) == (l, r) && c.evidence == e && c.path
            == Some(path)
}

/// Some edge of `es` joins `l` and `r` with evidence `e`.
pub open spec fn has_grouping(es: Seq<GroupingEdgeView>, l: IdentityView, r: IdentityView, e: GroupingEvidenceView) -> bool {
    exists|m: int| 0 <= m < es.len() && (#[trigger] es[m]).left == l && es[m].right == r && es[m].evidence == e
}

/// Some edge of `es` joining `l` and `r` with evidence `e` carries `path`.
pub open spec fn grouping_path(
    es: Seq<GroupingEdgeView>,
    l: IdentityView,
    r: IdentityView,
    e: GroupingEvidenceView,
    path: Seq<char>,
) -> bool {
    exists|m: int|
        0 <= m < es.len() && (#[trigger] es[m]).left == l && es[m].right == r && es[m].evidence == e
            && es[m].field_paths.contains(path)
}

/// No two edges of `es` have the same ends and evidence; each edge's paths are sorted and
/// distinct, and its left end precedes its right end.
pub open spec fn grouping_well_formed(es: Seq<GroupingEdgeView>) -> bool {
    &&& forall|a: int, b: int|
        0 <= a < b < es.len() ==> !((#[trigger] es[a]).left == (#[trigger] es[b]).left && es[a].right == es[b].right
            && es[a].evidence == es[b].evidence)
    &&& forall|m: int|
        0 <= m < es.len() ==> keys_sorted::<String>((#[trigger] es[m]).field_paths) && distinct(es[m].field_paths)
            && lex_lt(identity_key(es[m].left), identity_key(es[m].right))
}

fn push_claim(claims: Vec<GroupingClaim>, a: &ResourceIdentity, b: &ResourceIdentity, evidence: GroupingEvidence, path: Option<String>) -> (r:
    Vec<GroupingClaim>)
    ensures
        views(r@) == views(claims@).push(ClaimView { a: a@, b: b@, evidence: evidence@, path: opt_view(path) }),
{
    let mut out = claims;
    let ghost before = views(out@);
    let c = GroupingClaim { a: a.clone(), b: b.clone(), evidence, path };
    let ghost cv = c@;
    out.push(c);
    assert(views(out@) =~= before.push(cv));
    out
}

fn first_path_of(paths: &[String]) -> (r: Option<String>)
    ensures
        opt_view(r) == (if paths@.len() > 0 {
            Some(paths@[0]@)
        } else {
            None::<Seq<char>>
        }),
{
    if paths.len() > 0 {
        Some(paths[0].clone())
    } else {
        None
    }
}


/// Some source before `(i, k)` satisfies `at`.
pub open spec fn seen_before(at: spec_fn(int, int) -> bool, i: int, k: int) -> bool {
    exists|i2: int, k2: int| source_lt(i2, k2, i, k) && #[trigger] at(i2, k2)
}

proof fn lemma_seen_step(at: spec_fn(int, int) -> bool, i: int, k: int)
    ensures
        seen_before(at, i, k + 1) <==> (seen_before(at, i, k) || at(i, k)),
{
    if seen_before(at, i, k + 1) {
        let (i2, k2) = choose|i2: int, k2: int| source_lt(i2, k2, i, k + 1) && #[trigger] at(i2, k2);
        if !(i2 == i && k2 == k) {
            assert(source_lt(i2, k2, i, k));
        }
    }
    if seen_before(at, i, k) {
        let (i2, k2) = choose|i2: int, k2: int| source_lt(i2, k2, i, k) && #[trigger] at(i2, k2);
        assert(source_lt(i2, k2, i, k + 1));
    }
    if at(i, k) {
        assert(source_lt(i, k, i, k + 1));
    }
}

proof fn lemma_seen_end(at: spec_fn(int, int) -> bool, i: int, n: int)
    requires
        forall|k2: int| k2 >= n ==> !#[trigger] at(i, k2),
        forall|i2: int, k2: int| #[trigger] at(i2, k2) ==> 0 <= k2,
    ensures
        seen_before(at, i + 1, 0) <==> seen_before(at, i, n),
{
    if seen_before(at, i + 1, 0) {
        let (i2, k2) = choose|i2: int, k2: int| source_lt(i2, k2, i + 1, 0) && #[trigger] at(i2, k2);
        if i2 == i {
            if k2 >= n {
                assert(!at(i, k2));
            }
        }
        assert(source_lt(i2, k2, i, n));
    }
    if seen_before(at, i, n) {
        let (i2, k2) = choose|i2: int, k2: int| source_lt(i2, k2, i, n) && #[trigger] at(i2, k2);
        assert(source_lt(i2, k2, i + 1, 0));
    }
}

proof fn lemma_seen_none(at: spec_fn(int, int) -> bool)
    requires
        forall|i2: int, k2: int| #[trigger] at(i2, k2) ==> 0 <= i2 && 0 <= k2,
    ensures
        !seen_before(at, 0, 0),
{
    if seen_before(at, 0, 0) {
        let (i2, k2) = choose|i2: int, k2: int| source_lt(i2, k2, 0, 0) && #[trigger] at(i2, k2);
    }
}


pub open spec fn membership_at(recs: Seq<ObservationRecord>, i: int, k: int, c: ClaimView) -> bool {
    &&& membership_source(recs, i, k)
    &&& relationship_outcome(recs, source_rel(recs, i, k)) is Unique
    &&& c == (ClaimView {
        a: recs[i].identity@,
        b: relationship_outcome(recs, source_rel(recs, i, k))->Unique_0,
        evidence: GroupingEvidenceView::PodMembership,
        path: first_path(source_rel(recs, i, k)),
    })
}

pub open spec fn membership_finding_at(recs: Seq<ObservationRecord>, i: int, k: int, f: FindingView) -> bool {
    &&& membership_source(recs, i, k)
    &&& recs[i].identity@.kind == ResourceKind::Pod
    &&& !(relationship_outcome(recs, source_rel(recs, i, k)) is Unique)
    &&& f == (FindingView {
        code: outcome_code(relationship_outcome(recs, source_rel(recs, i, k))),
        resource: Some(recs[i].identity@),
        selector: None,
        label_selector: None,
        field_path: first_path(source_rel(recs, i, k)),
    })
}

/// Collects every membership claim and reports pods whose membership does not resolve.
fn membership_claims(records: &[ObservationRecord], findings: Vec<DiscoveryFinding>) -> (r: (
    Vec<GroupingClaim>,
    Vec<DiscoveryFinding>,
))
    ensures
        forall|c: ClaimView| #[trigger] views(r.0@).contains(c) <==> membership_claim(records@, c),
        forall|f: FindingView|
            #[trigger] views(r.1@).contains(f) <==> (views(findings@).contains(f) || membership_finding(records@, f)),
{
    let ghost recs = records@;
    let ghost start = views(findings@);
    let mut findings = findings;
    let mut claims: Vec<GroupingClaim> = Vec::new();
    proof {
        assert(views(claims@) =~= Seq::<ClaimView>::empty());
        assert forall|c: ClaimView| #[trigger] views(claims@).contains(c) <==> seen_before(
            |i2: int, k2: int| membership_at(recs, i2, k2, c),
            0,
            0,
        ) by {
            lemma_seen_none(|i2: int, k2: int| membership_at(recs, i2, k2, c));
        }
        assert forall|f: FindingView| #[trigger] views(findings@).contains(f) <==> (start.contains(f) || seen_before(
            |i2: int, k2: int| membership_finding_at(recs, i2, k2, f),
            0,
            0,
        )) by {
            lemma_seen_none(|i2: int, k2: int| membership_finding_at(recs, i2, k2, f));
        }
    }
    let mut i: usize = 0;
    while i < records.len()
        invariant
            i <= records.len(),
            recs == records@,
            forall|c: ClaimView| #[trigger] views(claims@).contains(c) <==> seen_before(
                |i2: int, k2: int| membership_at(recs, i2, k2, c),
                i as int,
                0,
            ),
            forall|f: FindingView| #[trigger] views(findings@).contains(f) <==> (start.contains(f) || seen_before(
                |i2: int, k2: int| membership_finding_at(recs, i2, k2, f),
                i as int,
                0,
            )),
        decreases records.len() - i,
    {
        let ghost ii = i as int;
        let effective_record = is_effective(records, i);
        let list = if effective_record {
            observed_relationship_list(&records[i])
        } else {
            None
        };
        match list {
            None => {
                proof {
                    assert forall|c: ClaimView| #[trigger] views(claims@).contains(c) <==> seen_before(
                        |i2: int, k2: int| membership_at(recs, i2, k2, c),
                        ii + 1,
                        0,
                    ) by {
                        lemma_seen_end(|i2: int, k2: int| membership_at(recs, i2, k2, c), ii, 0);
                    }
                    assert forall|f: FindingView| #[trigger] views(findings@).contains(f) <==> (start.contains(f) || seen_before(
                        |i2: int, k2: int| membership_finding_at(recs, i2, k2, f),
                        ii + 1,
                        0,
                    )) by {
                        lemma_seen_end(|i2: int, k2: int| membership_finding_at(recs, i2, k2, f), ii, 0);
                    }
                }
            },
            Some(rels) => {
                let identity = &records[i].identity;
                let ghost rv = views(rels@);
                let mut k: usize = 0;
                while k < rels.len()
                    invariant
                        k <= rels.len(),
                        i < records.len(),
                        ii == i as int,
                        recs == records@,
                        effective(recs, ii),
                        identity@ == recs[ii].identity@,
                        observed_relationships(recs[ii]) == Some(rv),
                        rv == views(rels@),
                        forall|c: ClaimView| #[trigger] views(claims@).contains(c) <==> seen_before(
                            |i2: int, k2: int| membership_at(recs, i2, k2, c),
                            ii,
                            k as int,
                        ),
                        forall|f: FindingView| #[trigger] views(findings@).contains(f) <==> (start.contains(f) || seen_before(
                            |i2: int, k2: int| membership_finding_at(recs, i2, k2, f),
                            ii,
                            k as int,
                        )),
                    decreases rels.len() - k,
                {
                    let rel = &rels[k];
                    let ghost kk = k as int;
                    proof {
                        assert(rv[kk] == rel@);
                        assert(source_rel(recs, ii, kk) == rel@);
                    }
                    let membership = (identity.kind() == ResourceKind::Pod && rel.kind() == ResourceKind::Container) || (
                    identity.kind() == ResourceKind::Container && rel.kind() == ResourceKind::Pod);
                    let ghost claims_before = views(claims@);
                    let ghost findings_before = views(findings@);
                    let mut added_claim: bool = false;
                    let mut added_finding: bool = false;
                    if membership {
                        let path = first_path_of(rel.field_paths());
                        proof {
                            assert(opt_view(path) == first_path(rel@));
                        }
                        match resolve_relationship(records, rel) {
                            RelationshipResolution::One(member) => {
                                claims = push_claim(claims, identity, &member, GroupingEvidence::PodMembership, path);
                                added_claim = true;
                            },
                            other => {
                                if identity.kind() == ResourceKind::Pod {
                                    let code = match other {
                                        RelationshipResolution::Unresolved => DiagnosticCode::UnresolvedRelationship,
                                        RelationshipResolution::Many => DiagnosticCode::RelationshipAmbiguous,
                                        _ => DiagnosticCode::RelationshipConflict,
                                    };
                                    findings.push(DiscoveryFinding::for_optional_path(code, identity.clone(), path));
                                    added_finding = true;
                                }
                            },
                        }
                    }
                    proof {
                        assert forall|c: ClaimView| #[trigger] views(claims@).contains(c) <==> seen_before(
                            |i2: int, k2: int| membership_at(recs, i2, k2, c),
                            ii,
                            kk + 1,
                        ) by {
                            lemma_seen_step(|i2: int, k2: int| membership_at(recs, i2, k2, c), ii, kk);
                            if added_claim {
                                lemma_push_contains(claims_before, views(claims@).last(), c);
                                assert(views(claims@) =~= claims_before.push(views(claims@).last()));
                            }
                        }
                        assert forall|f: FindingView| #[trigger] views(findings@).contains(f) <==> (start.contains(f) || seen_before(
                            |i2: int, k2: int| membership_finding_at(recs, i2, k2, f),
                            ii,
                            kk + 1,
                        )) by {
                            lemma_seen_step(|i2: int, k2: int| membership_finding_at(recs, i2, k2, f), ii, kk);
                            if added_finding {
                                lemma_push_contains(findings_before, views(findings@).last(), f);
                                assert(views(findings@) =~= findings_before.push(views(findings@).last()));
                            }
                        }
                    }
                    k = k + 1;
                }
                proof {
                    let n = rels.len() as int;
                    assert forall|c: ClaimView| #[trigger] views(claims@).contains(c) <==> seen_before(
                        |i2: int, k2: int| membership_at(recs, i2, k2, c),
                        ii + 1,
                        0,
                    ) by {
                        lemma_seen_end(|i2: int, k2: int| membership_at(recs, i2, k2, c), ii, n);
                    }
                    assert forall|f: FindingView| #[trigger] views(findings@).contains(f) <==> (start.contains(f) || seen_before(
                        |i2: int, k2: int| membership_finding_at(recs, i2, k2, f),
                        ii + 1,
                        0,
                    )) by {
                        lemma_seen_end(|i2: int, k2: int| membership_finding_at(recs, i2, k2, f), ii, n);
                    }
                }
            },
        }
        i = i + 1;
    }
    proof {
        let n = i as int;
        assert forall|c: ClaimView| #[trigger] views(claims@).contains(c) <==> membership_claim(recs, c) by {
            if membership_claim(recs, c) {
                let (i2, k2) = choose|i2: int, k2: int|
                    #[trigger] membership_source(recs, i2, k2) && relationship_outcome(recs, source_rel(recs, i2, k2)) is Unique && c
                        == (ClaimView {
                        a: recs[i2].identity@,
                        b: relationship_outcome(recs, source_rel(recs, i2, k2))->Unique_0,
                        evidence: GroupingEvidenceView::PodMembership,
                        path: first_path(source_rel(recs, i2, k2)),
                    });
                let at = |x: int, y: int| membership_at(recs, x, y, c);
                assert(at(i2, k2));
                assert(source_lt(i2, k2, n, 0));
            }
            if seen_before(|i2: int, k2: int| membership_at(recs, i2, k2, c), n, 0) {
                let at = |x: int, y: int| membership_at(recs, x, y, c);
                let (i2, k2) = choose|i2: int, k2: int| source_lt(i2, k2, n, 0) && #[trigger] at(i2, k2);
                assert(membership_source(recs, i2, k2));
            }
        }
        assert forall|f: FindingView|
            #[trigger] views(findings@).contains(f) <==> (start.contains(f) || membership_finding(recs, f)) by {
            if membership_finding(recs, f) {
                let (i2, k2) = choose|i2: int, k2: int|
                    #[trigger] membership_source(recs, i2, k2) && recs[i2].identity@.kind == ResourceKind::Pod && !(
                    relationship_outcome(recs, source_rel(recs, i2, k2)) is Unique) && f == (FindingView {
                        code: outcome_code(relationship_outcome(recs, source_rel(recs, i2, k2))),
                        resource: Some(recs[i2].identity@),
                        selector: None,
                        label_selector: None,
                        field_path: first_path(source_rel(recs, i2, k2)),
                    });
                let at = |x: int, y: int| membership_finding_at(recs, x, y, f);
                assert(at(i2, k2));
                assert(source_lt(i2, k2, n, 0));
            }
            if seen_before(|i2: int, k2: int| membership_finding_at(recs, i2, k2, f), n, 0) {
                let at = |x: int, y: int| membership_finding_at(recs, x, y, f);
                let (i2, k2) = choose|i2: int, k2: int| source_lt(i2, k2, n, 0) && #[trigger] at(i2, k2);
                assert(membership_source(recs, i2, k2));
            }
        }
    }
    (claims, findings)
}


pub open spec fn dependency_claim_at(es: Seq<DependencyView>, j: int, m: int, c: ClaimView) -> bool {
    &&& 0 <= j < es.len()
    &&& 0 <= m < es[j].field_paths.len()
    &&& es[j].dependent.kind == ResourceKind::Container
    &&& es[j].prerequisite.kind == ResourceKind::Container
    &&& c == (ClaimView {
        a: es[j].dependent,
        b: es[j].prerequisite,
        evidence: GroupingEvidenceView::ContainerDependency,
        path: Some(es[j].field_paths[m]),
    })
}

/// Adds a claim for each source path of each dependency between two containers.
fn dependency_claims(deps: &Vec<ResourceDependency>, claims: Vec<GroupingClaim>) -> (r: Vec<GroupingClaim>)
    ensures
        forall|c: ClaimView|
            #[trigger] views(r@).contains(c) <==> (views(claims@).contains(c) || (c.evidence
                == GroupingEvidenceView::ContainerDependency && c.a.kind == ResourceKind::Container && c.b.kind
                == ResourceKind::Container && c.path is Some && pair_path(views(deps@), c.a, c.b, c.path->0))),
{
    let ghost es = views(deps@);
    let ghost start = views(claims@);
    let mut claims = claims;
    proof {
        assert forall|c: ClaimView| #[trigger] views(claims@).contains(c) <==> (start.contains(c) || seen_before(
            |x: int, y: int| dependency_claim_at(es, x, y, c),
            0,
            0,
        )) by {
            lemma_seen_none(|x: int, y: int| dependency_claim_at(es, x, y, c));
        }
    }
    let mut j: usize = 0;
    while j < deps.len()
        invariant
            j <= deps.len(),
            es == views(deps@),
            forall|c: ClaimView| #[trigger] views(claims@).contains(c) <==> (start.contains(c) || seen_before(
                |x: int, y: int| dependency_claim_at(es, x, y, c),
                j as int,
                0,
            )),
        decreases deps.len() - j,
    {
        let edge = &deps[j];
        let ghost jj = j as int;
        let paths = edge.field_paths();
        let both = edge.dependent().kind() == ResourceKind::Container && edge.prerequisite().kind() == ResourceKind::Container;
        let mut m: usize = 0;
        while m < paths.len()
            invariant
                m <= paths.len(),
                j < deps.len(),
                jj == j as int,
                es == views(deps@),
                es[jj] == edge@,
                views(paths@) == edge@.field_paths,
                both == (edge@.dependent.kind == ResourceKind::Container && edge@.prerequisite.kind == ResourceKind::Container),
                forall|c: ClaimView| #[trigger] views(claims@).contains(c) <==> (start.contains(c) || seen_before(
                    |x: int, y: int| dependency_claim_at(es, x, y, c),
                    jj,
                    m as int,
                )),
            decreases paths.len() - m,
        {
            let ghost before = views(claims@);
            let ghost mm = m as int;
            if both {
                claims = push_claim(
                    claims,
                    edge.dependent(),
                    edge.prerequisite(),
                    GroupingEvidence::ContainerDependency,
                    Some(paths[m].clone()),
                );
            }
            proof {
                assert(views(paths@)[mm] == paths@[mm]@);
                assert forall|c: ClaimView| #[trigger] views(claims@).contains(c) <==> (start.contains(c) || seen_before(
                    |x: int, y: int| dependency_claim_at(es, x, y, c),
                    jj,
                    mm + 1,
                )) by {
                    lemma_seen_step(|x: int, y: int| dependency_claim_at(es, x, y, c), jj, mm);
                    if both {
                        lemma_push_contains(before, views(claims@).last(), c);
                        assert(views(claims@) =~= before.push(views(claims@).last()));
                    }
                }
            }
            m = m + 1;
        }
        proof {
            let n = paths.len() as int;
            assert forall|c: ClaimView| #[trigger] views(claims@).contains(c) <==> (start.contains(c) || seen_before(
                |x: int, y: int| dependency_claim_at(es, x, y, c),
                jj + 1,
                0,
            )) by {
                lemma_seen_end(|x: int, y: int| dependency_claim_at(es, x, y, c), jj, n);
            }
        }
        j = j + 1;
    }
    proof {
        let n = j as int;
        assert forall|c: ClaimView|
            #[trigger] views(claims@).contains(c) <==> (start.contains(c) || (c.evidence
                == GroupingEvidenceView::ContainerDependency && c.a.kind == ResourceKind::Container && c.b.kind
                == ResourceKind::Container && c.path is Some && pair_path(es, c.a, c.b, c.path->0))) by {
            let at = |x: int, y: int| dependency_claim_at(es, x, y, c);
            if c.evidence == GroupingEvidenceView::ContainerDependency && c.a.kind == ResourceKind::Container && c.b.kind
                == ResourceKind::Container && c.path is Some && pair_path(es, c.a, c.b, c.path->0) {
                let e = choose|e: int|
                    0 <= e < es.len() && (#[trigger] es[e]).dependent == c.a && es[e].prerequisite == c.b
                        && es[e].field_paths.contains(c.path->0);
                let q = choose|q: int| 0 <= q < es[e].field_paths.len() && es[e].field_paths[q] == c.path->0;
                assert(at(e, q));
                assert(source_lt(e, q, n, 0));
            }
            if seen_before(at, n, 0) {
                let (x, y) = choose|x: int, y: int| source_lt(x, y, n, 0) && #[trigger] at(x, y);
                assert(es[x].field_paths[y] == c.path->0);
                assert(es[x].field_paths.contains(c.path->0));
            }
        }
    }
    claims
}

fn owner_of(records: &[ObservationRecord], i: usize) -> (r: Option<String>)
    requires
        i < records@.len(),
    ensures
        match r {
            Some(p) => owned_by(records@, i as int, p@),
            None => forall|p: Seq<char>| !owned_by(records@, i as int, p),
        },
{
    let kind = records[i].identity.kind();
    if !(kind == ResourceKind::Container || kind == ResourceKind::Pod) {
        return None;
    }
    if !is_effective(records, i) {
        return None;
    }
    match compose_label_status(&records[i]) {
        Ok(Some(project)) => Some(project),
        _ => None,
    }
}

pub open spec fn compose_at(recs: Seq<ObservationRecord>, i: int, j: int, c: ClaimView) -> bool {
    exists|project: Seq<char>|
        i < j && #[trigger] owned_by(recs, i, project) && owned_by(recs, j, project) && c == (ClaimView {
            a: recs[i].identity@,
            b: recs[j].identity@,
            evidence: GroupingEvidenceView::ComposeOwnership(project),
            path: None,
        })
}

/// Adds a claim for each two containers or pods of one Compose project.
fn compose_claims(records: &[ObservationRecord], claims: Vec<GroupingClaim>) -> (r: Vec<GroupingClaim>)
    ensures
        forall|c: ClaimView| #[trigger] views(r@).contains(c) <==> (views(claims@).contains(c) || compose_claim(records@, c)),
{
    let ghost recs = records@;
    let ghost start = views(claims@);
    let mut claims = claims;
    let mut owners: Vec<Option<String>> = Vec::new();
    let mut t: usize = 0;
    while t < records.len()
        invariant
            t <= records.len(),
            recs == records@,
            owners@.len() == t,
            forall|x: int| 0 <= x < t ==> match #[trigger] owners@[x] {
                Some(p) => owned_by(recs, x, p@),
                None => forall|p: Seq<char>| !owned_by(recs, x, p),
            },
        decreases records.len() - t,
    {
        owners.push(owner_of(records, t));
        t = t + 1;
    }
    proof {
        assert forall|c: ClaimView| #[trigger] views(claims@).contains(c) <==> (start.contains(c) || seen_before(
            |x: int, y: int| compose_at(recs, x, y, c),
            0,
            0,
        )) by {
            lemma_seen_none(|x: int, y: int| compose_at(recs, x, y, c));
        }
    }
    let n = records.len();
    let mut i: usize = 0;
    while i < n
        invariant
            i <= n,
            n == records@.len(),
            recs == records@,
            owners@.len() == n,
            forall|x: int| 0 <= x < n ==> match #[trigger] owners@[x] {
                Some(p) => owned_by(recs, x, p@),
                None => forall|p: Seq<char>| !owned_by(recs, x, p),
            },
            forall|c: ClaimView| #[trigger] views(claims@).contains(c) <==> (start.contains(c) || seen_before(
                |x: int, y: int| compose_at(recs, x, y, c),
                i as int,
                0,
            )),
        decreases n - i,
    {
        let ghost ii = i as int;
        let mut j: usize = 0;
        while j < n
            invariant
                j <= n,
                i < n,
                ii == i as int,
                n == records@.len(),
                recs == records@,
                owners@.len() == n,
                forall|x: int| 0 <= x < n ==> match #[trigger] owners@[x] {
                    Some(p) => owned_by(recs, x, p@),
                    None => forall|p: Seq<char>| !owned_by(recs, x, p),
                },
                forall|c: ClaimView| #[trigger] views(claims@).contains(c) <==> (start.contains(c) || seen_before(
                    |x: int, y: int| compose_at(recs, x, y, c),
                    ii,
                    j as int,
                )),
            decreases n - j,
        {
            let ghost jj = j as int;
            let ghost before = views(claims@);
            let mut added = false;
            if i < j {
                match (&owners[i], &owners[j]) {
                    (Some(a), Some(b)) => {
                        if same_text(a, b) {
                            claims = push_claim(
                                claims,
                                &records[i].identity,
                                &records[j].identity,
                                GroupingEvidence::ComposeOwnership { project: a.clone() },
                                None,
                            );
                            added = true;
                        }
                    },
                    _ => {},
                }
            }
            proof {
                let oi = owners@[ii];
                let oj = owners@[jj];
                assert forall|c: ClaimView| #[trigger] views(claims@).contains(c) <==> (start.contains(c) || seen_before(
                    |x: int, y: int| compose_at(recs, x, y, c),
                    ii,
                    jj + 1,
                )) by {
                    lemma_seen_step(|x: int, y: int| compose_at(recs, x, y, c), ii, jj);
                    if added {
                        lemma_push_contains(before, views(claims@).last(), c);
                        assert(views(claims@) =~= before.push(views(claims@).last()));
                        let p = oi->0@;
                        if c == views(claims@).last() {
                            assert(owned_by(recs, ii, p) && owned_by(recs, jj, p));
                        }
                    }
                    if compose_at(recs, ii, jj, c) {
                        let p = choose|p: Seq<char>|
                            ii < jj && #[trigger] owned_by(recs, ii, p) && owned_by(recs, jj, p) && c == (ClaimView {
                                a: recs[ii].identity@,
                                b: recs[jj].identity@,
                                evidence: GroupingEvidenceView::ComposeOwnership(p),
                                path: None,
                            });
                        if oi is None {
                            assert(!owned_by(recs, ii, p));
                        }
                        if oj is None {
                            assert(!owned_by(recs, jj, p));
                        }
                        lemma_owner_unique(recs, ii, p, oi->0@);
                        lemma_owner_unique(recs, jj, p, oj->0@);
                        assert(added);
                    }
                }
            }
            j = j + 1;
        }
        proof {
            assert forall|c: ClaimView| #[trigger] views(claims@).contains(c) <==> (start.contains(c) || seen_before(
                |x: int, y: int| compose_at(recs, x, y, c),
                ii + 1,
                0,
            )) by {
                lemma_seen_end(|x: int, y: int| compose_at(recs, x, y, c), ii, n as int);
            }
        }
        i = i + 1;
    }
    proof {
        assert forall|c: ClaimView| #[trigger] views(claims@).contains(c) <==> (start.contains(c) || compose_claim(recs, c)) by {
            let at = |x: int, y: int| compose_at(recs, x, y, c);
            if compose_claim(recs, c) {
                let (x, y, p) = choose|x: int, y: int, p: Seq<char>|
                    x < y && #[trigger] owned_by(recs, x, p) && #[trigger] owned_by(recs, y, p) && c == (ClaimView {
                        a: recs[x].identity@,
                        b: recs[y].identity@,
                        evidence: GroupingEvidenceView::ComposeOwnership(p),
                        path: None,
                    });
                assert(at(x, y));
                assert(source_lt(x, y, n as int, 0));
            }
            if seen_before(at, n as int, 0) {
                let (x, y) = choose|x: int, y: int| source_lt(x, y, n as int, 0) && #[trigger] at(x, y);
                let p = choose|p: Seq<char>|
                    x < y && #[trigger] owned_by(recs, x, p) && owned_by(recs, y, p) && c == (ClaimView {
                        a: recs[x].identity@,
                        b: recs[y].identity@,
                        evidence: GroupingEvidenceView::ComposeOwnership(p),
                        path: None,
                    });
                assert(owned_by(recs, x, p) && owned_by(recs, y, p));
            }
        }
    }
    claims
}

proof fn lemma_owner_unique(recs: Seq<ObservationRecord>, i: int, p: Seq<char>, q: Seq<char>)
    requires
        owned_by(recs, i, p),
        owned_by(recs, i, q),
    ensures
        p == q,
{
}


fn ordered_exec(a: &ResourceIdentity, b: &ResourceIdentity) -> (r: (ResourceIdentity, ResourceIdentity))
    ensures
        (r.0@, r.1@) == ordered_pair(a@, b@),
{
    let ka = identity_key_exec(a);
    let kb = identity_key_exec(b);
    if lex_less(&kb, &ka) {
        (b.clone(), a.clone())
    } else {
        (a.clone(), b.clone())
    }
}

proof fn lemma_ordered_strict(a: IdentityView, b: IdentityView)
    requires
        a != b,
    ensures
        lex_lt(identity_key(ordered_pair(a, b).0), identity_key(ordered_pair(a, b).1)),
        (ordered_pair(a, b).0 == a && ordered_pair(a, b).1 == b) || (ordered_pair(a, b).0 == b && ordered_pair(a, b).1 == a),
{
    crate::order::lemma_lex_total(identity_key(a), identity_key(b));
    if identity_key(a) == identity_key(b) {
        crate::observation::lemma_identity_key_injective(a, b);
    }
}

proof fn lemma_claimed_push(s: Seq<ClaimView>, x: ClaimView, l: IdentityView, r: IdentityView, e: GroupingEvidenceView)
    ensures
        claimed(s.push(x), l, r, e) <==> (claimed(s, l, r, e) || (x.a != x.b && ordered_pair(x.a, x.b) == (l, r)
            && x.evidence == e)),
{
    if claimed(s.push(x), l, r, e) {
        let c = choose|c: ClaimView|
            #[trigger] s.push(x).contains(c) && c.a != c.b && ordered_pair(c.a, c.b) == (l, r) && c.evidence == e;
        lemma_push_contains(s, x, c);
    }
    if claimed(s, l, r, e) {
        let c = choose|c: ClaimView| #[trigger] s.contains(c) && c.a != c.b && ordered_pair(c.a, c.b) == (l, r) && c.evidence == e;
        lemma_push_contains(s, x, c);
    }
    lemma_push_contains(s, x, x);
}

proof fn lemma_claimed_path_push(
    s: Seq<ClaimView>,
    x: ClaimView,
    l: IdentityView,
    r: IdentityView,
    e: GroupingEvidenceView,
    path: Seq<char>,
)
    ensures
        claimed_path(s.push(x), l, r, e, path) <==> (claimed_path(s, l, r, e, path) || (x.a != x.b && ordered_pair(x.a, x.b)
            == (l, r) && x.evidence == e && x.path == Some(path))),
{
    if claimed_path(s.push(x), l, r, e, path) {
        let c = choose|c: ClaimView|
            #[trigger] s.push(x).contains(c) && c.a != c.b && ordered_pair(c.a, c.b) == (l, r) && c.evidence == e && c.path
                == Some(path);
        lemma_push_contains(s, x, c);
    }
    if claimed_path(s, l, r, e, path) {
        let c = choose|c: ClaimView|
            #[trigger] s.contains(c) && c.a != c.b && ordered_pair(c.a, c.b) == (l, r) && c.evidence == e && c.path == Some(path);
        lemma_push_contains(s, x, c);
    }
    lemma_push_contains(s, x, x);
}

fn merge_grouping(
    current: Vec<GroupingEdge>,
    l: ResourceIdentity,
    r: ResourceIdentity,
    evidence: GroupingEvidence,
    path: &Option<String>,
) -> (out: Vec<GroupingEdge>)
    requires
        grouping_well_formed(views(current@)),
        lex_lt(identity_key(l@), identity_key(r@)),
    ensures
        grouping_well_formed(views(out@)),
        forall|x: IdentityView, y: IdentityView, e: GroupingEvidenceView|
            #[trigger] has_grouping(views(out@), x, y, e) <==> (has_grouping(views(current@), x, y, e) || (x == l@ && y == r@
                && e == evidence@)),
        forall|x: IdentityView, y: IdentityView, e: GroupingEvidenceView, p: Seq<char>|
            #[trigger] grouping_path(views(out@), x, y, e, p) <==> (grouping_path(views(current@), x, y, e, p) || (x == l@
                && y == r@ && e == evidence@ && opt_view(*path) == Some(p))),
{
    let ghost before = views(current@);
    let mut edges = current;
    let mut given: Vec<String> = Vec::new();
    match path {
        Some(p) => {
            given.push(p.clone());
        },
        None => {},
    }
    proof {
        assert forall|p: Seq<char>| views(given@).contains(p) <==> opt_view(*path) == Some(p) by {
            if views(given@).contains(p) {
                let j = choose|j: int| 0 <= j < views(given@).len() && views(given@)[j] == p;
            }
            if opt_view(*path) == Some(p) {
                assert(views(given@)[0] == p);
            }
        }
    }
    let mut i: usize = 0;
    while i < edges.len()
        invariant
            i <= edges.len(),
            views(edges@) == before,
            before == views(current@),
            grouping_well_formed(before),
            forall|p: Seq<char>| views(given@).contains(p) <==> opt_view(*path) == Some(p),
            forall|m: int|
                0 <= m < i ==> !((#[trigger] edges@[m])@.left == l@ && edges@[m]@.right == r@ && edges@[m]@.evidence
                    == evidence@),
        decreases edges.len() - i,
    {
        if edges[i].left.same_value(&l) && edges[i].right.same_value(&r) && same_evidence(&edges[i].evidence, &evidence) {
            let copied = crate::once::duplicate_strings(&edges[i].field_paths);
            proof {
                assert(before[i as int] == edges@[i as int]@);
                assert(views(copied@) =~= before[i as int].field_paths);
                assert(keys_sorted::<String>(before[i as int].field_paths) && distinct(before[i as int].field_paths));
            }
            let merged = insert_paths(copied, given.as_slice());
            let ghost merged_view = views(merged@);
            let replacement = GroupingEdge { left: l, right: r, evidence, field_paths: merged };
            let ghost rep = replacement@;
            assert(rep.field_paths == merged_view);
            edges.set(i, replacement);
            proof {
                let after = views(edges@);
                assert(after =~= before.update(i as int, rep));
                assert forall|x: IdentityView, y: IdentityView, e: GroupingEvidenceView|
                    #[trigger] has_grouping(after, x, y, e) <==> (has_grouping(before, x, y, e) || (x == l@ && y == r@ && e
                        == evidence@)) by {
                    if has_grouping(before, x, y, e) {
                        let m = choose|m: int|
                            0 <= m < before.len() && (#[trigger] before[m]).left == x && before[m].right == y
                                && before[m].evidence == e;
                        assert(after[m].left == x && after[m].right == y && after[m].evidence == e);
                    }
                    if has_grouping(after, x, y, e) {
                        let m = choose|m: int|
                            0 <= m < after.len() && (#[trigger] after[m]).left == x && after[m].right == y && after[m].evidence
                                == e;
                        assert(before[m].left == x && before[m].right == y && before[m].evidence == e);
                    }
                    if x == l@ && y == r@ && e == evidence@ {
                        assert(after[i as int].left == x);
                    }
                }
                assert forall|x: IdentityView, y: IdentityView, e: GroupingEvidenceView, p: Seq<char>|
                    #[trigger] grouping_path(after, x, y, e, p) <==> (grouping_path(before, x, y, e, p) || (x == l@ && y
                        == r@ && e == evidence@ && opt_view(*path) == Some(p))) by {
                    if grouping_path(before, x, y, e, p) {
                        let m = choose|m: int|
                            0 <= m < before.len() && (#[trigger] before[m]).left == x && before[m].right == y
                                && before[m].evidence == e && before[m].field_paths.contains(p);
                        if m != i {
                            assert(after[m] == before[m]);
                        } else {
                            assert(merged_view.contains(p));
                        }
                    }
                    if grouping_path(after, x, y, e, p) {
                        let m = choose|m: int|
                            0 <= m < after.len() && (#[trigger] after[m]).left == x && after[m].right == y
                                && after[m].evidence == e && after[m].field_paths.contains(p);
                        if m != i {
                            assert(before[m] == after[m]);
                        }
                    }
                    if x == l@ && y == r@ && e == evidence@ && opt_view(*path) == Some(p) {
                        assert(views(given@).contains(p));
                        assert(after[i as int].field_paths.contains(p));
                    }
                }
                assert forall|a: int, b: int|
                    0 <= a < b < after.len() implies !((#[trigger] after[a]).left == (#[trigger] after[b]).left
                        && after[a].right == after[b].right && after[a].evidence == after[b].evidence) by {
                    if a != i && b != i {
                        assert(after[a] == before[a] && after[b] == before[b]);
                    } else if a == i {
                        assert(after[b] == before[b]);
                        assert(after[a].left == before[a].left && after[a].right == before[a].right && after[a].evidence == before[a].evidence);
                    } else {
                        assert(after[a] == before[a]);
                        assert(after[b].left == before[b].left && after[b].right == before[b].right && after[b].evidence == before[b].evidence);
                    }
                }
                assert forall|m: int|
                    0 <= m < after.len() implies keys_sorted::<String>((#[trigger] after[m]).field_paths) && distinct(
                        after[m].field_paths,
                    ) && lex_lt(identity_key(after[m].left), identity_key(after[m].right)) by {
                    if m != i {
                        assert(after[m] == before[m]);
                    }
                }
            }
            return edges;
        }
        i = i + 1;
    }
    let empty: Vec<String> = Vec::new();
    proof {
        assert(views(empty@) =~= Seq::<Seq<char>>::empty());
    }
    let fresh = insert_paths(empty, given.as_slice());
    let ghost fresh_view = views(fresh@);
    let item = GroupingEdge { left: l, right: r, evidence, field_paths: fresh };
    let ghost iv = item@;
    edges.push(item);
    proof {
        let after = views(edges@);
        let n = before.len() as int;
        assert(after =~= before.push(iv));
        assert forall|x: IdentityView, y: IdentityView, e: GroupingEvidenceView|
            #[trigger] has_grouping(after, x, y, e) <==> (has_grouping(before, x, y, e) || (x == l@ && y == r@ && e
                == evidence@)) by {
            if has_grouping(before, x, y, e) {
                let m = choose|m: int|
                    0 <= m < before.len() && (#[trigger] before[m]).left == x && before[m].right == y && before[m].evidence == e;
                assert(after[m] == before[m]);
            }
            if has_grouping(after, x, y, e) {
                let m = choose|m: int|
                    0 <= m < after.len() && (#[trigger] after[m]).left == x && after[m].right == y && after[m].evidence == e;
                if m < n {
                    assert(after[m] == before[m]);
                }
            }
            if x == l@ && y == r@ && e == evidence@ {
                assert(after[n].left == x);
            }
        }
        assert forall|x: IdentityView, y: IdentityView, e: GroupingEvidenceView, p: Seq<char>|
            #[trigger] grouping_path(after, x, y, e, p) <==> (grouping_path(before, x, y, e, p) || (x == l@ && y == r@ && e
                == evidence@ && opt_view(*path) == Some(p))) by {
            if grouping_path(before, x, y, e, p) {
                let m = choose|m: int|
                    0 <= m < before.len() && (#[trigger] before[m]).left == x && before[m].right == y && before[m].evidence
                        == e && before[m].field_paths.contains(p);
                assert(after[m] == before[m]);
            }
            if grouping_path(after, x, y, e, p) {
                let m = choose|m: int|
                    0 <= m < after.len() && (#[trigger] after[m]).left == x && after[m].right == y && after[m].evidence == e
                        && after[m].field_paths.contains(p);
                if m < n {
                    assert(after[m] == before[m]);
                }
            }
            if x == l@ && y == r@ && e == evidence@ && opt_view(*path) == Some(p) {
                assert(views(given@).contains(p));
                assert(after[n].field_paths.contains(p));
            }
        }
        assert forall|a: int, b: int|
            0 <= a < b < after.len() implies !((#[trigger] after[a]).left == (#[trigger] after[b]).left && after[a].right
                == after[b].right && after[a].evidence == after[b].evidence) by {
            if b == n {
                assert(after[a] == before[a]);
                assert(!(edges@[a]@.left == l@ && edges@[a]@.right == r@ && edges@[a]@.evidence == evidence@));
                assert(edges@[a]@ == after[a]);
            } else {
                assert(after[a] == before[a] && after[b] == before[b]);
            }
        }
        assert forall|m: int|
            0 <= m < after.len() implies keys_sorted::<String>((#[trigger] after[m]).field_paths) && distinct(
                after[m].field_paths,
            ) && lex_lt(identity_key(after[m].left), identity_key(after[m].right)) by {
            if m < n {
                assert(after[m] == before[m]);
            }
        }
    }
    edges
}

/// Merges claims about the same pair and evidence into one edge carrying every claimed path.
fn merge_claims(claims: &Vec<GroupingClaim>) -> (r: Vec<GroupingEdge>)
    ensures
        grouping_well_formed(views(r@)),
        keys_sorted::<GroupingEdge>(views(r@)),
        forall|x: IdentityView, y: IdentityView, e: GroupingEvidenceView|
            #[trigger] has_grouping(views(r@), x, y, e) <==> claimed(views(claims@), x, y, e),
        forall|x: IdentityView, y: IdentityView, e: GroupingEvidenceView, p: Seq<char>|
            #[trigger] grouping_path(views(r@), x, y, e, p) <==> claimed_path(views(claims@), x, y, e, p),
{
    let ghost cs = views(claims@);
    let mut edges: Vec<GroupingEdge> = Vec::new();
    proof {
        assert(views(edges@) =~= Seq::<GroupingEdgeView>::empty());
        assert(cs.take(0) =~= Seq::<ClaimView>::empty());
    }
    let mut m: usize = 0;
    while m < claims.len()
        invariant
            m <= claims.len(),
            cs == views(claims@),
            grouping_well_formed(views(edges@)),
            forall|x: IdentityView, y: IdentityView, e: GroupingEvidenceView|
                #[trigger] has_grouping(views(edges@), x, y, e) <==> claimed(cs.take(m as int), x, y, e),
            forall|x: IdentityView, y: IdentityView, e: GroupingEvidenceView, p: Seq<char>|
                #[trigger] grouping_path(views(edges@), x, y, e, p) <==> claimed_path(cs.take(m as int), x, y, e, p),
        decreases claims.len() - m,
    {
        let c = &claims[m];
        let ghost cv = c@;
        let ghost prefix = cs.take(m as int);
        proof {
            assert(cs.take(m + 1) =~= prefix.push(cv));
        }
        let ghost before = views(edges@);
        if c.a.same_value(&c.b) {
            proof {
                assert forall|x: IdentityView, y: IdentityView, e: GroupingEvidenceView|
                    #[trigger] has_grouping(views(edges@), x, y, e) <==> claimed(cs.take(m + 1), x, y, e) by {
                    lemma_claimed_push(prefix, cv, x, y, e);
                }
                assert forall|x: IdentityView, y: IdentityView, e: GroupingEvidenceView, p: Seq<char>|
                    #[trigger] grouping_path(views(edges@), x, y, e, p) <==> claimed_path(cs.take(m + 1), x, y, e, p) by {
                    lemma_claimed_path_push(prefix, cv, x, y, e, p);
                }
            }
        } else {
            let (l, r) = ordered_exec(&c.a, &c.b);
            proof {
                lemma_ordered_strict(cv.a, cv.b);
            }
            edges = merge_grouping(edges, l, r, c.evidence.clone(), &c.path);
            proof {
                assert forall|x: IdentityView, y: IdentityView, e: GroupingEvidenceView|
                    #[trigger] has_grouping(views(edges@), x, y, e) <==> claimed(cs.take(m + 1), x, y, e) by {
                    lemma_claimed_push(prefix, cv, x, y, e);
                }
                assert forall|x: IdentityView, y: IdentityView, e: GroupingEvidenceView, p: Seq<char>|
                    #[trigger] grouping_path(views(edges@), x, y, e, p) <==> claimed_path(cs.take(m + 1), x, y, e, p) by {
                    lemma_claimed_path_push(prefix, cv, x, y, e, p);
                }
            }
        }
        m = m + 1;
    }
    proof {
        assert(cs.take(m as int) =~= cs);
    }
    let ghost unsorted = views(edges@);
    let sorted = sort_distinct(edges);
    proof {
        let out = views(sorted@);
        assert forall|x: IdentityView, y: IdentityView, e: GroupingEvidenceView|
            #[trigger] has_grouping(out, x, y, e) <==> claimed(cs, x, y, e) by {
            if has_grouping(unsorted, x, y, e) {
                let j = choose|j: int|
                    0 <= j < unsorted.len() && (#[trigger] unsorted[j]).left == x && unsorted[j].right == y && unsorted[j].evidence == e;
                assert(unsorted.contains(unsorted[j]));
                assert(out.contains(unsorted[j]));
                let q = choose|q: int| 0 <= q < out.len() && out[q] == unsorted[j];
                assert(out[q].left == x && out[q].right == y && out[q].evidence == e);
            }
            if has_grouping(out, x, y, e) {
                let q = choose|q: int| 0 <= q < out.len() && (#[trigger] out[q]).left == x && out[q].right == y && out[q].evidence == e;
                assert(out.contains(out[q]));
                assert(unsorted.contains(out[q]));
                let j = choose|j: int| 0 <= j < unsorted.len() && unsorted[j] == out[q];
                assert(unsorted[j].left == x && unsorted[j].right == y && unsorted[j].evidence == e);
            }
        }
        assert forall|x: IdentityView, y: IdentityView, e: GroupingEvidenceView, p: Seq<char>|
            #[trigger] grouping_path(out, x, y, e, p) <==> claimed_path(cs, x, y, e, p) by {
            if grouping_path(unsorted, x, y, e, p) {
                let j = choose|j: int|
                    0 <= j < unsorted.len() && (#[trigger] unsorted[j]).left == x && unsorted[j].right == y && unsorted[j].evidence
                        == e && unsorted[j].field_paths.contains(p);
                assert(unsorted.contains(unsorted[j]));
                assert(out.contains(unsorted[j]));
                let q = choose|q: int| 0 <= q < out.len() && out[q] == unsorted[j];
                assert(out[q].left == x && out[q].right == y && out[q].evidence == e && out[q].field_paths.contains(p));
            }
            if grouping_path(out, x, y, e, p) {
                let q = choose|q: int|
                    0 <= q < out.len() && (#[trigger] out[q]).left == x && out[q].right == y && out[q].evidence == e
                        && out[q].field_paths.contains(p);
                assert(out.contains(out[q]));
                assert(unsorted.contains(out[q]));
                let j = choose|j: int| 0 <= j < unsorted.len() && unsorted[j] == out[q];
                assert(unsorted[j].left == x && unsorted[j].right == y && unsorted[j].evidence == e && unsorted[j].field_paths.contains(p));
            }
        }
        assert forall|a: int, b: int|
            0 <= a < b < out.len() implies !((#[trigger] out[a]).left == (#[trigger] out[b]).left && out[a].right == out[b].right
                && out[a].evidence == out[b].evidence) by {
            assert(out.contains(out[a]) && out.contains(out[b]));
            assert(unsorted.contains(out[a]) && unsorted.contains(out[b]));
            let ja = choose|j: int| 0 <= j < unsorted.len() && unsorted[j] == out[a];
            let jb = choose|j: int| 0 <= j < unsorted.len() && unsorted[j] == out[b];
            if out[a].left == out[b].left && out[a].right == out[b].right && out[a].evidence == out[b].evidence {
                if ja < jb {
                    assert(!(unsorted[ja].left == unsorted[jb].left && unsorted[ja].right == unsorted[jb].right
                        && unsorted[ja].evidence == unsorted[jb].evidence));
                } else if jb < ja {
                    assert(!(unsorted[jb].left == unsorted[ja].left && unsorted[jb].right == unsorted[ja].right
                        && unsorted[jb].evidence == unsorted[ja].evidence));
                } else {
                    assert(out[a] == out[b]);
                }
            }
        }
        assert forall|q: int|
            0 <= q < out.len() implies keys_sorted::<String>((#[trigger] out[q]).field_paths) && distinct(out[q].field_paths)
                && lex_lt(identity_key(out[q].left), identity_key(out[q].right)) by {
            assert(out.contains(out[q]));
            assert(unsorted.contains(out[q]));
            let j = choose|j: int| 0 <= j < unsorted.len() && unsorted[j] == out[q];
            assert(keys_sorted::<String>(unsorted[j].field_paths));
        }
    }
    sorted
}


/// Some grouping claim joins `l` and `r` (in key order) with evidence `e`.
pub open spec fn grouping_pair(recs: Seq<ObservationRecord>, l: IdentityView, r: IdentityView, e: GroupingEvidenceView) -> bool {
    exists|c: ClaimView|
        #[trigger] grouping_claim(recs, c) && c.a != c.b && ordered_pair(c.a, c.b) == (l, r) && c.evidence == e
}

/// Some grouping claim joining `l` and `r` with evidence `e` was asserted at `path`.
pub open spec fn grouping_pair_path(
    recs: Seq<ObservationRecord>,
    l: IdentityView,
    r: IdentityView,
    e: GroupingEvidenceView,
    path: Seq<char>,
) -> bool {
    exists|c: ClaimView|
        #[trigger] grouping_claim(recs, c) && c.a != c.b && ordered_pair(c.a, c.b) == (l, r) && c.evidence == e && c.path
            == Some(path)
}

/// Builds the grouping edges of the read records: pod membership, dependencies between
/// containers, and agreeing Compose labels; reports pods whose membership does not resolve.
fn grouping_edges(records: &[ObservationRecord], deps: &Vec<ResourceDependency>, findings: Vec<DiscoveryFinding>) -> (r: (
    Vec<GroupingEdge>,
    Vec<DiscoveryFinding>,
))
    requires
        forall|d: IdentityView, p: IdentityView, path: Seq<char>|
            #[trigger] pair_path(views(deps@), d, p, path) <==> dependency_path(records@, d, p, path),
    ensures
        grouping_well_formed(views(r.0@)),
        keys_sorted::<GroupingEdge>(views(r.0@)),
        forall|x: IdentityView, y: IdentityView, e: GroupingEvidenceView|
            #[trigger] has_grouping(views(r.0@), x, y, e) <==> grouping_pair(records@, x, y, e),
        forall|x: IdentityView, y: IdentityView, e: GroupingEvidenceView, p: Seq<char>|
            #[trigger] grouping_path(views(r.0@), x, y, e, p) <==> grouping_pair_path(records@, x, y, e, p),
        forall|f: FindingView|
            #[trigger] views(r.1@).contains(f) <==> (views(findings@).contains(f) || membership_finding(records@, f)),
{
    let ghost recs = records@;
    let (claims, findings) = membership_claims(records, findings);
    let claims = dependency_claims(deps, claims);
    let claims = compose_claims(records, claims);
    let edges = merge_claims(&claims);
    proof {
        let cs = views(claims@);
        assert forall|c: ClaimView| #[trigger] cs.contains(c) <==> grouping_claim(recs, c) by {
            if c.path is Some {
                assert(pair_path(views(deps@), c.a, c.b, c.path->0) <==> dependency_path(recs, c.a, c.b, c.path->0));
            }
        }
        assert forall|x: IdentityView, y: IdentityView, e: GroupingEvidenceView|
            #[trigger] has_grouping(views(edges@), x, y, e) <==> grouping_pair(recs, x, y, e) by {
            if claimed(cs, x, y, e) {
                let c = choose|c: ClaimView| #[trigger] cs.contains(c) && c.a != c.b && ordered_pair(c.a, c.b) == (x, y) && c.evidence == e;
                assert(grouping_claim(recs, c));
            }
            if grouping_pair(recs, x, y, e) {
                let c = choose|c: ClaimView| #[trigger] grouping_claim(recs, c) && c.a != c.b && ordered_pair(c.a, c.b) == (x, y) && c.evidence == e;
                assert(cs.contains(c));
            }
        }
        assert forall|x: IdentityView, y: IdentityView, e: GroupingEvidenceView, p: Seq<char>|
            #[trigger] grouping_path(views(edges@), x, y, e, p) <==> grouping_pair_path(recs, x, y, e, p) by {
            if claimed_path(cs, x, y, e, p) {
                let c = choose|c: ClaimView|
                    #[trigger] cs.contains(c) && c.a != c.b && ordered_pair(c.a, c.b) == (x, y) && c.evidence == e && c.path == Some(p);
                assert(grouping_claim(recs, c));
            }
            if grouping_pair_path(recs, x, y, e, p) {
                let c = choose|c: ClaimView|
                    #[trigger] grouping_claim(recs, c) && c.a != c.b && ordered_pair(c.a, c.b) == (x, y) && c.evidence == e
                        && c.path == Some(p);
                assert(cs.contains(c));
            }
        }
    }
    (edges, findings)
}


// ---------------------------------------------------------------------------------------------
// Groups, explanations, and the graph.
// ---------------------------------------------------------------------------------------------
/// A deterministic explanation for an inclusion, boundary, merge, or ordering decision.
#[derive(Clone, Copy, Debug, Eq, PartialEq, Structural)]
#[non_exhaustive]
pub enum DiscoveryExplanationKind {
    /// Resource selected as a root.
    Root,
    /// Resource included in a group.
    IncludedMember,
    /// Resource retained as prerequisite.
    Prerequisite,
    /// Shared resource did not merge groups.
    StoppedSharedBoundary,
    /// Exact network override crossed to consumers.
    AuthorizedNetworkCrossing,
    /// An explicitly selected shared resource crossed to its consumers.
    AuthorizedSharedCrossing,
    /// Strong evidence merged resources.
    StrongEvidenceMerge,
    /// Stable group ordering decision.
    GroupOrdering,
}

/// Redacted provenance for one resolved discovery root.
#[derive(Clone, Copy, Debug, Eq, PartialEq, Structural)]
#[non_exhaustive]
pub enum DiscoveryRootOrigin {
    /// Position in the graph's requested roots.
    ResourceSelector {
        /// Zero-based selector position.
        position: usize,
    },
    /// Position in the graph's requested label roots.
    LabelSelector {
        /// Zero-based selector position. The selected label value is never copied here.
        position: usize,
    },
    /// Root selected by selecting all eligible roots.
    All,
}

/// The content of one explanation.
pub struct ExplanationView {
    pub kind: DiscoveryExplanationKind,
    pub resource: IdentityView,
    pub related: Option<IdentityView>,
    pub position: Option<usize>,
    pub root_origin: Option<DiscoveryRootOrigin>,
}

/// One explanation associated with a resource.
#[derive(Debug)]
pub struct DiscoveryExplanation {
    kind: DiscoveryExplanationKind,
    resource: ResourceIdentity,
    related: Option<ResourceIdentity>,
    position: Option<usize>,
    root_origin: Option<DiscoveryRootOrigin>,
}

impl View for DiscoveryExplanation {
    type V = ExplanationView;

    closed spec fn view(&self) -> ExplanationView {
        ExplanationView {
            kind: self.kind,
            resource: self.resource@,
            related: opt_view(self.related),
            position: self.position,
            root_origin: self.root_origin,
        }
    }
}

impl DiscoveryExplanation {
    fn new(
        kind: DiscoveryExplanationKind,
        resource: ResourceIdentity,
        related: Option<ResourceIdentity>,
        position: Option<usize>,
        root_origin: Option<DiscoveryRootOrigin>,
    ) -> (r: Self)
        ensures
            r@ == (ExplanationView { kind, resource: resource@, related: opt_view(related), position, root_origin }),
    {
        DiscoveryExplanation { kind, resource, related, position, root_origin }
    }

    /// Returns the explanation category.
    pub fn kind(&self) -> (r: DiscoveryExplanationKind)
        ensures
            r == self@.kind,
    {
        self.kind
    }

    /// Returns the explained resource.
    pub fn resource(&self) -> (r: &ResourceIdentity)
        ensures
            r@ == self@.resource,
    {
        &self.resource
    }

    /// Returns the related resource when relevant.
    pub fn related(&self) -> (r: Option<&ResourceIdentity>)
        ensures
            opt_view(r) == self@.related,
    {
        self.related.as_ref()
    }

    /// Returns the zero-based position for a group-ordering explanation.
    pub fn position(&self) -> (r: Option<usize>)
        ensures
            r == self@.position,
    {
        self.position
    }

    /// Returns redacted selector provenance for a root explanation.
    pub fn root_origin(&self) -> (r: Option<DiscoveryRootOrigin>)
        ensures
            r == self@.root_origin,
    {
        self.root_origin
    }
}

/// The content of a resource group.
pub struct GroupView {
    pub id: IdentityView,
    pub members: Seq<IdentityView>,
    pub prerequisites: Seq<IdentityView>,
}

/// A deterministic resource group and its non-grouping prerequisites.
#[derive(Debug)]
pub struct ResourceGroup {
    id: ResourceIdentity,
    members: Vec<ResourceIdentity>,
    prerequisites: Vec<ResourceIdentity>,
}

impl View for ResourceGroup {
    type V = GroupView;

    closed spec fn view(&self) -> GroupView {
        GroupView { id: self.id@, members: views(self.members@), prerequisites: views(self.prerequisites@) }
    }
}

impl ResourceGroup {
    /// Returns the smallest `(kind, id, name)` member used as the stable group ID.
    pub fn id(&self) -> (r: &ResourceIdentity)
        ensures
            r@ == self@.id,
    {
        &self.id
    }

    /// Returns grouped application resources in deterministic order.
    pub fn members(&self) -> (r: &[ResourceIdentity])
        ensures
            views(r@) == self@.members,
    {
        self.members.as_slice()
    }

    /// Returns direct non-grouping prerequisites in deterministic order.
    pub fn prerequisites(&self) -> (r: &[ResourceIdentity])
        ensures
            views(r@) == self@.prerequisites,
    {
        self.prerequisites.as_slice()
    }
}

/// The content of a resource graph.
pub struct GraphView {
    pub requested_roots: Seq<SelectorView>,
    pub requested_label_roots: Seq<LabelSelectorView>,
    pub all_requested: bool,
    pub resolved_roots: Seq<IdentityView>,
    pub groups: Seq<GroupView>,
    pub shared_prerequisites: Seq<IdentityView>,
    pub dependencies: Seq<DependencyView>,
    pub grouping_edges: Seq<GroupingEdgeView>,
    pub findings: Seq<FindingView>,
    pub explanations: Seq<ExplanationView>,
}

/// A deterministic native graph suitable for later planning without executing Podman.
#[derive(Debug)]
pub struct ResourceGraph {
    requested_roots: Vec<ResourceSelector>,
    requested_label_roots: Vec<LabelSelector>,
    all_requested: bool,
    resolved_roots: Vec<ResourceIdentity>,
    groups: Vec<ResourceGroup>,
    shared_prerequisites: Vec<ResourceIdentity>,
    dependencies: Vec<ResourceDependency>,
    grouping_edges: Vec<GroupingEdge>,
    findings: Vec<DiscoveryFinding>,
    explanations: Vec<DiscoveryExplanation>,
}

impl View for ResourceGraph {
    type V = GraphView;

    closed spec fn view(&self) -> GraphView {
        GraphView {
            requested_roots: views(self.requested_roots@),
            requested_label_roots: views(self.requested_label_roots@),
            all_requested: self.all_requested,
            resolved_roots: views(self.resolved_roots@),
            groups: views(self.groups@),
            shared_prerequisites: views(self.shared_prerequisites@),
            dependencies: views(self.dependencies@),
            grouping_edges: views(self.grouping_edges@),
            findings: views(self.findings@),
            explanations: views(self.explanations@),
        }
    }
}

impl ResourceGraph {
    /// Returns exact requested resource roots.
    pub fn requested_roots(&self) -> (r: &[ResourceSelector])
        ensures
            views(r@) == self@.requested_roots,
    {
        self.requested_roots.as_slice()
    }

    /// Returns requested label roots.
    pub fn requested_label_roots(&self) -> (r: &[LabelSelector])
        ensures
            views(r@) == self@.requested_label_roots,
    {
        self.requested_label_roots.as_slice()
    }

    /// Returns whether selecting all eligible roots participated in root selection.
    pub fn all_requested(&self) -> (r: bool)
        ensures
            r == self@.all_requested,
    {
        self.all_requested
    }

    /// Returns resolved roots, including roots selected by `all`.
    pub fn resolved_roots(&self) -> (r: &[ResourceIdentity])
        ensures
            views(r@) == self@.resolved_roots,
    {
        self.resolved_roots.as_slice()
    }

    /// Returns disjoint groups ordered by stable group ID.
    pub fn groups(&self) -> (r: &[ResourceGroup])
        ensures
            views(r@) == self@.groups,
    {
        self.groups.as_slice()
    }

    /// Returns prerequisite resources referenced by more than one group.
    pub fn shared_prerequisites(&self) -> (r: &[ResourceIdentity])
        ensures
            views(r@) == self@.shared_prerequisites,
    {
        self.shared_prerequisites.as_slice()
    }

    /// Returns directed dependent-to-prerequisite edges in deterministic order.
    pub fn dependencies(&self) -> (r: &[ResourceDependency])
        ensures
            views(r@) == self@.dependencies,
    {
        self.dependencies.as_slice()
    }

    /// Returns non-directed grouping evidence separately from dependency ordering.
    pub fn grouping_edges(&self) -> (r: &[GroupingEdge])
        ensures
            views(r@) == self@.grouping_edges,
    {
        self.grouping_edges.as_slice()
    }

    /// Returns structured selector and advisory-label findings.
    pub fn findings(&self) -> (r: &[DiscoveryFinding])
        ensures
            views(r@) == self@.findings,
    {
        self.findings.as_slice()
    }

    /// Returns deterministic explanations for graph decisions.
    pub fn explanations(&self) -> (r: &[DiscoveryExplanation])
        ensures
            views(r@) == self@.explanations,
    {
        self.explanations.as_slice()
    }
}


// ---------------------------------------------------------------------------------------------
// Sets of identities.
// ---------------------------------------------------------------------------------------------
/// The identities of the records.
pub open spec fn universe(recs: Seq<ObservationRecord>) -> Seq<IdentityView> {
    recs.map_values(|r: ObservationRecord| r.identity@)
}

/// A sorted, duplicate-free set of identities.
pub open spec fn id_set(s: Seq<IdentityView>) -> bool {
    keys_sorted::<ResourceIdentity>(s) && distinct(s)
}

proof fn lemma_distinct_subset_len(m: Seq<IdentityView>, u: Seq<IdentityView>)
    requires
        distinct(m),
        forall|x: IdentityView| m.contains(x) ==> u.contains(x),
    ensures
        m.len() <= u.len(),
{
    assert(m.no_duplicates()) by {
        assert forall|i: int, j: int| 0 <= i < m.len() && 0 <= j < m.len() && i != j implies m[i] != m[j] by {
            if i < j {
            } else {
            }
        }
    }
    m.unique_seq_to_set();
    u.lemma_cardinality_of_set();
    assert(m.to_set().subset_of(u.to_set())) by {
        assert forall|x: IdentityView| m.to_set().contains(x) implies u.to_set().contains(x) by {
            assert(m.contains(x));
        }
    }
    vstd::set_lib::lemma_len_subset(m.to_set(), u.to_set());
}

fn set_insert(set: &mut Vec<ResourceIdentity>, x: ResourceIdentity)
    requires
        id_set(views(old(set)@)),
    ensures
        id_set(views(final(set)@)),
        forall|y: IdentityView| #[trigger] views(final(set)@).contains(y) <==> (views(old(set)@).contains(y) || y == x@),
{
    sorted_insert(set, x);
}

/// Whether the read record `i` is a member-container of a pod by its own relationships.
pub open spec fn relates_to_pod(rec: ObservationRecord) -> bool {
    match observed_relationships(rec) {
        Some(rels) => exists|k: int| 0 <= k < rels.len() && (#[trigger] rels[k]).kind == ResourceKind::Pod,
        None => false,
    }
}

/// A container is eligible as an unpodded root when it is not an infra container.
pub open spec fn unpodded_container(rec: ObservationRecord) -> bool {
    match rec.infra {
        Some(ObservationField::Absent) => true,
        Some(ObservationField::Observed(v)) => !v.spec_value(),
        _ => false,
    }
}

/// Whether some dependency edge points at `p`.
pub open spec fn has_dependent(es: Seq<DependencyView>, p: IdentityView) -> bool {
    exists|d: IdentityView| #[trigger] has_pair(es, d, p)
}

/// Some resource depends on `p`.
pub open spec fn has_consumer(recs: Seq<ObservationRecord>, p: IdentityView) -> bool {
    exists|d: IdentityView| #[trigger] dependency_edge(recs, d, p)
}

/// Which read records selecting all eligible roots selects: every pod; each container that is
/// neither an infra container nor a pod member by its own relationships; each network, volume,
/// or secret that nothing depends on; and each image with agreeing Compose labels.
pub open spec fn eligible_all_root(recs: Seq<ObservationRecord>, i: int) -> bool {
    &&& effective(recs, i)
    &&& match recs[i].identity@.kind {
        ResourceKind::Pod => true,
        ResourceKind::Container => unpodded_container(recs[i]) && !relates_to_pod(recs[i]),
        ResourceKind::Image => compose_status(recs[i]) matches Ok(Some(_)),
        _ => !has_consumer(recs, recs[i].identity@),
    }
}

fn has_dependent_exec(deps: &Vec<ResourceDependency>, p: &ResourceIdentity) -> (r: bool)
    ensures
        r == has_dependent(views(deps@), p@),
{
    let mut j: usize = 0;
    while j < deps.len()
        invariant
            j <= deps.len(),
            forall|m: int| 0 <= m < j ==> (#[trigger] deps@[m])@.prerequisite != p@,
        decreases deps.len() - j,
    {
        if deps[j].prerequisite.same_value(p) {
            proof {
                assert(has_pair(views(deps@), deps@[j as int]@.dependent, p@)) by {
                    assert(views(deps@)[j as int] == deps@[j as int]@);
                }
            }
            return true;
        }
        j = j + 1;
    }
    proof {
        if has_dependent(views(deps@), p@) {
            let d = choose|d: IdentityView| #[trigger] has_pair(views(deps@), d, p@);
            let m = choose|m: int| 0 <= m < views(deps@).len() && (#[trigger] views(deps@)[m]).dependent == d && views(deps@)[m].prerequisite == p@;
            assert(deps@[m]@ == views(deps@)[m]);
        }
    }
    false
}

fn is_eligible_all_root(records: &[ObservationRecord], deps: &Vec<ResourceDependency>, i: usize) -> (r: bool)
    requires
        i < records@.len(),
        forall|d: IdentityView, p: IdentityView| #[trigger] has_pair(views(deps@), d, p) <==> dependency_edge(records@, d, p),
    ensures
        r == eligible_all_root(records@, i as int),
{
    if !is_effective(records, i) {
        return false;
    }
    let rec = &records[i];
    match rec.identity.kind() {
        ResourceKind::Pod => true,
        ResourceKind::Container => {
            let unpodded = match &rec.infra {
                Some(ObservationField::Absent) => true,
                Some(ObservationField::Observed(v)) => !*v.value(),
                _ => false,
            };
            if !unpodded {
                return false;
            }
            match observed_relationship_list(rec) {
                Some(rels) => {
                    let mut k: usize = 0;
                    while k < rels.len()
                        invariant
                            k <= rels.len(),
                            i < records@.len(),
                            *rec == records@[i as int],
                            effective(records@, i as int),
                            rec.identity@.kind == ResourceKind::Container,
                            unpodded_container(*rec),
                            observed_relationships(*rec) == Some(views(rels@)),
                            forall|x: int| 0 <= x < k ==> (#[trigger] views(rels@)[x]).kind != ResourceKind::Pod,
                        decreases rels.len() - k,
                    {
                        if rels[k].kind() == ResourceKind::Pod {
                            assert(views(rels@)[k as int].kind == ResourceKind::Pod);
                            assert(relates_to_pod(*rec));
                            return false;
                        }
                        k = k + 1;
                    }
                    true
                },
                None => true,
            }
        },
        ResourceKind::Image => match compose_label_status(rec) {
            Ok(Some(_)) => true,
            _ => false,
        },
        _ => {
            let consumed = has_dependent_exec(deps, &rec.identity);
            proof {
                if has_consumer(records@, rec.identity@) {
                    let d = choose|d: IdentityView| #[trigger] dependency_edge(records@, d, rec.identity@);
                    assert(has_pair(views(deps@), d, rec.identity@));
                }
                if consumed {
                    let d = choose|d: IdentityView| #[trigger] has_pair(views(deps@), d, rec.identity@);
                    assert(dependency_edge(records@, d, rec.identity@));
                }
            }
            !consumed
        },
    }
}

/// Whether the read record `i` carries the label a label selector names, with its value when
/// the selector gives one.
pub open spec fn label_selected(recs: Seq<ObservationRecord>, sel: LabelSelectorView, i: int) -> bool {
    &&& effective(recs, i)
    &&& observed_labels(recs[i]) matches Some(l)
    &&& label_value(l, sel.name) matches Some(v)
    &&& (sel.value is None || sel.value == Some(v))
}

fn is_label_selected(records: &[ObservationRecord], sel: &LabelSelector, i: usize) -> (r: bool)
    requires
        i < records@.len(),
    ensures
        r == label_selected(records@, sel@, i as int),
{
    if !is_effective(records, i) {
        return false;
    }
    match &records[i].labels {
        ObservationField::Observed(v) => match v.value().get(sel.name()) {
            Some(actual) => match sel.value() {
                None => true,
                Some(expected) => crate::text::str_eq(actual.as_str(), expected),
            },
            None => false,
        },
        _ => false,
    }
}

/// A finding for each read record whose advisory Compose labels are incomplete or conflict.
pub open spec fn advisory_finding(recs: Seq<ObservationRecord>, f: FindingView) -> bool {
    exists|i: int|
        #[trigger] effective(recs, i) && compose_status(recs[i]) is Err && f == resource_finding(
            compose_status(recs[i])->Err_0,
            recs[i].identity@,
        )
}

fn advisory_findings(records: &[ObservationRecord], findings: Vec<DiscoveryFinding>) -> (r: Vec<DiscoveryFinding>)
    ensures
        forall|f: FindingView| #[trigger] views(r@).contains(f) <==> (views(findings@).contains(f) || advisory_finding(records@, f)),
{
    let ghost recs = records@;
    let ghost start = views(findings@);
    let mut out = findings;
    let mut i: usize = 0;
    while i < records.len()
        invariant
            i <= records.len(),
            recs == records@,
            forall|f: FindingView| #[trigger] views(out@).contains(f) <==> (start.contains(f) || exists|x: int|
                0 <= x < i && #[trigger] effective(recs, x) && compose_status(recs[x]) is Err && f == resource_finding(
                    compose_status(recs[x])->Err_0,
                    recs[x].identity@,
                )),
        decreases records.len() - i,
    {
        let ghost before = views(out@);
        let mut pushed = false;
        if is_effective(records, i) {
            match compose_label_status(&records[i]) {
                Err(code) => {
                    out.push(DiscoveryFinding::for_resource(code, records[i].identity.clone()));
                    pushed = true;
                },
                Ok(_) => {},
            }
        }
        proof {
            let ii = i as int;
            assert forall|f: FindingView| #[trigger] views(out@).contains(f) <==> (start.contains(f) || exists|x: int|
                0 <= x < ii + 1 && #[trigger] effective(recs, x) && compose_status(recs[x]) is Err && f == resource_finding(
                    compose_status(recs[x])->Err_0,
                    recs[x].identity@,
                )) by {
                if pushed {
                    lemma_push_contains(before, views(out@).last(), f);
                    assert(views(out@) =~= before.push(views(out@).last()));
                }
                if exists|x: int|
                    0 <= x < ii + 1 && #[trigger] effective(recs, x) && compose_status(recs[x]) is Err && f == resource_finding(
                        compose_status(recs[x])->Err_0,
                        recs[x].identity@,
                    ) {
                    let x = choose|x: int|
                        0 <= x < ii + 1 && #[trigger] effective(recs, x) && compose_status(recs[x]) is Err && f == resource_finding(
                            compose_status(recs[x])->Err_0,
                            recs[x].identity@,
                        );
                    if x < ii {
                        assert(0 <= x < ii && effective(recs, x));
                    }
                }
            }
        }
        i = i + 1;
    }
    proof {
        assert forall|f: FindingView| #[trigger] views(out@).contains(f) <==> (start.contains(f) || advisory_finding(recs, f)) by {
            if advisory_finding(recs, f) {
                let x = choose|x: int|
                    #[trigger] effective(recs, x) && compose_status(recs[x]) is Err && f == resource_finding(
                        compose_status(recs[x])->Err_0,
                        recs[x].identity@,
                    );
                assert(0 <= x < i);
            }
        }
    }
    out
}


// ---------------------------------------------------------------------------------------------
// Roots.
// ---------------------------------------------------------------------------------------------
/// The resource selector at position `p` resolves to exactly `id`.
pub open spec fn selector_root(recs: Seq<ObservationRecord>, req: RequestView, id: IdentityView, p: int) -> bool {
    0 <= p < req.roots.len() && resolution(recs, req.roots[p].kind, req.roots[p].reference) == Resolved::Unique(id)
}

/// The label selector at position `p` selects the read record with identity `id`.
pub open spec fn label_root(recs: Seq<ObservationRecord>, req: RequestView, id: IdentityView, p: int) -> bool {
    0 <= p < req.label_selectors.len() && exists|i: int|
        #[trigger] label_selected(recs, req.label_selectors[p], i) && recs[i].identity@ == id
}

/// Selecting all eligible roots selects the read record with identity `id`.
pub open spec fn all_root(recs: Seq<ObservationRecord>, req: RequestView, id: IdentityView) -> bool {
    req.all && exists|i: int| #[trigger] eligible_all_root(recs, i) && recs[i].identity@ == id
}

/// `id` is a root by way of `origin`.
pub open spec fn root_origin_of(
    recs: Seq<ObservationRecord>,
    req: RequestView,
    id: IdentityView,
    origin: DiscoveryRootOrigin,
) -> bool {
    match origin {
        DiscoveryRootOrigin::ResourceSelector { position } => selector_root(recs, req, id, position as int),
        DiscoveryRootOrigin::LabelSelector { position } => label_root(recs, req, id, position as int),
        DiscoveryRootOrigin::All => all_root(recs, req, id),
    }
}

/// `id` is a root by way of some selector or of selecting all eligible roots.
pub open spec fn resolved_root(recs: Seq<ObservationRecord>, req: RequestView, id: IdentityView) -> bool {
    exists|origin: DiscoveryRootOrigin| #[trigger] root_origin_of(recs, req, id, origin)
}

/// A finding for each selector that resolves to no resource or to several.
pub open spec fn selector_finding_of(recs: Seq<ObservationRecord>, req: RequestView, f: FindingView) -> bool {
    ||| exists|p: int|
        0 <= p < req.roots.len() && resolution(recs, req.roots[p].kind, req.roots[p].reference) == Resolved::Unresolved && f
            == selector_finding(DiagnosticCode::SelectorUnresolved, #[trigger] req.roots[p])
    ||| exists|p: int|
        0 <= p < req.roots.len() && resolution(recs, req.roots[p].kind, req.roots[p].reference) == Resolved::Ambiguous && f
            == selector_finding(DiagnosticCode::SelectorAmbiguous, #[trigger] req.roots[p])
    ||| exists|p: int|
        0 <= p < req.label_selectors.len() && (forall|i: int| !#[trigger] label_selected(recs, req.label_selectors[p], i))
            && f == label_finding(DiagnosticCode::SelectorUnresolved, #[trigger] req.label_selectors[p])
}

/// A resolved root with its provenance.
struct RootEntry {
    identity: ResourceIdentity,
    origin: DiscoveryRootOrigin,
}

/// The content of a resolved root with its provenance.
pub struct RootEntryView {
    pub identity: IdentityView,
    pub origin: DiscoveryRootOrigin,
}

impl View for RootEntry {
    type V = RootEntryView;

    closed spec fn view(&self) -> RootEntryView {
        RootEntryView { identity: self.identity@, origin: self.origin }
    }
}

/// A position as two order-preserving digits.
pub open spec fn position_key(p: usize) -> Seq<i64> {
    seq![(p as int / 0x1_0000_0000int) as i64, (p as int % 0x1_0000_0000int) as i64]
}

/// The order of root origins: resource selectors by position, label selectors by position, all.
pub open spec fn origin_key(o: DiscoveryRootOrigin) -> Seq<i64> {
    match o {
        DiscoveryRootOrigin::ResourceSelector { position } => seq![0i64] + position_key(position),
        DiscoveryRootOrigin::LabelSelector { position } => seq![1i64] + position_key(position),
        DiscoveryRootOrigin::All => seq![2i64],
    }
}

fn position_key_exec(p: usize) -> (r: Vec<i64>)
    ensures
        r@ == position_key(p),
{
    let mut out: Vec<i64> = Vec::new();
    let high: u64 = (p as u64) / 0x1_0000_0000;
    let low: u64 = (p as u64) % 0x1_0000_0000;
    out.push(high as i64);
    out.push(low as i64);
    assert(out@ =~= position_key(p));
    out
}

impl SameValue for RootEntry {
    fn same_value(&self, other: &Self) -> (r: bool) {
        self.identity.same_value(&other.identity) && self.origin == other.origin
    }
}

impl Keyed for RootEntry {
    open spec fn key_of(v: RootEntryView) -> Seq<i64> {
        identity_key(v.identity) + origin_key(v.origin)
    }

    fn key(&self) -> (r: Vec<i64>) {
        let mut out = identity_key_exec(&self.identity);
        let mut tail: Vec<i64> = Vec::new();
        match self.origin {
            DiscoveryRootOrigin::ResourceSelector { position } => {
                tail.push(0);
                let k = position_key_exec(position);
                append_key(&mut tail, &k);
            },
            DiscoveryRootOrigin::LabelSelector { position } => {
                tail.push(1);
                let k = position_key_exec(position);
                append_key(&mut tail, &k);
            },
            DiscoveryRootOrigin::All => {
                tail.push(2);
            },
        }
        assert(tail@ =~= origin_key(self.origin));
        append_key(&mut out, &tail);
        out
    }
}

/// The roots a request resolves to.
struct ResolvedRoots {
    roots: Vec<ResourceIdentity>,
    origins: Vec<RootEntry>,
    findings: Vec<DiscoveryFinding>,
}

fn record_root(
    roots: &mut Vec<ResourceIdentity>,
    origins: &mut Vec<RootEntry>,
    identity: &ResourceIdentity,
    origin: DiscoveryRootOrigin,
)
    requires
        id_set(views(old(roots)@)),
    ensures
        id_set(views(final(roots)@)),
        forall|y: IdentityView| #[trigger] views(final(roots)@).contains(y) <==> (views(old(roots)@).contains(y) || y == identity@),
        views(final(origins)@) == views(old(origins)@).push(RootEntryView { identity: identity@, origin }),
{
    set_insert(roots, identity.clone());
    let ghost before = views(origins@);
    let e = RootEntry { identity: identity.clone(), origin };
    let ghost ev = e@;
    origins.push(e);
    assert(views(origins@) =~= before.push(ev));
}

fn resolve_roots(records: &[ObservationRecord], deps: &Vec<ResourceDependency>, request: &DiscoveryRequest, findings: Vec<
    DiscoveryFinding,
>) -> (r: ResolvedRoots)
    requires
        forall|d: IdentityView, p: IdentityView| #[trigger] has_pair(views(deps@), d, p) <==> dependency_edge(records@, d, p),
    ensures
        id_set(views(r.roots@)),
        forall|id: IdentityView|
            #[trigger] views(r.roots@).contains(id) <==> resolved_root(records@, request@, id),
        keys_sorted::<RootEntry>(views(r.origins@)),
        distinct(views(r.origins@)),
        forall|e: RootEntryView|
            #[trigger] views(r.origins@).contains(e) <==> root_origin_of(records@, request@, e.identity, e.origin),
        forall|f: FindingView|
            #[trigger] views(r.findings@).contains(f) <==> (views(findings@).contains(f) || selector_finding_of(
                records@,
                request@,
                f,
            )),
{
    let ghost recs = records@;
    let ghost es = views(deps@);
    let ghost req = request@;
    let ghost start = views(findings@);
    let mut findings = findings;
    let mut roots: Vec<ResourceIdentity> = Vec::new();
    let mut origins: Vec<RootEntry> = Vec::new();
    proof {
        assert(views(roots@) =~= Seq::<IdentityView>::empty());
        assert(views(origins@) =~= Seq::<RootEntryView>::empty());
    }
    let selectors = request.roots();
    let mut p: usize = 0;
    while p < selectors.len()
        invariant
            p <= selectors.len(),
            recs == records@,
            req == request@,
            views(selectors@) == req.roots,
            id_set(views(roots@)),
            forall|e: RootEntryView| #[trigger] views(origins@).contains(e) <==> (root_origin_of(recs, req, e.identity, e.origin)
                && selector_origin_before(e.origin, p as int)),
            forall|id: IdentityView| #[trigger] views(roots@).contains(id) <==> exists|q: int| 0 <= q < p && #[trigger] selector_root(recs, req, id, q),
            forall|f: FindingView| #[trigger] views(findings@).contains(f) <==> (start.contains(f) || exists|q: int|
                0 <= q < p && (#[trigger] selector_finding_at(recs, req, q, f))),
        decreases selectors.len() - p,
    {
        let sel = &selectors[p];
        let ghost pp = p as int;
        assert(req.roots[pp] == sel@);
        let ghost roots_before = views(roots@);
        let ghost origins_before = views(origins@);
        let ghost findings_before = views(findings@);
        let res = resolve_reference(records, sel.kind(), sel.reference());
        let mut pushed_finding = false;
        match res {
            SelectorResolution::One(identity) => {
                record_root(&mut roots, &mut origins, &identity, DiscoveryRootOrigin::ResourceSelector { position: p });
            },
            SelectorResolution::Unresolved => {
                findings.push(DiscoveryFinding::for_selector(DiagnosticCode::SelectorUnresolved, sel.clone()));
                pushed_finding = true;
            },
            SelectorResolution::Many => {
                findings.push(DiscoveryFinding::for_selector(DiagnosticCode::SelectorAmbiguous, sel.clone()));
                pushed_finding = true;
            },
        }
        proof {
            assert forall|e: RootEntryView| #[trigger] views(origins@).contains(e) <==> (root_origin_of(recs, req, e.identity, e.origin)
                && selector_origin_before(e.origin, pp + 1)) by {
                if res is One {
                    lemma_push_contains(origins_before, views(origins@).last(), e);
                    assert(views(origins@) =~= origins_before.push(views(origins@).last()));
                }
                match e.origin {
                    DiscoveryRootOrigin::ResourceSelector { position } => {
                        if position == p {
                            if root_origin_of(recs, req, e.identity, e.origin) {
                                assert(selector_root(recs, req, e.identity, pp));
                            }
                        }
                    },
                    _ => {},
                }
            }
            assert forall|id: IdentityView| #[trigger] views(roots@).contains(id) <==> exists|q: int| 0 <= q < pp + 1 && #[trigger] selector_root(recs, req, id, q) by {
                if exists|q: int| 0 <= q < pp + 1 && #[trigger] selector_root(recs, req, id, q) {
                    let q = choose|q: int| 0 <= q < pp + 1 && #[trigger] selector_root(recs, req, id, q);
                    if q < pp {
                        assert(roots_before.contains(id));
                    }
                }
                if roots_before.contains(id) {
                    let q = choose|q: int| 0 <= q < pp && #[trigger] selector_root(recs, req, id, q);
                    assert(0 <= q < pp + 1 && selector_root(recs, req, id, q));
                }
                if res is One && id == res->One_0@ {
                    assert(selector_root(recs, req, id, pp));
                }
            }
            assert forall|f: FindingView| #[trigger] views(findings@).contains(f) <==> (start.contains(f) || exists|q: int|
                0 <= q < pp + 1 && (#[trigger] selector_finding_at(recs, req, q, f))) by {
                if pushed_finding {
                    lemma_push_contains(findings_before, views(findings@).last(), f);
                    assert(views(findings@) =~= findings_before.push(views(findings@).last()));
                    assert(selector_finding_at(recs, req, pp, views(findings@).last()));
                }
                if exists|q: int| 0 <= q < pp + 1 && (#[trigger] selector_finding_at(recs, req, q, f)) {
                    let q = choose|q: int| 0 <= q < pp + 1 && (#[trigger] selector_finding_at(recs, req, q, f));
                    if q < pp {
                        assert(findings_before.contains(f));
                    }
                }
                if findings_before.contains(f) && !start.contains(f) {
                    let q = choose|q: int| 0 <= q < pp && (#[trigger] selector_finding_at(recs, req, q, f));
                    assert(0 <= q < pp + 1 && selector_finding_at(recs, req, q, f));
                }
            }
        }
        p = p + 1;
    }
    let ghost after_selectors_roots = views(roots@);
    let ghost after_selectors_origins = views(origins@);
    let ghost after_selectors_findings = views(findings@);
    let labels = request.label_roots();
    let mut p: usize = 0;
    while p < labels.len()
        invariant
            p <= labels.len(),
            recs == records@,
            req == request@,
            views(labels@) == req.label_selectors,
            id_set(views(roots@)),
            forall|e: RootEntryView| #[trigger] views(origins@).contains(e) <==> (after_selectors_origins.contains(e) || (
            root_origin_of(recs, req, e.identity, e.origin) && label_origin_before(e.origin, p as int))),
            forall|id: IdentityView| #[trigger] views(roots@).contains(id) <==> (after_selectors_roots.contains(id) || exists|q: int|
                0 <= q < p && #[trigger] label_root(recs, req, id, q)),
            forall|f: FindingView| #[trigger] views(findings@).contains(f) <==> (after_selectors_findings.contains(f) || exists|q: int|
                0 <= q < p && (#[trigger] label_finding_at(recs, req, q, f))),
        decreases labels.len() - p,
    {
        let sel = &labels[p];
        let ghost pp = p as int;
        assert(req.label_selectors[pp] == sel@);
        let ghost roots_start = views(roots@);
        let ghost origins_start = views(origins@);
        let ghost findings_start = views(findings@);
        let mut matched = false;
        let mut i: usize = 0;
        while i < records.len()
            invariant
                i <= records.len(),
                recs == records@,
                req == request@,
                pp == p as int,
                p < labels.len(),
                req.label_selectors[pp] == sel@,
                id_set(views(roots@)),
                matched <==> exists|x: int| 0 <= x < i && #[trigger] label_selected(recs, sel@, x),
                forall|e: RootEntryView| #[trigger] views(origins@).contains(e) <==> (origins_start.contains(e) || (e.origin
                    == DiscoveryRootOrigin::LabelSelector { position: p } && exists|x: int|
                    0 <= x < i && #[trigger] label_selected(recs, sel@, x) && recs[x].identity@ == e.identity)),
                forall|id: IdentityView| #[trigger] views(roots@).contains(id) <==> (roots_start.contains(id) || exists|x: int|
                    0 <= x < i && #[trigger] label_selected(recs, sel@, x) && recs[x].identity@ == id),
            decreases records.len() - i,
        {
            let ghost ob = views(origins@);
            let ghost rb = views(roots@);
            let hit = is_label_selected(records, sel, i);
            if hit {
                record_root(&mut roots, &mut origins, &records[i].identity, DiscoveryRootOrigin::LabelSelector { position: p });
                matched = true;
            }
            proof {
                let ii = i as int;
                assert forall|e: RootEntryView| #[trigger] views(origins@).contains(e) <==> (origins_start.contains(e) || (e.origin
                    == DiscoveryRootOrigin::LabelSelector { position: p } && exists|x: int|
                    0 <= x < ii + 1 && #[trigger] label_selected(recs, sel@, x) && recs[x].identity@ == e.identity)) by {
                    if hit {
                        lemma_push_contains(ob, views(origins@).last(), e);
                        assert(views(origins@) =~= ob.push(views(origins@).last()));
                    }
                    if exists|x: int| 0 <= x < ii + 1 && #[trigger] label_selected(recs, sel@, x) && recs[x].identity@ == e.identity {
                        let x = choose|x: int| 0 <= x < ii + 1 && #[trigger] label_selected(recs, sel@, x) && recs[x].identity@ == e.identity;
                        if x < ii {
                            assert(0 <= x < ii && label_selected(recs, sel@, x));
                        }
                    }
                }
                assert forall|id: IdentityView| #[trigger] views(roots@).contains(id) <==> (roots_start.contains(id) || exists|x: int|
                    0 <= x < ii + 1 && #[trigger] label_selected(recs, sel@, x) && recs[x].identity@ == id) by {
                    if exists|x: int| 0 <= x < ii + 1 && #[trigger] label_selected(recs, sel@, x) && recs[x].identity@ == id {
                        let x = choose|x: int| 0 <= x < ii + 1 && #[trigger] label_selected(recs, sel@, x) && recs[x].identity@ == id;
                        if x < ii {
                            assert(0 <= x < ii && label_selected(recs, sel@, x));
                        }
                    }
                }
                if matched && !hit {
                    let x = choose|x: int| 0 <= x < ii && #[trigger] label_selected(recs, sel@, x);
                    assert(0 <= x < ii + 1 && label_selected(recs, sel@, x));
                }
                if hit {
                    assert(label_selected(recs, sel@, ii));
                }
            }
            i = i + 1;
        }
        let mut pushed = false;
        if !matched {
            findings.push(DiscoveryFinding::for_label_selector(DiagnosticCode::SelectorUnresolved, sel.clone()));
            pushed = true;
        }
        proof {
            let n = i as int;
            assert forall|e: RootEntryView| #[trigger] views(origins@).contains(e) <==> (after_selectors_origins.contains(e) || (
            root_origin_of(recs, req, e.identity, e.origin) && label_origin_before(e.origin, pp + 1))) by {
                if let DiscoveryRootOrigin::LabelSelector { position } = e.origin {
                    if position == p {
                        if root_origin_of(recs, req, e.identity, e.origin) {
                            let x = choose|x: int| #[trigger] label_selected(recs, req.label_selectors[pp], x) && recs[x].identity@ == e.identity;
                            assert(0 <= x < n);
                        }
                        if views(origins@).contains(e) && !origins_start.contains(e) {
                            let x = choose|x: int| 0 <= x < n && #[trigger] label_selected(recs, sel@, x) && recs[x].identity@ == e.identity;
                            assert(label_root(recs, req, e.identity, pp));
                        }
                    }
                }
            }
            assert forall|id: IdentityView| #[trigger] views(roots@).contains(id) <==> (after_selectors_roots.contains(id) || exists|q: int|
                0 <= q < pp + 1 && #[trigger] label_root(recs, req, id, q)) by {
                if exists|q: int| 0 <= q < pp + 1 && #[trigger] label_root(recs, req, id, q) {
                    let q = choose|q: int| 0 <= q < pp + 1 && #[trigger] label_root(recs, req, id, q);
                    if q == pp {
                        let x = choose|x: int| #[trigger] label_selected(recs, req.label_selectors[pp], x) && recs[x].identity@ == id;
                        assert(0 <= x < n);
                    } else {
                        assert(roots_start.contains(id));
                    }
                }
                if views(roots@).contains(id) && !roots_start.contains(id) {
                    let x = choose|x: int| 0 <= x < n && #[trigger] label_selected(recs, sel@, x) && recs[x].identity@ == id;
                    assert(label_root(recs, req, id, pp));
                }
                if roots_start.contains(id) && !after_selectors_roots.contains(id) {
                    let q = choose|q: int| 0 <= q < pp && #[trigger] label_root(recs, req, id, q);
                    assert(0 <= q < pp + 1 && label_root(recs, req, id, q));
                }
            }
            assert forall|f: FindingView| #[trigger] views(findings@).contains(f) <==> (after_selectors_findings.contains(f) || exists|q: int|
                0 <= q < pp + 1 && (#[trigger] label_finding_at(recs, req, q, f))) by {
                if pushed {
                    lemma_push_contains(findings_start, views(findings@).last(), f);
                    assert(views(findings@) =~= findings_start.push(views(findings@).last()));
                    assert forall|x: int| !#[trigger] label_selected(recs, req.label_selectors[pp], x) by {
                        if 0 <= x < n {
                        }
                    }
                    assert(label_finding_at(recs, req, pp, views(findings@).last()));
                }
                if exists|q: int| 0 <= q < pp + 1 && (#[trigger] label_finding_at(recs, req, q, f)) {
                    let q = choose|q: int| 0 <= q < pp + 1 && (#[trigger] label_finding_at(recs, req, q, f));
                    if q < pp {
                        assert(findings_start.contains(f));
                    } else if matched {
                        let x = choose|x: int| 0 <= x < n && #[trigger] label_selected(recs, sel@, x);
                        assert(label_selected(recs, req.label_selectors[pp], x));
                    }
                }
                if findings_start.contains(f) && !after_selectors_findings.contains(f) {
                    let q = choose|q: int| 0 <= q < pp && (#[trigger] label_finding_at(recs, req, q, f));
                    assert(0 <= q < pp + 1 && label_finding_at(recs, req, q, f));
                }
            }
        }
        p = p + 1;
    }
    let ghost after_labels_roots = views(roots@);
    let ghost after_labels_origins = views(origins@);
    if request.all() {
        let mut i: usize = 0;
        while i < records.len()
            invariant
                i <= records.len(),
                recs == records@,
                req == request@,
                req.all,
                es == views(deps@),
                forall|d: IdentityView, p: IdentityView| #[trigger] has_pair(views(deps@), d, p) <==> dependency_edge(records@, d, p),
                id_set(views(roots@)),
                forall|e: RootEntryView| #[trigger] views(origins@).contains(e) <==> (after_labels_origins.contains(e) || (e.origin
                    == DiscoveryRootOrigin::All && exists|x: int|
                    0 <= x < i && #[trigger] eligible_all_root(recs, x) && recs[x].identity@ == e.identity)),
                forall|id: IdentityView| #[trigger] views(roots@).contains(id) <==> (after_labels_roots.contains(id) || exists|x: int|
                    0 <= x < i && #[trigger] eligible_all_root(recs, x) && recs[x].identity@ == id),
            decreases records.len() - i,
        {
            let ghost ob = views(origins@);
            let eligible = is_eligible_all_root(records, deps, i);
            if eligible {
                record_root(&mut roots, &mut origins, &records[i].identity, DiscoveryRootOrigin::All);
            }
            proof {
                let ii = i as int;
                assert forall|e: RootEntryView| #[trigger] views(origins@).contains(e) <==> (after_labels_origins.contains(e) || (e.origin
                    == DiscoveryRootOrigin::All && exists|x: int|
                    0 <= x < ii + 1 && #[trigger] eligible_all_root(recs, x) && recs[x].identity@ == e.identity)) by {
                    if eligible {
                        lemma_push_contains(ob, views(origins@).last(), e);
                        assert(views(origins@) =~= ob.push(views(origins@).last()));
                    }
                    if exists|x: int| 0 <= x < ii + 1 && #[trigger] eligible_all_root(recs, x) && recs[x].identity@ == e.identity {
                        let x = choose|x: int| 0 <= x < ii + 1 && #[trigger] eligible_all_root(recs, x) && recs[x].identity@ == e.identity;
                        if x < ii {
                            assert(0 <= x < ii && eligible_all_root(recs, x));
                        }
                    }
                }
                assert forall|id: IdentityView| #[trigger] views(roots@).contains(id) <==> (after_labels_roots.contains(id) || exists|x: int|
                    0 <= x < ii + 1 && #[trigger] eligible_all_root(recs, x) && recs[x].identity@ == id) by {
                    if exists|x: int| 0 <= x < ii + 1 && #[trigger] eligible_all_root(recs, x) && recs[x].identity@ == id {
                        let x = choose|x: int| 0 <= x < ii + 1 && #[trigger] eligible_all_root(recs, x) && recs[x].identity@ == id;
                        if x < ii {
                            assert(0 <= x < ii && eligible_all_root(recs, x));
                        }
                    }
                }
            }
            i = i + 1;
        }
    }
    let ghost unsorted = views(origins@);
    let origins = sort_distinct(origins);
    proof {
        assert forall|e: RootEntryView|
            #[trigger] views(origins@).contains(e) <==> root_origin_of(recs, req, e.identity, e.origin) by {
            assert(views(origins@).contains(e) <==> unsorted.contains(e));
            if root_origin_of(recs, req, e.identity, e.origin) {
                match e.origin {
                    DiscoveryRootOrigin::All => {
                        if req.all {
                            let x = choose|x: int| #[trigger] eligible_all_root(recs, x) && recs[x].identity@ == e.identity;
                            assert(0 <= x < recs.len());
                        }
                    },
                    _ => {},
                }
            }
        }
        assert forall|id: IdentityView| #[trigger] views(roots@).contains(id) <==> resolved_root(recs, req, id) by {
            if resolved_root(recs, req, id) {
                let o = choose|o: DiscoveryRootOrigin| #[trigger] root_origin_of(recs, req, id, o);
                match o {
                    DiscoveryRootOrigin::ResourceSelector { position } => {
                        assert(after_selectors_roots.contains(id));
                    },
                    DiscoveryRootOrigin::LabelSelector { position } => {
                        assert(after_labels_roots.contains(id));
                    },
                    DiscoveryRootOrigin::All => {
                        let x = choose|x: int| #[trigger] eligible_all_root(recs, x) && recs[x].identity@ == id;
                        assert(0 <= x < recs.len());
                    },
                }
            }
            if views(roots@).contains(id) {
                if after_selectors_roots.contains(id) {
                    let q = choose|q: int| 0 <= q < req.roots.len() && #[trigger] selector_root(recs, req, id, q);
                    assert(root_origin_of(recs, req, id, DiscoveryRootOrigin::ResourceSelector { position: q as usize }));
                } else if after_labels_roots.contains(id) {
                    let q = choose|q: int| 0 <= q < req.label_selectors.len() && #[trigger] label_root(recs, req, id, q);
                    assert(root_origin_of(recs, req, id, DiscoveryRootOrigin::LabelSelector { position: q as usize }));
                } else {
                    assert(root_origin_of(recs, req, id, DiscoveryRootOrigin::All));
                }
            }
        }
        assert forall|f: FindingView| #[trigger] views(findings@).contains(f) <==> (start.contains(f) || selector_finding_of(recs, req, f)) by {
            lemma_selector_finding_split(recs, req, f);
        }
    }
    ResolvedRoots { roots, origins, findings }
}

pub open spec fn selector_origin_before(o: DiscoveryRootOrigin, p: int) -> bool {
    match o {
        DiscoveryRootOrigin::ResourceSelector { position } => position < p,
        _ => false,
    }
}

pub open spec fn label_origin_before(o: DiscoveryRootOrigin, p: int) -> bool {
    match o {
        DiscoveryRootOrigin::LabelSelector { position } => position < p,
        _ => false,
    }
}

pub open spec fn selector_finding_at(recs: Seq<ObservationRecord>, req: RequestView, p: int, f: FindingView) -> bool {
    &&& 0 <= p < req.roots.len()
    &&& ((resolution(recs, req.roots[p].kind, req.roots[p].reference) == Resolved::Unresolved && f == selector_finding(
        DiagnosticCode::SelectorUnresolved,
        req.roots[p],
    )) || (resolution(recs, req.roots[p].kind, req.roots[p].reference) == Resolved::Ambiguous && f == selector_finding(
        DiagnosticCode::SelectorAmbiguous,
        req.roots[p],
    )))
}

pub open spec fn label_finding_at(recs: Seq<ObservationRecord>, req: RequestView, p: int, f: FindingView) -> bool {
    &&& 0 <= p < req.label_selectors.len()
    &&& forall|i: int| !#[trigger] label_selected(recs, req.label_selectors[p], i)
    &&& f == label_finding(DiagnosticCode::SelectorUnresolved, req.label_selectors[p])
}

proof fn lemma_selector_finding_split(recs: Seq<ObservationRecord>, req: RequestView, f: FindingView)
    ensures
        selector_finding_of(recs, req, f) <==> ((exists|q: int|
            0 <= q < req.roots.len() && (#[trigger] selector_finding_at(recs, req, q, f))) || (exists|q: int|
            0 <= q < req.label_selectors.len() && (#[trigger] label_finding_at(recs, req, q, f)))),
{
    if selector_finding_of(recs, req, f) {
        if exists|p: int|
            0 <= p < req.roots.len() && resolution(recs, req.roots[p].kind, req.roots[p].reference) == Resolved::Unresolved
                && f == selector_finding(DiagnosticCode::SelectorUnresolved, #[trigger] req.roots[p]) {
            let p = choose|p: int|
                0 <= p < req.roots.len() && resolution(recs, req.roots[p].kind, req.roots[p].reference) == Resolved::Unresolved
                    && f == selector_finding(DiagnosticCode::SelectorUnresolved, #[trigger] req.roots[p]);
            assert(selector_finding_at(recs, req, p, f));
        } else if exists|p: int|
            0 <= p < req.roots.len() && resolution(recs, req.roots[p].kind, req.roots[p].reference) == Resolved::Ambiguous
                && f == selector_finding(DiagnosticCode::SelectorAmbiguous, #[trigger] req.roots[p]) {
            let p = choose|p: int|
                0 <= p < req.roots.len() && resolution(recs, req.roots[p].kind, req.roots[p].reference) == Resolved::Ambiguous
                    && f == selector_finding(DiagnosticCode::SelectorAmbiguous, #[trigger] req.roots[p]);
            assert(selector_finding_at(recs, req, p, f));
        } else {
            let p = choose|p: int|
                0 <= p < req.label_selectors.len() && (forall|i: int| !#[trigger] label_selected(recs, req.label_selectors[p], i))
                    && f == label_finding(DiagnosticCode::SelectorUnresolved, #[trigger] req.label_selectors[p]);
            assert(label_finding_at(recs, req, p, f));
        }
    }
    if exists|q: int| 0 <= q < req.roots.len() && (#[trigger] selector_finding_at(recs, req, q, f)) {
        let q = choose|q: int| 0 <= q < req.roots.len() && (#[trigger] selector_finding_at(recs, req, q, f));
        assert(req.roots.len() > q);
    }
    if exists|q: int| 0 <= q < req.label_selectors.len() && (#[trigger] label_finding_at(recs, req, q, f)) {
        let q = choose|q: int| 0 <= q < req.label_selectors.len() && (#[trigger] label_finding_at(recs, req, q, f));
        assert(req.label_selectors.len() > q);
    }
}


// ---------------------------------------------------------------------------------------------
// Members.
// ---------------------------------------------------------------------------------------------
/// Networks, volumes, images, and secrets are shared prerequisites, never grouped by sharing.
pub open spec fn is_shared_kind(kind: ResourceKind) -> bool {
    kind == ResourceKind::Network || kind == ResourceKind::Volume || kind == ResourceKind::Image || kind
        == ResourceKind::Secret
}

fn shared_kind(kind: ResourceKind) -> (r: bool)
    ensures
        r == is_shared_kind(kind),
{
    match kind {
        ResourceKind::Network | ResourceKind::Volume | ResourceKind::Image | ResourceKind::Secret => true,
        _ => false,
    }
}

fn contains_id(set: &Vec<ResourceIdentity>, x: &ResourceIdentity) -> (r: bool)
    ensures
        r == views(set@).contains(x@),
{
    contains_identity(set, x)
}

/// Splits roots into non-shared roots and explicitly selected shared resources.
fn split_roots(roots: &Vec<ResourceIdentity>) -> (r: (Vec<ResourceIdentity>, Vec<ResourceIdentity>))
    ensures
        id_set(views(r.0@)),
        id_set(views(r.1@)),
        forall|x: IdentityView| #[trigger] views(r.0@).contains(x) <==> (views(roots@).contains(x) && !is_shared_kind(x.kind)),
        forall|x: IdentityView| #[trigger] views(r.1@).contains(x) <==> (views(roots@).contains(x) && is_shared_kind(x.kind)),
{
    let mut members: Vec<ResourceIdentity> = Vec::new();
    let mut shared: Vec<ResourceIdentity> = Vec::new();
    proof {
        assert(views(members@) =~= Seq::<IdentityView>::empty());
        assert(views(shared@) =~= Seq::<IdentityView>::empty());
    }
    let mut i: usize = 0;
    while i < roots.len()
        invariant
            i <= roots.len(),
            id_set(views(members@)),
            id_set(views(shared@)),
            forall|x: IdentityView| #[trigger] views(members@).contains(x) <==> (views(roots@).take(i as int).contains(x)
                && !is_shared_kind(x.kind)),
            forall|x: IdentityView| #[trigger] views(shared@).contains(x) <==> (views(roots@).take(i as int).contains(x)
                && is_shared_kind(x.kind)),
        decreases roots.len() - i,
    {
        let ghost prefix = views(roots@).take(i as int);
        let x = &roots[i];
        proof {
            assert(views(roots@).take(i + 1) =~= prefix.push(x@));
        }
        if shared_kind(x.kind()) {
            set_insert(&mut shared, x.clone());
        } else {
            set_insert(&mut members, x.clone());
        }
        proof {
            assert forall|y: IdentityView| #[trigger] views(members@).contains(y) <==> (views(roots@).take(i + 1).contains(y)
                && !is_shared_kind(y.kind)) by {
                lemma_push_contains(prefix, x@, y);
            }
            assert forall|y: IdentityView| #[trigger] views(shared@).contains(y) <==> (views(roots@).take(i + 1).contains(y)
                && is_shared_kind(y.kind)) by {
                lemma_push_contains(prefix, x@, y);
            }
        }
        i = i + 1;
    }
    proof {
        assert(views(roots@).take(i as int) =~= views(roots@));
    }
    (members, shared)
}

/// Adds every dependent of `p` to `members`.
fn add_dependents(members: &mut Vec<ResourceIdentity>, deps: &Vec<ResourceDependency>, p: &ResourceIdentity)
    requires
        id_set(views(old(members)@)),
    ensures
        id_set(views(final(members)@)),
        forall|x: IdentityView|
            #[trigger] views(final(members)@).contains(x) <==> (views(old(members)@).contains(x) || has_pair(
                views(deps@),
                x,
                p@,
            )),
{
    let ghost start = views(members@);
    let ghost es = views(deps@);
    let mut j: usize = 0;
    while j < deps.len()
        invariant
            j <= deps.len(),
            es == views(deps@),
            start == views(old(members)@),
            id_set(views(members@)),
            forall|x: IdentityView| #[trigger] views(members@).contains(x) <==> (start.contains(x) || has_pair(es.take(j as int), x, p@)),
        decreases deps.len() - j,
    {
        let ghost prefix = es.take(j as int);
        let e = &deps[j];
        proof {
            assert(es.take(j + 1) =~= prefix.push(e@));
        }
        let hit = e.prerequisite.same_value(p);
        if hit {
            set_insert(members, e.dependent.clone());
        }
        proof {
            assert forall|x: IdentityView| #[trigger] views(members@).contains(x) <==> (start.contains(x) || has_pair(es.take(j + 1), x, p@)) by {
                lemma_has_pair_push(prefix, e@, x, p@);
            }
        }
        j = j + 1;
    }
    proof {
        assert(es.take(j as int) =~= es);
    }
}

proof fn lemma_has_pair_push(s: Seq<DependencyView>, e: DependencyView, d: IdentityView, p: IdentityView)
    ensures
        has_pair(s.push(e), d, p) <==> (has_pair(s, d, p) || (e.dependent == d && e.prerequisite == p)),
{
    let t = s.push(e);
    if has_pair(t, d, p) {
        let m = choose|m: int| 0 <= m < t.len() && (#[trigger] t[m]).dependent == d && t[m].prerequisite == p;
        if m < s.len() {
            assert(s[m] == t[m]);
        }
    }
    if has_pair(s, d, p) {
        let m = choose|m: int| 0 <= m < s.len() && (#[trigger] s[m]).dependent == d && s[m].prerequisite == p;
        assert(t[m] == s[m]);
    }
    if e.dependent == d && e.prerequisite == p {
        assert(t[s.len() as int] == e);
    }
}

/// An explicitly selected shared resource crosses to its consumers; one without consumers is a
/// member itself.
fn cross_shared(members: Vec<ResourceIdentity>, shared: &Vec<ResourceIdentity>, deps: &Vec<ResourceDependency>) -> (r: (
    Vec<ResourceIdentity>,
    Vec<ResourceIdentity>,
))
    requires
        id_set(views(members@)),
    ensures
        id_set(views(r.0@)),
        id_set(views(r.1@)),
        forall|x: IdentityView|
            #[trigger] views(r.0@).contains(x) <==> (views(members@).contains(x) || (views(shared@).contains(x)
                && !has_dependent(views(deps@), x)) || exists|s: IdentityView|
                #[trigger] views(shared@).contains(s) && has_pair(views(deps@), x, s)),
        forall|x: IdentityView|
            #[trigger] views(r.1@).contains(x) <==> (views(shared@).contains(x) && has_dependent(views(deps@), x)),
{
    let ghost start = views(members@);
    let ghost es = views(deps@);
    let ghost ss = views(shared@);
    let mut members = members;
    let mut authorized: Vec<ResourceIdentity> = Vec::new();
    proof {
        assert(views(authorized@) =~= Seq::<IdentityView>::empty());
    }
    let mut i: usize = 0;
    while i < shared.len()
        invariant
            i <= shared.len(),
            es == views(deps@),
            ss == views(shared@),
            id_set(views(members@)),
            id_set(views(authorized@)),
            forall|x: IdentityView|
                #[trigger] views(members@).contains(x) <==> (start.contains(x) || (ss.take(i as int).contains(x)
                    && !has_dependent(es, x)) || exists|s: IdentityView|
                    #[trigger] ss.take(i as int).contains(s) && has_pair(es, x, s)),
            forall|x: IdentityView|
                #[trigger] views(authorized@).contains(x) <==> (ss.take(i as int).contains(x) && has_dependent(es, x)),
        decreases shared.len() - i,
    {
        let ghost prefix = ss.take(i as int);
        let s = &shared[i];
        proof {
            assert(ss.take(i + 1) =~= prefix.push(s@));
        }
        let ghost before = views(members@);
        let consumed = has_dependent_exec(deps, s);
        if consumed {
            set_insert(&mut authorized, s.clone());
            add_dependents(&mut members, deps, s);
        } else {
            set_insert(&mut members, s.clone());
        }
        proof {
            assert forall|x: IdentityView|
                #[trigger] views(members@).contains(x) <==> (start.contains(x) || (ss.take(i + 1).contains(x)
                    && !has_dependent(es, x)) || exists|t: IdentityView|
                    #[trigger] ss.take(i + 1).contains(t) && has_pair(es, x, t)) by {
                lemma_push_contains(prefix, s@, x);
                if exists|t: IdentityView| #[trigger] ss.take(i + 1).contains(t) && has_pair(es, x, t) {
                    let t = choose|t: IdentityView| #[trigger] ss.take(i + 1).contains(t) && has_pair(es, x, t);
                    lemma_push_contains(prefix, s@, t);
                    if t == s@ {
                        assert(has_dependent(es, s@));
                    }
                }
                if exists|t: IdentityView| #[trigger] prefix.contains(t) && has_pair(es, x, t) {
                    let t = choose|t: IdentityView| #[trigger] prefix.contains(t) && has_pair(es, x, t);
                    lemma_push_contains(prefix, s@, t);
                }
                if consumed && has_pair(es, x, s@) {
                    lemma_push_contains(prefix, s@, s@);
                }
            }
            assert forall|x: IdentityView|
                #[trigger] views(authorized@).contains(x) <==> (ss.take(i + 1).contains(x) && has_dependent(es, x)) by {
                lemma_push_contains(prefix, s@, x);
            }
        }
        i = i + 1;
    }
    proof {
        assert(ss.take(i as int) =~= ss);
    }
    (members, authorized)
}


/// A network boundary override with the network it names.
struct BoundaryEntry {
    identifier: String,
    target: ResourceIdentity,
}

/// A boundary entry pairs an override with the one network it names.
spec fn entry_ok(recs: Seq<ObservationRecord>, req: RequestView, e: BoundaryEntry) -> bool {
    exists|q: int| #[trigger] boundary_target(recs, req, q, e.target@) && e.identifier@ == req.network_boundary_overrides[q]
}

/// The override at position `q` names exactly the network `t`.
pub open spec fn boundary_target(recs: Seq<ObservationRecord>, req: RequestView, q: int, t: IdentityView) -> bool {
    0 <= q < req.network_boundary_overrides.len() && resolution(
        recs,
        ResourceKind::Network,
        req.network_boundary_overrides[q],
    ) == Resolved::Unique(t)
}

/// A finding for each network boundary override that names no network or several.
pub open spec fn boundary_finding(recs: Seq<ObservationRecord>, req: RequestView, f: FindingView) -> bool {
    exists|q: int|
        0 <= q < req.network_boundary_overrides.len() && #[trigger] boundary_finding_at(recs, req, q, f)
}

pub open spec fn boundary_finding_at(recs: Seq<ObservationRecord>, req: RequestView, q: int, f: FindingView) -> bool {
    let sel = SelectorView { kind: ResourceKind::Network, reference: req.network_boundary_overrides[q] };
    let res = resolution(recs, ResourceKind::Network, req.network_boundary_overrides[q]);
    (res == Resolved::Unresolved && f == selector_finding(DiagnosticCode::SelectorUnresolved, sel)) || (res
        == Resolved::Ambiguous && f == selector_finding(DiagnosticCode::SelectorAmbiguous, sel))
}

fn resolve_boundaries(records: &[ObservationRecord], request: &DiscoveryRequest, findings: Vec<DiscoveryFinding>) -> (r: (
    Vec<BoundaryEntry>,
    Vec<ResourceIdentity>,
    Vec<DiscoveryFinding>,
))
    ensures
        forall|j: int| 0 <= j < r.0@.len() ==> entry_ok(records@, request@, #[trigger] r.0@[j]),
        id_set(views(r.1@)),
        forall|t: IdentityView| #[trigger] views(r.1@).contains(t) <==> exists|q: int| #[trigger] boundary_target(records@, request@, q, t),
        forall|j: int| 0 <= j < r.0@.len() ==> views(r.1@).contains(#[trigger] r.0@[j].target@),
        forall|f: FindingView|
            #[trigger] views(r.2@).contains(f) <==> (views(findings@).contains(f) || boundary_finding(records@, request@, f)),
{
    let ghost recs = records@;
    let ghost req = request@;
    let ghost start = views(findings@);
    let mut findings = findings;
    let mut entries: Vec<BoundaryEntry> = Vec::new();
    let mut targets: Vec<ResourceIdentity> = Vec::new();
    proof {
        assert(views(targets@) =~= Seq::<IdentityView>::empty());
    }
    let overrides = request.network_boundary_overrides();
    let mut q: usize = 0;
    while q < overrides.len()
        invariant
            q <= overrides.len(),
            recs == records@,
            req == request@,
            views(overrides@) == req.network_boundary_overrides,
            id_set(views(targets@)),
            forall|j: int| 0 <= j < entries@.len() ==> entry_ok(recs, req, #[trigger] entries@[j]),
            forall|j: int| 0 <= j < entries@.len() ==> views(targets@).contains(#[trigger] entries@[j].target@),
            forall|t: IdentityView| #[trigger] views(targets@).contains(t) <==> exists|q2: int|
                0 <= q2 < q && #[trigger] boundary_target(recs, req, q2, t),
            forall|f: FindingView| #[trigger] views(findings@).contains(f) <==> (start.contains(f) || exists|q2: int|
                0 <= q2 < q && #[trigger] boundary_finding_at(recs, req, q2, f)),
        decreases overrides.len() - q,
    {
        let identifier = &overrides[q];
        let ghost qq = q as int;
        assert(req.network_boundary_overrides[qq] == identifier@);
        let ghost tb = views(targets@);
        let ghost fb = views(findings@);
        let res = resolve_reference(records, ResourceKind::Network, identifier.as_str());
        let mut pushed = false;
        match res {
            SelectorResolution::One(target) => {
                set_insert(&mut targets, target.clone());
                let ghost eb = entries@;
                entries.push(BoundaryEntry { identifier: identifier.clone(), target });
                proof {
                    assert(boundary_target(recs, req, qq, entries@.last().target@));
                    assert forall|j: int| 0 <= j < entries@.len() implies entry_ok(recs, req, #[trigger] entries@[j]) by {
                        if j < eb.len() {
                            assert(entries@[j] == eb[j]);
                        } else {
                            assert(boundary_target(recs, req, qq, entries@[j].target@) && entries@[j].identifier@
                                == req.network_boundary_overrides[qq]);
                        }
                    }
                    assert forall|j: int| 0 <= j < entries@.len() implies views(targets@).contains(#[trigger] entries@[j].target@) by {
                        if j < eb.len() {
                            assert(entries@[j] == eb[j]);
                        }
                    }
                }
            },
            SelectorResolution::Unresolved => {
                let sel = ResourceSelector { kind: ResourceKind::Network, reference: identifier.clone() };
                findings.push(DiscoveryFinding::for_selector(DiagnosticCode::SelectorUnresolved, sel));
                pushed = true;
            },
            SelectorResolution::Many => {
                let sel = ResourceSelector { kind: ResourceKind::Network, reference: identifier.clone() };
                findings.push(DiscoveryFinding::for_selector(DiagnosticCode::SelectorAmbiguous, sel));
                pushed = true;
            },
        }
        proof {
            assert forall|t: IdentityView| #[trigger] views(targets@).contains(t) <==> exists|q2: int|
                0 <= q2 < qq + 1 && #[trigger] boundary_target(recs, req, q2, t) by {
                if exists|q2: int| 0 <= q2 < qq + 1 && #[trigger] boundary_target(recs, req, q2, t) {
                    let q2 = choose|q2: int| 0 <= q2 < qq + 1 && #[trigger] boundary_target(recs, req, q2, t);
                    if q2 < qq {
                        assert(tb.contains(t));
                    }
                }
                if tb.contains(t) {
                    let q2 = choose|q2: int| 0 <= q2 < qq && #[trigger] boundary_target(recs, req, q2, t);
                    assert(0 <= q2 < qq + 1 && boundary_target(recs, req, q2, t));
                }
            }
            assert forall|f: FindingView| #[trigger] views(findings@).contains(f) <==> (start.contains(f) || exists|q2: int|
                0 <= q2 < qq + 1 && #[trigger] boundary_finding_at(recs, req, q2, f)) by {
                if pushed {
                    lemma_push_contains(fb, views(findings@).last(), f);
                    assert(views(findings@) =~= fb.push(views(findings@).last()));
                    assert(boundary_finding_at(recs, req, qq, views(findings@).last()));
                }
                if exists|q2: int| 0 <= q2 < qq + 1 && #[trigger] boundary_finding_at(recs, req, q2, f) {
                    let q2 = choose|q2: int| 0 <= q2 < qq + 1 && #[trigger] boundary_finding_at(recs, req, q2, f);
                    if q2 < qq {
                        assert(fb.contains(f));
                    }
                }
                if fb.contains(f) && !start.contains(f) {
                    let q2 = choose|q2: int| 0 <= q2 < qq && #[trigger] boundary_finding_at(recs, req, q2, f);
                    assert(0 <= q2 < qq + 1 && boundary_finding_at(recs, req, q2, f));
                }
            }
        }
        q = q + 1;
    }
    proof {
        assert forall|t: IdentityView| #[trigger] views(targets@).contains(t) <==> exists|q2: int| #[trigger] boundary_target(recs, req, q2, t) by {
            if exists|q2: int| #[trigger] boundary_target(recs, req, q2, t) {
                let q2 = choose|q2: int| #[trigger] boundary_target(recs, req, q2, t);
                assert(0 <= q2 < q);
            }
        }
    }
    (entries, targets, findings)
}

/// Every grouping edge has both ends in `m` or neither.
pub open spec fn closed_under(m: Seq<IdentityView>, ge: Seq<GroupingEdgeView>) -> bool {
    forall|j: int| 0 <= j < ge.len() ==> (m.contains((#[trigger] ge[j]).left) <==> m.contains(ge[j].right))
}

/// Both ends of every grouping edge and every dependency are in `u`.
pub open spec fn ends_within(u: Seq<IdentityView>, ge: Seq<GroupingEdgeView>, es: Seq<DependencyView>) -> bool {
    &&& forall|j: int| 0 <= j < ge.len() ==> u.contains((#[trigger] ge[j]).left) && u.contains(ge[j].right)
    &&& forall|j: int| 0 <= j < es.len() ==> u.contains((#[trigger] es[j]).dependent) && u.contains(es[j].prerequisite)
}

/// Every member of `m` is in `u`.
pub open spec fn within(m: Seq<IdentityView>, u: Seq<IdentityView>) -> bool {
    forall|x: IdentityView| m.contains(x) ==> u.contains(x)
}

/// Every element of `a` is in `b`.
pub open spec fn subset_of(a: Seq<IdentityView>, b: Seq<IdentityView>) -> bool {
    forall|x: IdentityView| a.contains(x) ==> b.contains(x)
}

/// `m` lies within every set that contains `start` and is closed under the grouping edges.
pub open spec fn least_closure(m: Seq<IdentityView>, start: Seq<IdentityView>, ge: Seq<GroupingEdgeView>) -> bool {
    forall|c: Seq<IdentityView>| #[trigger] closed_under(c, ge) && subset_of(start, c) ==> subset_of(m, c)
}

/// `m` is held together by the grouping edges: every closed set that holds one member of `m`
/// holds all of it.
pub open spec fn connected_set(m: Seq<IdentityView>, ge: Seq<GroupingEdgeView>) -> bool {
    forall|x: IdentityView, c: Seq<IdentityView>| #[trigger] m.contains(x) && #[trigger] closed_under(c, ge) && c.contains(x) ==> subset_of(m, c)
}

/// Adds resources joined to `members` by grouping edges until no edge leaves the set.
fn close_over_edges(members: Vec<ResourceIdentity>, edges: &Vec<GroupingEdge>, Ghost(u): Ghost<Seq<IdentityView>>) -> (r: Vec<
    ResourceIdentity,
>)
    requires
        id_set(views(members@)),
        within(views(members@), u),
        forall|j: int| 0 <= j < edges@.len() ==> u.contains((#[trigger] edges@[j])@.left) && u.contains(edges@[j]@.right),
    ensures
        id_set(views(r@)),
        within(views(r@), u),
        closed_under(views(r@), views(edges@)),
        forall|x: IdentityView| #[trigger] views(members@).contains(x) ==> views(r@).contains(x),
        least_closure(views(r@), views(members@), views(edges@)),
{
    let ghost ge = views(edges@);
    let ghost start = views(members@);
    let mut members = members;
    proof {
        assert forall|c: Seq<IdentityView>| #[trigger] closed_under(c, ge) && subset_of(start, c) implies subset_of(start, c) by {}
    }
    loop
        invariant
            ge == views(edges@),
            id_set(views(members@)),
            within(views(members@), u),
            forall|j: int| 0 <= j < edges@.len() ==> u.contains((#[trigger] edges@[j])@.left) && u.contains(edges@[j]@.right),
            forall|x: IdentityView| #[trigger] start.contains(x) ==> views(members@).contains(x),
            least_closure(views(members@), start, ge),
        ensures
            id_set(views(members@)),
            within(views(members@), u),
            closed_under(views(members@), ge),
            forall|x: IdentityView| #[trigger] start.contains(x) ==> views(members@).contains(x),
            least_closure(views(members@), start, ge),
        decreases u.len() - members@.len(),
    {
        proof {
            lemma_distinct_subset_len(views(members@), u);
        }
        let ghost pass_start = views(members@);
        let mut changed = false;
        let mut j: usize = 0;
        while j < edges.len()
            invariant
                j <= edges.len(),
                ge == views(edges@),
                id_set(views(members@)),
                within(views(members@), u),
                forall|k: int| 0 <= k < edges@.len() ==> u.contains((#[trigger] edges@[k])@.left) && u.contains(edges@[k]@.right),
                forall|x: IdentityView| #[trigger] start.contains(x) ==> views(members@).contains(x),
                forall|x: IdentityView| #[trigger] pass_start.contains(x) ==> views(members@).contains(x),
                least_closure(views(members@), start, ge),
                changed ==> views(members@).len() > pass_start.len(),
                !changed ==> views(members@) == pass_start,
                !changed ==> forall|k: int| 0 <= k < j ==> (pass_start.contains((#[trigger] ge[k]).left) <==> pass_start.contains(ge[k].right)),
            decreases edges.len() - j,
        {
            let e = &edges[j];
            assert(ge[j as int] == e@);
            let cl = contains_id(&members, &e.left);
            let cr = contains_id(&members, &e.right);
            let ghost before = views(members@);
            if cl && !cr {
                set_insert(&mut members, e.right.clone());
                proof {
                    lemma_insert_grows(before, views(members@), e@.right);
                    lemma_closure_step(before, views(members@), start, ge, j as int, e@.right);
                }
                changed = true;
            } else if cr && !cl {
                set_insert(&mut members, e.left.clone());
                proof {
                    lemma_insert_grows(before, views(members@), e@.left);
                    lemma_closure_step(before, views(members@), start, ge, j as int, e@.left);
                }
                changed = true;
            }
            j = j + 1;
        }
        if !changed {
            break;
        }
        proof {
            lemma_distinct_subset_len(views(members@), u);
        }
    }
    members
}

proof fn lemma_closure_step(
    before: Seq<IdentityView>,
    after: Seq<IdentityView>,
    start: Seq<IdentityView>,
    ge: Seq<GroupingEdgeView>,
    j: int,
    x: IdentityView,
)
    requires
        least_closure(before, start, ge),
        0 <= j < ge.len(),
        (x == ge[j].right && before.contains(ge[j].left)) || (x == ge[j].left && before.contains(ge[j].right)),
        forall|y: IdentityView| #[trigger] after.contains(y) <==> (before.contains(y) || y == x),
    ensures
        least_closure(after, start, ge),
{
    assert forall|c: Seq<IdentityView>| #[trigger] closed_under(c, ge) && subset_of(start, c) implies subset_of(after, c) by {
        assert(subset_of(before, c));
        assert(c.contains(ge[j].left) <==> c.contains(ge[j].right));
    }
}

proof fn lemma_insert_grows(before: Seq<IdentityView>, after: Seq<IdentityView>, x: IdentityView)
    requires
        distinct(before),
        distinct(after),
        !before.contains(x),
        forall|y: IdentityView| #[trigger] after.contains(y) <==> (before.contains(y) || y == x),
    ensures
        after.len() == before.len() + 1,
{
    let bx = before.push(x);
    assert(distinct(bx)) by {
        assert forall|i: int, j: int| 0 <= i < j < bx.len() implies bx[i] != bx[j] by {
            if j == before.len() {
                assert(before.contains(bx[i]));
            }
        }
    }
    assert forall|y: IdentityView| after.contains(y) ==> bx.contains(y) by {
        lemma_push_contains(before, x, y);
    }
    assert forall|y: IdentityView| bx.contains(y) ==> after.contains(y) by {
        lemma_push_contains(before, x, y);
    }
    lemma_distinct_subset_len(after, bx);
    lemma_distinct_subset_len(bx, after);
}


/// A network boundary is a prerequisite of a member.
pub open spec fn boundary_of_members(m: Seq<IdentityView>, es: Seq<DependencyView>, targets: Seq<IdentityView>, n: IdentityView) -> bool {
    exists|j: int|
        0 <= j < es.len() && m.contains((#[trigger] es[j]).dependent) && es[j].prerequisite == n && n.kind
            == ResourceKind::Network && targets.contains(n)
}

fn prerequisite_networks(members: &Vec<ResourceIdentity>, deps: &Vec<ResourceDependency>, targets: &Vec<ResourceIdentity>) -> (r:
    Vec<ResourceIdentity>)
    ensures
        id_set(views(r@)),
        forall|n: IdentityView| #[trigger] views(r@).contains(n) <==> boundary_of_members(views(members@), views(deps@), views(targets@), n),
{
    let ghost es = views(deps@);
    let ghost m = views(members@);
    let ghost t = views(targets@);
    let mut out: Vec<ResourceIdentity> = Vec::new();
    proof {
        assert(views(out@) =~= Seq::<IdentityView>::empty());
    }
    let mut j: usize = 0;
    while j < deps.len()
        invariant
            j <= deps.len(),
            es == views(deps@),
            m == views(members@),
            t == views(targets@),
            id_set(views(out@)),
            forall|n: IdentityView| #[trigger] views(out@).contains(n) <==> boundary_of_members(m, es.take(j as int), t, n),
        decreases deps.len() - j,
    {
        let e = &deps[j];
        let ghost prefix = es.take(j as int);
        proof {
            assert(es.take(j + 1) =~= prefix.push(e@));
        }
        let hit = e.prerequisite.kind() == ResourceKind::Network && contains_id(members, &e.dependent) && contains_id(
            targets,
            &e.prerequisite,
        );
        if hit {
            set_insert(&mut out, e.prerequisite.clone());
        }
        proof {
            assert forall|n: IdentityView| #[trigger] views(out@).contains(n) <==> boundary_of_members(m, es.take(j + 1), t, n) by {
                let s2 = es.take(j + 1);
                if boundary_of_members(m, s2, t, n) {
                    let k = choose|k: int|
                        0 <= k < s2.len() && m.contains((#[trigger] s2[k]).dependent) && s2[k].prerequisite == n && n.kind
                            == ResourceKind::Network && t.contains(n);
                    if k < j {
                        assert(prefix[k] == s2[k]);
                        assert(boundary_of_members(m, prefix, t, n));
                    }
                }
                if boundary_of_members(m, prefix, t, n) {
                    let k = choose|k: int|
                        0 <= k < prefix.len() && m.contains((#[trigger] prefix[k]).dependent) && prefix[k].prerequisite == n
                            && n.kind == ResourceKind::Network && t.contains(n);
                    assert(s2[k] == prefix[k]);
                }
                if hit && n == e@.prerequisite {
                    assert(s2[j as int] == e@);
                }
            }
        }
        j = j + 1;
    }
    proof {
        assert(es.take(j as int) =~= es);
    }
    out
}

proof fn lemma_same_len_superset(a: Seq<IdentityView>, b: Seq<IdentityView>)
    requires
        distinct(a),
        distinct(b),
        forall|x: IdentityView| a.contains(x) ==> b.contains(x),
        a.len() == b.len(),
    ensures
        forall|x: IdentityView| b.contains(x) ==> a.contains(x),
{
    assert forall|y: IdentityView| b.contains(y) implies a.contains(y) by {
        if !a.contains(y) {
            let ay = a.push(y);
            assert(distinct(ay)) by {
                assert forall|i: int, j: int| 0 <= i < j < ay.len() implies ay[i] != ay[j] by {
                    if j == a.len() {
                        assert(a.contains(ay[i]));
                    }
                }
            }
            assert forall|z: IdentityView| ay.contains(z) implies b.contains(z) by {
                lemma_push_contains(a, y, z);
            }
            lemma_distinct_subset_len(ay, b);
        }
    }
}

/// Every dependent of a boundary network that a member depends on is a member.
pub open spec fn closed_under_crossing(m: Seq<IdentityView>, es: Seq<DependencyView>, targets: Seq<IdentityView>) -> bool {
    forall|n: IdentityView, d: IdentityView|
        boundary_of_members(m, es, targets, n) && #[trigger] has_pair(es, d, n) ==> m.contains(d)
}

/// `m` lies within every set that contains `start`, is closed under the grouping edges, and
/// takes in the consumers of the boundary networks its resources depend on.
pub open spec fn least_expansion(
    m: Seq<IdentityView>,
    start: Seq<IdentityView>,
    ge: Seq<GroupingEdgeView>,
    es: Seq<DependencyView>,
    ts: Seq<IdentityView>,
) -> bool {
    forall|c: Seq<IdentityView>|
        #[trigger] closed_under(c, ge) && closed_under_crossing(c, es, ts) && subset_of(start, c) ==> subset_of(m, c)
}

/// Grows the members by grouping edges and authorized network crossings until neither adds a
/// resource; returns the members and the networks whose crossing added one.
fn expand_members(
    members: Vec<ResourceIdentity>,
    edges: &Vec<GroupingEdge>,
    deps: &Vec<ResourceDependency>,
    targets: &Vec<ResourceIdentity>,
    Ghost(u): Ghost<Seq<IdentityView>>,
) -> (r: (Vec<ResourceIdentity>, Vec<ResourceIdentity>))
    requires
        id_set(views(members@)),
        within(views(members@), u),
        ends_within(u, views(edges@), views(deps@)),
    ensures
        id_set(views(r.0@)),
        within(views(r.0@), u),
        forall|x: IdentityView| #[trigger] views(members@).contains(x) ==> views(r.0@).contains(x),
        closed_under(views(r.0@), views(edges@)),
        closed_under_crossing(views(r.0@), views(deps@), views(targets@)),
        id_set(views(r.1@)),
        forall|n: IdentityView| #[trigger] views(r.1@).contains(n) ==> views(targets@).contains(n),
        least_expansion(views(r.0@), views(members@), views(edges@), views(deps@), views(targets@)),
{
    let ghost start = views(members@);
    let ghost ge = views(edges@);
    let ghost es = views(deps@);
    let ghost ts = views(targets@);
    let mut members = members;
    let mut crossed: Vec<ResourceIdentity> = Vec::new();
    proof {
        assert(views(crossed@) =~= Seq::<IdentityView>::empty());
    }
    loop
        invariant
            ge == views(edges@),
            es == views(deps@),
            ts == views(targets@),
            id_set(views(members@)),
            within(views(members@), u),
            ends_within(u, ge, es),
            forall|x: IdentityView| #[trigger] start.contains(x) ==> views(members@).contains(x),
            id_set(views(crossed@)),
            forall|n: IdentityView| #[trigger] views(crossed@).contains(n) ==> ts.contains(n),
            least_expansion(views(members@), start, ge, es, ts),
        ensures
            id_set(views(members@)),
            within(views(members@), u),
            forall|x: IdentityView| #[trigger] start.contains(x) ==> views(members@).contains(x),
            closed_under(views(members@), ge),
            closed_under_crossing(views(members@), es, ts),
            id_set(views(crossed@)),
            forall|n: IdentityView| #[trigger] views(crossed@).contains(n) ==> ts.contains(n),
            least_expansion(views(members@), start, ge, es, ts),
        decreases u.len() - members@.len(),
    {
        proof {
            lemma_distinct_subset_len(views(members@), u);
        }
        let before_len = members.len();
        let ghost round_start = views(members@);
        proof {
            assert forall|j: int| 0 <= j < edges@.len() implies u.contains((#[trigger] edges@[j])@.left) && u.contains(edges@[j]@.right) by {
                assert(ge[j] == edges@[j]@);
            }
        }
        members = close_over_edges(members, edges, Ghost(u));
        let ghost closed = views(members@);
        proof {
            assert forall|c: Seq<IdentityView>|
                #[trigger] closed_under(c, ge) && closed_under_crossing(c, es, ts) && subset_of(start, c) implies subset_of(closed, c) by {
                assert(subset_of(round_start, c));
            }
        }
        let nets = prerequisite_networks(&members, deps, targets);
        let mut k: usize = 0;
        while k < nets.len()
            invariant
                k <= nets.len(),
                ge == views(edges@),
                es == views(deps@),
                ts == views(targets@),
                id_set(views(members@)),
                within(views(members@), u),
                ends_within(u, ge, es),
                forall|x: IdentityView| #[trigger] closed.contains(x) ==> views(members@).contains(x),
                forall|n: IdentityView| #[trigger] views(nets@).contains(n) <==> boundary_of_members(closed, es, ts, n),
                forall|i: int, d: IdentityView| 0 <= i < k && #[trigger] has_pair(es, d, views(nets@)[i]) ==> views(members@).contains(d),
                id_set(views(crossed@)),
                forall|n: IdentityView| #[trigger] views(crossed@).contains(n) ==> ts.contains(n),
                least_expansion(closed, start, ge, es, ts),
                least_expansion(views(members@), start, ge, es, ts),
            decreases nets.len() - k,
        {
            let n = &nets[k];
            let bc = members.len();
            let ghost mb = views(members@);
            add_dependents(&mut members, deps, n);
            proof {
                assert(views(nets@)[k as int] == n@);
                assert(views(nets@).contains(n@));
                assert(boundary_of_members(closed, es, ts, n@));
                let j = choose|j: int|
                    0 <= j < es.len() && closed.contains((#[trigger] es[j]).dependent) && es[j].prerequisite == n@ && n@.kind
                        == ResourceKind::Network && ts.contains(n@);
                assert forall|x: IdentityView| views(members@).contains(x) implies u.contains(x) by {
                    if has_pair(es, x, n@) {
                        let m = choose|m: int| 0 <= m < es.len() && (#[trigger] es[m]).dependent == x && es[m].prerequisite == n@;
                    }
                }
                assert forall|c: Seq<IdentityView>|
                    #[trigger] closed_under(c, ge) && closed_under_crossing(c, es, ts) && subset_of(start, c) implies subset_of(
                    views(members@),
                    c,
                ) by {
                    assert(subset_of(mb, c));
                    assert(subset_of(closed, c));
                    assert(c.contains(es[j].dependent));
                    assert(boundary_of_members(c, es, ts, n@));
                }
            }
            if members.len() > bc {
                set_insert(&mut crossed, n.clone());
            }
            k = k + 1;
        }
        if members.len() == before_len {
            proof {
                assert(views(members@).len() == round_start.len());
                lemma_same_len_superset(round_start, views(members@));
                assert forall|x: IdentityView| #[trigger] views(members@).contains(x) <==> closed.contains(x) by {}
                assert forall|j: int| 0 <= j < ge.len() implies (views(members@).contains((#[trigger] ge[j]).left) <==> views(
                    members@,
                ).contains(ge[j].right)) by {
                    assert(closed.contains(ge[j].left) <==> closed.contains(ge[j].right));
                }
                assert forall|n: IdentityView, d: IdentityView|
                    boundary_of_members(views(members@), es, ts, n) && #[trigger] has_pair(es, d, n) implies views(members@).contains(d) by {
                    let j = choose|j: int|
                        0 <= j < es.len() && views(members@).contains((#[trigger] es[j]).dependent) && es[j].prerequisite == n
                            && n.kind == ResourceKind::Network && ts.contains(n);
                    assert(closed.contains(es[j].dependent));
                    assert(boundary_of_members(closed, es, ts, n));
                    assert(views(nets@).contains(n));
                    let i = choose|i: int| 0 <= i < views(nets@).len() && views(nets@)[i] == n;
                }
            }
            break;
        }
        proof {
            lemma_distinct_subset_len(views(members@), u);
            assert forall|x: IdentityView| round_start.contains(x) implies views(members@).contains(x) by {
                assert(closed.contains(x));
            }
            lemma_distinct_subset_len(round_start, views(members@));
            assert(members@.len() >= before_len);
        }
    }
    (members, crossed)
}


proof fn lemma_filter_iff(s: Seq<IdentityView>, pred: spec_fn(IdentityView) -> bool, y: IdentityView)
    ensures
        s.filter(pred).contains(y) <==> (s.contains(y) && pred(y)),
{
    if s.filter(pred).contains(y) {
        s.lemma_filter_contains_rev(pred, y);
        let i = choose|i: int| 0 <= i < s.filter(pred).len() && s.filter(pred)[i] == y;
        s.lemma_filter_pred(pred, i);
    }
    if s.contains(y) && pred(y) {
        let i = choose|i: int| 0 <= i < s.len() && s[i] == y;
        s.lemma_filter_contains(pred, i);
    }
}

/// The component containing `x` lies outside every closed set that excludes `x`.
proof fn lemma_component_disjoint(
    comp: Seq<IdentityView>,
    x: IdentityView,
    ms: Seq<IdentityView>,
    other: Seq<IdentityView>,
    ge: Seq<GroupingEdgeView>,
)
    requires
        least_closure(comp, seq![x], ge),
        closed_under(ms, ge),
        closed_under(other, ge),
        ms.contains(x),
        !other.contains(x),
    ensures
        forall|y: IdentityView| comp.contains(y) ==> ms.contains(y) && !other.contains(y),
{
    let pred = |y: IdentityView| !other.contains(y);
    let d = ms.filter(pred);
    assert forall|y: IdentityView| d.contains(y) <==> (ms.contains(y) && !other.contains(y)) by {
        lemma_filter_iff(ms, pred, y);
    }
    assert(closed_under(d, ge)) by {
        assert forall|j: int| 0 <= j < ge.len() implies (d.contains((#[trigger] ge[j]).left) <==> d.contains(ge[j].right)) by {
            assert(ms.contains(ge[j].left) <==> ms.contains(ge[j].right));
            assert(other.contains(ge[j].left) <==> other.contains(ge[j].right));
        }
    }
    assert(subset_of(seq![x], d)) by {
        assert forall|y: IdentityView| seq![x].contains(y) implies d.contains(y) by {
            assert(seq![x][0] == x);
        }
    }
    assert(subset_of(comp, d));
}

/// The least closed set around one member is held together by the grouping edges.
proof fn lemma_connected_of_least(comp: Seq<IdentityView>, x: IdentityView, ms: Seq<IdentityView>, ge: Seq<GroupingEdgeView>)
    requires
        least_closure(comp, seq![x], ge),
        closed_under(ms, ge),
        ms.contains(x),
    ensures
        connected_set(comp, ge),
{
    assert forall|y: IdentityView, c: Seq<IdentityView>| #[trigger] comp.contains(y) && #[trigger] closed_under(c, ge) && c.contains(y) implies subset_of(comp, c) by {
        if !c.contains(x) {
            lemma_component_disjoint(comp, x, ms, c, ge);
        }
        assert(subset_of(seq![x], c)) by {
            assert forall|z: IdentityView| seq![x].contains(z) implies c.contains(z) by {
                assert(seq![x][0] == x);
            }
        }
    }
}

/// The sets of `comps` partition `ms`: each is nonempty, sorted, closed, and within `ms`; no
/// two overlap.
pub open spec fn partitions(comps: Seq<Seq<IdentityView>>, ms: Seq<IdentityView>, ge: Seq<GroupingEdgeView>) -> bool {
    &&& forall|a: int|
        0 <= a < comps.len() ==> id_set(#[trigger] comps[a]) && comps[a].len() > 0 && closed_under(comps[a], ge)
            && subset_of(comps[a], ms)
    &&& forall|a: int, b: int, y: IdentityView|
        0 <= a < b < comps.len() ==> !(#[trigger] comps[a].contains(y) && #[trigger] comps[b].contains(y))
}

pub open spec fn assigned_in(comps: Seq<Seq<IdentityView>>, y: IdentityView) -> bool {
    exists|a: int| 0 <= a < comps.len() && #[trigger] comps[a].contains(y)
}

pub open spec fn comp_views(c: Seq<Vec<ResourceIdentity>>) -> Seq<Seq<IdentityView>> {
    c.map_values(|v: Vec<ResourceIdentity>| views(v@))
}

/// Splits closed members into connected groups of grouping edges.
fn components(members: &Vec<ResourceIdentity>, edges: &Vec<GroupingEdge>, Ghost(u): Ghost<Seq<IdentityView>>) -> (r: Vec<
    Vec<ResourceIdentity>,
>)
    requires
        id_set(views(members@)),
        within(views(members@), u),
        closed_under(views(members@), views(edges@)),
        forall|j: int| 0 <= j < edges@.len() ==> u.contains((#[trigger] edges@[j])@.left) && u.contains(edges@[j]@.right),
    ensures
        partitions(comp_views(r@), views(members@), views(edges@)),
        forall|x: IdentityView|
            views(members@).contains(x) ==> exists|a: int| 0 <= a < r@.len() && #[trigger] comp_views(r@)[a].contains(x),
        forall|a: int| 0 <= a < r@.len() ==> connected_set(#[trigger] comp_views(r@)[a], views(edges@)),
{
    let ghost ms = views(members@);
    let ghost ge = views(edges@);
    let mut comps: Vec<Vec<ResourceIdentity>> = Vec::new();
    proof {
        assert(comp_views(comps@) =~= Seq::<Seq<IdentityView>>::empty());
    }
    let mut i: usize = 0;
    while i < members.len()
        invariant
            i <= members.len(),
            ms == views(members@),
            ge == views(edges@),
            id_set(ms),
            within(ms, u),
            closed_under(ms, ge),
            forall|j: int| 0 <= j < edges@.len() ==> u.contains((#[trigger] edges@[j])@.left) && u.contains(edges@[j]@.right),
            partitions(comp_views(comps@), ms, ge),
            forall|k: int| 0 <= k < i ==> assigned_in(comp_views(comps@), #[trigger] ms[k]),
            forall|a: int| 0 <= a < comps@.len() ==> connected_set(#[trigger] comp_views(comps@)[a], ge),
        decreases members.len() - i,
    {
        let x = &members[i];
        assert(ms[i as int] == x@);
        let mut assigned = false;
        let mut a: usize = 0;
        while a < comps.len()
            invariant
                a <= comps.len(),
                assigned <==> exists|b: int| 0 <= b < a && #[trigger] comp_views(comps@)[b].contains(x@),
            decreases comps.len() - a,
        {
            if contains_id(&comps[a], x) {
                assigned = true;
                assert(comp_views(comps@)[a as int] == views(comps@[a as int]@));
            }
            proof {
                assert(comp_views(comps@)[a as int] == views(comps@[a as int]@));
            }
            a = a + 1;
        }
        let ghost cv_before = comp_views(comps@);
        if !assigned {
            let mut seed: Vec<ResourceIdentity> = Vec::new();
            seed.push(x.clone());
            proof {
                assert(views(seed@) =~= seq![x@]);
                assert(id_set(views(seed@))) by {
                    assert forall|p: int, q: int| 0 <= p < q < views(seed@).len() implies !lex_lt(
                        identity_key(#[trigger] views(seed@)[q]),
                        identity_key(#[trigger] views(seed@)[p]),
                    ) by {}
                }
                assert(within(views(seed@), u)) by {
                    assert forall|y: IdentityView| views(seed@).contains(y) implies u.contains(y) by {
                        assert(ms.contains(x@));
                    }
                }
            }
            let comp = close_over_edges(seed, edges, Ghost(u));
            let ghost cv = views(comp@);
            proof {
                assert(cv.contains(x@)) by {
                    assert(views(seed@).contains(x@)) by {
                        assert(views(seed@)[0] == x@);
                    }
                }
                assert forall|y: IdentityView| cv.contains(y) implies ms.contains(y) by {
                    lemma_component_disjoint(cv, x@, ms, Seq::<IdentityView>::empty(), ge);
                }
                assert forall|b: int, y: IdentityView| 0 <= b < cv_before.len() && #[trigger] cv_before[b].contains(y) implies !cv.contains(y) by {
                    assert(!cv_before[b].contains(x@));
                    lemma_component_disjoint(cv, x@, ms, cv_before[b], ge);
                }
                lemma_connected_of_least(cv, x@, ms, ge);
            }
            comps.push(comp);
            proof {
                let after = comp_views(comps@);
                assert(after =~= cv_before.push(cv));
                assert(cv.len() > 0);
                assert forall|b: int, c: int, y: IdentityView|
                    0 <= b < c < after.len() implies !(#[trigger] after[b].contains(y) && #[trigger] after[c].contains(y)) by {
                    if c == cv_before.len() {
                        assert(after[b] == cv_before[b]);
                        assert(after[c] == cv);
                    } else {
                        assert(after[b] == cv_before[b]);
                        assert(after[c] == cv_before[c]);
                    }
                }
                assert forall|b: int|
                    0 <= b < after.len() implies id_set(#[trigger] after[b]) && after[b].len() > 0 && closed_under(after[b], ge)
                        && subset_of(after[b], ms) && connected_set(after[b], ge) by {
                    if b < cv_before.len() {
                        assert(after[b] == cv_before[b]);
                    }
                }
            }
        }
        proof {
            let after = comp_views(comps@);
            assert forall|k: int| 0 <= k < i + 1 implies assigned_in(after, #[trigger] ms[k]) by {
                if k < i {
                    assert(assigned_in(cv_before, ms[k]));
                    let b = choose|b: int| 0 <= b < cv_before.len() && #[trigger] cv_before[b].contains(ms[k]);
                    assert(after[b] == cv_before[b]);
                } else if !assigned {
                    assert(after[cv_before.len() as int].contains(ms[k]));
                } else {
                    let b = choose|b: int| 0 <= b < a && #[trigger] comp_views(comps@)[b].contains(x@);
                    assert(ms[k] == x@);
                    assert(0 <= b < comps@.len() && comp_views(comps@)[b].contains(ms[k]));
                }
            }
        }
        i = i + 1;
    }
    proof {
        assert forall|x: IdentityView|
            ms.contains(x) implies exists|a: int| 0 <= a < comps@.len() && #[trigger] comp_views(comps@)[a].contains(x) by {
            let k = choose|k: int| 0 <= k < ms.len() && ms[k] == x;
            assert(assigned_in(comp_views(comps@), ms[k]));
        }
    }
    comps
}


/// The direct prerequisites of a group: every prerequisite of one of its members that is not a
/// member itself.
pub open spec fn group_prerequisite(members: Seq<IdentityView>, es: Seq<DependencyView>, p: IdentityView) -> bool {
    exists|d: IdentityView| #[trigger] has_pair(es, d, p) && members.contains(d) && !members.contains(p)
}

fn prerequisites_of(members: &Vec<ResourceIdentity>, deps: &Vec<ResourceDependency>) -> (r: Vec<ResourceIdentity>)
    ensures
        id_set(views(r@)),
        forall|p: IdentityView| #[trigger] views(r@).contains(p) <==> group_prerequisite(views(members@), views(deps@), p),
{
    let ghost es = views(deps@);
    let ghost ms = views(members@);
    let mut out: Vec<ResourceIdentity> = Vec::new();
    proof {
        assert(views(out@) =~= Seq::<IdentityView>::empty());
    }
    let mut j: usize = 0;
    while j < deps.len()
        invariant
            j <= deps.len(),
            es == views(deps@),
            ms == views(members@),
            id_set(views(out@)),
            forall|p: IdentityView| #[trigger] views(out@).contains(p) <==> group_prerequisite(ms, es.take(j as int), p),
        decreases deps.len() - j,
    {
        let e = &deps[j];
        let ghost prefix = es.take(j as int);
        proof {
            assert(es.take(j + 1) =~= prefix.push(e@));
        }
        let hit = contains_id(members, &e.dependent) && !contains_id(members, &e.prerequisite);
        if hit {
            set_insert(&mut out, e.prerequisite.clone());
        }
        proof {
            assert forall|p: IdentityView| #[trigger] views(out@).contains(p) <==> group_prerequisite(ms, es.take(j + 1), p) by {
                if group_prerequisite(ms, es.take(j + 1), p) {
                    let d = choose|d: IdentityView| #[trigger] has_pair(es.take(j + 1), d, p) && ms.contains(d) && !ms.contains(p);
                    lemma_has_pair_push(prefix, e@, d, p);
                }
                if group_prerequisite(ms, prefix, p) {
                    let d = choose|d: IdentityView| #[trigger] has_pair(prefix, d, p) && ms.contains(d) && !ms.contains(p);
                    lemma_has_pair_push(prefix, e@, d, p);
                }
                if hit && p == e@.prerequisite {
                    lemma_has_pair_push(prefix, e@, e@.dependent, p);
                }
            }
        }
        j = j + 1;
    }
    proof {
        assert(es.take(j as int) =~= es);
    }
    out
}

impl SameValue for ResourceGroup {
    fn same_value(&self, other: &Self) -> (r: bool) {
        let a = crate::once::same_vec(&self.members, &other.members);
        let b = crate::once::same_vec(&self.prerequisites, &other.prerequisites);
        self.id.same_value(&other.id) && a && b
    }
}

impl Keyed for ResourceGroup {
    open spec fn key_of(v: GroupView) -> Seq<i64> {
        identity_key(v.id)
    }

    fn key(&self) -> (r: Vec<i64>) {
        identity_key_exec(&self.id)
    }
}

/// Groups are nonempty sorted sets led by their ID, closed under grouping edges, with their
/// exact direct prerequisites, and no two groups share a member.
pub open spec fn groups_well_formed(gs: Seq<GroupView>, ge: Seq<GroupingEdgeView>, es: Seq<DependencyView>) -> bool {
    &&& forall|a: int|
        0 <= a < gs.len() ==> id_set((#[trigger] gs[a]).members) && gs[a].members.len() > 0 && gs[a].id == gs[a].members[0]
            && closed_under(gs[a].members, ge) && id_set(gs[a].prerequisites) && forall|p: IdentityView|
            #[trigger] gs[a].prerequisites.contains(p) <==> group_prerequisite(gs[a].members, es, p)
    &&& forall|a: int, b: int, y: IdentityView|
        0 <= a < b < gs.len() ==> !(#[trigger] gs[a].members.contains(y) && #[trigger] gs[b].members.contains(y))
}

/// Some group holds `x`.
pub open spec fn grouped(gs: Seq<GroupView>, x: IdentityView) -> bool {
    exists|a: int| 0 <= a < gs.len() && #[trigger] gs[a].members.contains(x)
}

fn build_groups(
    members: &Vec<ResourceIdentity>,
    edges: &Vec<GroupingEdge>,
    deps: &Vec<ResourceDependency>,
    Ghost(u): Ghost<Seq<IdentityView>>,
) -> (r: Vec<ResourceGroup>)
    requires
        id_set(views(members@)),
        within(views(members@), u),
        closed_under(views(members@), views(edges@)),
        forall|j: int| 0 <= j < edges@.len() ==> u.contains((#[trigger] edges@[j])@.left) && u.contains(edges@[j]@.right),
    ensures
        groups_well_formed(views(r@), views(edges@), views(deps@)),
        keys_sorted::<ResourceGroup>(views(r@)),
        forall|x: IdentityView| #[trigger] grouped(views(r@), x) <==> views(members@).contains(x),
        forall|a: int| 0 <= a < r@.len() ==> connected_set((#[trigger] views(r@)[a]).members, views(edges@)),
{
    let ghost ms = views(members@);
    let ghost ge = views(edges@);
    let ghost es = views(deps@);
    let comps = components(members, edges, Ghost(u));
    let ghost cs = comp_views(comps@);
    let mut groups: Vec<ResourceGroup> = Vec::new();
    let mut a: usize = 0;
    while a < comps.len()
        invariant
            a <= comps.len(),
            cs == comp_views(comps@),
            ms == views(members@),
            ge == views(edges@),
            es == views(deps@),
            partitions(cs, ms, ge),
            groups@.len() == a,
            forall|b: int| 0 <= b < a ==> (#[trigger] views(groups@)[b]).members == cs[b] && views(groups@)[b].id == cs[b][0]
                && id_set(views(groups@)[b].prerequisites) && forall|p: IdentityView|
                #[trigger] views(groups@)[b].prerequisites.contains(p) <==> group_prerequisite(cs[b], es, p),
        decreases comps.len() - a,
    {
        let comp = &comps[a];
        assert(cs[a as int] == views(comp@));
        let prerequisites = prerequisites_of(comp, deps);
        let members_copy = crate::once::duplicate_vec(comp);
        let id = comp[0].clone();
        let ghost before = views(groups@);
        let g = ResourceGroup { id, members: members_copy, prerequisites };
        let ghost gv = g@;
        groups.push(g);
        proof {
            assert(views(groups@) =~= before.push(gv));
            assert(gv.id == cs[a as int][0]) by {
                assert(views(comp@)[0] == comp@[0]@);
            }
        }
        a = a + 1;
    }
    let ghost unsorted = views(groups@);
    proof {
        assert(unsorted.len() == cs.len());
        assert forall|b: int, c: int| 0 <= b < c < unsorted.len() implies unsorted[b] != unsorted[c] by {
            let y = cs[b][0];
            assert(cs[b].contains(y));
            if unsorted[b] == unsorted[c] {
                assert(cs[c].contains(y));
            }
        }
    }
    let sorted = sort_distinct(groups);
    proof {
        let out = views(sorted@);
        assert forall|b: int| #![trigger out[b]] 0 <= b < out.len() implies exists|c: int| 0 <= c < unsorted.len() && out[b] == #[trigger] unsorted[c] by {
            assert(out.contains(out[b]));
            assert(unsorted.contains(out[b]));
        }
        assert forall|b: int|
            0 <= b < out.len() implies id_set((#[trigger] out[b]).members) && out[b].members.len() > 0 && out[b].id
                == out[b].members[0] && closed_under(out[b].members, ge) && id_set(out[b].prerequisites) && forall|p: IdentityView|
                #[trigger] out[b].prerequisites.contains(p) <==> group_prerequisite(out[b].members, es, p) by {
            let c = choose|c: int| 0 <= c < unsorted.len() && out[b] == #[trigger] unsorted[c];
            assert(unsorted[c].members == cs[c]);
        }
        assert forall|b: int, c: int, y: IdentityView|
            0 <= b < c < out.len() implies !(#[trigger] out[b].members.contains(y) && #[trigger] out[c].members.contains(y)) by {
            let b2 = choose|b2: int| 0 <= b2 < unsorted.len() && out[b] == #[trigger] unsorted[b2];
            let c2 = choose|c2: int| 0 <= c2 < unsorted.len() && out[c] == #[trigger] unsorted[c2];
            assert(out[b] != out[c]);
            assert(b2 != c2);
            assert(unsorted[b2].members == cs[b2]);
            assert(unsorted[c2].members == cs[c2]);
            if b2 < c2 {
                assert(!(cs[b2].contains(y) && cs[c2].contains(y)));
            } else {
                assert(!(cs[c2].contains(y) && cs[b2].contains(y)));
            }
        }
        assert forall|x: IdentityView| #[trigger] grouped(out, x) <==> ms.contains(x) by {
            if grouped(out, x) {
                let b = choose|b: int| 0 <= b < out.len() && #[trigger] out[b].members.contains(x);
                let c = choose|c: int| 0 <= c < unsorted.len() && out[b] == #[trigger] unsorted[c];
                assert(unsorted[c].members == cs[c]);
                assert(subset_of(cs[c], ms));
            }
            if ms.contains(x) {
                let c = choose|c: int| 0 <= c < comps@.len() && #[trigger] comp_views(comps@)[c].contains(x);
                assert(unsorted[c].members == cs[c]);
                assert(unsorted.contains(unsorted[c]));
                assert(out.contains(unsorted[c]));
                let b = choose|b: int| 0 <= b < out.len() && out[b] == unsorted[c];
                assert(out[b].members.contains(x));
            }
        }
        assert forall|b: int| 0 <= b < out.len() implies connected_set((#[trigger] out[b]).members, ge) by {
            let c = choose|c: int| 0 <= c < unsorted.len() && out[b] == #[trigger] unsorted[c];
            assert(unsorted[c].members == cs[c]);
        }
    }
    sorted
}


/// A prerequisite of two different groups.
pub open spec fn shared_prerequisite(gs: Seq<GroupView>, p: IdentityView) -> bool {
    exists|a: int, b: int|
        0 <= a < gs.len() && 0 <= b < gs.len() && a != b && #[trigger] gs[a].prerequisites.contains(p)
            && #[trigger] gs[b].prerequisites.contains(p)
}

fn shared_prerequisites(groups: &Vec<ResourceGroup>) -> (r: Vec<ResourceIdentity>)
    ensures
        id_set(views(r@)),
        forall|p: IdentityView| #[trigger] views(r@).contains(p) <==> shared_prerequisite(views(groups@), p),
{
    let ghost gs = views(groups@);
    let mut out: Vec<ResourceIdentity> = Vec::new();
    proof {
        assert(views(out@) =~= Seq::<IdentityView>::empty());
    }
    let mut a: usize = 0;
    while a < groups.len()
        invariant
            a <= groups.len(),
            gs == views(groups@),
            id_set(views(out@)),
            forall|p: IdentityView| #[trigger] views(out@).contains(p) <==> exists|x: int, y: int|
                0 <= x < a && 0 <= y < gs.len() && x != y && #[trigger] gs[x].prerequisites.contains(p)
                    && #[trigger] gs[y].prerequisites.contains(p),
        decreases groups.len() - a,
    {
        let prereqs = groups[a].prerequisites();
        assert(views(prereqs@) == gs[a as int].prerequisites);
        let ghost before_a = views(out@);
        let mut k: usize = 0;
        while k < prereqs.len()
            invariant
                k <= prereqs.len(),
                a < groups.len(),
                gs == views(groups@),
                views(prereqs@) == gs[a as int].prerequisites,
                id_set(views(out@)),
                forall|p: IdentityView| #[trigger] views(out@).contains(p) <==> (before_a.contains(p) || (views(prereqs@).take(
                    k as int,
                ).contains(p) && exists|y: int| 0 <= y < gs.len() && y != a && #[trigger] gs[y].prerequisites.contains(p))),
            decreases prereqs.len() - k,
        {
            let p = &prereqs[k];
            let mut elsewhere = false;
            let mut b: usize = 0;
            while b < groups.len()
                invariant
                    b <= groups.len(),
                    gs == views(groups@),
                    elsewhere <==> exists|y: int| 0 <= y < b && y != a && #[trigger] gs[y].prerequisites.contains(p@),
                decreases groups.len() - b,
            {
                if b != a {
                    let q = groups[b].prerequisites();
                    assert(views(q@) == gs[b as int].prerequisites);
                    let ghost qv = views(q@);
                    let mut found = false;
                    let mut t: usize = 0;
                    while t < q.len()
                        invariant
                            t <= q.len(),
                            found <==> views(q@).take(t as int).contains(p@),
                        decreases q.len() - t,
                    {
                        if q[t].same_value(p) {
                            found = true;
                        }
                        proof {
                            assert(views(q@).take(t + 1) =~= views(q@).take(t as int).push(views(q@)[t as int]));
                            lemma_push_contains(views(q@).take(t as int), views(q@)[t as int], p@);
                        }
                        t = t + 1;
                    }
                    proof {
                        assert(views(q@).take(t as int) =~= views(q@));
                    }
                    if found {
                        elsewhere = true;
                    }
                }
                b = b + 1;
            }
            let ghost ob = views(out@);
            if elsewhere {
                set_insert(&mut out, p.clone());
            }
            proof {
                let pre = views(prereqs@).take(k as int);
                assert(views(prereqs@).take(k + 1) =~= pre.push(p@));
                assert forall|x: IdentityView| #[trigger] views(out@).contains(x) <==> (before_a.contains(x) || (views(prereqs@).take(
                    k + 1,
                ).contains(x) && exists|y: int| 0 <= y < gs.len() && y != a && #[trigger] gs[y].prerequisites.contains(x))) by {
                    lemma_push_contains(pre, p@, x);
                }
            }
            k = k + 1;
        }
        proof {
            assert(views(prereqs@).take(k as int) =~= views(prereqs@));
            assert forall|p: IdentityView| #[trigger] views(out@).contains(p) <==> exists|x: int, y: int|
                0 <= x < a + 1 && 0 <= y < gs.len() && x != y && #[trigger] gs[x].prerequisites.contains(p)
                    && #[trigger] gs[y].prerequisites.contains(p) by {
                if exists|x: int, y: int|
                    0 <= x < a + 1 && 0 <= y < gs.len() && x != y && #[trigger] gs[x].prerequisites.contains(p)
                        && #[trigger] gs[y].prerequisites.contains(p) {
                    let (x, y) = choose|x: int, y: int|
                        0 <= x < a + 1 && 0 <= y < gs.len() && x != y && #[trigger] gs[x].prerequisites.contains(p)
                            && #[trigger] gs[y].prerequisites.contains(p);
                    if x < a {
                        assert(before_a.contains(p));
                    }
                }
                if before_a.contains(p) {
                    let (x, y) = choose|x: int, y: int|
                        0 <= x < a && 0 <= y < gs.len() && x != y && #[trigger] gs[x].prerequisites.contains(p)
                            && #[trigger] gs[y].prerequisites.contains(p);
                    assert(0 <= x < a + 1);
                }
            }
        }
        a = a + 1;
    }
    out
}

/// Keeps the dependency edges whose dependent is grouped, sorted by dependent then prerequisite.
fn grouped_dependencies(deps: &Vec<ResourceDependency>, groups: &Vec<ResourceGroup>) -> (r: Vec<ResourceDependency>)
    requires
        edges_well_formed(views(deps@)),
    ensures
        edges_well_formed(views(r@)),
        keys_sorted::<ResourceDependency>(views(r@)),
        forall|d: IdentityView, p: IdentityView|
            #[trigger] has_pair(views(r@), d, p) <==> (has_pair(views(deps@), d, p) && grouped(views(groups@), d)),
        forall|d: IdentityView, p: IdentityView, path: Seq<char>|
            #[trigger] pair_path(views(r@), d, p, path) <==> (pair_path(views(deps@), d, p, path) && grouped(views(groups@), d)),
{
    let ghost es = views(deps@);
    let ghost gs = views(groups@);
    let mut kept: Vec<ResourceDependency> = Vec::new();
    proof {
        assert(views(kept@) =~= Seq::<DependencyView>::empty());
    }
    let mut j: usize = 0;
    while j < deps.len()
        invariant
            j <= deps.len(),
            es == views(deps@),
            gs == views(groups@),
            edges_well_formed(es),
            forall|x: DependencyView| #[trigger] views(kept@).contains(x) <==> (es.take(j as int).contains(x) && grouped(gs, x.dependent)),
        decreases deps.len() - j,
    {
        let e = &deps[j];
        let ghost prefix = es.take(j as int);
        proof {
            assert(es.take(j + 1) =~= prefix.push(e@));
        }
        let g = is_grouped(groups, &e.dependent);
        let ghost kb = views(kept@);
        if g {
            let c = e.clone();
            let ghost cv = c@;
            kept.push(c);
            assert(views(kept@) =~= kb.push(cv));
        }
        proof {
            assert forall|x: DependencyView| #[trigger] views(kept@).contains(x) <==> (es.take(j + 1).contains(x) && grouped(gs, x.dependent)) by {
                lemma_push_contains(prefix, e@, x);
                if g {
                    lemma_push_contains(kb, e@, x);
                }
            }
        }
        j = j + 1;
    }
    proof {
        assert(es.take(j as int) =~= es);
    }
    let ghost unsorted = views(kept@);
    let sorted = sort_distinct(kept);
    proof {
        let out = views(sorted@);
        assert forall|x: DependencyView| out.contains(x) <==> (es.contains(x) && grouped(gs, x.dependent)) by {}
        assert forall|d: IdentityView, p: IdentityView| #[trigger] has_pair(out, d, p) <==> (has_pair(es, d, p) && grouped(gs, d)) by {
            if has_pair(out, d, p) {
                let m = choose|m: int| 0 <= m < out.len() && (#[trigger] out[m]).dependent == d && out[m].prerequisite == p;
                assert(out.contains(out[m]));
                let k = choose|k: int| 0 <= k < es.len() && es[k] == out[m];
            }
            if has_pair(es, d, p) && grouped(gs, d) {
                let m = choose|m: int| 0 <= m < es.len() && (#[trigger] es[m]).dependent == d && es[m].prerequisite == p;
                assert(es.contains(es[m]));
                assert(out.contains(es[m]));
                let k = choose|k: int| 0 <= k < out.len() && out[k] == es[m];
            }
        }
        assert forall|d: IdentityView, p: IdentityView, path: Seq<char>|
            #[trigger] pair_path(out, d, p, path) <==> (pair_path(es, d, p, path) && grouped(gs, d)) by {
            if pair_path(out, d, p, path) {
                let m = choose|m: int|
                    0 <= m < out.len() && (#[trigger] out[m]).dependent == d && out[m].prerequisite == p && out[m].field_paths.contains(path);
                assert(out.contains(out[m]));
                let k = choose|k: int| 0 <= k < es.len() && es[k] == out[m];
            }
            if pair_path(es, d, p, path) && grouped(gs, d) {
                let m = choose|m: int|
                    0 <= m < es.len() && (#[trigger] es[m]).dependent == d && es[m].prerequisite == p && es[m].field_paths.contains(path);
                assert(es.contains(es[m]));
                assert(out.contains(es[m]));
                let k = choose|k: int| 0 <= k < out.len() && out[k] == es[m];
            }
        }
        assert forall|a: int, b: int|
            0 <= a < b < out.len() implies !((#[trigger] out[a]).dependent == (#[trigger] out[b]).dependent
                && out[a].prerequisite == out[b].prerequisite) by {
            assert(out.contains(out[a]) && out.contains(out[b]));
            let ka = choose|k: int| 0 <= k < es.len() && es[k] == out[a];
            let kb = choose|k: int| 0 <= k < es.len() && es[k] == out[b];
            if out[a].dependent == out[b].dependent && out[a].prerequisite == out[b].prerequisite {
                if ka < kb {
                    assert(!(es[ka].dependent == es[kb].dependent && es[ka].prerequisite == es[kb].prerequisite));
                } else if kb < ka {
                    assert(!(es[kb].dependent == es[ka].dependent && es[kb].prerequisite == es[ka].prerequisite));
                }
            }
        }
        assert forall|m: int|
            0 <= m < out.len() implies keys_sorted::<String>((#[trigger] out[m]).field_paths) && distinct(out[m].field_paths) by {
            assert(out.contains(out[m]));
            let k = choose|k: int| 0 <= k < es.len() && es[k] == out[m];
        }
    }
    sorted
}

fn is_grouped(groups: &Vec<ResourceGroup>, x: &ResourceIdentity) -> (r: bool)
    ensures
        r == grouped(views(groups@), x@),
{
    let ghost gs = views(groups@);
    let mut a: usize = 0;
    while a < groups.len()
        invariant
            a <= groups.len(),
            gs == views(groups@),
            forall|b: int| 0 <= b < a ==> !(#[trigger] gs[b]).members.contains(x@),
        decreases groups.len() - a,
    {
        let ms = groups[a].members();
        assert(views(ms@) == gs[a as int].members);
        let mut k: usize = 0;
        while k < ms.len()
            invariant
                k <= ms.len(),
                a < groups.len(),
                gs == views(groups@),
                views(ms@) == gs[a as int].members,
                forall|t: int| 0 <= t < k ==> views(ms@)[t] != x@,
            decreases ms.len() - k,
        {
            if ms[k].same_value(x) {
                assert(views(ms@)[k as int] == x@);
                assert(gs[a as int].members.contains(x@));
                return true;
            }
            k = k + 1;
        }
        proof {
            if gs[a as int].members.contains(x@) {
                let t = choose|t: int| 0 <= t < views(ms@).len() && views(ms@)[t] == x@;
            }
        }
        a = a + 1;
    }
    false
}

/// Keeps the grouping edges whose two ends are grouped.
fn grouped_edges(edges: &Vec<GroupingEdge>, groups: &Vec<ResourceGroup>) -> (r: Vec<GroupingEdge>)
    requires
        grouping_well_formed(views(edges@)),
    ensures
        grouping_well_formed(views(r@)),
        keys_sorted::<GroupingEdge>(views(r@)),
        forall|x: GroupingEdgeView| #[trigger] views(r@).contains(x) <==> (views(edges@).contains(x) && grouped(views(groups@), x.left)
            && grouped(views(groups@), x.right)),
{
    let ghost es = views(edges@);
    let ghost gs = views(groups@);
    let mut kept: Vec<GroupingEdge> = Vec::new();
    proof {
        assert(views(kept@) =~= Seq::<GroupingEdgeView>::empty());
    }
    let mut j: usize = 0;
    while j < edges.len()
        invariant
            j <= edges.len(),
            es == views(edges@),
            gs == views(groups@),
            forall|x: GroupingEdgeView| #[trigger] views(kept@).contains(x) <==> (es.take(j as int).contains(x) && grouped(gs, x.left)
                && grouped(gs, x.right)),
        decreases edges.len() - j,
    {
        let e = &edges[j];
        let ghost prefix = es.take(j as int);
        proof {
            assert(es.take(j + 1) =~= prefix.push(e@));
        }
        let g = is_grouped(groups, &e.left) && is_grouped(groups, &e.right);
        let ghost kb = views(kept@);
        if g {
            let c = e.clone();
            let ghost cv = c@;
            kept.push(c);
            assert(views(kept@) =~= kb.push(cv));
        }
        proof {
            assert forall|x: GroupingEdgeView| #[trigger] views(kept@).contains(x) <==> (es.take(j + 1).contains(x) && grouped(gs, x.left)
                && grouped(gs, x.right)) by {
                lemma_push_contains(prefix, e@, x);
                if g {
                    lemma_push_contains(kb, e@, x);
                }
            }
        }
        j = j + 1;
    }
    proof {
        assert(es.take(j as int) =~= es);
    }
    let sorted = sort_distinct(kept);
    proof {
        let out = views(sorted@);
        assert forall|a: int, b: int|
            0 <= a < b < out.len() implies !((#[trigger] out[a]).left == (#[trigger] out[b]).left && out[a].right == out[b].right
                && out[a].evidence == out[b].evidence) by {
            assert(out.contains(out[a]) && out.contains(out[b]));
            let ka = choose|k: int| 0 <= k < es.len() && es[k] == out[a];
            let kb = choose|k: int| 0 <= k < es.len() && es[k] == out[b];
            if out[a].left == out[b].left && out[a].right == out[b].right && out[a].evidence == out[b].evidence {
                if ka < kb {
                    assert(!(es[ka].left == es[kb].left && es[ka].right == es[kb].right && es[ka].evidence == es[kb].evidence));
                } else if kb < ka {
                    assert(!(es[kb].left == es[ka].left && es[kb].right == es[ka].right && es[kb].evidence == es[ka].evidence));
                }
            }
        }
        assert forall|m: int|
            0 <= m < out.len() implies keys_sorted::<String>((#[trigger] out[m]).field_paths) && distinct(out[m].field_paths)
                && lex_lt(identity_key(out[m].left), identity_key(out[m].right)) by {
            assert(out.contains(out[m]));
            let k = choose|k: int| 0 <= k < es.len() && es[k] == out[m];
        }
    }
    sorted
}


// ---------------------------------------------------------------------------------------------
// Explanations.
// ---------------------------------------------------------------------------------------------
/// An explanation of `kind` about `resource` alone.
pub open spec fn plain_explanation(kind: DiscoveryExplanationKind, resource: IdentityView) -> ExplanationView {
    ExplanationView { kind, resource, related: None, position: None, root_origin: None }
}

/// An explanation of `kind` about `resource` in the group led by `group`.
pub open spec fn group_explanation(kind: DiscoveryExplanationKind, resource: IdentityView, group: IdentityView) -> ExplanationView {
    ExplanationView { kind, resource, related: Some(group), position: None, root_origin: None }
}

/// The explanations of the groups: each group's position, members, and prerequisites.
pub open spec fn group_explained(gs: Seq<GroupView>, x: ExplanationView) -> bool {
    exists|a: int|
        0 <= a < gs.len() && (x == (ExplanationView {
            kind: DiscoveryExplanationKind::GroupOrdering,
            resource: (#[trigger] gs[a]).id,
            related: None,
            position: Some(a as usize),
            root_origin: None,
        }) || (x.kind == DiscoveryExplanationKind::IncludedMember && gs[a].members.contains(x.resource) && x
            == group_explanation(DiscoveryExplanationKind::IncludedMember, x.resource, gs[a].id)) || (x.kind
            == DiscoveryExplanationKind::Prerequisite && gs[a].prerequisites.contains(x.resource) && x == group_explanation(
            DiscoveryExplanationKind::Prerequisite,
            x.resource,
            gs[a].id,
        )))
}

fn push_explanation(out: Vec<DiscoveryExplanation>, e: DiscoveryExplanation) -> (r: Vec<DiscoveryExplanation>)
    ensures
        views(r@) == views(out@).push(e@),
{
    let mut out = out;
    let ghost before = views(out@);
    let ghost ev = e@;
    out.push(e);
    assert(views(out@) =~= before.push(ev));
    out
}

fn explain_members(out: Vec<DiscoveryExplanation>, kind: DiscoveryExplanationKind, items: &[ResourceIdentity], group: &ResourceIdentity) -> (r:
    Vec<DiscoveryExplanation>)
    ensures
        forall|x: ExplanationView| #[trigger] views(r@).contains(x) <==> (views(out@).contains(x) || (views(items@).contains(x.resource)
            && x == group_explanation(kind, x.resource, group@))),
{
    let ghost start = views(out@);
    let mut out = out;
    let mut k: usize = 0;
    while k < items.len()
        invariant
            k <= items.len(),
            forall|x: ExplanationView| #[trigger] views(out@).contains(x) <==> (start.contains(x) || (views(items@).take(k as int).contains(
                x.resource,
            ) && x == group_explanation(kind, x.resource, group@))),
        decreases items.len() - k,
    {
        let ghost before = views(out@);
        let e = DiscoveryExplanation::new(kind, items[k].clone(), Some(group.clone()), None, None);
        let ghost ev = e@;
        out = push_explanation(out, e);
        proof {
            let pre = views(items@).take(k as int);
            assert(views(items@).take(k + 1) =~= pre.push(items@[k as int]@));
            assert forall|x: ExplanationView| #[trigger] views(out@).contains(x) <==> (start.contains(x) || (views(items@).take(
                k + 1,
            ).contains(x.resource) && x == group_explanation(kind, x.resource, group@))) by {
                lemma_push_contains(before, ev, x);
                lemma_push_contains(pre, items@[k as int]@, x.resource);
            }
        }
        k = k + 1;
    }
    proof {
        assert(views(items@).take(k as int) =~= views(items@));
    }
    out
}

fn explain_groups(out: Vec<DiscoveryExplanation>, groups: &Vec<ResourceGroup>) -> (r: Vec<DiscoveryExplanation>)
    ensures
        forall|x: ExplanationView| #[trigger] views(r@).contains(x) <==> (views(out@).contains(x) || group_explained(views(groups@), x)),
{
    let ghost start = views(out@);
    let ghost gs = views(groups@);
    let mut out = out;
    let mut a: usize = 0;
    while a < groups.len()
        invariant
            a <= groups.len(),
            gs == views(groups@),
            forall|x: ExplanationView| #[trigger] views(out@).contains(x) <==> (start.contains(x) || group_explained(gs.take(a as int), x)),
        decreases groups.len() - a,
    {
        let g = &groups[a];
        assert(gs[a as int] == g@);
        let ghost before = views(out@);
        let e = DiscoveryExplanation::new(DiscoveryExplanationKind::GroupOrdering, g.id.clone(), None, Some(a), None);
        let ghost ev = e@;
        out = push_explanation(out, e);
        let ghost mid = views(out@);
        out = explain_members(out, DiscoveryExplanationKind::IncludedMember, g.members(), &g.id);
        let ghost mid2 = views(out@);
        out = explain_members(out, DiscoveryExplanationKind::Prerequisite, g.prerequisites(), &g.id);
        proof {
            let pre = gs.take(a as int);
            let nxt = gs.take(a + 1);
            assert(nxt =~= pre.push(g@));
            assert forall|x: ExplanationView| #[trigger] views(out@).contains(x) <==> (start.contains(x) || group_explained(nxt, x)) by {
                lemma_push_contains(before, ev, x);
                if group_explained(nxt, x) {
                    let b = choose|b: int|
                        0 <= b < nxt.len() && (x == (ExplanationView {
                            kind: DiscoveryExplanationKind::GroupOrdering,
                            resource: (#[trigger] nxt[b]).id,
                            related: None,
                            position: Some(b as usize),
                            root_origin: None,
                        }) || (x.kind == DiscoveryExplanationKind::IncludedMember && nxt[b].members.contains(x.resource) && x
                            == group_explanation(DiscoveryExplanationKind::IncludedMember, x.resource, nxt[b].id)) || (x.kind
                            == DiscoveryExplanationKind::Prerequisite && nxt[b].prerequisites.contains(x.resource) && x
                            == group_explanation(DiscoveryExplanationKind::Prerequisite, x.resource, nxt[b].id)));
                    if b < a {
                        assert(pre[b] == nxt[b]);
                        assert(group_explained(pre, x));
                    }
                }
                if group_explained(pre, x) {
                    let b = choose|b: int|
                        0 <= b < pre.len() && (x == (ExplanationView {
                            kind: DiscoveryExplanationKind::GroupOrdering,
                            resource: (#[trigger] pre[b]).id,
                            related: None,
                            position: Some(b as usize),
                            root_origin: None,
                        }) || (x.kind == DiscoveryExplanationKind::IncludedMember && pre[b].members.contains(x.resource) && x
                            == group_explanation(DiscoveryExplanationKind::IncludedMember, x.resource, pre[b].id)) || (x.kind
                            == DiscoveryExplanationKind::Prerequisite && pre[b].prerequisites.contains(x.resource) && x
                            == group_explanation(DiscoveryExplanationKind::Prerequisite, x.resource, pre[b].id)));
                    assert(nxt[b] == pre[b]);
                }
                let aa = a as int;
                if x == ev || (x.kind == DiscoveryExplanationKind::IncludedMember && g@.members.contains(x.resource) && x
                    == group_explanation(DiscoveryExplanationKind::IncludedMember, x.resource, g@.id)) || (x.kind
                    == DiscoveryExplanationKind::Prerequisite && g@.prerequisites.contains(x.resource) && x == group_explanation(
                    DiscoveryExplanationKind::Prerequisite,
                    x.resource,
                    g@.id,
                )) {
                    assert(nxt[aa] == g@);
                }
            }
        }
        a = a + 1;
    }
    proof {
        assert(gs.take(a as int) =~= gs);
    }
    out
}

fn explain_each(out: Vec<DiscoveryExplanation>, kind: DiscoveryExplanationKind, items: &Vec<ResourceIdentity>) -> (r: Vec<
    DiscoveryExplanation,
>)
    ensures
        forall|x: ExplanationView| #[trigger] views(r@).contains(x) <==> (views(out@).contains(x) || (views(items@).contains(x.resource)
            && x == plain_explanation(kind, x.resource))),
{
    let ghost start = views(out@);
    let mut out = out;
    let mut k: usize = 0;
    while k < items.len()
        invariant
            k <= items.len(),
            forall|x: ExplanationView| #[trigger] views(out@).contains(x) <==> (start.contains(x) || (views(items@).take(k as int).contains(
                x.resource,
            ) && x == plain_explanation(kind, x.resource))),
        decreases items.len() - k,
    {
        let ghost before = views(out@);
        let e = DiscoveryExplanation::new(kind, items[k].clone(), None, None, None);
        let ghost ev = e@;
        out = push_explanation(out, e);
        proof {
            let pre = views(items@).take(k as int);
            assert(views(items@).take(k + 1) =~= pre.push(items@[k as int]@));
            assert forall|x: ExplanationView| #[trigger] views(out@).contains(x) <==> (start.contains(x) || (views(items@).take(
                k + 1,
            ).contains(x.resource) && x == plain_explanation(kind, x.resource))) by {
                lemma_push_contains(before, ev, x);
                lemma_push_contains(pre, items@[k as int]@, x.resource);
            }
        }
        k = k + 1;
    }
    proof {
        assert(views(items@).take(k as int) =~= views(items@));
    }
    out
}

fn explain_roots(out: Vec<DiscoveryExplanation>, origins: &Vec<RootEntry>) -> (r: Vec<DiscoveryExplanation>)
    ensures
        forall|x: ExplanationView| #[trigger] views(r@).contains(x) <==> (views(out@).contains(x) || (x.kind
            == DiscoveryExplanationKind::Root && x.related is None && x.position is None && x.root_origin is Some && views(
            origins@,
        ).contains(RootEntryView { identity: x.resource, origin: x.root_origin->0 }))),
{
    let ghost start = views(out@);
    let mut out = out;
    let mut k: usize = 0;
    while k < origins.len()
        invariant
            k <= origins.len(),
            forall|x: ExplanationView| #[trigger] views(out@).contains(x) <==> (start.contains(x) || (x.kind
                == DiscoveryExplanationKind::Root && x.related is None && x.position is None && x.root_origin is Some && views(
                origins@,
            ).take(k as int).contains(RootEntryView { identity: x.resource, origin: x.root_origin->0 }))),
        decreases origins.len() - k,
    {
        let ghost before = views(out@);
        let entry = &origins[k];
        let e = DiscoveryExplanation::new(DiscoveryExplanationKind::Root, entry.identity.clone(), None, None, Some(entry.origin));
        let ghost ev = e@;
        out = push_explanation(out, e);
        proof {
            let pre = views(origins@).take(k as int);
            assert(views(origins@).take(k + 1) =~= pre.push(entry@));
            assert forall|x: ExplanationView| #[trigger] views(out@).contains(x) <==> (start.contains(x) || (x.kind
                == DiscoveryExplanationKind::Root && x.related is None && x.position is None && x.root_origin is Some && views(
                origins@,
            ).take(k + 1).contains(RootEntryView { identity: x.resource, origin: x.root_origin->0 }))) by {
                lemma_push_contains(before, ev, x);
                if x.root_origin is Some {
                    lemma_push_contains(pre, entry@, RootEntryView { identity: x.resource, origin: x.root_origin->0 });
                }
            }
        }
        k = k + 1;
    }
    proof {
        assert(views(origins@).take(k as int) =~= views(origins@));
    }
    out
}

fn explain_merges(out: Vec<DiscoveryExplanation>, edges: &Vec<GroupingEdge>) -> (r: Vec<DiscoveryExplanation>)
    ensures
        forall|x: ExplanationView| #[trigger] views(r@).contains(x) <==> (views(out@).contains(x) || exists|m: int|
            0 <= m < edges@.len() && x == plain_explanation(DiscoveryExplanationKind::StrongEvidenceMerge, (#[trigger] edges@[m])@.left).with_related(
                edges@[m]@.right,
            )),
{
    let ghost start = views(out@);
    let mut out = out;
    let mut k: usize = 0;
    while k < edges.len()
        invariant
            k <= edges.len(),
            forall|x: ExplanationView| #[trigger] views(out@).contains(x) <==> (start.contains(x) || exists|m: int|
                0 <= m < k && x == plain_explanation(DiscoveryExplanationKind::StrongEvidenceMerge, (#[trigger] edges@[m])@.left).with_related(
                    edges@[m]@.right,
                )),
        decreases edges.len() - k,
    {
        let ghost before = views(out@);
        let edge = &edges[k];
        let e = DiscoveryExplanation::new(
            DiscoveryExplanationKind::StrongEvidenceMerge,
            edge.left.clone(),
            Some(edge.right.clone()),
            None,
            None,
        );
        let ghost ev = e@;
        out = push_explanation(out, e);
        proof {
            assert(ev == plain_explanation(DiscoveryExplanationKind::StrongEvidenceMerge, edges@[k as int]@.left).with_related(
                edges@[k as int]@.right,
            ));
            assert forall|x: ExplanationView| #[trigger] views(out@).contains(x) <==> (start.contains(x) || exists|m: int|
                0 <= m < k + 1 && x == plain_explanation(DiscoveryExplanationKind::StrongEvidenceMerge, (#[trigger] edges@[m])@.left).with_related(
                    edges@[m]@.right,
                )) by {
                lemma_push_contains(before, ev, x);
                if exists|m: int|
                    0 <= m < k + 1 && x == plain_explanation(DiscoveryExplanationKind::StrongEvidenceMerge, (#[trigger] edges@[m])@.left).with_related(
                        edges@[m]@.right,
                    ) {
                    let m = choose|m: int|
                        0 <= m < k + 1 && x == plain_explanation(DiscoveryExplanationKind::StrongEvidenceMerge, (#[trigger] edges@[m])@.left).with_related(
                            edges@[m]@.right,
                        );
                    if m < k {
                        assert(before.contains(x));
                    }
                }
            }
        }
        k = k + 1;
    }
    out
}

impl ExplanationView {
    /// The same explanation, related to `other`.
    pub open spec fn with_related(self, other: IdentityView) -> ExplanationView {
        ExplanationView { related: Some(other), ..self }
    }
}


// ---------------------------------------------------------------------------------------------
// Everything discovery names is an observed resource.
// ---------------------------------------------------------------------------------------------
proof fn lemma_record_in_universe(recs: Seq<ObservationRecord>, i: int)
    requires
        0 <= i < recs.len(),
    ensures
        universe(recs).contains(recs[i].identity@),
{
    assert(universe(recs)[i] == recs[i].identity@);
}

proof fn lemma_resolution_in_universe(recs: Seq<ObservationRecord>, kind: ResourceKind, reference: Seq<char>)
    ensures
        resolution(recs, kind, reference) matches Resolved::Unique(v) ==> universe(recs).contains(v),
{
    if resolution(recs, kind, reference) is Unique {
        if !(exists|i: int, j: int|
            i != j && #[trigger] selector_hit(recs, kind, reference, i) && #[trigger] selector_hit(recs, kind, reference, j)) {
            let i = choose|i: int| #[trigger] selector_hit(recs, kind, reference, i);
            lemma_record_in_universe(recs, i);
        }
    }
}

proof fn lemma_outcome_in_universe(recs: Seq<ObservationRecord>, kind: ResourceKind, refs: Seq<Seq<char>>, acc: Seq<IdentityView>)
    requires
        forall|x: IdentityView| acc.contains(x) ==> universe(recs).contains(x),
    ensures
        rel_outcome_from(recs, kind, refs, acc) matches RelOutcome::Unique(v) ==> universe(recs).contains(v),
    decreases refs.len(),
{
    if refs.len() == 0 {
        if acc.len() == 1 {
            assert(acc.contains(acc[0]));
        }
    } else {
        lemma_resolution_in_universe(recs, kind, refs[0]);
        match resolution(recs, kind, refs[0]) {
            Resolved::Unique(v) => {
                let next = if acc.contains(v) {
                    acc
                } else {
                    acc.push(v)
                };
                assert forall|x: IdentityView| next.contains(x) implies universe(recs).contains(x) by {
                    lemma_push_contains(acc, v, x);
                }
                lemma_outcome_in_universe(recs, kind, refs.drop_first(), next);
            },
            _ => {},
        }
    }
}

proof fn lemma_edge_in_universe(recs: Seq<ObservationRecord>, d: IdentityView, p: IdentityView)
    requires
        dependency_edge(recs, d, p),
    ensures
        universe(recs).contains(d),
        universe(recs).contains(p),
{
    let (i, k) = choose|i: int, k: int| #[trigger] supports(recs, i, k, d, p);
    lemma_record_in_universe(recs, i);
    let rel = source_rel(recs, i, k);
    lemma_outcome_in_universe(recs, rel.kind, rel.references, Seq::empty());
}

proof fn lemma_pair_in_universe(recs: Seq<ObservationRecord>, l: IdentityView, r: IdentityView, e: GroupingEvidenceView)
    requires
        grouping_pair(recs, l, r, e),
    ensures
        universe(recs).contains(l),
        universe(recs).contains(r),
{
    let c = choose|c: ClaimView| #[trigger] grouping_claim(recs, c) && c.a != c.b && ordered_pair(c.a, c.b) == (l, r) && c.evidence == e;
    if membership_claim(recs, c) {
        let (i, k) = choose|i: int, k: int|
            #[trigger] membership_source(recs, i, k) && relationship_outcome(recs, source_rel(recs, i, k)) is Unique && c
                == (ClaimView {
                a: recs[i].identity@,
                b: relationship_outcome(recs, source_rel(recs, i, k))->Unique_0,
                evidence: GroupingEvidenceView::PodMembership,
                path: first_path(source_rel(recs, i, k)),
            });
        lemma_record_in_universe(recs, i);
        let rel = source_rel(recs, i, k);
        lemma_outcome_in_universe(recs, rel.kind, rel.references, Seq::empty());
    } else if dependency_claim(recs, c) {
        let (i, k) = choose|i: int, k: int|
            #[trigger] supports(recs, i, k, c.a, c.b) && source_rel(recs, i, k).field_paths.contains(c.path->0);
        lemma_edge_in_universe(recs, c.a, c.b);
    } else {
        let (i, j, project) = choose|i: int, j: int, project: Seq<char>|
            i < j && #[trigger] owned_by(recs, i, project) && #[trigger] owned_by(recs, j, project) && c == (ClaimView {
                a: recs[i].identity@,
                b: recs[j].identity@,
                evidence: GroupingEvidenceView::ComposeOwnership(project),
                path: None,
            });
        lemma_record_in_universe(recs, i);
        lemma_record_in_universe(recs, j);
    }
}

proof fn lemma_root_in_universe(recs: Seq<ObservationRecord>, req: RequestView, id: IdentityView)
    requires
        resolved_root(recs, req, id),
    ensures
        universe(recs).contains(id),
{
    let o = choose|o: DiscoveryRootOrigin| #[trigger] root_origin_of(recs, req, id, o);
    match o {
        DiscoveryRootOrigin::ResourceSelector { position } => {
            let p = position as int;
            lemma_resolution_in_universe(recs, req.roots[p].kind, req.roots[p].reference);
        },
        DiscoveryRootOrigin::LabelSelector { position } => {
            let p = position as int;
            let i = choose|i: int| #[trigger] label_selected(recs, req.label_selectors[p], i) && recs[i].identity@ == id;
            lemma_record_in_universe(recs, i);
        },
        DiscoveryRootOrigin::All => {
            let i = choose|i: int| #[trigger] eligible_all_root(recs, i) && recs[i].identity@ == id;
            lemma_record_in_universe(recs, i);
        },
    }
}


/// A shared prerequisite of a group that other consumers use, crossed neither by selection nor
/// by a network override, stops the group at that boundary.
pub open spec fn stopped_boundary(
    gs: Seq<GroupView>,
    es: Seq<DependencyView>,
    selected: Seq<IdentityView>,
    crossed: Seq<IdentityView>,
    x: ExplanationView,
) -> bool {
    exists|a: int|
        0 <= a < gs.len() && (#[trigger] gs[a]).prerequisites.contains(x.resource) && is_shared_kind(x.resource.kind)
            && (exists|d: IdentityView| #[trigger] has_pair(es, d, x.resource) && !gs[a].members.contains(d))
            && !selected.contains(x.resource) && !crossed.contains(x.resource) && x == group_explanation(
            DiscoveryExplanationKind::StoppedSharedBoundary,
            x.resource,
            gs[a].id,
        )
}

fn consumer_outside(deps: &Vec<ResourceDependency>, p: &ResourceIdentity, members: &[ResourceIdentity]) -> (r: bool)
    ensures
        r == exists|d: IdentityView| #[trigger] has_pair(views(deps@), d, p@) && !views(members@).contains(d),
{
    let ghost es = views(deps@);
    let mut j: usize = 0;
    while j < deps.len()
        invariant
            j <= deps.len(),
            es == views(deps@),
            forall|m: int| 0 <= m < j && (#[trigger] es[m]).prerequisite == p@ ==> views(members@).contains(es[m].dependent),
        decreases deps.len() - j,
    {
        let e = &deps[j];
        assert(es[j as int] == e@);
        if e.prerequisite.same_value(p) {
            let mut inside = false;
            let mut k: usize = 0;
            while k < members.len()
                invariant
                    k <= members.len(),
                    inside <==> views(members@).take(k as int).contains(e@.dependent),
                decreases members.len() - k,
            {
                if members[k].same_value(&e.dependent) {
                    inside = true;
                }
                proof {
                    assert(views(members@).take(k + 1) =~= views(members@).take(k as int).push(members@[k as int]@));
                    lemma_push_contains(views(members@).take(k as int), members@[k as int]@, e@.dependent);
                }
                k = k + 1;
            }
            proof {
                assert(views(members@).take(k as int) =~= views(members@));
            }
            if !inside {
                assert(has_pair(es, e@.dependent, p@));
                return true;
            }
        }
        j = j + 1;
    }
    proof {
        if exists|d: IdentityView| #[trigger] has_pair(es, d, p@) && !views(members@).contains(d) {
            let d = choose|d: IdentityView| #[trigger] has_pair(es, d, p@) && !views(members@).contains(d);
            let m = choose|m: int| 0 <= m < es.len() && (#[trigger] es[m]).dependent == d && es[m].prerequisite == p@;
        }
    }
    false
}

fn explain_stopped(
    out: Vec<DiscoveryExplanation>,
    groups: &Vec<ResourceGroup>,
    deps: &Vec<ResourceDependency>,
    selected: &Vec<ResourceIdentity>,
    crossed: &Vec<ResourceIdentity>,
) -> (r: Vec<DiscoveryExplanation>)
    ensures
        forall|x: ExplanationView| #[trigger] views(r@).contains(x) <==> (views(out@).contains(x) || stopped_boundary(
            views(groups@),
            views(deps@),
            views(selected@),
            views(crossed@),
            x,
        )),
{
    let ghost start = views(out@);
    let ghost gs = views(groups@);
    let ghost es = views(deps@);
    let ghost sh = views(selected@);
    let ghost cr = views(crossed@);
    let mut out = out;
    let mut a: usize = 0;
    while a < groups.len()
        invariant
            a <= groups.len(),
            gs == views(groups@),
            es == views(deps@),
            sh == views(selected@),
            cr == views(crossed@),
            forall|x: ExplanationView| #[trigger] views(out@).contains(x) <==> (start.contains(x) || stopped_boundary(gs.take(a as int), es, sh, cr, x)),
        decreases groups.len() - a,
    {
        let g = &groups[a];
        assert(gs[a as int] == g@);
        let prereqs = g.prerequisites();
        let ghost before_a = views(out@);
        let mut k: usize = 0;
        while k < prereqs.len()
            invariant
                k <= prereqs.len(),
                a < groups.len(),
                gs == views(groups@),
                gs[a as int] == g@,
                views(prereqs@) == g@.prerequisites,
                es == views(deps@),
                sh == views(selected@),
                cr == views(crossed@),
                forall|x: ExplanationView| #[trigger] views(out@).contains(x) <==> (before_a.contains(x) || (views(prereqs@).take(k as int).contains(
                    x.resource,
                ) && is_shared_kind(x.resource.kind) && (exists|d: IdentityView| #[trigger] has_pair(es, d, x.resource) && !g@.members.contains(d))
                    && !sh.contains(x.resource) && !cr.contains(x.resource) && x == group_explanation(
                    DiscoveryExplanationKind::StoppedSharedBoundary,
                    x.resource,
                    g@.id,
                ))),
            decreases prereqs.len() - k,
        {
            let p = &prereqs[k];
            let stops = shared_kind(p.kind()) && consumer_outside(deps, p, g.members());
            let authorized = contains_id(selected, p) || contains_id(crossed, p);
            let ghost ob = views(out@);
            let mut pushed = false;
            if stops && !authorized {
                let e = DiscoveryExplanation::new(
                    DiscoveryExplanationKind::StoppedSharedBoundary,
                    p.clone(),
                    Some(g.id.clone()),
                    None,
                    None,
                );
                out = push_explanation(out, e);
                pushed = true;
            }
            proof {
                let pre = views(prereqs@).take(k as int);
                assert(views(prereqs@).take(k + 1) =~= pre.push(p@));
                assert forall|x: ExplanationView| #[trigger] views(out@).contains(x) <==> (before_a.contains(x) || (views(prereqs@).take(
                    k + 1,
                ).contains(x.resource) && is_shared_kind(x.resource.kind) && (exists|d: IdentityView| #[trigger] has_pair(es, d, x.resource) && !g@.members.contains(d))
                    && !sh.contains(x.resource) && !cr.contains(x.resource) && x == group_explanation(
                    DiscoveryExplanationKind::StoppedSharedBoundary,
                    x.resource,
                    g@.id,
                ))) by {
                    lemma_push_contains(pre, p@, x.resource);
                    if pushed {
                        lemma_push_contains(ob, views(out@).last(), x);
                        assert(views(out@) =~= ob.push(views(out@).last()));
                    }
                }
            }
            k = k + 1;
        }
        proof {
            assert(views(prereqs@).take(k as int) =~= views(prereqs@));
            let pre = gs.take(a as int);
            let nxt = gs.take(a + 1);
            assert(nxt =~= pre.push(g@));
            assert forall|x: ExplanationView| #[trigger] views(out@).contains(x) <==> (start.contains(x) || stopped_boundary(nxt, es, sh, cr, x)) by {
                if stopped_boundary(nxt, es, sh, cr, x) {
                    let b = choose|b: int|
                        0 <= b < nxt.len() && (#[trigger] nxt[b]).prerequisites.contains(x.resource) && is_shared_kind(x.resource.kind)
                            && (exists|d: IdentityView| #[trigger] has_pair(es, d, x.resource) && !nxt[b].members.contains(d))
                            && !sh.contains(x.resource) && !cr.contains(x.resource) && x == group_explanation(
                            DiscoveryExplanationKind::StoppedSharedBoundary,
                            x.resource,
                            nxt[b].id,
                        );
                    if b < a {
                        assert(pre[b] == nxt[b]);
                        assert(stopped_boundary(pre, es, sh, cr, x));
                    }
                }
                if stopped_boundary(pre, es, sh, cr, x) {
                    let b = choose|b: int|
                        0 <= b < pre.len() && (#[trigger] pre[b]).prerequisites.contains(x.resource) && is_shared_kind(x.resource.kind)
                            && (exists|d: IdentityView| #[trigger] has_pair(es, d, x.resource) && !pre[b].members.contains(d))
                            && !sh.contains(x.resource) && !cr.contains(x.resource) && x == group_explanation(
                            DiscoveryExplanationKind::StoppedSharedBoundary,
                            x.resource,
                            pre[b].id,
                        );
                    assert(nxt[b] == pre[b]);
                }
                if views(prereqs@).contains(x.resource) && is_shared_kind(x.resource.kind) && (exists|d: IdentityView| #[trigger] has_pair(es, d, x.resource) && !g@.members.contains(d))
                    && !sh.contains(x.resource) && !cr.contains(x.resource) && x == group_explanation(
                    DiscoveryExplanationKind::StoppedSharedBoundary,
                    x.resource,
                    g@.id,
                ) {
                    assert(nxt[a as int] == g@);
                }
            }
        }
        a = a + 1;
    }
    proof {
        assert(gs.take(a as int) =~= gs);
    }
    out
}

/// An override that names one network which no crossing used.
pub open spec fn unused_boundary(recs: Seq<ObservationRecord>, req: RequestView, f: FindingView) -> bool {
    exists|q: int, t: IdentityView|
        #[trigger] boundary_target(recs, req, q, t) && f == selector_finding(
            DiagnosticCode::BoundaryOverrideUnused,
            SelectorView { kind: ResourceKind::Network, reference: req.network_boundary_overrides[q] },
        )
}

/// The findings for the overrides whose network no crossing used, in the order of `entries`.
spec fn unused_entry_findings(entries: Seq<BoundaryEntry>, crossed: Seq<IdentityView>) -> Seq<FindingView>
    decreases entries.len(),
{
    if entries.len() == 0 {
        Seq::empty()
    } else {
        let prev = unused_entry_findings(entries.drop_last(), crossed);
        let e = entries.last();
        if crossed.contains(e.target@) {
            prev
        } else {
            prev.push(
                selector_finding(
                    DiagnosticCode::BoundaryOverrideUnused,
                    SelectorView { kind: ResourceKind::Network, reference: e.identifier@ },
                ),
            )
        }
    }
}

fn unused_boundary_findings(
    findings: Vec<DiscoveryFinding>,
    entries: &Vec<BoundaryEntry>,
    crossed: &Vec<ResourceIdentity>,
    Ghost(recs): Ghost<Seq<ObservationRecord>>,
    Ghost(req): Ghost<RequestView>,
) -> (r: Vec<DiscoveryFinding>)
    requires
        forall|j: int| 0 <= j < entries@.len() ==> entry_ok(recs, req, #[trigger] entries@[j]),
    ensures
        forall|f: FindingView| #[trigger] views(r@).contains(f) ==> (views(findings@).contains(f) || unused_boundary(recs, req, f)),
        forall|f: FindingView| #[trigger] views(findings@).contains(f) ==> views(r@).contains(f),
        views(r@) == views(findings@) + unused_entry_findings(entries@, views(crossed@)),
{
    let ghost start = views(findings@);
    let mut out = findings;
    let mut j: usize = 0;
    while j < entries.len()
        invariant
            j <= entries.len(),
            forall|k: int| 0 <= k < entries@.len() ==> entry_ok(recs, req, #[trigger] entries@[k]),
            forall|f: FindingView| #[trigger] views(out@).contains(f) ==> (start.contains(f) || unused_boundary(recs, req, f)),
            forall|f: FindingView| #[trigger] start.contains(f) ==> views(out@).contains(f),
            views(out@) == start + unused_entry_findings(entries@.take(j as int), views(crossed@)),
        decreases entries.len() - j,
    {
        let entry = &entries[j];
        let ghost ob = views(out@);
        proof {
            assert(entries@.take(j + 1).drop_last() =~= entries@.take(j as int));
            assert(entries@.take(j + 1).last() == entries@[j as int]);
        }
        if !contains_id(crossed, &entry.target) {
            let sel = ResourceSelector { kind: ResourceKind::Network, reference: entry.identifier.clone() };
            out.push(DiscoveryFinding::for_selector(DiagnosticCode::BoundaryOverrideUnused, sel));
            proof {
                let last = views(out@).last();
                assert(views(out@) =~= ob.push(last));
                assert(entry_ok(recs, req, entries@[j as int]));
                let q = choose|q: int| #[trigger] boundary_target(recs, req, q, entry.target@) && entry.identifier@ == req.network_boundary_overrides[q];
                assert(unused_boundary(recs, req, last)) by {
                    assert(boundary_target(recs, req, q, entry.target@));
                }
                assert forall|f: FindingView| #[trigger] views(out@).contains(f) implies (start.contains(f) || unused_boundary(recs, req, f)) by {
                    lemma_push_contains(ob, last, f);
                }
                assert forall|f: FindingView| #[trigger] start.contains(f) implies views(out@).contains(f) by {
                    lemma_push_contains(ob, last, f);
                }
                assert(views(out@) =~= start + unused_entry_findings(entries@.take(j + 1), views(crossed@)));
            }
        }
        j = j + 1;
    }
    proof {
        assert(entries@.take(j as int) =~= entries@);
    }
    out
}


// ---------------------------------------------------------------------------------------------
// Discovery.
// ---------------------------------------------------------------------------------------------
/// A request with no selector roots, no label roots, and without selecting all roots.
pub open spec fn empty_request(req: RequestView) -> bool {
    !req.all && req.roots.len() == 0 && req.label_selectors.len() == 0
}

/// Some group of `gs` is led by `id`... the groups' shape: nonempty sorted sets led by their
/// ID, with sorted prerequisites, no two sharing a member, ordered by ID.
pub open spec fn groups_shape(gs: Seq<GroupView>) -> bool {
    &&& keys_sorted::<ResourceGroup>(gs)
    &&& forall|a: int|
        0 <= a < gs.len() ==> id_set((#[trigger] gs[a]).members) && gs[a].members.len() > 0 && gs[a].id == gs[a].members[0]
            && id_set(gs[a].prerequisites)
    &&& forall|a: int, b: int, y: IdentityView|
        0 <= a < b < gs.len() ==> !(#[trigger] gs[a].members.contains(y) && #[trigger] gs[b].members.contains(y))
}

/// A group's prerequisites are exactly the prerequisites of its members outside the group.
pub open spec fn prerequisites_exact(recs: Seq<ObservationRecord>, gs: Seq<GroupView>) -> bool {
    forall|a: int, p: IdentityView|
        0 <= a < gs.len() ==> (#[trigger] gs[a].prerequisites.contains(p) <==> exists|d: IdentityView|
            #[trigger] dependency_edge(recs, d, p) && gs[a].members.contains(d) && !gs[a].members.contains(p))
}

/// What discovery must group: each non-shared root; each selected shared resource that nothing
/// consumes; each consumer of a selected shared resource.
pub open spec fn roots_grouped(recs: Seq<ObservationRecord>, req: RequestView, gs: Seq<GroupView>) -> bool {
    &&& forall|id: IdentityView| #[trigger] resolved_root(recs, req, id) && !is_shared_kind(id.kind) ==> grouped(gs, id)
    &&& forall|s: IdentityView|
        #[trigger] resolved_root(recs, req, s) && is_shared_kind(s.kind) && !has_consumer(recs, s) ==> grouped(gs, s)
    &&& forall|s: IdentityView, d: IdentityView|
        resolved_root(recs, req, s) && is_shared_kind(s.kind) && #[trigger] dependency_edge(recs, d, s) ==> grouped(gs, d)
}

/// Grouping evidence never splits a group, and an authorized network boundary that a grouped
/// resource depends on brings in every consumer of that network.
pub open spec fn groups_closed(recs: Seq<ObservationRecord>, req: RequestView, gs: Seq<GroupView>) -> bool {
    &&& forall|l: IdentityView, r: IdentityView, e: GroupingEvidenceView, a: int|
        #[trigger] grouping_pair(recs, l, r, e) && 0 <= a < gs.len() ==> (#[trigger] gs[a].members.contains(l) <==> gs[a].members.contains(r))
    &&& forall|n: IdentityView, m: IdentityView, d: IdentityView, q: int|
        #[trigger] boundary_target(recs, req, q, n) && n.kind == ResourceKind::Network && #[trigger] dependency_edge(recs, m, n)
            && grouped(gs, m) && #[trigger] dependency_edge(recs, d, n) ==> grouped(gs, d)
}

/// `c` never separates two resources that grouping evidence joins.
pub open spec fn grouping_closed(recs: Seq<ObservationRecord>, c: Seq<IdentityView>) -> bool {
    forall|l: IdentityView, r: IdentityView, e: GroupingEvidenceView|
        #[trigger] grouping_pair(recs, l, r, e) ==> (c.contains(l) <==> c.contains(r))
}

/// Each group is held together by grouping evidence: a set that never separates two resources
/// joined by grouping evidence and holds one member of a group holds the whole group. So two
/// members share a group only where a chain of grouping evidence joins them.
pub open spec fn groups_connected(recs: Seq<ObservationRecord>, gs: Seq<GroupView>) -> bool {
    forall|a: int, x: IdentityView, c: Seq<IdentityView>|
        0 <= a < gs.len() && #[trigger] gs[a].members.contains(x) && #[trigger] grouping_closed(recs, c) && c.contains(x)
            ==> subset_of(gs[a].members, c)
}

/// Where discovery starts: each non-shared root, each selected shared resource that nothing
/// consumes, and each consumer of a selected shared resource.
pub open spec fn seed_member(recs: Seq<ObservationRecord>, req: RequestView, x: IdentityView) -> bool {
    ||| resolved_root(recs, req, x) && !is_shared_kind(x.kind)
    ||| resolved_root(recs, req, x) && is_shared_kind(x.kind) && !has_consumer(recs, x)
    ||| exists|s: IdentityView| resolved_root(recs, req, s) && is_shared_kind(s.kind) && #[trigger] dependency_edge(recs, x, s)
}

/// `c` takes in every consumer of an authorized boundary network that one of its resources
/// depends on.
pub open spec fn crossing_closed(recs: Seq<ObservationRecord>, req: RequestView, c: Seq<IdentityView>) -> bool {
    forall|n: IdentityView, m: IdentityView, d: IdentityView, q: int|
        #[trigger] boundary_target(recs, req, q, n) && n.kind == ResourceKind::Network && #[trigger] dependency_edge(recs, m, n)
            && c.contains(m) && #[trigger] dependency_edge(recs, d, n) ==> c.contains(d)
}

/// Discovery groups nothing it need not reach: a grouped resource lies in every set that holds
/// every seed, never separates grouping evidence, and takes in the consumers of the authorized
/// boundary networks its resources depend on. So every member is a resolved root, a consumer
/// of a selected shared resource, or reached from one by grouping evidence or an authorized
/// network crossing.
pub open spec fn groups_least(recs: Seq<ObservationRecord>, req: RequestView, gs: Seq<GroupView>) -> bool {
    forall|c: Seq<IdentityView>, x: IdentityView|
        #[trigger] grouping_closed(recs, c) && crossing_closed(recs, req, c) && (forall|y: IdentityView|
            #[trigger] seed_member(recs, req, y) ==> c.contains(y)) && #[trigger] grouped(gs, x) ==> c.contains(x)
}

/// The graph's edges: the dependencies and grouping edges among grouped resources, and the
/// prerequisites shared by two groups.
pub open spec fn graph_edges(recs: Seq<ObservationRecord>, g: GraphView) -> bool {
    &&& id_set(g.shared_prerequisites)
    &&& forall|p: IdentityView| #[trigger] g.shared_prerequisites.contains(p) <==> shared_prerequisite(g.groups, p)
    &&& edges_well_formed(g.dependencies)
    &&& keys_sorted::<ResourceDependency>(g.dependencies)
    &&& forall|d: IdentityView, p: IdentityView|
        #[trigger] has_pair(g.dependencies, d, p) <==> (dependency_edge(recs, d, p) && grouped(g.groups, d))
    &&& forall|d: IdentityView, p: IdentityView, path: Seq<char>|
        #[trigger] pair_path(g.dependencies, d, p, path) <==> (dependency_path(recs, d, p, path) && grouped(g.groups, d))
    &&& grouping_well_formed(g.grouping_edges)
    &&& keys_sorted::<GroupingEdge>(g.grouping_edges)
    &&& forall|l: IdentityView, r: IdentityView, e: GroupingEvidenceView|
        #[trigger] has_grouping(g.grouping_edges, l, r, e) <==> (grouping_pair(recs, l, r, e) && grouped(g.groups, l) && grouped(
            g.groups,
            r,
        ))
    &&& forall|l: IdentityView, r: IdentityView, e: GroupingEvidenceView, path: Seq<char>|
        #[trigger] grouping_path(g.grouping_edges, l, r, e, path) <==> (grouping_pair_path(recs, l, r, e, path) && grouped(
            g.groups,
            l,
        ) && grouped(g.groups, r))
}

/// Every finding the read records and the request call for.
pub open spec fn expected_finding(recs: Seq<ObservationRecord>, req: RequestView, f: FindingView) -> bool {
    advisory_finding(recs, f) || dependency_finding(recs, f) || membership_finding(recs, f) || selector_finding_of(recs, req, f)
        || boundary_finding(recs, req, f)
}

/// The graph's findings, sorted: every expected finding, and otherwise only overrides that name
/// one network.
pub open spec fn graph_findings(recs: Seq<ObservationRecord>, req: RequestView, g: GraphView) -> bool {
    &&& keys_sorted::<DiscoveryFinding>(g.findings)
    &&& forall|f: FindingView| #[trigger] expected_finding(recs, req, f) ==> g.findings.contains(f)
    &&& forall|f: FindingView| #[trigger] g.findings.contains(f) ==> (expected_finding(recs, req, f) || unused_boundary(recs, req, f))
}

/// A root explanation names one root and the selector or all-selection that made it a root.
pub open spec fn root_explained(recs: Seq<ObservationRecord>, req: RequestView, x: ExplanationView) -> bool {
    &&& x.kind == DiscoveryExplanationKind::Root
    &&& x.related is None
    &&& x.position is None
    &&& x.root_origin matches Some(o)
    &&& root_origin_of(recs, req, x.resource, o)
}

/// A merge explanation names the two ends of a grouping edge of the graph.
pub open spec fn merge_explained(ge: Seq<GroupingEdgeView>, x: ExplanationView) -> bool {
    exists|m: int|
        0 <= m < ge.len() && x == plain_explanation(DiscoveryExplanationKind::StrongEvidenceMerge, (#[trigger] ge[m]).left).with_related(
            ge[m].right,
        )
}

/// A shared-crossing explanation names a selected shared resource that has consumers.
pub open spec fn shared_crossing_explained(recs: Seq<ObservationRecord>, req: RequestView, x: ExplanationView) -> bool {
    &&& resolved_root(recs, req, x.resource)
    &&& is_shared_kind(x.resource.kind)
    &&& has_consumer(recs, x.resource)
    &&& x == plain_explanation(DiscoveryExplanationKind::AuthorizedSharedCrossing, x.resource)
}

/// The explanations a graph gives: roots, groups, merges, and shared crossings exactly; other
/// explanations only name a crossed boundary network or a shared prerequisite that stopped a
/// group.
pub open spec fn graph_explanations(recs: Seq<ObservationRecord>, req: RequestView, g: GraphView) -> bool {
    &&& forall|x: ExplanationView|
        #[trigger] g.explanations.contains(x) <== (root_explained(recs, req, x) || group_explained(g.groups, x)
            || merge_explained(g.grouping_edges, x) || shared_crossing_explained(recs, req, x))
    &&& forall|x: ExplanationView|
        #[trigger] g.explanations.contains(x) ==> (root_explained(recs, req, x) || group_explained(g.groups, x)
            || merge_explained(g.grouping_edges, x) || shared_crossing_explained(recs, req, x) || (x
            == plain_explanation(DiscoveryExplanationKind::AuthorizedNetworkCrossing, x.resource) && exists|q: int|
            #[trigger] boundary_target(recs, req, q, x.resource)) || (x.kind == DiscoveryExplanationKind::StoppedSharedBoundary
            && is_shared_kind(x.resource.kind) && exists|a: int|
            0 <= a < g.groups.len() && #[trigger] g.groups[a].prerequisites.contains(x.resource) && x == group_explanation(
                DiscoveryExplanationKind::StoppedSharedBoundary,
                x.resource,
                g.groups[a].id,
            )))
}



/// Builds deterministic resource groups from already observed native resources.
///
/// A dependency edge always points from dependent to prerequisite. Networks, volumes, images,
/// and secrets remain prerequisites and never join consumers merely because they are shared.
/// Reverse consumer traversal occurs only for an explicitly selected shared resource or an exact
/// network name-or-ID boundary override. When several records carry one identity, the last is
/// read.
///
/// # Errors
///
/// Returns `PLN0027` when neither explicit roots nor selecting all roots are present.
#[verifier::spinoff_prover]
pub fn discover(records: &[ObservationRecord], request: &DiscoveryRequest) -> (r: PodmanLensResult<ResourceGraph>)
    ensures
        r is Err <==> empty_request(request@),
        empty_request(request@) ==> fails_with(r, DiagnosticCode::InvalidDiscoveryRequest),
        r matches Ok(graph) ==> graph@.requested_roots == request@.roots && graph@.requested_label_roots
            == request@.label_selectors && graph@.all_requested == request@.all,
        r matches Ok(graph) ==> id_set(graph@.resolved_roots) && forall|id: IdentityView|
            #[trigger] graph@.resolved_roots.contains(id) <==> resolved_root(records@, request@, id),
        r matches Ok(graph) ==> groups_shape(graph@.groups),
        r matches Ok(graph) ==> prerequisites_exact(records@, graph@.groups),
        r matches Ok(graph) ==> roots_grouped(records@, request@, graph@.groups),
        r matches Ok(graph) ==> groups_closed(records@, request@, graph@.groups),
        r matches Ok(graph) ==> groups_connected(records@, graph@.groups),
        r matches Ok(graph) ==> groups_least(records@, request@, graph@.groups),
        r matches Ok(graph) ==> graph_edges(records@, graph@),
        r matches Ok(graph) ==> graph_findings(records@, request@, graph@),
        r matches Ok(graph) ==> graph_explanations(records@, request@, graph@),
{
    proof {
        use_type_invariant(request);
    }
    if !request.all() && request.roots().len() == 0 && request.label_roots().len() == 0 {
        return Err(Diagnostic::new(DiagnosticCode::InvalidDiscoveryRequest));
    }
    let ghost recs = records@;
    let ghost req = request@;
    let ghost u = universe(recs);
    let findings = advisory_findings(records, Vec::new());
    let ghost f_advisory = views(findings@);
    let (deps, findings) = collect_dependencies(records, findings);
    let ghost f_deps = views(findings@);
    let ghost es = views(deps@);
    let (gedges, findings) = grouping_edges(records, &deps, findings);
    let ghost f_membership = views(findings@);
    let ghost ge = views(gedges@);
    let resolved = resolve_roots(records, &deps, request, findings);
    let ResolvedRoots { roots, origins, findings } = resolved;
    let ghost f_selectors = views(findings@);
    let (members, selected) = split_roots(&roots);
    let ghost m0 = views(members@);
    let (members, authorized) = cross_shared(members, &selected, &deps);
    let ghost m1 = views(members@);
    let (entries, targets, findings) = resolve_boundaries(records, request, findings);
    let ghost f_boundaries = views(findings@);
    proof {
        lemma_discovery_universe(recs, req, views(roots@), views(selected@), m0, m1, es, ge, deps@, gedges@);
    }
    let (members, crossed) = expand_members(members, &gedges, &deps, &targets, Ghost(u));
    let ghost m2 = views(members@);
    proof {
        assert forall|j: int| 0 <= j < gedges@.len() implies u.contains((#[trigger] gedges@[j])@.left) && u.contains(gedges@[j]@.right) by {
            assert(ge[j] == gedges@[j]@);
        }
    }
    let groups = build_groups(&members, &gedges, &deps, Ghost(u));
    let ghost gs = views(groups@);
    proof {
        assert forall|a: int, p: IdentityView|
            0 <= a < gs.len() implies (#[trigger] gs[a].prerequisites.contains(p) <==> exists|d: IdentityView|
                #[trigger] dependency_edge(recs, d, p) && gs[a].members.contains(d) && !gs[a].members.contains(p)) by {
            assert(gs[a].prerequisites.contains(p) <==> group_prerequisite(gs[a].members, es, p));
            if group_prerequisite(gs[a].members, es, p) {
                let d = choose|d: IdentityView| #[trigger] has_pair(es, d, p) && gs[a].members.contains(d) && !gs[a].members.contains(p);
                assert(dependency_edge(recs, d, p));
            }
            if exists|d: IdentityView| #[trigger] dependency_edge(recs, d, p) && gs[a].members.contains(d) && !gs[a].members.contains(p) {
                let d = choose|d: IdentityView| #[trigger] dependency_edge(recs, d, p) && gs[a].members.contains(d) && !gs[a].members.contains(p);
                assert(has_pair(es, d, p));
            }
        }
        assert forall|id: IdentityView| #[trigger] resolved_root(recs, req, id) && !is_shared_kind(id.kind) implies grouped(gs, id) by {
            assert(views(roots@).contains(id));
            assert(m0.contains(id));
            assert(m1.contains(id));
            assert(m2.contains(id));
        }
        assert forall|x: IdentityView| #[trigger] resolved_root(recs, req, x) && is_shared_kind(x.kind) && !has_consumer(recs, x) implies grouped(gs, x) by {
            assert(views(roots@).contains(x));
            assert(views(selected@).contains(x));
            if has_dependent(es, x) {
                let d = choose|d: IdentityView| #[trigger] has_pair(es, d, x);
                assert(dependency_edge(recs, d, x));
            }
            assert(m1.contains(x));
            assert(m2.contains(x));
        }
        assert forall|x: IdentityView, d: IdentityView|
            resolved_root(recs, req, x) && is_shared_kind(x.kind) && #[trigger] dependency_edge(recs, d, x) implies grouped(gs, d) by {
            assert(views(roots@).contains(x));
            assert(views(selected@).contains(x));
            assert(has_pair(es, d, x));
            assert(m1.contains(d));
            assert(m2.contains(d));
        }
    }
    let shared = shared_prerequisites(&groups);
    let kept_deps = grouped_dependencies(&deps, &groups);
    let kept_edges = grouped_edges(&gedges, &groups);
    let empty: Vec<DiscoveryExplanation> = Vec::new();
    proof {
        assert(views(empty@) =~= Seq::<ExplanationView>::empty());
    }
    let explanations = explain_roots(empty, &origins);
    let ghost x1 = views(explanations@);
    let explanations = explain_groups(explanations, &groups);
    let ghost x2 = views(explanations@);
    let explanations = explain_merges(explanations, &kept_edges);
    let ghost x3 = views(explanations@);
    let explanations = explain_each(explanations, DiscoveryExplanationKind::AuthorizedSharedCrossing, &authorized);
    let ghost x4 = views(explanations@);
    let explanations = explain_each(explanations, DiscoveryExplanationKind::AuthorizedNetworkCrossing, &crossed);
    let ghost x5 = views(explanations@);
    let explanations = explain_stopped(explanations, &groups, &deps, &selected, &crossed);
    let ghost x6 = views(explanations@);
    let findings = unused_boundary_findings(findings, &entries, &crossed, Ghost(recs), Ghost(req));
    let ghost f_unsorted = views(findings@);
    let findings = sort_keeping(findings);
    let ghost f_sorted = views(findings@);
    let ghost ke = views(kept_edges@);
    let ghost kd = views(kept_deps@);
    proof {
        // Grouping evidence never splits a group.
        assert forall|l: IdentityView, r: IdentityView, e: GroupingEvidenceView, a: int|
            #[trigger] grouping_pair(recs, l, r, e) && 0 <= a < gs.len() implies (#[trigger] gs[a].members.contains(l)
                <==> gs[a].members.contains(r)) by {
            assert(has_grouping(ge, l, r, e));
            let j = choose|j: int| 0 <= j < ge.len() && (#[trigger] ge[j]).left == l && ge[j].right == r && ge[j].evidence == e;
            assert(closed_under(gs[a].members, ge));
        }
        // Grouping evidence alone holds each group together.
        assert forall|a: int, x: IdentityView, c: Seq<IdentityView>|
            0 <= a < gs.len() && #[trigger] gs[a].members.contains(x) && #[trigger] grouping_closed(recs, c) && c.contains(x)
                implies subset_of(gs[a].members, c) by {
            assert(closed_under(c, ge)) by {
                assert forall|j: int| 0 <= j < ge.len() implies (c.contains((#[trigger] ge[j]).left) <==> c.contains(ge[j].right)) by {
                    assert(has_grouping(ge, ge[j].left, ge[j].right, ge[j].evidence));
                }
            }
            assert(connected_set(gs[a].members, ge));
        }
        // Nothing is grouped beyond what the seeds reach.
        assert forall|c: Seq<IdentityView>, x: IdentityView|
            #[trigger] grouping_closed(recs, c) && crossing_closed(recs, req, c) && (forall|y: IdentityView|
                #[trigger] seed_member(recs, req, y) ==> c.contains(y)) && #[trigger] grouped(gs, x) implies c.contains(x) by {
            let ts = views(targets@);
            assert(closed_under(c, ge)) by {
                assert forall|j: int| 0 <= j < ge.len() implies (c.contains((#[trigger] ge[j]).left) <==> c.contains(ge[j].right)) by {
                    assert(has_grouping(ge, ge[j].left, ge[j].right, ge[j].evidence));
                }
            }
            assert(closed_under_crossing(c, es, ts)) by {
                assert forall|n: IdentityView, d: IdentityView| boundary_of_members(c, es, ts, n) && #[trigger] has_pair(es, d, n) implies c.contains(d) by {
                    let j = choose|j: int|
                        0 <= j < es.len() && c.contains((#[trigger] es[j]).dependent) && es[j].prerequisite == n && n.kind
                            == ResourceKind::Network && ts.contains(n);
                    let q = choose|q: int| #[trigger] boundary_target(recs, req, q, n);
                    assert(has_pair(es, es[j].dependent, n));
                    assert(dependency_edge(recs, es[j].dependent, n));
                    assert(dependency_edge(recs, d, n));
                }
            }
            assert(subset_of(m1, c)) by {
                assert forall|y: IdentityView| m1.contains(y) implies c.contains(y) by {
                    if !views(roots@).contains(y) || !is_shared_kind(y.kind) {
                        if !m0.contains(y) && !(views(selected@).contains(y) && !has_dependent(es, y)) {
                            let s = choose|s: IdentityView| #[trigger] views(selected@).contains(s) && has_pair(es, y, s);
                            assert(dependency_edge(recs, y, s));
                            assert(seed_member(recs, req, y));
                        } else {
                            assert(seed_member(recs, req, y));
                        }
                    } else {
                        if !has_dependent(es, y) {
                            if has_consumer(recs, y) {
                                let d = choose|d: IdentityView| #[trigger] dependency_edge(recs, d, y);
                                assert(has_pair(es, d, y));
                            }
                            assert(seed_member(recs, req, y));
                        } else {
                            let s = choose|s: IdentityView| #[trigger] views(selected@).contains(s) && has_pair(es, y, s);
                            assert(dependency_edge(recs, y, s));
                            assert(seed_member(recs, req, y));
                        }
                    }
                }
            }
            assert(subset_of(m2, c));
            assert(m2.contains(x));
        }
        // Authorized network boundaries bring in their consumers.
        assert forall|n: IdentityView, m: IdentityView, d: IdentityView, q: int|
            #[trigger] boundary_target(recs, req, q, n) && n.kind == ResourceKind::Network && #[trigger] dependency_edge(recs, m, n)
                && grouped(gs, m) && #[trigger] dependency_edge(recs, d, n) implies grouped(gs, d) by {
            assert(views(targets@).contains(n));
            assert(m2.contains(m));
            assert(has_pair(es, m, n));
            let j = choose|j: int| 0 <= j < es.len() && (#[trigger] es[j]).dependent == m && es[j].prerequisite == n;
            assert(boundary_of_members(m2, es, views(targets@), n));
            assert(has_pair(es, d, n));
            assert(m2.contains(d));
        }
        // Edges among grouped resources.
        assert forall|d: IdentityView, p: IdentityView|
            #[trigger] has_pair(kd, d, p) <==> (dependency_edge(recs, d, p) && grouped(gs, d)) by {}
        assert forall|d: IdentityView, p: IdentityView, path: Seq<char>|
            #[trigger] pair_path(kd, d, p, path) <==> (dependency_path(recs, d, p, path) && grouped(gs, d)) by {}
        assert forall|l: IdentityView, r: IdentityView, e: GroupingEvidenceView|
            #[trigger] has_grouping(ke, l, r, e) <==> (grouping_pair(recs, l, r, e) && grouped(gs, l) && grouped(gs, r)) by {
            if has_grouping(ke, l, r, e) {
                let m = choose|m: int| 0 <= m < ke.len() && (#[trigger] ke[m]).left == l && ke[m].right == r && ke[m].evidence == e;
                assert(ke.contains(ke[m]));
                assert(ge.contains(ke[m]));
                let j = choose|j: int| 0 <= j < ge.len() && ge[j] == ke[m];
                assert(has_grouping(ge, l, r, e));
            }
            if grouping_pair(recs, l, r, e) && grouped(gs, l) && grouped(gs, r) {
                assert(has_grouping(ge, l, r, e));
                let j = choose|j: int| 0 <= j < ge.len() && (#[trigger] ge[j]).left == l && ge[j].right == r && ge[j].evidence == e;
                assert(ge.contains(ge[j]));
                assert(ke.contains(ge[j]));
                let m = choose|m: int| 0 <= m < ke.len() && ke[m] == ge[j];
            }
        }
        assert forall|l: IdentityView, r: IdentityView, e: GroupingEvidenceView, path: Seq<char>|
            #[trigger] grouping_path(ke, l, r, e, path) <==> (grouping_pair_path(recs, l, r, e, path) && grouped(gs, l) && grouped(gs, r)) by {
            if grouping_path(ke, l, r, e, path) {
                let m = choose|m: int|
                    0 <= m < ke.len() && (#[trigger] ke[m]).left == l && ke[m].right == r && ke[m].evidence == e && ke[m].field_paths.contains(path);
                assert(ke.contains(ke[m]));
                assert(ge.contains(ke[m]));
                let j = choose|j: int| 0 <= j < ge.len() && ge[j] == ke[m];
                assert(grouping_path(ge, l, r, e, path));
            }
            if grouping_pair_path(recs, l, r, e, path) && grouped(gs, l) && grouped(gs, r) {
                assert(grouping_path(ge, l, r, e, path));
                let j = choose|j: int|
                    0 <= j < ge.len() && (#[trigger] ge[j]).left == l && ge[j].right == r && ge[j].evidence == e && ge[j].field_paths.contains(path);
                assert(ge.contains(ge[j]));
                assert(ke.contains(ge[j]));
                let m = choose|m: int| 0 <= m < ke.len() && ke[m] == ge[j];
            }
        }
        // Findings.
        assert forall|f: FindingView| #[trigger] expected_finding(recs, req, f) implies f_sorted.contains(f) by {
            if advisory_finding(recs, f) {
                assert(f_advisory.contains(f));
            }
            if advisory_finding(recs, f) || dependency_finding(recs, f) {
                assert(f_deps.contains(f));
            }
            if advisory_finding(recs, f) || dependency_finding(recs, f) || membership_finding(recs, f) {
                assert(f_membership.contains(f));
            }
            if advisory_finding(recs, f) || dependency_finding(recs, f) || membership_finding(recs, f) || selector_finding_of(recs, req, f) {
                assert(f_selectors.contains(f));
            }
            assert(f_boundaries.contains(f));
            assert(f_unsorted.contains(f));
        }
        assert forall|f: FindingView| #[trigger] f_sorted.contains(f) implies (expected_finding(recs, req, f) || unused_boundary(recs, req, f)) by {
            assert(f_unsorted.contains(f));
            if f_boundaries.contains(f) {
                if f_selectors.contains(f) {
                    if f_membership.contains(f) {
                        if f_deps.contains(f) {
                            if f_advisory.contains(f) {
                                assert(!Seq::<FindingView>::empty().contains(f));
                            }
                        }
                    }
                }
            }
        }
        // Explanations.
        assert forall|x: ExplanationView|
            #[trigger] x6.contains(x) <== (root_explained(recs, req, x) || group_explained(gs, x) || merge_explained(ke, x)
                || shared_crossing_explained(recs, req, x)) by {
            if root_explained(recs, req, x) {
                assert(views(origins@).contains(RootEntryView { identity: x.resource, origin: x.root_origin->0 }));
                assert(x1.contains(x));
            }
            if merge_explained(ke, x) {
                let m = choose|m: int|
                    0 <= m < ke.len() && x == plain_explanation(DiscoveryExplanationKind::StrongEvidenceMerge, (#[trigger] ke[m]).left).with_related(
                        ke[m].right,
                    );
                assert(ke[m] == kept_edges@[m]@);
                assert(x3.contains(x));
            }
            if shared_crossing_explained(recs, req, x) {
                let d = choose|d: IdentityView| #[trigger] dependency_edge(recs, d, x.resource);
                assert(has_pair(es, d, x.resource));
                assert(views(roots@).contains(x.resource));
                assert(views(selected@).contains(x.resource));
                assert(views(authorized@).contains(x.resource));
                assert(x4.contains(x));
            }
        }
        assert forall|x: ExplanationView|
            #[trigger] x6.contains(x) implies (root_explained(recs, req, x) || group_explained(gs, x) || merge_explained(ke, x)
                || shared_crossing_explained(recs, req, x) || (x == plain_explanation(DiscoveryExplanationKind::AuthorizedNetworkCrossing, x.resource)
                && exists|q: int| #[trigger] boundary_target(recs, req, q, x.resource)) || (x.kind
                == DiscoveryExplanationKind::StoppedSharedBoundary && is_shared_kind(x.resource.kind) && exists|a: int|
                0 <= a < gs.len() && #[trigger] gs[a].prerequisites.contains(x.resource) && x == group_explanation(
                    DiscoveryExplanationKind::StoppedSharedBoundary,
                    x.resource,
                    gs[a].id,
                ))) by {
            if x1.contains(x) {
                assert(!Seq::<ExplanationView>::empty().contains(x));
                assert(root_origin_of(recs, req, x.resource, x.root_origin->0));
            } else if x2.contains(x) {
            } else if x3.contains(x) {
                let m = choose|m: int|
                    0 <= m < kept_edges@.len() && x == plain_explanation(DiscoveryExplanationKind::StrongEvidenceMerge, (#[trigger] kept_edges@[m])@.left).with_related(
                        kept_edges@[m]@.right,
                    );
                assert(ke[m] == kept_edges@[m]@);
                assert(merge_explained(ke, x));
            } else if x4.contains(x) {
                assert(views(authorized@).contains(x.resource));
                assert(views(selected@).contains(x.resource));
                let d = choose|d: IdentityView| #[trigger] has_pair(es, d, x.resource);
                assert(dependency_edge(recs, d, x.resource));
                assert(has_consumer(recs, x.resource));
            } else if x5.contains(x) {
                assert(views(crossed@).contains(x.resource));
                assert(views(targets@).contains(x.resource));
            } else {
                assert(stopped_boundary(gs, es, views(selected@), views(crossed@), x));
            }
        }
    }
    let graph = ResourceGraph {
        requested_roots: request.roots_copy(),
        requested_label_roots: request.label_roots_copy(),
        all_requested: request.all(),
        resolved_roots: roots,
        groups,
        shared_prerequisites: shared,
        dependencies: kept_deps,
        grouping_edges: kept_edges,
        findings,
        explanations,
    };
    Ok(graph)
}

proof fn lemma_discovery_universe(
    recs: Seq<ObservationRecord>,
    req: RequestView,
    roots: Seq<IdentityView>,
    selected: Seq<IdentityView>,
    m0: Seq<IdentityView>,
    m1: Seq<IdentityView>,
    es: Seq<DependencyView>,
    ge: Seq<GroupingEdgeView>,
    deps: Seq<ResourceDependency>,
    gedges: Seq<GroupingEdge>,
)
    requires
        es == views(deps),
        ge == views(gedges),
        forall|id: IdentityView| #[trigger] roots.contains(id) <==> resolved_root(recs, req, id),
        forall|x: IdentityView| #[trigger] m0.contains(x) <==> (roots.contains(x) && !is_shared_kind(x.kind)),
        forall|x: IdentityView| #[trigger] selected.contains(x) <==> (roots.contains(x) && is_shared_kind(x.kind)),
        forall|x: IdentityView|
            #[trigger] m1.contains(x) <==> (m0.contains(x) || (selected.contains(x) && !has_dependent(es, x)) || exists|s: IdentityView|
                #[trigger] selected.contains(s) && has_pair(es, x, s)),
        forall|d: IdentityView, p: IdentityView| #[trigger] has_pair(es, d, p) <==> dependency_edge(recs, d, p),
        forall|x: IdentityView, y: IdentityView, e: GroupingEvidenceView|
            #[trigger] has_grouping(ge, x, y, e) <==> grouping_pair(recs, x, y, e),
    ensures
        within(m1, universe(recs)),
        ends_within(universe(recs), ge, es),
{
    let u = universe(recs);
    assert forall|x: IdentityView| m1.contains(x) implies u.contains(x) by {
        if m0.contains(x) || selected.contains(x) {
            lemma_root_in_universe(recs, req, x);
        } else {
            let s = choose|s: IdentityView| #[trigger] selected.contains(s) && has_pair(es, x, s);
            lemma_edge_in_universe(recs, x, s);
        }
    }
    assert forall|j: int| 0 <= j < ge.len() implies u.contains((#[trigger] ge[j]).left) && u.contains(ge[j].right) by {
        assert(has_grouping(ge, ge[j].left, ge[j].right, ge[j].evidence));
        lemma_pair_in_universe(recs, ge[j].left, ge[j].right, ge[j].evidence);
    }
    assert forall|j: int| 0 <= j < es.len() implies u.contains((#[trigger] es[j]).dependent) && u.contains(es[j].prerequisite) by {
        assert(has_pair(es, es[j].dependent, es[j].prerequisite));
        lemma_edge_in_universe(recs, es[j].dependent, es[j].prerequisite);
    }
}


// ---------------------------------------------------------------------------------------------
// Laws.
// ---------------------------------------------------------------------------------------------
proof fn lemma_resolution_kind(recs: Seq<ObservationRecord>, kind: ResourceKind, reference: Seq<char>)
    ensures
        resolution(recs, kind, reference) matches Resolved::Unique(v) ==> v.kind == kind,
{
    if resolution(recs, kind, reference) is Unique {
        if !(exists|i: int, j: int|
            i != j && #[trigger] selector_hit(recs, kind, reference, i) && #[trigger] selector_hit(recs, kind, reference, j)) {
            let i = choose|i: int| #[trigger] selector_hit(recs, kind, reference, i);
        }
    }
}

proof fn lemma_outcome_kind(recs: Seq<ObservationRecord>, kind: ResourceKind, refs: Seq<Seq<char>>, acc: Seq<IdentityView>)
    requires
        forall|x: IdentityView| acc.contains(x) ==> x.kind == kind,
    ensures
        rel_outcome_from(recs, kind, refs, acc) matches RelOutcome::Unique(v) ==> v.kind == kind,
    decreases refs.len(),
{
    if refs.len() == 0 {
        if acc.len() == 1 {
            assert(acc.contains(acc[0]));
        }
    } else {
        lemma_resolution_kind(recs, kind, refs[0]);
        match resolution(recs, kind, refs[0]) {
            Resolved::Unique(v) => {
                let next = if acc.contains(v) {
                    acc
                } else {
                    acc.push(v)
                };
                assert forall|x: IdentityView| next.contains(x) implies x.kind == kind by {
                    lemma_push_contains(acc, v, x);
                }
                lemma_outcome_kind(recs, kind, refs.drop_first(), next);
            },
            _ => {},
        }
    }
}

/// Grouping evidence joins only containers and pods: a network, volume, image, or secret never
/// joins a group because it is shared.
pub proof fn lemma_grouping_joins_applications(
    recs: Seq<ObservationRecord>,
    l: IdentityView,
    r: IdentityView,
    e: GroupingEvidenceView,
)
    requires
        grouping_pair(recs, l, r, e),
    ensures
        l.kind == ResourceKind::Container || l.kind == ResourceKind::Pod,
        r.kind == ResourceKind::Container || r.kind == ResourceKind::Pod,
{
    let c = choose|c: ClaimView| #[trigger] grouping_claim(recs, c) && c.a != c.b && ordered_pair(c.a, c.b) == (l, r) && c.evidence == e;
    if membership_claim(recs, c) {
        let (i, k) = choose|i: int, k: int|
            #[trigger] membership_source(recs, i, k) && relationship_outcome(recs, source_rel(recs, i, k)) is Unique && c
                == (ClaimView {
                a: recs[i].identity@,
                b: relationship_outcome(recs, source_rel(recs, i, k))->Unique_0,
                evidence: GroupingEvidenceView::PodMembership,
                path: first_path(source_rel(recs, i, k)),
            });
        let rel = source_rel(recs, i, k);
        lemma_outcome_kind(recs, rel.kind, rel.references, Seq::empty());
    } else if compose_claim(recs, c) {
        let (i, j, project) = choose|i: int, j: int, project: Seq<char>|
            i < j && #[trigger] owned_by(recs, i, project) && #[trigger] owned_by(recs, j, project) && c == (ClaimView {
                a: recs[i].identity@,
                b: recs[j].identity@,
                evidence: GroupingEvidenceView::ComposeOwnership(project),
                path: None,
            });
    }
}

/// A network, volume, image, or secret in a group is the whole group: it never joins a
/// consumer's group and never merges two groups.
pub proof fn lemma_shared_member_alone(recs: Seq<ObservationRecord>, gs: Seq<GroupView>, a: int, x: IdentityView)
    requires
        groups_connected(recs, gs),
        groups_shape(gs),
        0 <= a < gs.len(),
        gs[a].members.contains(x),
        is_shared_kind(x.kind),
    ensures
        gs[a].members == seq![x],
{
    let c = seq![x];
    assert(c[0] == x);
    assert(grouping_closed(recs, c)) by {
        assert forall|l: IdentityView, r: IdentityView, e: GroupingEvidenceView| #[trigger] grouping_pair(recs, l, r, e) implies (c.contains(l)
            <==> c.contains(r)) by {
            lemma_grouping_joins_applications(recs, l, r, e);
            assert(l != x && r != x);
            assert(!c.contains(l) && !c.contains(r));
        }
    }
    assert(subset_of(gs[a].members, c));
    let m = gs[a].members;
    lemma_distinct_subset_len(m, c);
    assert(m.len() == 1);
    assert(m.contains(m[0]));
    assert(m =~= c);
}

/// Every grouping edge of a discovered graph joins two members of one group.
pub proof fn lemma_grouping_edges_within_groups(g: GraphView, recs: Seq<ObservationRecord>, req: RequestView, m: int)
    requires
        groups_closed(recs, req, g.groups),
        graph_edges(recs, g),
        0 <= m < g.grouping_edges.len(),
    ensures
        exists|a: int|
            0 <= a < g.groups.len() && #[trigger] g.groups[a].members.contains(g.grouping_edges[m].left)
                && g.groups[a].members.contains(g.grouping_edges[m].right),
{
    let x = g.grouping_edges[m];
    assert(has_grouping(g.grouping_edges, x.left, x.right, x.evidence));
    assert(grouping_pair(recs, x.left, x.right, x.evidence) && grouped(g.groups, x.left));
    let a = choose|a: int| 0 <= a < g.groups.len() && #[trigger] g.groups[a].members.contains(x.left);
    assert(g.groups[a].members.contains(x.left) <==> g.groups[a].members.contains(x.right));
}


/// Selecting all roots selects every ordinary container: one read last under its identity, not
/// an infra container (its infra field observed false, or absent), and with no relationship to
/// a pod.
pub proof fn lemma_select_all_takes_ordinary_containers(recs: Seq<ObservationRecord>, req: RequestView, i: int)
    requires
        req.all,
        0 <= i < recs.len(),
        forall|j: int| i < j < recs.len() ==> (#[trigger] recs[j]).identity@ != recs[i].identity@,
        recs[i].identity@.kind == ResourceKind::Container,
        match recs[i].infra {
            Some(ObservationField::Absent) => true,
            Some(ObservationField::Observed(v)) => v.spec_value() == false,
            _ => false,
        },
        match observed_relationships(recs[i]) {
            Some(rels) => forall|k: int| 0 <= k < rels.len() ==> (#[trigger] rels[k]).kind != ResourceKind::Pod,
            None => true,
        },
    ensures
        resolved_root(recs, req, recs[i].identity@),
{
    assert(eligible_all_root(recs, i));
    assert(root_origin_of(recs, req, recs[i].identity@, DiscoveryRootOrigin::All));
}


/// Selecting all roots selects, among the records read last under their identities, every pod
/// and every network, volume, or secret that nothing depends on.
pub proof fn lemma_select_all_takes_pods_and_unconsumed_shared(recs: Seq<ObservationRecord>, req: RequestView, i: int)
    requires
        req.all,
        0 <= i < recs.len(),
        forall|j: int| i < j < recs.len() ==> (#[trigger] recs[j]).identity@ != recs[i].identity@,
        recs[i].identity@.kind == ResourceKind::Pod || ((recs[i].identity@.kind == ResourceKind::Network
            || recs[i].identity@.kind == ResourceKind::Volume || recs[i].identity@.kind == ResourceKind::Secret)
            && !exists|d: IdentityView| #[trigger] dependency_edge(recs, d, recs[i].identity@)),
    ensures
        resolved_root(recs, req, recs[i].identity@),
{
    assert(eligible_all_root(recs, i));
    assert(root_origin_of(recs, req, recs[i].identity@, DiscoveryRootOrigin::All));
}


/// Selecting all roots never selects an infra container or a container related to a pod: no
/// record read last under such a container's identity makes it an eligible root.
pub proof fn lemma_select_all_skips_infra_and_pod_members(recs: Seq<ObservationRecord>, req: RequestView, i: int)
    requires
        0 <= i < recs.len(),
        forall|j: int| i < j < recs.len() ==> (#[trigger] recs[j]).identity@ != recs[i].identity@,
        recs[i].identity@.kind == ResourceKind::Container,
        (recs[i].infra matches Some(ObservationField::Observed(v)) && v.spec_value() == true) || (observed_relationships(
            recs[i],
        ) matches Some(rels) && exists|k: int| 0 <= k < rels.len() && (#[trigger] rels[k]).kind == ResourceKind::Pod),
    ensures
        !root_origin_of(recs, req, recs[i].identity@, DiscoveryRootOrigin::All),
{
    assert(!eligible_all_root(recs, i));
    if root_origin_of(recs, req, recs[i].identity@, DiscoveryRootOrigin::All) {
        let j = choose|j: int| #[trigger] eligible_all_root(recs, j) && recs[j].identity@ == recs[i].identity@;
        if j < i {
            assert(recs[i].identity@ == recs[j].identity@);
        } else if j > i {
        }
    }
}

} // verus!
