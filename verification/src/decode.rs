//! Decoding of Libpod list and inspect documents into observation records.
//!
//! Every decoder reads a plain JSON value. A field that does not have its reviewed shape becomes
//! a `Malformed` field and a finding on the resource, so that one malformed field never hides the
//! others; only a document whose identity cannot be read is rejected as a whole.

use vstd::prelude::*;

use crate::diagnostic::{fails_with, Diagnostic, DiagnosticCode, PodmanLensResult};
use crate::inventory::ResourceKind;
use crate::json::{
    get, json_document, json_get, json_view, json_views, lemma_json_view_at, parse_json, lemma_json_views_len, lemma_member_view_at,
    lemma_member_views_len, member_views, JsonMember, JsonValue, JsonView,
};
use crate::inventory::{AcquisitionOptions, EnvironmentValuePolicy, JsonValueKind, MAX_INVENTORY_JSON_BYTES};
use crate::observation::{
    first_occurrences, texts, IdentityView, Labels, ObservationRecord, LabelsView, NativeRelationship, NetworkOptionKeys, ObservationField,
    ObservationOrigin, ObservedValue, ProtectedEnvironment, ProtectedEnvironmentEntry, ProtectedEnvironmentValue,
    RelationshipView, ResourceIdentity, ResourceObservationState, SensitiveEnvironmentValue, UnixId, UnmodelledCompleteness,
    UnmodelledField, UnmodelledFieldView,
    VolumeOwnerIdWireValue, semantic_unmodelled_id,
};
use crate::once::{opt_view, views};
use crate::order::{distinct, keys_sorted, sort_distinct};
use crate::probe::{json_content_type, require_json_content_type};
use crate::transport::LibpodResponse;
use crate::reconcile::{
    field_finding, occurrence_finding, resource_finding, section_finding, InventoryFinding, InventoryFindingView,
};
use crate::text::{append_chars, first_index, string_from_chars, to_chars};

verus! {

// ---------------------------------------------------------------------------------------------
// Decimal text and source paths.
// ---------------------------------------------------------------------------------------------
/// The ASCII digit of `d`.
pub open spec fn digit_char(d: nat) -> char {
    if d == 0 {
        '0'
    } else if d == 1 {
        '1'
    } else if d == 2 {
        '2'
    } else if d == 3 {
        '3'
    } else if d == 4 {
        '4'
    } else if d == 5 {
        '5'
    } else if d == 6 {
        '6'
    } else if d == 7 {
        '7'
    } else if d == 8 {
        '8'
    } else {
        '9'
    }
}

/// The decimal spelling of `n`, without leading zeros.
pub open spec fn decimal(n: nat) -> Seq<char>
    decreases n,
{
    if n < 10 {
        seq![digit_char(n)]
    } else {
        decimal(n / 10).push(digit_char(n % 10))
    }
}

fn digit_of(d: usize) -> (c: char)
    requires
        d < 10,
    ensures
        c == digit_char(d as nat),
{
    match d {
        0 => '0',
        1 => '1',
        2 => '2',
        3 => '3',
        4 => '4',
        5 => '5',
        6 => '6',
        7 => '7',
        8 => '8',
        _ => '9',
    }
}

fn decimal_chars(n: usize) -> (r: Vec<char>)
    ensures
        r@ == decimal(n as nat),
    decreases n,
{
    if n < 10 {
        let mut v: Vec<char> = Vec::new();
        v.push(digit_of(n));
        assert(v@ =~= seq![digit_char(n as nat)]);
        v
    } else {
        let mut v = decimal_chars(n / 10);
        v.push(digit_of(n % 10));
        v
    }
}

/// The decimal spelling of `n`.
pub(crate) fn decimal_u64(n: u64) -> (r: Vec<char>)
    ensures
        r@ == decimal(n as nat),
    decreases n,
{
    if n < 10 {
        let mut v: Vec<char> = Vec::new();
        v.push(digit_of(n as usize));
        assert(v@ =~= seq![digit_char(n as nat)]);
        v
    } else {
        let mut v = decimal_u64(n / 10);
        v.push(digit_of((n % 10) as usize));
        v
    }
}

/// The source path `prefix`, the decimal `index`, then `suffix`.
fn indexed_path(prefix: &str, index: usize, suffix: &str) -> (r: String)
    ensures
        r@ == prefix@ + decimal(index as nat) + suffix@,
{
    let mut cs = to_chars(prefix);
    let d = decimal_chars(index);
    append_chars(&mut cs, &d);
    let s = to_chars(suffix);
    append_chars(&mut cs, &s);
    string_from_chars(&cs)
}

/// The source path `prefix` followed by the member name `name`.
fn member_path(prefix: &str, name: &str) -> (r: String)
    ensures
        r@ == prefix@ + name@,
{
    let mut cs = to_chars(prefix);
    let n = to_chars(name);
    append_chars(&mut cs, &n);
    string_from_chars(&cs)
}

// ---------------------------------------------------------------------------------------------
// Decoded parts.
// ---------------------------------------------------------------------------------------------
/// What decoding one source field contributes: relationships, findings, whether the field was
/// supplied, and whether any of it was malformed.
pub struct Part {
    pub rels: Seq<RelationshipView>,
    pub findings: Seq<InventoryFindingView>,
    pub supplied: bool,
    pub malformed: bool,
}

/// Nothing decoded.
pub open spec fn no_part() -> Part {
    Part { rels: Seq::empty(), findings: Seq::empty(), supplied: false, malformed: false }
}

/// `a` followed by `b`.
pub open spec fn join(a: Part, b: Part) -> Part {
    Part {
        rels: a.rels + b.rels,
        findings: a.findings + b.findings,
        supplied: a.supplied || b.supplied,
        malformed: a.malformed || b.malformed,
    }
}

/// One relationship asserted by one reference at one path.
pub open spec fn single_rel(kind: ResourceKind, reference: Seq<char>, path: Seq<char>) -> RelationshipView {
    RelationshipView { kind, references: seq![reference], field_paths: seq![path] }
}

/// A part holding one relationship.
pub open spec fn rel_part(kind: ResourceKind, reference: Seq<char>, path: Seq<char>) -> Part {
    Part { rels: seq![single_rel(kind, reference, path)], findings: Seq::empty(), supplied: false, malformed: false }
}

/// A malformed part reported by one finding.
pub open spec fn bad_part(finding: InventoryFindingView) -> Part {
    Part { rels: Seq::empty(), findings: seq![finding], supplied: false, malformed: true }
}

/// `p`, marked as supplied.
pub open spec fn supplied(p: Part) -> Part {
    Part { supplied: true, ..p }
}

/// The parts of the items of an array, in order.
pub open spec fn fold_items(items: Seq<JsonView>, f: spec_fn(int, JsonView) -> Part) -> Part
    decreases items.len(),
{
    if items.len() == 0 {
        no_part()
    } else {
        join(fold_items(items.drop_last(), f), f(items.len() - 1, items.last()))
    }
}

/// The parts of the members of an object, in order.
pub open spec fn fold_members(members: Seq<(Seq<char>, JsonView)>, f: spec_fn((Seq<char>, JsonView)) -> Part) -> Part
    decreases members.len(),
{
    if members.len() == 0 {
        no_part()
    } else {
        join(fold_members(members.drop_last(), f), f(members.last()))
    }
}

proof fn lemma_fold_items_step(items: Seq<JsonView>, f: spec_fn(int, JsonView) -> Part, i: int)
    requires
        0 <= i < items.len(),
    ensures
        fold_items(items.take(i + 1), f) == join(fold_items(items.take(i), f), f(i, items[i])),
{
    assert(items.take(i + 1).drop_last() =~= items.take(i));
}

proof fn lemma_fold_members_step(members: Seq<(Seq<char>, JsonView)>, f: spec_fn((Seq<char>, JsonView)) -> Part, i: int)
    requires
        0 <= i < members.len(),
    ensures
        fold_members(members.take(i + 1), f) == join(fold_members(members.take(i), f), f(members[i])),
{
    assert(members.take(i + 1).drop_last() =~= members.take(i));
}

/// The decoded relationships and findings of one or more source fields.
struct Extracted {
    relationships: Vec<NativeRelationship>,
    findings: Vec<InventoryFinding>,
    supplied: bool,
    malformed: bool,
}

impl View for Extracted {
    type V = Part;

    closed spec fn view(&self) -> Part {
        Part {
            rels: views(self.relationships@),
            findings: views(self.findings@),
            supplied: self.supplied,
            malformed: self.malformed,
        }
    }
}

proof fn lemma_views_concat<T: View>(a: Seq<T>, b: Seq<T>)
    ensures
        views(a + b) == views(a) + views(b),
{
    assert(views(a + b) =~= views(a) + views(b));
}

proof fn lemma_views_push<T: View>(a: Seq<T>, x: T)
    ensures
        views(a.push(x)) == views(a).push(x@),
{
    assert(views(a.push(x)) =~= views(a).push(x@));
}

impl Extracted {
    fn empty() -> (r: Self)
        ensures
            r@ == no_part(),
    {
        let r = Extracted { relationships: Vec::new(), findings: Vec::new(), supplied: false, malformed: false };
        assert(views(r.relationships@) =~= Seq::<RelationshipView>::empty());
        assert(views(r.findings@) =~= Seq::<InventoryFindingView>::empty());
        r
    }

    fn relationship(kind: ResourceKind, reference: String, path: String) -> (r: Self)
        ensures
            r@ == rel_part(kind, reference@, path@),
    {
        let rel = NativeRelationship::new(kind, reference, path);
        let ghost rv = rel@;
        let mut relationships: Vec<NativeRelationship> = Vec::new();
        relationships.push(rel);
        let r = Extracted { relationships, findings: Vec::new(), supplied: false, malformed: false };
        assert(views(r.relationships@) =~= seq![rv]);
        assert(views(r.findings@) =~= Seq::<InventoryFindingView>::empty());
        r
    }

    fn bad(finding: InventoryFinding) -> (r: Self)
        ensures
            r@ == bad_part(finding@),
    {
        let ghost fv = finding@;
        let mut findings: Vec<InventoryFinding> = Vec::new();
        findings.push(finding);
        let r = Extracted { relationships: Vec::new(), findings, supplied: false, malformed: true };
        assert(views(r.findings@) =~= seq![fv]);
        assert(views(r.relationships@) =~= Seq::<RelationshipView>::empty());
        r
    }

    fn append(&mut self, other: Extracted)
        ensures
            final(self)@ == join(old(self)@, other@),
    {
        let mut other = other;
        let ghost a = self.relationships@;
        let ghost b = other.relationships@;
        let ghost fa = self.findings@;
        let ghost fb = other.findings@;
        self.relationships.append(&mut other.relationships);
        self.findings.append(&mut other.findings);
        self.supplied = self.supplied || other.supplied;
        self.malformed = self.malformed || other.malformed;
        proof {
            lemma_views_concat(a, b);
            lemma_views_concat(fa, fb);
        }
    }
}

// ---------------------------------------------------------------------------------------------
// JSON field shapes.
// ---------------------------------------------------------------------------------------------
/// The field is missing or `null`.
pub open spec fn missing(v: Option<JsonView>) -> bool {
    v is None || v == Some(JsonView::Null)
}

/// The non-empty text of a field, if it has one.
pub open spec fn nonempty_text(v: Option<JsonView>) -> Option<Seq<char>> {
    match v {
        Some(JsonView::Text(t)) => if t.len() > 0 {
            Some(t)
        } else {
            None
        },
        _ => None,
    }
}

/// The non-empty text of the member `key` of an object, if it has one.
pub open spec fn required_text(m: Seq<(Seq<char>, JsonView)>, key: Seq<char>) -> Option<Seq<char>> {
    nonempty_text(json_get(m, key))
}

fn is_missing(v: Option<&JsonValue>) -> (r: bool)
    ensures
        r == missing(match v {
            Some(x) => Some(json_view(*x)),
            None => None,
        }),
{
    match v {
        None => true,
        Some(JsonValue::Null) => true,
        Some(_) => false,
    }
}

/// The non-empty text of member `key`, if it has one.
fn required_string<'a>(object: &'a Vec<JsonMember>, key: &str) -> (r: Option<&'a String>)
    ensures
        match r {
            Some(t) => required_text(member_views(object@), key@) == Some(t@),
            None => required_text(member_views(object@), key@) is None,
        },
{
    match get(object, key) {
        Some(JsonValue::Text(t)) => if !t.as_str().is_empty() {
            Some(t)
        } else {
            None
        },
        _ => None,
    }
}

// ---------------------------------------------------------------------------------------------
// Arrays whose items each assert a relationship.
// ---------------------------------------------------------------------------------------------
/// A source array whose items each assert one relationship.
#[derive(Clone, Copy, PartialEq, Eq, Structural)]
pub enum ItemRule {
    /// `Containers` of a pod: objects with a container `Id`.
    PodContainer,
    /// `Networks` of a pod: network names.
    PodNetwork,
    /// `Dependencies` of a container: container references.
    Dependency,
    /// `Mounts` of a container: mounts, of which volume mounts name a volume.
    Mount,
    /// `Config.Secrets` of a container: objects with a secret `ID` and `Name`.
    Secret,
}

/// The member that holds the array.
pub open spec fn rule_key(rule: ItemRule) -> Seq<char> {
    match rule {
        ItemRule::PodContainer => "Containers"@,
        ItemRule::PodNetwork => "Networks"@,
        ItemRule::Dependency => "Dependencies"@,
        ItemRule::Mount => "Mounts"@,
        ItemRule::Secret => "Secrets"@,
    }
}

/// The source path of the array.
pub open spec fn rule_path(rule: ItemRule) -> Seq<char> {
    match rule {
        ItemRule::PodContainer => "$.Containers"@,
        ItemRule::PodNetwork => "$.Networks"@,
        ItemRule::Dependency => "$.Dependencies"@,
        ItemRule::Mount => "$.Mounts"@,
        ItemRule::Secret => "$.Config.Secrets"@,
    }
}

/// Item `i` of the array does not have its reviewed shape.
pub open spec fn item_bad(rule: ItemRule, identity: IdentityView, i: int) -> Part {
    bad_part(occurrence_finding(DiagnosticCode::ResourceMalformed, identity, rule_path(rule), i))
}

/// What member `key` of secret item `i` contributes: a reference and its path, or a finding.
pub open spec fn secret_key_part(
    identity: IdentityView,
    m: Seq<(Seq<char>, JsonView)>,
    key: Seq<char>,
    path: Seq<char>,
    i: int,
) -> (Seq<(Seq<char>, Seq<char>)>, Seq<InventoryFindingView>, bool) {
    let v = json_get(m, key);
    if missing(v) {
        (Seq::empty(), Seq::empty(), false)
    } else {
        match nonempty_text(v) {
            Some(t) => (seq![(t, path)], Seq::empty(), false),
            None => (
                Seq::empty(),
                seq![occurrence_finding(DiagnosticCode::ResourceMalformed, identity, "$.Config.Secrets"@, i)],
                true,
            ),
        }
    }
}

/// The secret relationship asserted by `(reference, path)` pairs.
pub open spec fn secret_rel(refs: Seq<(Seq<char>, Seq<char>)>) -> RelationshipView {
    RelationshipView {
        kind: ResourceKind::Secret,
        references: first_occurrences(refs.map_values(|p: (Seq<char>, Seq<char>)| p.0)),
        field_paths: refs.map_values(|p: (Seq<char>, Seq<char>)| p.1),
    }
}

/// What secret object `m`, item `i` of `Config.Secrets`, contributes.
pub open spec fn secret_item_part(identity: IdentityView, i: int, m: Seq<(Seq<char>, JsonView)>) -> Part {
    let a = secret_key_part(identity, m, "ID"@, "$.Config.Secrets["@ + decimal(i as nat) + "].ID"@, i);
    let b = secret_key_part(identity, m, "Name"@, "$.Config.Secrets["@ + decimal(i as nat) + "].Name"@, i);
    let refs = a.0 + b.0;
    let findings = a.1 + b.1;
    if !a.2 && !b.2 && refs.len() > 0 {
        Part { rels: seq![secret_rel(refs)], findings, supplied: false, malformed: false }
    } else {
        Part {
            rels: Seq::empty(),
            findings: findings.push(occurrence_finding(DiagnosticCode::ResourceMalformed, identity, "$.Config.Secrets"@, i)),
            supplied: false,
            malformed: true,
        }
    }
}

/// What item `i`, `v`, of the array of `rule` contributes.
pub open spec fn item_part(rule: ItemRule, identity: IdentityView, i: int, v: JsonView) -> Part {
    match rule {
        ItemRule::PodContainer => match v {
            JsonView::Object(m) => match required_text(m, "Id"@) {
                Some(id) => rel_part(ResourceKind::Container, id, "$.Containers["@ + decimal(i as nat) + "].Id"@),
                None => item_bad(rule, identity, i),
            },
            _ => item_bad(rule, identity, i),
        },
        ItemRule::PodNetwork => match nonempty_text(Some(v)) {
            Some(n) => rel_part(ResourceKind::Network, n, "$.Networks["@ + decimal(i as nat) + "]"@),
            None => item_bad(rule, identity, i),
        },
        ItemRule::Dependency => match nonempty_text(Some(v)) {
            Some(n) => rel_part(ResourceKind::Container, n, "$.Dependencies["@ + decimal(i as nat) + "]"@),
            None => item_bad(rule, identity, i),
        },
        ItemRule::Mount => match v {
            JsonView::Object(m) => match json_get(m, "Type"@) {
                Some(JsonView::Text(k)) => if k == "volume"@ {
                    match required_text(m, "Name"@) {
                        Some(n) => rel_part(ResourceKind::Volume, n, "$.Mounts["@ + decimal(i as nat) + "].Name"@),
                        None => item_bad(rule, identity, i),
                    }
                } else {
                    no_part()
                },
                _ => item_bad(rule, identity, i),
            },
            _ => item_bad(rule, identity, i),
        },
        ItemRule::Secret => match v {
            JsonView::Object(m) => secret_item_part(identity, i, m),
            _ => item_bad(rule, identity, i),
        },
    }
}

/// The item decoder of `rule`.
pub open spec fn item_fn(rule: ItemRule, identity: IdentityView) -> spec_fn(int, JsonView) -> Part {
    |i: int, v: JsonView| item_part(rule, identity, i, v)
}

/// What the array member of `rule` in object `m` contributes.
pub open spec fn array_part(rule: ItemRule, identity: IdentityView, m: Seq<(Seq<char>, JsonView)>) -> Part {
    let v = json_get(m, rule_key(rule));
    if missing(v) {
        no_part()
    } else {
        match v {
            Some(JsonView::Array(items)) => supplied(fold_items(items, item_fn(rule, identity))),
            _ => supplied(bad_part(field_finding(DiagnosticCode::ResourceMalformed, identity, rule_path(rule)))),
        }
    }
}

fn rule_key_str(rule: ItemRule) -> (r: &'static str)
    ensures
        r@ == rule_key(rule),
{
    match rule {
        ItemRule::PodContainer => "Containers",
        ItemRule::PodNetwork => "Networks",
        ItemRule::Dependency => "Dependencies",
        ItemRule::Mount => "Mounts",
        ItemRule::Secret => "Secrets",
    }
}

fn rule_path_str(rule: ItemRule) -> (r: &'static str)
    ensures
        r@ == rule_path(rule),
{
    match rule {
        ItemRule::PodContainer => "$.Containers",
        ItemRule::PodNetwork => "$.Networks",
        ItemRule::Dependency => "$.Dependencies",
        ItemRule::Mount => "$.Mounts",
        ItemRule::Secret => "$.Config.Secrets",
    }
}

fn bad_item(rule: ItemRule, identity: &ResourceIdentity, i: usize) -> (r: Extracted)
    ensures
        r@ == item_bad(rule, identity@, i as int),
{
    Extracted::bad(
        InventoryFinding::at_occurrence(DiagnosticCode::ResourceMalformed, identity.clone(), rule_path_str(rule).to_string(), i),
    )
}

/// The reference at member `key` of a secret object, or whether it is malformed.
fn secret_reference(
    identity: &ResourceIdentity,
    m: &Vec<JsonMember>,
    key: &str,
    suffix: &str,
    i: usize,
) -> (r: (Vec<(String, String)>, Vec<InventoryFinding>, bool))
    ensures
        ({
            let expected = secret_key_part(
                identity@,
                member_views(m@),
                key@,
                "$.Config.Secrets["@ + decimal(i as nat) + suffix@,
                i as int,
            );
            &&& r.0@.map_values(|p: (String, String)| (p.0@, p.1@)) == expected.0
            &&& views(r.1@) == expected.1
            &&& r.2 == expected.2
        }),
{
    let mut refs: Vec<(String, String)> = Vec::new();
    let mut findings: Vec<InventoryFinding> = Vec::new();
    let v = get(m, key);
    if is_missing(v) {
        assert(refs@.map_values(|p: (String, String)| (p.0@, p.1@)) =~= Seq::<(Seq<char>, Seq<char>)>::empty());
        assert(views(findings@) =~= Seq::<InventoryFindingView>::empty());
        return (refs, findings, false);
    }
    match v {
        Some(JsonValue::Text(t)) => {
            if !t.as_str().is_empty() {
                let path = indexed_path("$.Config.Secrets[", i, suffix);
                refs.push((t.clone(), path));
                assert(refs@.map_values(|p: (String, String)| (p.0@, p.1@)) =~= seq![(t@, path@)]);
                assert(views(findings@) =~= Seq::<InventoryFindingView>::empty());
                return (refs, findings, false);
            }
        },
        _ => {},
    }
    let f = InventoryFinding::at_occurrence(DiagnosticCode::ResourceMalformed, identity.clone(), "$.Config.Secrets".to_string(), i);
    let ghost fv = f@;
    findings.push(f);
    assert(refs@.map_values(|p: (String, String)| (p.0@, p.1@)) =~= Seq::<(Seq<char>, Seq<char>)>::empty());
    assert(views(findings@) =~= seq![fv]);
    (refs, findings, true)
}

fn decode_secret_item(identity: &ResourceIdentity, i: usize, m: &Vec<JsonMember>) -> (r: Extracted)
    ensures
        r@ == secret_item_part(identity@, i as int, member_views(m@)),
{
    let (mut refs, mut findings, bad_id) = secret_reference(identity, m, "ID", "].ID", i);
    let (mut refs_b, mut findings_b, bad_name) = secret_reference(identity, m, "Name", "].Name", i);
    let ghost ra = refs@;
    let ghost rb = refs_b@;
    let ghost fa = findings@;
    let ghost fb = findings_b@;
    refs.append(&mut refs_b);
    findings.append(&mut findings_b);
    let ghost pair_view = |p: (String, String)| (p.0@, p.1@);
    proof {
        lemma_views_concat(fa, fb);
        assert((ra + rb).map_values(pair_view) =~= ra.map_values(pair_view) + rb.map_values(pair_view));
    }
    let ghost expected = secret_item_part(identity@, i as int, member_views(m@));
    let ghost refs_view = refs@.map_values(pair_view);
    if !bad_id && !bad_name && refs.len() > 0 {
        let ghost pairs = refs@;
        match NativeRelationship::coalesced(ResourceKind::Secret, refs) {
            Some(rel) => {
                proof {
                    assert(pairs.map_values(|p: (String, String)| p.0@) =~= refs_view.map_values(
                        |p: (Seq<char>, Seq<char>)| p.0,
                    ));
                    assert(pairs.map_values(|p: (String, String)| p.1@) =~= refs_view.map_values(
                        |p: (Seq<char>, Seq<char>)| p.1,
                    ));
                }
                let ghost rv = rel@;
                let mut relationships: Vec<NativeRelationship> = Vec::new();
                relationships.push(rel);
                let r = Extracted { relationships, findings, supplied: false, malformed: false };
                assert(views(r.relationships@) =~= seq![rv]);
                r
            },
            None => {
                proof {
                    assert(false);
                }
                Extracted { relationships: Vec::new(), findings, supplied: false, malformed: true }
            },
        }
    } else {
        let f = InventoryFinding::at_occurrence(
            DiagnosticCode::ResourceMalformed,
            identity.clone(),
            "$.Config.Secrets".to_string(),
            i,
        );
        let ghost before = findings@;
        let ghost fv = f@;
        findings.push(f);
        proof {
            lemma_views_push(before, f);
        }
        let r = Extracted { relationships: Vec::new(), findings, supplied: false, malformed: true };
        assert(views(r.relationships@) =~= Seq::<RelationshipView>::empty());
        r
    }
}

fn decode_item(rule: ItemRule, identity: &ResourceIdentity, i: usize, item: &JsonValue) -> (r: Extracted)
    ensures
        r@ == item_part(rule, identity@, i as int, json_view(*item)),
{
    match rule {
        ItemRule::PodContainer => match item {
            JsonValue::Object(m) => match required_string(m, "Id") {
                Some(id) => Extracted::relationship(ResourceKind::Container, id.clone(), indexed_path("$.Containers[", i, "].Id")),
                None => bad_item(rule, identity, i),
            },
            _ => bad_item(rule, identity, i),
        },
        ItemRule::PodNetwork => match item {
            JsonValue::Text(n) => if !n.as_str().is_empty() {
                Extracted::relationship(ResourceKind::Network, n.clone(), indexed_path("$.Networks[", i, "]"))
            } else {
                bad_item(rule, identity, i)
            },
            _ => bad_item(rule, identity, i),
        },
        ItemRule::Dependency => match item {
            JsonValue::Text(n) => if !n.as_str().is_empty() {
                Extracted::relationship(ResourceKind::Container, n.clone(), indexed_path("$.Dependencies[", i, "]"))
            } else {
                bad_item(rule, identity, i)
            },
            _ => bad_item(rule, identity, i),
        },
        ItemRule::Mount => match item {
            JsonValue::Object(m) => match get(m, "Type") {
                Some(JsonValue::Text(k)) => if crate::text::str_eq(k.as_str(), "volume") {
                    match required_string(m, "Name") {
                        Some(n) => Extracted::relationship(ResourceKind::Volume, n.clone(), indexed_path("$.Mounts[", i, "].Name")),
                        None => bad_item(rule, identity, i),
                    }
                } else {
                    Extracted::empty()
                },
                _ => bad_item(rule, identity, i),
            },
            _ => bad_item(rule, identity, i),
        },
        ItemRule::Secret => match item {
            JsonValue::Object(m) => decode_secret_item(identity, i, m),
            _ => bad_item(rule, identity, i),
        },
    }
}

fn decode_items(rule: ItemRule, identity: &ResourceIdentity, items: &Vec<JsonValue>) -> (r: Extracted)
    ensures
        r@ == fold_items(json_views(items@), item_fn(rule, identity@)),
{
    let ghost vs = json_views(items@);
    proof {
        lemma_json_views_len(items@);
    }
    let mut out = Extracted::empty();
    let mut i: usize = 0;
    while i < items.len()
        invariant
            i <= items.len(),
            vs == json_views(items@),
            vs.len() == items.len(),
            out@ == fold_items(vs.take(i as int), item_fn(rule, identity@)),
        decreases items.len() - i,
    {
        proof {
            lemma_json_view_at(items@, i as int);
            lemma_fold_items_step(vs, item_fn(rule, identity@), i as int);
        }
        let part = decode_item(rule, identity, i, &items[i]);
        out.append(part);
        i = i + 1;
    }
    assert(vs.take(items.len() as int) =~= vs);
    out
}

/// Decodes the array member of `rule` in `object`.
fn decode_array(rule: ItemRule, identity: &ResourceIdentity, object: &Vec<JsonMember>) -> (r: Extracted)
    ensures
        r@ == array_part(rule, identity@, member_views(object@)),
{
    let v = get(object, rule_key_str(rule));
    if is_missing(v) {
        return Extracted::empty();
    }
    match v {
        Some(JsonValue::Array(items)) => {
            let mut r = decode_items(rule, identity, items);
            r.supplied = true;
            r
        },
        _ => {
            let mut r = Extracted::bad(
                InventoryFinding::field(DiagnosticCode::ResourceMalformed, identity.clone(), rule_path_str(rule).to_string()),
            );
            r.supplied = true;
            r
        },
    }
}

// ---------------------------------------------------------------------------------------------
// Field shapes.
// ---------------------------------------------------------------------------------------------
/// The state of a decoded field, with the content of an observed value.
pub enum Shape<V> {
    Absent,
    Observed(V, ObservationOrigin),
    Malformed,
    VersionInapplicable,
    Other,
}

/// The state of a field, with its value taken by its view.
pub open spec fn shape<T: View>(f: ObservationField<T>) -> Shape<T::V> {
    match f {
        ObservationField::Absent => Shape::Absent,
        ObservationField::Observed(v) => Shape::Observed(v.spec_value()@, v.spec_origin()),
        ObservationField::Malformed => Shape::Malformed,
        ObservationField::VersionInapplicable => Shape::VersionInapplicable,
        _ => Shape::Other,
    }
}

/// The state of a field of strings, with its value taken as texts.
pub open spec fn shape_texts(f: ObservationField<Vec<String>>) -> Shape<Seq<Seq<char>>> {
    match f {
        ObservationField::Absent => Shape::Absent,
        ObservationField::Observed(v) => Shape::Observed(texts(v.spec_value()@), v.spec_origin()),
        ObservationField::Malformed => Shape::Malformed,
        ObservationField::VersionInapplicable => Shape::VersionInapplicable,
        _ => Shape::Other,
    }
}

/// The state of a field of relationships, with its value taken by the relationships' views.
pub open spec fn shape_rels(f: ObservationField<Vec<NativeRelationship>>) -> Shape<Seq<RelationshipView>> {
    match f {
        ObservationField::Absent => Shape::Absent,
        ObservationField::Observed(v) => Shape::Observed(views(v.spec_value()@), v.spec_origin()),
        ObservationField::Malformed => Shape::Malformed,
        ObservationField::VersionInapplicable => Shape::VersionInapplicable,
        _ => Shape::Other,
    }
}

/// The one finding that reports a malformed field at `path`, if it is malformed.
pub open spec fn malformed_findings<V>(s: Shape<V>, identity: IdentityView, path: Seq<char>) -> Seq<InventoryFindingView> {
    if s is Malformed {
        seq![field_finding(DiagnosticCode::ResourceMalformed, identity, path)]
    } else {
        Seq::empty()
    }
}

fn no_findings() -> (r: Vec<InventoryFinding>)
    ensures
        views(r@) == Seq::<InventoryFindingView>::empty(),
{
    let r: Vec<InventoryFinding> = Vec::new();
    assert(views(r@) =~= Seq::<InventoryFindingView>::empty());
    r
}

fn one_finding(f: InventoryFinding) -> (r: Vec<InventoryFinding>)
    ensures
        views(r@) == seq![f@],
{
    let ghost fv = f@;
    let mut r: Vec<InventoryFinding> = Vec::new();
    r.push(f);
    assert(views(r@) =~= seq![fv]);
    r
}

/// The findings of a field: one at `path` when it is malformed.
fn malformed_at<T: View>(
    field: &ObservationField<T>,
    identity: &ResourceIdentity,
    path: &str,
) -> (r: Vec<InventoryFinding>)
    ensures
        views(r@) == malformed_findings(shape(*field), identity@, path@),
{
    match field {
        ObservationField::Malformed => one_finding(
            InventoryFinding::field(DiagnosticCode::ResourceMalformed, identity.clone(), path.to_string()),
        ),
        _ => no_findings(),
    }
}

// ---------------------------------------------------------------------------------------------
// Scalar fields.
// ---------------------------------------------------------------------------------------------
/// The optional value of a field as seen by `get`.
pub open spec fn opt_json(v: Option<&JsonValue>) -> Option<JsonView> {
    match v {
        Some(x) => Some(json_view(*x)),
        None => None,
    }
}

/// A non-empty text field.
pub open spec fn text_shape(v: Option<JsonView>, origin: ObservationOrigin) -> Shape<Seq<char>> {
    if missing(v) {
        Shape::Absent
    } else {
        match nonempty_text(v) {
            Some(t) => Shape::Observed(t, origin),
            None => Shape::Malformed,
        }
    }
}

/// A boolean field with its effective value.
pub open spec fn bool_shape(v: Option<JsonView>) -> Shape<bool> {
    if missing(v) {
        Shape::Absent
    } else {
        match v {
            Some(JsonView::Bool(b)) => Shape::Observed(b, ObservationOrigin::Effective),
            _ => Shape::Malformed,
        }
    }
}

/// Decodes an optional non-empty string field.
fn optional_string_field(value: Option<&JsonValue>, origin: ObservationOrigin) -> (r: ObservationField<String>)
    ensures
        shape(r) == text_shape(opt_json(value), origin),
{
    if is_missing(value) {
        return ObservationField::Absent;
    }
    match value {
        Some(JsonValue::Text(t)) => if !t.as_str().is_empty() {
            ObservationField::Observed(ObservedValue::new(t.clone(), origin))
        } else {
            ObservationField::Malformed
        },
        _ => ObservationField::Malformed,
    }
}

/// Decodes an optional boolean field.
fn bool_field(value: Option<&JsonValue>) -> (r: ObservationField<bool>)
    ensures
        shape(r) == bool_shape(opt_json(value)),
{
    if is_missing(value) {
        return ObservationField::Absent;
    }
    match value {
        Some(JsonValue::Bool(b)) => ObservationField::Observed(ObservedValue::new(*b, ObservationOrigin::Effective)),
        _ => ObservationField::Malformed,
    }
}

/// A text field whose value may be empty, such as a secret driver.
pub open spec fn any_text_shape(v: Option<JsonView>, origin: ObservationOrigin) -> Shape<Seq<char>> {
    if missing(v) {
        Shape::Absent
    } else {
        match v {
            Some(JsonView::Text(t)) => Shape::Observed(t, origin),
            _ => Shape::Malformed,
        }
    }
}

fn any_string_field(value: Option<&JsonValue>, origin: ObservationOrigin) -> (r: ObservationField<String>)
    ensures
        shape(r) == any_text_shape(opt_json(value), origin),
{
    if is_missing(value) {
        return ObservationField::Absent;
    }
    match value {
        Some(JsonValue::Text(t)) => ObservationField::Observed(ObservedValue::new(t.clone(), origin)),
        _ => ObservationField::Malformed,
    }
}

// ---------------------------------------------------------------------------------------------
// Unsigned numbers.
// ---------------------------------------------------------------------------------------------
/// The value of an ASCII digit.
pub open spec fn digit_value(c: char) -> int {
    (c as int) - 48
}

/// The value of a sequence of ASCII digits.
pub open spec fn digits_value(t: Seq<char>) -> nat
    decreases t.len(),
{
    if t.len() == 0 {
        0
    } else {
        (digits_value(t.drop_last()) * 10 + digit_value(t.last())) as nat
    }
}

/// Every character is an ASCII digit.
pub open spec fn all_digits(t: Seq<char>) -> bool {
    forall|i: int| 0 <= i < t.len() ==> '0' <= #[trigger] t[i] <= '9'
}

/// The non-negative integer that the printed number `t` denotes, when it fits in `u64`: a JSON
/// number is an unsigned integer exactly when its printed form is a run of digits.
pub open spec fn unsigned_value(t: Seq<char>) -> Option<u64> {
    if t.len() > 0 && all_digits(t) && digits_value(t) <= u64::MAX {
        Some(digits_value(t) as u64)
    } else {
        None
    }
}

proof fn lemma_digits_value_prefix(t: Seq<char>, i: int)
    requires
        all_digits(t),
        0 <= i <= t.len(),
    ensures
        digits_value(t.take(i)) <= digits_value(t),
    decreases t.len(),
{
    if i < t.len() {
        let d = t.drop_last();
        assert(t.take(i) =~= d.take(i));
        assert(all_digits(d)) by {
            assert forall|j: int| 0 <= j < d.len() implies '0' <= #[trigger] d[j] <= '9' by {
                assert(d[j] == t[j]);
            }
        }
        lemma_digits_value_prefix(d, i);
        assert('0' <= t[t.len() - 1] <= '9');
    } else {
        assert(t.take(i) =~= t);
    }
}

fn parse_unsigned(t: &str) -> (r: Option<u64>)
    ensures
        r == unsigned_value(t@),
{
    let cs = to_chars(t);
    if cs.len() == 0 {
        return None;
    }
    let mut acc: u64 = 0;
    let mut i: usize = 0;
    while i < cs.len()
        invariant
            i <= cs.len(),
            cs@ == t@,
            cs.len() > 0,
            all_digits(cs@.take(i as int)),
            acc == digits_value(cs@.take(i as int)),
        decreases cs.len() - i,
    {
        let c = cs[i];
        proof {
            assert(cs@.take(i + 1).drop_last() =~= cs@.take(i as int));
            assert(cs@.take(i + 1).last() == c);
        }
        if c < '0' || c > '9' {
            proof {
                assert(!all_digits(cs@)) by {
                    assert(cs@[i as int] == c);
                }
            }
            return None;
        }
        let d: u64 = (c as u32 - 48) as u64;
        assert(d == digit_value(c));
        let next = match acc.checked_mul(10) {
            Some(m) => m.checked_add(d),
            None => None,
        };
        match next {
            Some(n) => {
                acc = n;
                proof {
                    assert forall|j: int| 0 <= j < i + 1 implies '0' <= #[trigger] cs@.take(i + 1)[j] <= '9' by {
                        if j < i {
                            assert(cs@.take(i + 1)[j] == cs@.take(i as int)[j]);
                        }
                    }
                }
            },
            None => {
                proof {
                    assert(digits_value(cs@.take(i + 1)) > u64::MAX);
                    if all_digits(cs@) {
                        lemma_digits_value_prefix(cs@, i + 1);
                    }
                }
                return None;
            },
        }
        i = i + 1;
    }
    assert(cs@.take(cs.len() as int) =~= cs@);
    Some(acc)
}

/// The value of a JSON number that is an unsigned integer fitting in `u64`.
pub open spec fn json_unsigned(v: JsonView) -> Option<u64> {
    match v {
        JsonView::Number(t) => unsigned_value(t),
        _ => None,
    }
}

fn json_as_unsigned(v: &JsonValue) -> (r: Option<u64>)
    ensures
        r == json_unsigned(json_view(*v)),
{
    match v {
        JsonValue::Number(t) => parse_unsigned(t.as_str()),
        _ => None,
    }
}

// ---------------------------------------------------------------------------------------------
// String maps: labels and network options.
// ---------------------------------------------------------------------------------------------
/// Every member of the object is a string.
pub open spec fn all_text_values(m: Seq<(Seq<char>, JsonView)>) -> bool {
    forall|i: int| 0 <= i < m.len() ==> (#[trigger] m[i]).1 is Text
}

/// The text of a JSON string, or the empty text.
pub open spec fn text_of(v: JsonView) -> Seq<char> {
    match v {
        JsonView::Text(t) => t,
        _ => Seq::empty(),
    }
}

/// The members of an object of strings as `(key, value)` pairs.
pub open spec fn text_pairs(m: Seq<(Seq<char>, JsonView)>) -> Seq<(Seq<char>, Seq<char>)> {
    m.map_values(|p: (Seq<char>, JsonView)| (p.0, text_of(p.1)))
}

/// An object of strings: `None` when malformed, `Some(None)` when missing.
pub open spec fn string_map(v: Option<JsonView>) -> Option<Option<Seq<(Seq<char>, Seq<char>)>>> {
    if missing(v) {
        Some(None)
    } else {
        match v {
            Some(JsonView::Object(m)) => if all_text_values(m) {
                Some(Some(text_pairs(m)))
            } else {
                None
            },
            _ => None,
        }
    }
}

/// The labels of a resource.
pub open spec fn labels_shape(v: Option<JsonView>) -> Shape<LabelsView> {
    match string_map(v) {
        Some(Some(pairs)) => Shape::Observed(pairs, ObservationOrigin::Configured),
        Some(None) => Shape::Absent,
        None => Shape::Malformed,
    }
}

/// The option keys of a network.
pub open spec fn option_keys_shape(v: Option<JsonView>) -> Shape<Seq<Seq<char>>> {
    match string_map(v) {
        Some(Some(pairs)) => Shape::Observed(
            pairs.map_values(|p: (Seq<char>, Seq<char>)| p.0),
            ObservationOrigin::Effective,
        ),
        Some(None) => Shape::Absent,
        None => Shape::Malformed,
    }
}

fn string_pairs(value: Option<&JsonValue>) -> (r: Option<Option<Vec<(String, String)>>>)
    ensures
        match r {
            Some(Some(p)) => string_map(opt_json(value)) == Some(Some(
                p@.map_values(|e: (String, String)| (e.0@, e.1@)),
            )),
            Some(None) => string_map(opt_json(value)) == Some(None::<Seq<(Seq<char>, Seq<char>)>>),
            None => string_map(opt_json(value)) is None,
        },
{
    if is_missing(value) {
        return Some(None);
    }
    let members = match value {
        Some(JsonValue::Object(m)) => m,
        _ => {
            return None;
        },
    };
    let ghost mv = member_views(members@);
    proof {
        lemma_member_views_len(members@);
    }
    assert(opt_json(value) == Some(JsonView::Object(mv)));
    let mut pairs: Vec<(String, String)> = Vec::new();
    let mut i: usize = 0;
    while i < members.len()
        invariant
            i <= members.len(),
            opt_json(value) == Some(JsonView::Object(mv)),
            mv == member_views(members@),
            mv.len() == members.len(),
            all_text_values(mv.take(i as int)),
            pairs@.map_values(|e: (String, String)| (e.0@, e.1@)) == text_pairs(mv.take(i as int)),
        decreases members.len() - i,
    {
        proof {
            lemma_member_view_at(members@, i as int);
        }
        match &members[i].value {
            JsonValue::Text(t) => {
                let ghost before = pairs@;
                let k = members[i].key.clone();
                let v = t.clone();
                let ghost kv = (k@, v@);
                pairs.push((k, v));
                proof {
                    assert(mv[i as int] == (kv.0, JsonView::Text(kv.1)));
                    assert(mv.take(i + 1) =~= mv.take(i as int).push(mv[i as int]));
                    assert(text_pairs(mv.take(i + 1)) =~= text_pairs(mv.take(i as int)).push(kv));
                    assert(pairs@.map_values(|e: (String, String)| (e.0@, e.1@)) =~= before.map_values(
                        |e: (String, String)| (e.0@, e.1@),
                    ).push(kv));
                    assert forall|j: int| 0 <= j < i + 1 implies (#[trigger] mv.take(i + 1)[j]).1 is Text by {
                        if j < i {
                            assert(mv.take(i + 1)[j] == mv.take(i as int)[j]);
                        }
                    }
                }
            },
            _ => {
                proof {
                    assert(!all_text_values(mv)) by {
                        assert(!(mv[i as int].1 is Text));
                    }
                }
                return None;
            },
        }
        i = i + 1;
    }
    assert(mv.take(members.len() as int) =~= mv);
    Some(Some(pairs))
}

/// Decodes labels.
fn labels_field(value: Option<&JsonValue>) -> (r: ObservationField<Labels>)
    ensures
        shape(r) == labels_shape(opt_json(value)),
{
    match string_pairs(value) {
        Some(Some(pairs)) => ObservationField::Observed(
            ObservedValue::new(Labels::from_entries(pairs), ObservationOrigin::Configured),
        ),
        Some(None) => ObservationField::Absent,
        None => ObservationField::Malformed,
    }
}

/// Decodes network option keys.
fn option_keys_field(value: Option<&JsonValue>) -> (r: ObservationField<NetworkOptionKeys>)
    ensures
        shape(r) == option_keys_shape(opt_json(value)),
{
    match string_pairs(value) {
        Some(Some(pairs)) => {
            let ghost pv = pairs@.map_values(|e: (String, String)| (e.0@, e.1@));
            let mut keys: Vec<String> = Vec::new();
            let mut i: usize = 0;
            while i < pairs.len()
                invariant
                    i <= pairs.len(),
                    pv == pairs@.map_values(|e: (String, String)| (e.0@, e.1@)),
                    texts(keys@) == pv.take(i as int).map_values(|p: (Seq<char>, Seq<char>)| p.0),
                decreases pairs.len() - i,
            {
                let ghost before = keys@;
                let k = pairs[i].0.clone();
                let ghost kv = k@;
                keys.push(k);
                proof {
                    assert(pv[i as int].0 == kv);
                    assert(pv.take(i + 1) =~= pv.take(i as int).push(pv[i as int]));
                    assert(pv.take(i + 1).map_values(|p: (Seq<char>, Seq<char>)| p.0) =~= pv.take(i as int).map_values(
                        |p: (Seq<char>, Seq<char>)| p.0,
                    ).push(kv));
                    assert(texts(keys@) =~= texts(before).push(kv));
                }
                i = i + 1;
            }
            assert(pv.take(pairs.len() as int) =~= pv);
            ObservationField::Observed(ObservedValue::new(NetworkOptionKeys::new(keys), ObservationOrigin::Effective))
        },
        Some(None) => ObservationField::Absent,
        None => ObservationField::Malformed,
    }
}

// ---------------------------------------------------------------------------------------------
// Arrays of values: subnets, image aliases, and environment entries.
// ---------------------------------------------------------------------------------------------
/// What the items of an array of values contribute: the values, findings, and whether any item
/// was malformed.
pub struct Listed<V> {
    pub values: Seq<V>,
    pub findings: Seq<InventoryFindingView>,
    pub malformed: bool,
}

/// The values of the items of an array, in order.
pub open spec fn fold_listed<V>(items: Seq<JsonView>, f: spec_fn(int, JsonView) -> Listed<V>) -> Listed<V>
    decreases items.len(),
{
    if items.len() == 0 {
        Listed { values: Seq::empty(), findings: Seq::empty(), malformed: false }
    } else {
        let a = fold_listed(items.drop_last(), f);
        let b = f(items.len() - 1, items.last());
        Listed { values: a.values + b.values, findings: a.findings + b.findings, malformed: a.malformed || b.malformed }
    }
}

proof fn lemma_fold_listed_step<V>(items: Seq<JsonView>, f: spec_fn(int, JsonView) -> Listed<V>, i: int)
    requires
        0 <= i < items.len(),
    ensures
        ({
            let a = fold_listed(items.take(i), f);
            let b = f(i, items[i]);
            fold_listed(items.take(i + 1), f) == Listed {
                values: a.values + b.values,
                findings: a.findings + b.findings,
                malformed: a.malformed || b.malformed,
            }
        }),
{
    assert(items.take(i + 1).drop_last() =~= items.take(i));
}

/// One value.
pub open spec fn listed_one<V>(v: V) -> Listed<V> {
    Listed { values: seq![v], findings: Seq::empty(), malformed: false }
}

/// A malformed item reported by one finding.
pub open spec fn listed_bad<V>(f: InventoryFindingView) -> Listed<V> {
    Listed { values: Seq::empty(), findings: seq![f], malformed: true }
}

/// An array field of values: its state and findings.
pub open spec fn list_field<V>(
    v: Option<JsonView>,
    f: spec_fn(int, JsonView) -> Listed<V>,
    identity: IdentityView,
    path: Seq<char>,
    origin: ObservationOrigin,
) -> (Shape<Seq<V>>, Seq<InventoryFindingView>) {
    if missing(v) {
        (Shape::Absent, Seq::empty())
    } else {
        match v {
            Some(JsonView::Array(items)) => {
                let l = fold_listed(items, f);
                (if l.malformed {
                    Shape::Malformed
                } else {
                    Shape::Observed(l.values, origin)
                }, l.findings)
            },
            _ => (Shape::Malformed, seq![field_finding(DiagnosticCode::ResourceMalformed, identity, path)]),
        }
    }
}

/// Subnet item `i`: an object with a non-empty `subnet`.
pub open spec fn subnet_item(identity: IdentityView, i: int, v: JsonView) -> Listed<Seq<char>> {
    match v {
        JsonView::Object(m) => match required_text(m, "subnet"@) {
            Some(t) => listed_one(t),
            None => listed_bad(occurrence_finding(DiagnosticCode::ResourceMalformed, identity, "$.subnets"@, i)),
        },
        _ => listed_bad(occurrence_finding(DiagnosticCode::ResourceMalformed, identity, "$.subnets"@, i)),
    }
}

pub open spec fn subnet_fn(identity: IdentityView) -> spec_fn(int, JsonView) -> Listed<Seq<char>> {
    |i: int, v: JsonView| subnet_item(identity, i, v)
}

/// Image alias item `i`: a non-empty string.
pub open spec fn alias_item(identity: IdentityView, i: int, v: JsonView) -> Listed<Seq<char>> {
    match nonempty_text(Some(v)) {
        Some(t) => listed_one(t),
        None => listed_bad(occurrence_finding(DiagnosticCode::ResourceMalformed, identity, "$.Names"@, i)),
    }
}

pub open spec fn alias_fn(identity: IdentityView) -> spec_fn(int, JsonView) -> Listed<Seq<char>> {
    |i: int, v: JsonView| alias_item(identity, i, v)
}

/// Decodes an array of non-empty strings: image aliases (`Names`) or the `subnet` of subnet
/// objects.
fn string_list_field(
    value: Option<&JsonValue>,
    subnets: bool,
    identity: &ResourceIdentity,
    origin: ObservationOrigin,
) -> (r: (ObservationField<Vec<String>>, Vec<InventoryFinding>))
    ensures
        ({
            let expected = if subnets {
                list_field(opt_json(value), subnet_fn(identity@), identity@, "$.subnets"@, origin)
            } else {
                list_field(opt_json(value), alias_fn(identity@), identity@, "$.Names"@, origin)
            };
            &&& shape_texts(r.0) == expected.0
            &&& views(r.1@) == expected.1
        }),
{
    let ghost f = if subnets {
        subnet_fn(identity@)
    } else {
        alias_fn(identity@)
    };
    let path = if subnets {
        "$.subnets"
    } else {
        "$.Names"
    };
    if is_missing(value) {
        return (ObservationField::Absent, no_findings());
    }
    let items = match value {
        Some(JsonValue::Array(items)) => items,
        _ => {
            return (
                ObservationField::Malformed,
                one_finding(InventoryFinding::field(DiagnosticCode::ResourceMalformed, identity.clone(), path.to_string())),
            );
        },
    };
    let ghost vs = json_views(items@);
    proof {
        lemma_json_views_len(items@);
    }
    let mut values: Vec<String> = Vec::new();
    let mut findings = no_findings();
    let mut malformed = false;
    let mut i: usize = 0;
    while i < items.len()
        invariant
            i <= items.len(),
            vs == json_views(items@),
            vs.len() == items.len(),
            f == (if subnets {
                subnet_fn(identity@)
            } else {
                alias_fn(identity@)
            }),
            path@ == (if subnets {
                "$.subnets"@
            } else {
                "$.Names"@
            }),
            ({
                let l = fold_listed(vs.take(i as int), f);
                &&& texts(values@) == l.values
                &&& views(findings@) == l.findings
                &&& malformed == l.malformed
            }),
        decreases items.len() - i,
    {
        proof {
            lemma_json_view_at(items@, i as int);
            lemma_fold_listed_step(vs, f, i as int);
        }
        let item = &items[i];
        let found: Option<&String> = if subnets {
            match item {
                JsonValue::Object(m) => required_string(m, "subnet"),
                _ => None,
            }
        } else {
            match item {
                JsonValue::Text(t) => if !t.as_str().is_empty() {
                    Some(t)
                } else {
                    None
                },
                _ => None,
            }
        };
        match found {
            Some(t) => {
                let ghost before = values@;
                values.push(t.clone());
                proof {
                    assert(texts(values@) =~= texts(before) + seq![t@]);
                    assert(views(findings@) =~= views(findings@) + Seq::<InventoryFindingView>::empty());
                }
            },
            None => {
                let fnd = InventoryFinding::at_occurrence(DiagnosticCode::ResourceMalformed, identity.clone(), path.to_string(), i);
                let ghost before = findings@;
                let ghost fv = fnd@;
                findings.push(fnd);
                malformed = true;
                proof {
                    lemma_views_push(before, fnd);
                    assert(texts(values@) =~= texts(values@) + Seq::<Seq<char>>::empty());
                    assert(views(before).push(fv) =~= views(before) + seq![fv]);
                }
            },
        }
        i = i + 1;
    }
    assert(vs.take(items.len() as int) =~= vs);
    if malformed {
        (ObservationField::Malformed, findings)
    } else {
        (ObservationField::Observed(ObservedValue::new(values, origin)), findings)
    }
}

/// Environment item `i`: a `NAME=value` string with a non-empty name; the value is retained
/// only when the policy includes values.
pub open spec fn env_item(
    identity: IdentityView,
    path: Seq<char>,
    policy: EnvironmentValuePolicy,
    i: int,
    v: JsonView,
) -> Listed<(Seq<char>, Option<Seq<char>>)> {
    match v {
        JsonView::Text(e) => if e.contains('=') && first_index(e, '=') > 0 {
            let k = first_index(e, '=');
            listed_one((e.take(k), if policy == EnvironmentValuePolicy::Redact {
                None
            } else {
                Some(e.skip(k + 1))
            }))
        } else {
            listed_bad(occurrence_finding(DiagnosticCode::EnvironmentMalformed, identity, path, i))
        },
        _ => listed_bad(occurrence_finding(DiagnosticCode::EnvironmentMalformed, identity, path, i)),
    }
}

pub open spec fn env_fn(
    identity: IdentityView,
    path: Seq<char>,
    policy: EnvironmentValuePolicy,
) -> spec_fn(int, JsonView) -> Listed<(Seq<char>, Option<Seq<char>>)> {
    |i: int, v: JsonView| env_item(identity, path, policy, i, v)
}

/// Decodes a runtime environment under `policy`.
fn environment_field(
    value: Option<&JsonValue>,
    policy: EnvironmentValuePolicy,
    identity: &ResourceIdentity,
    path: &str,
) -> (r: (ObservationField<ProtectedEnvironment>, Vec<InventoryFinding>))
    ensures
        ({
            let expected = list_field(
                opt_json(value),
                env_fn(identity@, path@, policy),
                identity@,
                path@,
                ObservationOrigin::Effective,
            );
            &&& shape(r.0) == expected.0
            &&& views(r.1@) == expected.1
        }),
{
    let ghost f = env_fn(identity@, path@, policy);
    if is_missing(value) {
        return (ObservationField::Absent, no_findings());
    }
    let items = match value {
        Some(JsonValue::Array(items)) => items,
        _ => {
            return (
                ObservationField::Malformed,
                one_finding(InventoryFinding::field(DiagnosticCode::ResourceMalformed, identity.clone(), path.to_string())),
            );
        },
    };
    let ghost vs = json_views(items@);
    proof {
        lemma_json_views_len(items@);
    }
    let mut entries: Vec<ProtectedEnvironmentEntry> = Vec::new();
    let mut findings = no_findings();
    let mut malformed = false;
    let mut i: usize = 0;
    while i < items.len()
        invariant
            i <= items.len(),
            vs == json_views(items@),
            vs.len() == items.len(),
            f == env_fn(identity@, path@, policy),
            ({
                let l = fold_listed(vs.take(i as int), f);
                &&& views(entries@) == l.values
                &&& views(findings@) == l.findings
                &&& malformed == l.malformed
            }),
        decreases items.len() - i,
    {
        proof {
            lemma_json_view_at(items@, i as int);
            lemma_fold_listed_step(vs, f, i as int);
        }
        let mut entry: Option<ProtectedEnvironmentEntry> = None;
        match &items[i] {
            JsonValue::Text(e) => {
                let cs = to_chars(e.as_str());
                match crate::text::find_first(&cs, '=') {
                    Some(k) => {
                        assert(k < cs.len());
                        if k > 0 {
                            let name = string_from_chars(&crate::text::slice_chars(&cs, 0, k));
                            let value = match policy {
                                EnvironmentValuePolicy::Redact => ProtectedEnvironmentValue::Redacted,
                                EnvironmentValuePolicy::Include => ProtectedEnvironmentValue::AuthorizedOpaque(
                                    SensitiveEnvironmentValue::new(
                                        string_from_chars(&crate::text::slice_chars(&cs, k + 1, cs.len())),
                                    ),
                                ),
                            };
                            proof {
                                assert(cs@.subrange(0, k as int) =~= cs@.take(k as int));
                                assert(cs@.subrange(k + 1, cs@.len() as int) =~= cs@.skip(k + 1));
                            }
                            entry = Some(ProtectedEnvironmentEntry::new(name, value));
                        }
                    },
                    None => {},
                }
            },
            _ => {},
        }
        match entry {
            Some(en) => {
                let ghost before = entries@;
                let ghost ev = en@;
                entries.push(en);
                proof {
                    lemma_views_push(before, en);
                    assert(views(before).push(ev) =~= views(before) + seq![ev]);
                    assert(views(findings@) =~= views(findings@) + Seq::<InventoryFindingView>::empty());
                }
            },
            None => {
                let fnd = InventoryFinding::at_occurrence(DiagnosticCode::EnvironmentMalformed, identity.clone(), path.to_string(), i);
                let ghost before = findings@;
                let ghost fv = fnd@;
                findings.push(fnd);
                malformed = true;
                proof {
                    lemma_views_push(before, fnd);
                    assert(views(entries@) =~= views(entries@) + Seq::<(Seq<char>, Option<Seq<char>>)>::empty());
                    assert(views(before).push(fv) =~= views(before) + seq![fv]);
                }
            },
        }
        i = i + 1;
    }
    assert(vs.take(items.len() as int) =~= vs);
    if malformed {
        (ObservationField::Malformed, findings)
    } else {
        (ObservationField::Observed(ObservedValue::new(ProtectedEnvironment::new(entries), ObservationOrigin::Effective)), findings)
    }
}

// ---------------------------------------------------------------------------------------------
// Container relationships.
// ---------------------------------------------------------------------------------------------
/// Network member `(name, details)` of `NetworkSettings.Networks`.
pub open spec fn network_member_part(identity: IdentityView, member: (Seq<char>, JsonView)) -> Part {
    let path = "$.NetworkSettings.Networks."@ + member.0;
    if member.0.len() == 0 || !(member.1 is Object || member.1 is Null) {
        bad_part(field_finding(DiagnosticCode::ResourceMalformed, identity, path))
    } else {
        rel_part(ResourceKind::Network, member.0, path)
    }
}

pub open spec fn network_member_fn(identity: IdentityView) -> spec_fn((Seq<char>, JsonView)) -> Part {
    |member: (Seq<char>, JsonView)| network_member_part(identity, member)
}

/// The networks a container is attached to.
pub open spec fn container_networks_part(identity: IdentityView, m: Seq<(Seq<char>, JsonView)>) -> Part {
    let settings = json_get(m, "NetworkSettings"@);
    if missing(settings) {
        no_part()
    } else {
        match settings {
            Some(JsonView::Object(sm)) => {
                let networks = json_get(sm, "Networks"@);
                if missing(networks) {
                    no_part()
                } else {
                    match networks {
                        Some(JsonView::Object(nm)) => supplied(fold_members(nm, network_member_fn(identity))),
                        _ => supplied(
                            bad_part(field_finding(DiagnosticCode::ResourceMalformed, identity, "$.NetworkSettings.Networks"@)),
                        ),
                    }
                }
            },
            _ => supplied(bad_part(field_finding(DiagnosticCode::ResourceMalformed, identity, "$.NetworkSettings"@))),
        }
    }
}

/// The pod a container names.
pub open spec fn pod_part(identity: IdentityView, m: Seq<(Seq<char>, JsonView)>) -> Part {
    let v = json_get(m, "Pod"@);
    if missing(v) {
        no_part()
    } else {
        match nonempty_text(v) {
            Some(t) => supplied(rel_part(ResourceKind::Pod, t, "$.Pod"@)),
            None => supplied(bad_part(field_finding(DiagnosticCode::ResourceMalformed, identity, "$.Pod"@))),
        }
    }
}

/// The secrets a container is granted.
pub open spec fn container_secrets_part(identity: IdentityView, m: Seq<(Seq<char>, JsonView)>) -> Part {
    let config = json_get(m, "Config"@);
    if missing(config) {
        no_part()
    } else {
        match config {
            Some(JsonView::Object(cm)) => array_part(ItemRule::Secret, identity, cm),
            _ => supplied(bad_part(field_finding(DiagnosticCode::ResourceMalformed, identity, "$.Config"@))),
        }
    }
}

/// The relationship asserted by a container's configured image; the field counts as supplied
/// unless it was absent, and as malformed when it was.
pub open spec fn configured_image_part(configured: Shape<Seq<char>>) -> Part {
    Part {
        rels: match configured {
            Shape::Observed(t, _) => seq![single_rel(ResourceKind::Image, t, "$.ImageName"@)],
            _ => Seq::empty(),
        },
        findings: Seq::empty(),
        supplied: !(configured is Absent),
        malformed: configured is Malformed,
    }
}

/// Every relationship field of a container, in source order.
pub open spec fn container_relationships_part(
    identity: IdentityView,
    m: Seq<(Seq<char>, JsonView)>,
    configured: Shape<Seq<char>>,
) -> Part {
    join(
        join(
            join(
                join(join(configured_image_part(configured), pod_part(identity, m)), container_networks_part(identity, m)),
                array_part(ItemRule::Mount, identity, m),
            ),
            array_part(ItemRule::Dependency, identity, m),
        ),
        container_secrets_part(identity, m),
    )
}

/// Every relationship field of a pod, in source order.
pub open spec fn pod_relationships_part(identity: IdentityView, m: Seq<(Seq<char>, JsonView)>) -> Part {
    join(array_part(ItemRule::PodContainer, identity, m), array_part(ItemRule::PodNetwork, identity, m))
}

/// The relationship field that a part decodes to: malformed when any of it was, absent when
/// none of it was supplied, else the relationships with their effective values.
pub open spec fn relationships_shape(p: Part) -> Shape<Seq<RelationshipView>> {
    if p.malformed {
        Shape::Malformed
    } else if !p.supplied {
        Shape::Absent
    } else {
        Shape::Observed(p.rels, ObservationOrigin::Effective)
    }
}

fn decode_container_networks(identity: &ResourceIdentity, object: &Vec<JsonMember>) -> (r: Extracted)
    ensures
        r@ == container_networks_part(identity@, member_views(object@)),
{
    let settings = get(object, "NetworkSettings");
    if is_missing(settings) {
        return Extracted::empty();
    }
    let sm = match settings {
        Some(JsonValue::Object(sm)) => sm,
        _ => {
            let mut r = Extracted::bad(
                InventoryFinding::field(DiagnosticCode::ResourceMalformed, identity.clone(), "$.NetworkSettings".to_string()),
            );
            r.supplied = true;
            return r;
        },
    };
    let networks = get(sm, "Networks");
    if is_missing(networks) {
        return Extracted::empty();
    }
    let nm = match networks {
        Some(JsonValue::Object(nm)) => nm,
        _ => {
            let mut r = Extracted::bad(
                InventoryFinding::field(
                    DiagnosticCode::ResourceMalformed,
                    identity.clone(),
                    "$.NetworkSettings.Networks".to_string(),
                ),
            );
            r.supplied = true;
            return r;
        },
    };
    let ghost mv = member_views(nm@);
    let ghost f = network_member_fn(identity@);
    proof {
        lemma_member_views_len(nm@);
    }
    let mut out = Extracted::empty();
    let mut i: usize = 0;
    while i < nm.len()
        invariant
            i <= nm.len(),
            mv == member_views(nm@),
            mv.len() == nm.len(),
            f == network_member_fn(identity@),
            out@ == fold_members(mv.take(i as int), f),
        decreases nm.len() - i,
    {
        proof {
            lemma_member_view_at(nm@, i as int);
            lemma_fold_members_step(mv, f, i as int);
        }
        let name = &nm[i].key;
        let path = member_path("$.NetworkSettings.Networks.", name.as_str());
        let shaped = match &nm[i].value {
            JsonValue::Object(_) => true,
            JsonValue::Null => true,
            _ => false,
        };
        let part = if name.as_str().is_empty() || !shaped {
            Extracted::bad(InventoryFinding::field(DiagnosticCode::ResourceMalformed, identity.clone(), path))
        } else {
            Extracted::relationship(ResourceKind::Network, name.clone(), path)
        };
        out.append(part);
        i = i + 1;
    }
    assert(mv.take(nm.len() as int) =~= mv);
    out.supplied = true;
    out
}

fn decode_pod_reference(identity: &ResourceIdentity, object: &Vec<JsonMember>) -> (r: Extracted)
    ensures
        r@ == pod_part(identity@, member_views(object@)),
{
    let v = get(object, "Pod");
    if is_missing(v) {
        return Extracted::empty();
    }
    let mut r = match v {
        Some(JsonValue::Text(t)) => if !t.as_str().is_empty() {
            Extracted::relationship(ResourceKind::Pod, t.clone(), "$.Pod".to_string())
        } else {
            Extracted::bad(InventoryFinding::field(DiagnosticCode::ResourceMalformed, identity.clone(), "$.Pod".to_string()))
        },
        _ => Extracted::bad(InventoryFinding::field(DiagnosticCode::ResourceMalformed, identity.clone(), "$.Pod".to_string())),
    };
    r.supplied = true;
    r
}

fn decode_container_secrets(identity: &ResourceIdentity, object: &Vec<JsonMember>) -> (r: Extracted)
    ensures
        r@ == container_secrets_part(identity@, member_views(object@)),
{
    let config = get(object, "Config");
    if is_missing(config) {
        return Extracted::empty();
    }
    match config {
        Some(JsonValue::Object(cm)) => decode_array(ItemRule::Secret, identity, cm),
        _ => {
            let mut r = Extracted::bad(
                InventoryFinding::field(DiagnosticCode::ResourceMalformed, identity.clone(), "$.Config".to_string()),
            );
            r.supplied = true;
            r
        },
    }
}

fn configured_image_relationship(configured: &ObservationField<String>) -> (r: Extracted)
    ensures
        r@ == configured_image_part(shape(*configured)),
{
    let mut r = match configured {
        ObservationField::Observed(v) => Extracted::relationship(ResourceKind::Image, v.value().clone(), "$.ImageName".to_string()),
        _ => Extracted::empty(),
    };
    r.supplied = match configured {
        ObservationField::Absent => false,
        _ => true,
    };
    r.malformed = match configured {
        ObservationField::Malformed => true,
        _ => false,
    };
    r
}

/// The relationship field of a decoded part.
fn relationships_field(p: Extracted) -> (r: (ObservationField<Vec<NativeRelationship>>, Vec<InventoryFinding>))
    ensures
        shape_rels(r.0) == relationships_shape(p@),
        views(r.1@) == p@.findings,
{
    let Extracted { relationships, findings, supplied, malformed } = p;
    if malformed {
        (ObservationField::Malformed, findings)
    } else if !supplied {
        (ObservationField::Absent, findings)
    } else {
        (ObservationField::Observed(ObservedValue::new(relationships, ObservationOrigin::Effective)), findings)
    }
}

// ---------------------------------------------------------------------------------------------
// Memory swappiness and volume owners.
// ---------------------------------------------------------------------------------------------
/// The API version belongs to the 5.4 series, where a `null` memory swappiness has no meaning.
pub open spec fn five_four_series(api_version: Seq<char>) -> bool {
    api_version.len() >= 4 && api_version.take(4) == "5.4."@
}

/// A container's memory swappiness and the findings it produces.
pub open spec fn swappiness(
    identity: IdentityView,
    m: Seq<(Seq<char>, JsonView)>,
    api_version: Seq<char>,
) -> (Shape<u64>, Seq<InventoryFindingView>) {
    let h = json_get(m, "HostConfig"@);
    let path = "$.HostConfig.MemorySwappiness"@;
    if missing(h) {
        (Shape::Absent, Seq::empty())
    } else {
        match h {
            Some(JsonView::Object(hm)) => match json_get(hm, "MemorySwappiness"@) {
                None => (Shape::Absent, Seq::empty()),
                Some(JsonView::Null) => if five_four_series(api_version) {
                    (
                        Shape::VersionInapplicable,
                        seq![field_finding(DiagnosticCode::VersionInapplicableField, identity, path)],
                    )
                } else {
                    (Shape::Absent, Seq::empty())
                },
                Some(x) => match json_unsigned(x) {
                    Some(n) => (Shape::Observed(n, ObservationOrigin::Effective), Seq::empty()),
                    None => (Shape::Malformed, seq![field_finding(DiagnosticCode::ResourceMalformed, identity, path)]),
                },
            },
            _ => (Shape::Malformed, seq![field_finding(DiagnosticCode::ResourceMalformed, identity, "$.HostConfig"@)]),
        }
    }
}

fn is_five_four_series(api_version: &str) -> (r: bool)
    ensures
        r == five_four_series(api_version@),
{
    let cs = to_chars(api_version);
    if cs.len() < 4 {
        return false;
    }
    let head = crate::text::slice_chars(&cs, 0, 4);
    let expected = to_chars("5.4.");
    assert(head@ =~= cs@.take(4));
    crate::text::chars_eq(&head, &expected)
}

fn decode_memory_swappiness(
    identity: &ResourceIdentity,
    object: &Vec<JsonMember>,
    api_version: &str,
) -> (r: (ObservationField<u64>, Vec<InventoryFinding>))
    ensures
        ({
            let expected = swappiness(identity@, member_views(object@), api_version@);
            &&& shape(r.0) == expected.0
            &&& views(r.1@) == expected.1
        }),
{
    let h = get(object, "HostConfig");
    if is_missing(h) {
        return (ObservationField::Absent, no_findings());
    }
    let hm = match h {
        Some(JsonValue::Object(hm)) => hm,
        _ => {
            return (
                ObservationField::Malformed,
                one_finding(InventoryFinding::field(DiagnosticCode::ResourceMalformed, identity.clone(), "$.HostConfig".to_string())),
            );
        },
    };
    match get(hm, "MemorySwappiness") {
        None => (ObservationField::Absent, no_findings()),
        Some(JsonValue::Null) => if is_five_four_series(api_version) {
            (
                ObservationField::VersionInapplicable,
                one_finding(
                    InventoryFinding::field(
                        DiagnosticCode::VersionInapplicableField,
                        identity.clone(),
                        "$.HostConfig.MemorySwappiness".to_string(),
                    ),
                ),
            )
        } else {
            (ObservationField::Absent, no_findings())
        },
        Some(x) => match json_as_unsigned(x) {
            Some(n) => (ObservationField::Observed(ObservedValue::new(n, ObservationOrigin::Effective)), no_findings()),
            None => (
                ObservationField::Malformed,
                one_finding(
                    InventoryFinding::field(
                        DiagnosticCode::ResourceMalformed,
                        identity.clone(),
                        "$.HostConfig.MemorySwappiness".to_string(),
                    ),
                ),
            ),
        },
    }
}

/// A volume owner ID at `path` and the findings it produces: an omitted value may mean zero.
pub open spec fn volume_owner(
    identity: IdentityView,
    v: Option<JsonView>,
    path: Seq<char>,
) -> (Shape<Option<u32>>, Seq<InventoryFindingView>) {
    match v {
        None => (
            Shape::Observed(None, ObservationOrigin::Effective),
            seq![field_finding(DiagnosticCode::VolumeOwnerDefaultAmbiguous, identity, path)],
        ),
        Some(x) => match json_unsigned(x) {
            Some(n) => if n <= u32::MAX {
                (Shape::Observed(Some(n as u32), ObservationOrigin::Effective), Seq::empty())
            } else {
                (Shape::Malformed, seq![field_finding(DiagnosticCode::ResourceMalformed, identity, path)])
            },
            None => (Shape::Malformed, seq![field_finding(DiagnosticCode::ResourceMalformed, identity, path)]),
        },
    }
}

fn decode_volume_owner(
    identity: &ResourceIdentity,
    value: Option<&JsonValue>,
    path: &str,
) -> (r: (ObservationField<VolumeOwnerIdWireValue>, Vec<InventoryFinding>))
    ensures
        ({
            let expected = volume_owner(identity@, opt_json(value), path@);
            &&& shape(r.0) == expected.0
            &&& views(r.1@) == expected.1
        }),
{
    match value {
        None => (
            ObservationField::Observed(
                ObservedValue::new(VolumeOwnerIdWireValue::WireAbsentMayMeanZero, ObservationOrigin::Effective),
            ),
            one_finding(InventoryFinding::field(DiagnosticCode::VolumeOwnerDefaultAmbiguous, identity.clone(), path.to_string())),
        ),
        Some(x) => match json_as_unsigned(x) {
            Some(n) => if n <= 4294967295u64 {
                let id = UnixId::new(n as u32);
                (
                    ObservationField::Observed(
                        ObservedValue::new(VolumeOwnerIdWireValue::Explicit(id), ObservationOrigin::Effective),
                    ),
                    no_findings(),
                )
            } else {
                (
                    ObservationField::Malformed,
                    one_finding(InventoryFinding::field(DiagnosticCode::ResourceMalformed, identity.clone(), path.to_string())),
                )
            },
            None => (
                ObservationField::Malformed,
                one_finding(InventoryFinding::field(DiagnosticCode::ResourceMalformed, identity.clone(), path.to_string())),
            ),
        },
    }
}

// ---------------------------------------------------------------------------------------------
// Identities.
// ---------------------------------------------------------------------------------------------
/// The member that holds the ID in an inspect document of `kind`.
pub open spec fn inspect_id_key(kind: ResourceKind) -> Seq<char> {
    match kind {
        ResourceKind::Network => "id"@,
        ResourceKind::Volume => "Name"@,
        ResourceKind::Secret => "ID"@,
        _ => "Id"@,
    }
}

/// The member that holds the name in an inspect document of `kind` other than a secret.
pub open spec fn inspect_name_key(kind: ResourceKind) -> Seq<char> {
    match kind {
        ResourceKind::Network => "name"@,
        ResourceKind::Image => "Names"@,
        _ => "Name"@,
    }
}

/// The non-empty `Spec.Name` of a secret document.
pub open spec fn spec_name(m: Seq<(Seq<char>, JsonView)>) -> Option<Seq<char>> {
    match json_get(m, "Spec"@) {
        Some(JsonView::Object(sm)) => required_text(sm, "Name"@),
        _ => None,
    }
}

/// The identity an inspect document confirms for a listed resource: its ID must be the listed
/// one, and its name, when it has none, is the listed name (a secret's comes from its spec).
pub open spec fn inspected_identity(listed: IdentityView, m: Seq<(Seq<char>, JsonView)>) -> Result<IdentityView, DiagnosticCode> {
    match required_text(m, inspect_id_key(listed.kind)) {
        None => Err(DiagnosticCode::InventoryShape),
        Some(id) => if id != listed.id {
            Err(DiagnosticCode::ResourceMalformed)
        } else {
            Ok(
                IdentityView {
                    kind: listed.kind,
                    id,
                    name: if listed.kind == ResourceKind::Secret {
                        spec_name(m)
                    } else {
                        match required_text(m, inspect_name_key(listed.kind)) {
                            Some(n) => Some(n),
                            None => listed.name,
                        }
                    },
                },
            )
        },
    }
}

fn inspect_id_key_str(kind: ResourceKind) -> (r: &'static str)
    ensures
        r@ == inspect_id_key(kind),
{
    match kind {
        ResourceKind::Network => "id",
        ResourceKind::Volume => "Name",
        ResourceKind::Secret => "ID",
        _ => "Id",
    }
}

fn inspect_name_key_str(kind: ResourceKind) -> (r: &'static str)
    ensures
        r@ == inspect_name_key(kind),
{
    match kind {
        ResourceKind::Network => "name",
        ResourceKind::Image => "Names",
        _ => "Name",
    }
}

fn spec_name_of(object: &Vec<JsonMember>) -> (r: Option<&String>)
    ensures
        match r {
            Some(n) => spec_name(member_views(object@)) == Some(n@),
            None => spec_name(member_views(object@)) is None,
        },
{
    match get(object, "Spec") {
        Some(JsonValue::Object(sm)) => required_string(sm, "Name"),
        _ => None,
    }
}

/// Confirms the identity of a listed resource from its inspect document.
fn identity_from_inspect(listed: &ResourceIdentity, object: &Vec<JsonMember>) -> (r: PodmanLensResult<ResourceIdentity>)
    ensures
        match inspected_identity(listed@, member_views(object@)) {
            Ok(id) => r matches Ok(x) && x@ == id,
            Err(code) => fails_with(r, code),
        },
{
    let kind = listed.kind();
    let id = match required_string(object, inspect_id_key_str(kind)) {
        Some(id) => id,
        None => {
            return Err(Diagnostic::new(DiagnosticCode::InventoryShape));
        },
    };
    if !crate::text::str_eq(id.as_str(), listed.id()) {
        return Err(Diagnostic::new(DiagnosticCode::ResourceMalformed));
    }
    let name: Option<String> = match kind {
        ResourceKind::Secret => match spec_name_of(object) {
            Some(n) => Some(n.clone()),
            None => None,
        },
        _ => match required_string(object, inspect_name_key_str(kind)) {
            Some(n) => Some(n.clone()),
            None => match listed.name() {
                Some(n) => Some(n.to_string()),
                None => None,
            },
        },
    };
    Ok(ResourceIdentity::new(kind, id.clone(), name))
}

// ---------------------------------------------------------------------------------------------
// Records.
// ---------------------------------------------------------------------------------------------
fn append_findings(a: &mut Vec<InventoryFinding>, b: Vec<InventoryFinding>)
    ensures
        views(final(a)@) == views(old(a)@) + views(b@),
{
    let mut b = b;
    let ghost x = a@;
    let ghost y = b@;
    a.append(&mut b);
    proof {
        lemma_views_concat(x, y);
    }
}

/// The environment entries of a record: names and retained values.
pub type EnvironmentView = Seq<(Seq<char>, Option<Seq<char>>)>;

/// The kind-specific fields of a record exist exactly for the kinds they apply to.
pub open spec fn fields_exist_for(rec: ObservationRecord, k: ResourceKind) -> bool {
    let container = k == ResourceKind::Container;
    &&& rec.relationships is Some <==> (container || k == ResourceKind::Pod)
    &&& rec.image_aliases is Some <==> k == ResourceKind::Image
    &&& rec.environment is Some <==> (container || k == ResourceKind::Image)
    &&& rec.infra is Some <==> container
    &&& rec.configured_image is Some <==> container
    &&& rec.local_image_id is Some <==> container
    &&& rec.memory_swappiness is Some <==> container
    &&& rec.network_internal is Some <==> k == ResourceKind::Network
    &&& rec.network_options is Some <==> k == ResourceKind::Network
    &&& rec.network_subnets is Some <==> k == ResourceKind::Network
    &&& rec.volume_owner_user is Some <==> k == ResourceKind::Volume
    &&& rec.volume_owner_group is Some <==> k == ResourceKind::Volume
    &&& rec.secret_driver is Some <==> k == ResourceKind::Secret
}

/// The labels, environment, and findings of a container's `Config`.
pub open spec fn container_config(
    identity: IdentityView,
    m: Seq<(Seq<char>, JsonView)>,
    policy: EnvironmentValuePolicy,
) -> (Shape<LabelsView>, Shape<EnvironmentView>, Seq<InventoryFindingView>) {
    let c = json_get(m, "Config"@);
    if missing(c) {
        (Shape::Absent, Shape::Absent, Seq::empty())
    } else {
        match c {
            Some(JsonView::Object(cm)) => {
                let l = labels_shape(json_get(cm, "Labels"@));
                let e = list_field(
                    json_get(cm, "Env"@),
                    env_fn(identity, "$.Config.Env"@, policy),
                    identity,
                    "$.Config.Env"@,
                    ObservationOrigin::Effective,
                );
                (l, e.0, malformed_findings(l, identity, "$.Config.Labels"@) + e.1)
            },
            _ => (Shape::Malformed, Shape::Malformed, seq![field_finding(DiagnosticCode::ResourceMalformed, identity, "$.Config"@)]),
        }
    }
}

/// A container decoded from its inspect object `m`, and every finding in source order.
pub open spec fn container_decoded(
    rec: ObservationRecord,
    findings: Seq<InventoryFindingView>,
    identity: IdentityView,
    m: Seq<(Seq<char>, JsonView)>,
    policy: EnvironmentValuePolicy,
    api_version: Seq<char>,
) -> bool {
    let cfg = container_config(identity, m, policy);
    let local = text_shape(json_get(m, "Image"@), ObservationOrigin::LocalResolution);
    let conf = text_shape(json_get(m, "ImageName"@), ObservationOrigin::Configured);
    let rels = container_relationships_part(identity, m, conf);
    let sw = swappiness(identity, m, api_version);
    let infra = bool_shape(json_get(m, "IsInfra"@));
    &&& rec.identity@ == identity
    &&& fields_exist_for(rec, ResourceKind::Container)
    &&& shape(rec.labels) == cfg.0
    &&& shape(rec.environment.unwrap()) == cfg.1
    &&& shape(rec.local_image_id.unwrap()) == local
    &&& shape(rec.configured_image.unwrap()) == conf
    &&& shape_rels(rec.relationships.unwrap()) == relationships_shape(rels)
    &&& shape(rec.memory_swappiness.unwrap()) == sw.0
    &&& shape(rec.infra.unwrap()) == infra
    &&& findings == cfg.2 + malformed_findings(local, identity, "$.Image"@) + malformed_findings(conf, identity, "$.ImageName"@)
        + rels.findings + sw.1 + malformed_findings(infra, identity, "$.IsInfra"@)
}

fn decode_container_config(
    identity: &ResourceIdentity,
    object: &Vec<JsonMember>,
    policy: EnvironmentValuePolicy,
) -> (r: (ObservationField<Labels>, ObservationField<ProtectedEnvironment>, Vec<InventoryFinding>))
    ensures
        ({
            let expected = container_config(identity@, member_views(object@), policy);
            &&& shape(r.0) == expected.0
            &&& shape(r.1) == expected.1
            &&& views(r.2@) == expected.2
        }),
{
    let c = get(object, "Config");
    if is_missing(c) {
        return (ObservationField::Absent, ObservationField::Absent, no_findings());
    }
    match c {
        Some(JsonValue::Object(cm)) => {
            let labels = labels_field(get(cm, "Labels"));
            let mut findings = malformed_at(&labels, identity, "$.Config.Labels");
            let (environment, env_findings) = environment_field(get(cm, "Env"), policy, identity, "$.Config.Env");
            append_findings(&mut findings, env_findings);
            (labels, environment, findings)
        },
        _ => (
            ObservationField::Malformed,
            ObservationField::Malformed,
            one_finding(InventoryFinding::field(DiagnosticCode::ResourceMalformed, identity.clone(), "$.Config".to_string())),
        ),
    }
}

fn decode_container(
    identity: ResourceIdentity,
    object: &Vec<JsonMember>,
    policy: EnvironmentValuePolicy,
    api_version: &str,
) -> (r: (ObservationRecord, Vec<InventoryFinding>))
    requires
        identity@.kind == ResourceKind::Container,
    ensures
        container_decoded(r.0, views(r.1@), identity@, member_views(object@), policy, api_version@),
{
    let ghost m = member_views(object@);
    let (labels, environment, mut findings) = decode_container_config(&identity, object, policy);
    let local = optional_string_field(get(object, "Image"), ObservationOrigin::LocalResolution);
    append_findings(&mut findings, malformed_at(&local, &identity, "$.Image"));
    let configured = optional_string_field(get(object, "ImageName"), ObservationOrigin::Configured);
    append_findings(&mut findings, malformed_at(&configured, &identity, "$.ImageName"));
    let mut rels = configured_image_relationship(&configured);
    rels.append(decode_pod_reference(&identity, object));
    rels.append(decode_container_networks(&identity, object));
    rels.append(decode_array(ItemRule::Mount, &identity, object));
    rels.append(decode_array(ItemRule::Dependency, &identity, object));
    rels.append(decode_container_secrets(&identity, object));
    let (relationships, rel_findings) = relationships_field(rels);
    append_findings(&mut findings, rel_findings);
    let (swap, swap_findings) = decode_memory_swappiness(&identity, object, api_version);
    append_findings(&mut findings, swap_findings);
    let infra = bool_field(get(object, "IsInfra"));
    append_findings(&mut findings, malformed_at(&infra, &identity, "$.IsInfra"));
    let mut rec = ObservationRecord::new(identity);
    rec.labels = labels;
    rec.environment = Some(environment);
    rec.local_image_id = Some(local);
    rec.configured_image = Some(configured);
    rec.relationships = Some(relationships);
    rec.memory_swappiness = Some(swap);
    rec.infra = Some(infra);
    (rec, findings)
}

/// A pod decoded from its inspect object `m`, and every finding in source order.
pub open spec fn pod_decoded(
    rec: ObservationRecord,
    findings: Seq<InventoryFindingView>,
    identity: IdentityView,
    m: Seq<(Seq<char>, JsonView)>,
) -> bool {
    let labels = labels_shape(json_get(m, "Labels"@));
    let rels = pod_relationships_part(identity, m);
    &&& rec.identity@ == identity
    &&& fields_exist_for(rec, ResourceKind::Pod)
    &&& shape(rec.labels) == labels
    &&& shape_rels(rec.relationships.unwrap()) == relationships_shape(rels)
    &&& findings == malformed_findings(labels, identity, "$.Labels"@) + rels.findings
}

fn decode_pod(identity: ResourceIdentity, object: &Vec<JsonMember>) -> (r: (ObservationRecord, Vec<InventoryFinding>))
    requires
        identity@.kind == ResourceKind::Pod,
    ensures
        pod_decoded(r.0, views(r.1@), identity@, member_views(object@)),
{
    let labels = labels_field(get(object, "Labels"));
    let mut findings = malformed_at(&labels, &identity, "$.Labels");
    let mut rels = decode_array(ItemRule::PodContainer, &identity, object);
    rels.append(decode_array(ItemRule::PodNetwork, &identity, object));
    let (relationships, rel_findings) = relationships_field(rels);
    append_findings(&mut findings, rel_findings);
    let mut rec = ObservationRecord::new(identity);
    rec.labels = labels;
    rec.relationships = Some(relationships);
    (rec, findings)
}

/// A network decoded from its inspect object `m`, and every finding in source order.
pub open spec fn network_decoded(
    rec: ObservationRecord,
    findings: Seq<InventoryFindingView>,
    identity: IdentityView,
    m: Seq<(Seq<char>, JsonView)>,
) -> bool {
    let internal = bool_shape(json_get(m, "internal"@));
    let options = option_keys_shape(json_get(m, "options"@));
    let subnets = list_field(json_get(m, "subnets"@), subnet_fn(identity), identity, "$.subnets"@, ObservationOrigin::Effective);
    let labels = labels_shape(json_get(m, "labels"@));
    &&& rec.identity@ == identity
    &&& fields_exist_for(rec, ResourceKind::Network)
    &&& shape(rec.labels) == labels
    &&& shape(rec.network_internal.unwrap()) == internal
    &&& shape(rec.network_options.unwrap()) == options
    &&& shape_texts(rec.network_subnets.unwrap()) == subnets.0
    &&& findings == malformed_findings(internal, identity, "$.internal"@) + malformed_findings(options, identity, "$.options"@)
        + subnets.1 + malformed_findings(labels, identity, "$.labels"@)
}

fn decode_network(identity: ResourceIdentity, object: &Vec<JsonMember>) -> (r: (ObservationRecord, Vec<InventoryFinding>))
    requires
        identity@.kind == ResourceKind::Network,
    ensures
        network_decoded(r.0, views(r.1@), identity@, member_views(object@)),
{
    let internal = bool_field(get(object, "internal"));
    let mut findings = malformed_at(&internal, &identity, "$.internal");
    let options = option_keys_field(get(object, "options"));
    append_findings(&mut findings, malformed_at(&options, &identity, "$.options"));
    let (subnets, subnet_findings) = string_list_field(get(object, "subnets"), true, &identity, ObservationOrigin::Effective);
    append_findings(&mut findings, subnet_findings);
    let labels = labels_field(get(object, "labels"));
    append_findings(&mut findings, malformed_at(&labels, &identity, "$.labels"));
    let mut rec = ObservationRecord::new(identity);
    rec.labels = labels;
    rec.network_internal = Some(internal);
    rec.network_options = Some(options);
    rec.network_subnets = Some(subnets);
    (rec, findings)
}

/// A volume decoded from its inspect object `m`, and every finding in source order.
pub open spec fn volume_decoded(
    rec: ObservationRecord,
    findings: Seq<InventoryFindingView>,
    identity: IdentityView,
    m: Seq<(Seq<char>, JsonView)>,
) -> bool {
    let labels = labels_shape(json_get(m, "Labels"@));
    let uid = volume_owner(identity, json_get(m, "UID"@), "$.UID"@);
    let gid = volume_owner(identity, json_get(m, "GID"@), "$.GID"@);
    &&& rec.identity@ == identity
    &&& fields_exist_for(rec, ResourceKind::Volume)
    &&& shape(rec.labels) == labels
    &&& shape(rec.volume_owner_user.unwrap()) == uid.0
    &&& shape(rec.volume_owner_group.unwrap()) == gid.0
    &&& findings == malformed_findings(labels, identity, "$.Labels"@) + uid.1 + gid.1
}

fn decode_volume(identity: ResourceIdentity, object: &Vec<JsonMember>) -> (r: (ObservationRecord, Vec<InventoryFinding>))
    requires
        identity@.kind == ResourceKind::Volume,
    ensures
        volume_decoded(r.0, views(r.1@), identity@, member_views(object@)),
{
    let labels = labels_field(get(object, "Labels"));
    let mut findings = malformed_at(&labels, &identity, "$.Labels");
    let (uid, uid_findings) = decode_volume_owner(&identity, get(object, "UID"), "$.UID");
    append_findings(&mut findings, uid_findings);
    let (gid, gid_findings) = decode_volume_owner(&identity, get(object, "GID"), "$.GID");
    append_findings(&mut findings, gid_findings);
    let mut rec = ObservationRecord::new(identity);
    rec.labels = labels;
    rec.volume_owner_user = Some(uid);
    rec.volume_owner_group = Some(gid);
    (rec, findings)
}

/// The environment and findings of an image's `Config`: a malformed `Config` makes the
/// environment malformed, a missing one leaves it absent.
pub open spec fn image_environment(
    identity: IdentityView,
    m: Seq<(Seq<char>, JsonView)>,
    policy: EnvironmentValuePolicy,
) -> (Shape<EnvironmentView>, Seq<InventoryFindingView>) {
    let c = json_get(m, "Config"@);
    let f = env_fn(identity, "$.Config.Env"@, policy);
    if missing(c) {
        list_field(None, f, identity, "$.Config.Env"@, ObservationOrigin::Effective)
    } else {
        match c {
            Some(JsonView::Object(cm)) => list_field(
                json_get(cm, "Env"@),
                f,
                identity,
                "$.Config.Env"@,
                ObservationOrigin::Effective,
            ),
            _ => (Shape::Malformed, seq![field_finding(DiagnosticCode::ResourceMalformed, identity, "$.Config"@)]),
        }
    }
}

/// An image decoded from its inspect object `m`, and every finding in source order.
pub open spec fn image_decoded(
    rec: ObservationRecord,
    findings: Seq<InventoryFindingView>,
    identity: IdentityView,
    m: Seq<(Seq<char>, JsonView)>,
    policy: EnvironmentValuePolicy,
) -> bool {
    let labels = labels_shape(json_get(m, "Labels"@));
    let env = image_environment(identity, m, policy);
    let aliases = list_field(json_get(m, "Names"@), alias_fn(identity), identity, "$.Names"@, ObservationOrigin::LocalResolution);
    &&& rec.identity@ == identity
    &&& fields_exist_for(rec, ResourceKind::Image)
    &&& shape(rec.labels) == labels
    &&& shape(rec.environment.unwrap()) == env.0
    &&& shape_texts(rec.image_aliases.unwrap()) == aliases.0
    &&& findings == malformed_findings(labels, identity, "$.Labels"@) + env.1 + aliases.1
}

fn decode_image(
    identity: ResourceIdentity,
    object: &Vec<JsonMember>,
    policy: EnvironmentValuePolicy,
) -> (r: (ObservationRecord, Vec<InventoryFinding>))
    requires
        identity@.kind == ResourceKind::Image,
    ensures
        image_decoded(r.0, views(r.1@), identity@, member_views(object@), policy),
{
    let labels = labels_field(get(object, "Labels"));
    let mut findings = malformed_at(&labels, &identity, "$.Labels");
    let c = get(object, "Config");
    let (environment, env_findings) = if is_missing(c) {
        environment_field(None, policy, &identity, "$.Config.Env")
    } else {
        match c {
            Some(JsonValue::Object(cm)) => environment_field(get(cm, "Env"), policy, &identity, "$.Config.Env"),
            _ => (
                ObservationField::Malformed,
                one_finding(InventoryFinding::field(DiagnosticCode::ResourceMalformed, identity.clone(), "$.Config".to_string())),
            ),
        }
    };
    append_findings(&mut findings, env_findings);
    let (aliases, alias_findings) = string_list_field(get(object, "Names"), false, &identity, ObservationOrigin::LocalResolution);
    append_findings(&mut findings, alias_findings);
    let mut rec = ObservationRecord::new(identity);
    rec.labels = labels;
    rec.environment = Some(environment);
    rec.image_aliases = Some(aliases);
    (rec, findings)
}

/// A secret decoded from its inspect object `m`, whose `Spec` is the object `sm`, and every
/// finding in source order; a payload in the document is discarded and reported.
pub open spec fn secret_decoded(
    rec: ObservationRecord,
    findings: Seq<InventoryFindingView>,
    identity: IdentityView,
    m: Seq<(Seq<char>, JsonView)>,
    sm: Seq<(Seq<char>, JsonView)>,
) -> bool {
    let labels = labels_shape(json_get(sm, "Labels"@));
    let payload = json_get(m, "SecretData"@) is Some || json_get(sm, "SecretData"@) is Some;
    let driver = any_text_shape(json_get(sm, "Driver"@), ObservationOrigin::Configured);
    &&& rec.identity@ == identity
    &&& fields_exist_for(rec, ResourceKind::Secret)
    &&& shape(rec.labels) == labels
    &&& shape(rec.secret_driver.unwrap()) == driver
    &&& findings == malformed_findings(labels, identity, "$.Spec.Labels"@) + (if payload {
        seq![crate::reconcile::resource_finding(DiagnosticCode::SecretPayloadDiscarded, identity)]
    } else {
        Seq::empty()
    }) + malformed_findings(driver, identity, "$.Spec.Driver"@)
}

fn decode_secret(
    identity: ResourceIdentity,
    object: &Vec<JsonMember>,
    spec: &Vec<JsonMember>,
) -> (r: (ObservationRecord, Vec<InventoryFinding>))
    requires
        identity@.kind == ResourceKind::Secret,
    ensures
        secret_decoded(r.0, views(r.1@), identity@, member_views(object@), member_views(spec@)),
{
    let labels = labels_field(get(spec, "Labels"));
    let mut findings = malformed_at(&labels, &identity, "$.Spec.Labels");
    let payload = match (get(object, "SecretData"), get(spec, "SecretData")) {
        (None, None) => false,
        _ => true,
    };
    if payload {
        append_findings(
            &mut findings,
            one_finding(InventoryFinding::for_resource(DiagnosticCode::SecretPayloadDiscarded, identity.clone())),
        );
    } else {
        append_findings(&mut findings, no_findings());
    }
    let driver = any_string_field(get(spec, "Driver"), ObservationOrigin::Configured);
    append_findings(&mut findings, malformed_at(&driver, &identity, "$.Spec.Driver"));
    let mut rec = ObservationRecord::new(identity);
    rec.labels = labels;
    rec.secret_driver = Some(driver);
    (rec, findings)
}

/// `rec` and `findings` are what a document `m` of a `kind` resource confirmed as `identity`
/// decodes to.
pub open spec fn record_decoded(
    rec: ObservationRecord,
    findings: Seq<InventoryFindingView>,
    identity: IdentityView,
    kind: ResourceKind,
    m: Seq<(Seq<char>, JsonView)>,
    policy: EnvironmentValuePolicy,
    api_version: Seq<char>,
) -> bool {
    match kind {
        ResourceKind::Container => container_decoded(rec, findings, identity, m, policy, api_version),
        ResourceKind::Pod => pod_decoded(rec, findings, identity, m),
        ResourceKind::Network => network_decoded(rec, findings, identity, m),
        ResourceKind::Volume => volume_decoded(rec, findings, identity, m),
        ResourceKind::Image => image_decoded(rec, findings, identity, m, policy),
        ResourceKind::Secret => match json_get(m, "Spec"@) {
            Some(JsonView::Object(sm)) => secret_decoded(rec, findings, identity, m, sm),
            _ => false,
        },
    }
}

/// The error that rejects the document `m` of a listed resource as a whole, if any: an
/// identity that cannot be confirmed, or a secret without a `Spec` object.
pub open spec fn document_error(listed: IdentityView, m: Seq<(Seq<char>, JsonView)>) -> Option<DiagnosticCode> {
    match inspected_identity(listed, m) {
        Err(code) => Some(code),
        Ok(_) => if listed.kind == ResourceKind::Secret && !(json_get(m, "Spec"@) matches Some(JsonView::Object(_))) {
            Some(DiagnosticCode::ResourceMalformed)
        } else {
            None
        },
    }
}

/// What an inspect object `m` of a listed resource decodes to: its record and findings, or the
/// code of the error that rejects the whole document.
pub open spec fn document_decoded(
    r: PodmanLensResult<(ObservationRecord, Vec<InventoryFinding>)>,
    listed: IdentityView,
    m: Seq<(Seq<char>, JsonView)>,
    policy: EnvironmentValuePolicy,
    api_version: Seq<char>,
) -> bool {
    match document_error(listed, m) {
        Some(code) => fails_with(r, code),
        None => r matches Ok(d) && inspected_identity(listed, m) matches Ok(identity) && record_decoded(
            d.0,
            views(d.1@),
            identity,
            listed.kind,
            m,
            policy,
            api_version,
        ),
    }
}

/// Decodes the inspect document of one listed resource.
fn decode_document(
    listed: &ResourceIdentity,
    object: &Vec<JsonMember>,
    policy: EnvironmentValuePolicy,
    api_version: &str,
) -> (r: PodmanLensResult<(ObservationRecord, Vec<InventoryFinding>)>)
    ensures
        document_decoded(r, listed@, member_views(object@), policy, api_version@),
{
    let identity = identity_from_inspect(listed, object)?;
    match listed.kind() {
        ResourceKind::Container => Ok(decode_container(identity, object, policy, api_version)),
        ResourceKind::Pod => Ok(decode_pod(identity, object)),
        ResourceKind::Network => Ok(decode_network(identity, object)),
        ResourceKind::Volume => Ok(decode_volume(identity, object)),
        ResourceKind::Image => Ok(decode_image(identity, object, policy)),
        ResourceKind::Secret => match get(object, "Spec") {
            Some(JsonValue::Object(sm)) => Ok(decode_secret(identity, object, sm)),
            _ => Err(Diagnostic::new(DiagnosticCode::ResourceMalformed)),
        },
    }
}

// ---------------------------------------------------------------------------------------------
// Responses.
// ---------------------------------------------------------------------------------------------
/// Requires status `200` and exactly one JSON content type.
///
/// # Errors
///
/// `PLN0013` for another status, `PLN0015` for a missing, repeated, or non-JSON content type.
pub fn require_ok_json(response: &LibpodResponse) -> (r: PodmanLensResult<()>)
    ensures
        response.spec_status() != 200 ==> fails_with(r, DiagnosticCode::InventoryHttpStatus),
        response.spec_status() == 200 && !json_content_type(response.spec_headers()) ==> fails_with(
            r,
            DiagnosticCode::InventoryShape,
        ),
        r is Ok <==> (response.spec_status() == 200 && json_content_type(response.spec_headers())),
{
    if response.status() != 200 {
        return Err(Diagnostic::new(DiagnosticCode::InventoryHttpStatus));
    }
    match require_json_content_type(response.headers()) {
        Ok(()) => Ok(()),
        Err(_) => Err(Diagnostic::new(DiagnosticCode::InventoryShape)),
    }
}

/// Decodes an inventory body of at most `MAX_INVENTORY_JSON_BYTES` bytes.
///
/// # Errors
///
/// `PLN0014` for a larger body or one that is not JSON.
pub fn decode_json(body: &[u8]) -> (r: PodmanLensResult<JsonValue>)
    ensures
        r is Ok <==> (body@.len() <= MAX_INVENTORY_JSON_BYTES && json_document(body@) is Some),
        r matches Ok(v) ==> json_document(body@) == Some(json_view(v)),
        r is Err ==> fails_with(r, DiagnosticCode::InventoryJson),
{
    if body.len() > MAX_INVENTORY_JSON_BYTES {
        return Err(Diagnostic::new(DiagnosticCode::InventoryJson));
    }
    match parse_json(body) {
        Some(v) => Ok(v),
        None => Err(Diagnostic::new(DiagnosticCode::InventoryJson)),
    }
}

/// The JSON document of a response that passed the status and content-type checks: `None`
/// when the response is rejected.
pub open spec fn response_document(response: &LibpodResponse) -> Result<JsonView, DiagnosticCode> {
    if response.spec_status() != 200 {
        Err(DiagnosticCode::InventoryHttpStatus)
    } else if !json_content_type(response.spec_headers()) {
        Err(DiagnosticCode::InventoryShape)
    } else if response.spec_body().len() > MAX_INVENTORY_JSON_BYTES {
        Err(DiagnosticCode::InventoryJson)
    } else {
        match json_document(response.spec_body()) {
            Some(doc) => Ok(doc),
            None => Err(DiagnosticCode::InventoryJson),
        }
    }
}

fn response_json(response: &LibpodResponse) -> (r: PodmanLensResult<JsonValue>)
    ensures
        match response_document(response) {
            Ok(doc) => r matches Ok(v) && json_view(v) == doc,
            Err(code) => fails_with(r, code),
        },
{
    require_ok_json(response)?;
    decode_json(response.body())
}

// ---------------------------------------------------------------------------------------------
// Lists.
// ---------------------------------------------------------------------------------------------
/// The entries of a list document of `kind`: `None` when it does not have the list shape.
pub open spec fn list_entries(kind: ResourceKind, doc: JsonView) -> Option<Seq<JsonView>> {
    if kind == ResourceKind::Volume {
        match doc {
            JsonView::Object(m) => match json_get(m, "Volumes"@) {
                None => Some(Seq::empty()),
                Some(JsonView::Null) => Some(Seq::empty()),
                Some(JsonView::Array(items)) => Some(items),
                _ => None,
            },
            _ => Some(Seq::empty()),
        }
    } else {
        match doc {
            JsonView::Array(items) => Some(items),
            _ => None,
        }
    }
}

/// The member that holds the ID in a list entry of `kind`.
pub open spec fn list_id_key(kind: ResourceKind) -> Seq<char> {
    match kind {
        ResourceKind::Volume => "Name"@,
        ResourceKind::Secret => "ID"@,
        ResourceKind::Network => "id"@,
        _ => "Id"@,
    }
}

/// The first string among `items`.
pub open spec fn first_string_item(items: Seq<JsonView>) -> Option<Seq<char>>
    decreases items.len(),
{
    if items.len() == 0 {
        None
    } else {
        match items[0] {
            JsonView::Text(t) => Some(t),
            _ => first_string_item(items.drop_first()),
        }
    }
}

/// The name of a list entry of `kind`: the first of a container's or an image's `Names`, a
/// secret's `Spec.Name`, a network's `name`, or another kind's `Name`, when non-empty.
pub open spec fn listed_name(kind: ResourceKind, m: Seq<(Seq<char>, JsonView)>) -> Option<Seq<char>> {
    match kind {
        ResourceKind::Container | ResourceKind::Image => match json_get(m, "Names"@) {
            Some(JsonView::Array(items)) => nonempty_text(
                match first_string_item(items) {
                    Some(t) => Some(JsonView::Text(t)),
                    None => None,
                },
            ),
            _ => None,
        },
        ResourceKind::Secret => spec_name(m),
        ResourceKind::Network => required_text(m, "name"@),
        _ => required_text(m, "Name"@),
    }
}

/// The identity a list entry of `kind` names, or `None` when the entry is malformed.
pub open spec fn listed_identity(kind: ResourceKind, v: JsonView) -> Option<IdentityView> {
    match v {
        JsonView::Object(m) => match required_text(m, list_id_key(kind)) {
            Some(id) => Some(IdentityView { kind, id, name: listed_name(kind, m) }),
            None => None,
        },
        _ => None,
    }
}

/// Some accepted identity has the ID `id`.
pub open spec fn id_taken(accepted: Seq<IdentityView>, id: Seq<char>) -> bool {
    exists|j: int| 0 <= j < accepted.len() && (#[trigger] accepted[j]).id == id
}

/// The identities accepted from list entries in order, first occurrence of each ID only, and
/// the findings: a malformed entry is a section finding, a repeated ID one on that resource.
pub open spec fn listing(kind: ResourceKind, entries: Seq<JsonView>) -> (Seq<IdentityView>, Seq<InventoryFindingView>)
    decreases entries.len(),
{
    if entries.len() == 0 {
        (Seq::empty(), Seq::empty())
    } else {
        let (accepted, findings) = listing(kind, entries.drop_last());
        match listed_identity(kind, entries.last()) {
            None => (accepted, findings.push(section_finding(DiagnosticCode::ResourceMalformed))),
            Some(id) => if id_taken(accepted, id.id) {
                (accepted, findings.push(resource_finding(DiagnosticCode::ResourceMalformed, id)))
            } else {
                (accepted.push(id), findings)
            },
        }
    }
}

/// The identities and findings of one listed inventory section.
pub struct ListedSection {
    identities: Vec<ResourceIdentity>,
    findings: Vec<InventoryFinding>,
}

impl ListedSection {
    pub closed spec fn spec_identities(&self) -> Seq<IdentityView> {
        views(self.identities@)
    }

    pub closed spec fn spec_findings(&self) -> Seq<InventoryFindingView> {
        views(self.findings@)
    }

    /// Returns the listed identities, ordered by ID.
    pub fn identities(&self) -> (r: &[ResourceIdentity])
        ensures
            views(r@) == self.spec_identities(),
    {
        self.identities.as_slice()
    }

    /// Returns the findings of the listing.
    pub fn findings(&self) -> (r: &[InventoryFinding])
        ensures
            views(r@) == self.spec_findings(),
    {
        self.findings.as_slice()
    }

    /// Gives up the listing for its findings.
    pub fn into_findings(self) -> (r: Vec<InventoryFinding>)
        ensures
            views(r@) == self.spec_findings(),
    {
        self.findings
    }
}

fn first_string<'a>(items: &'a Vec<JsonValue>) -> (r: Option<&'a String>)
    ensures
        match r {
            Some(t) => first_string_item(json_views(items@)) == Some(t@),
            None => first_string_item(json_views(items@)) is None,
        },
{
    let ghost vs = json_views(items@);
    proof {
        lemma_json_views_len(items@);
        assert(vs.skip(0) =~= vs);
    }
    let mut i: usize = 0;
    while i < items.len()
        invariant
            i <= items.len(),
            vs == json_views(items@),
            vs.len() == items.len(),
            first_string_item(vs) == first_string_item(vs.skip(i as int)),
        decreases items.len() - i,
    {
        proof {
            lemma_json_view_at(items@, i as int);
            assert(vs.skip(i as int)[0] == vs[i as int]);
            assert(vs.skip(i as int).drop_first() =~= vs.skip(i + 1));
        }
        match &items[i] {
            JsonValue::Text(t) => {
                return Some(t);
            },
            _ => {},
        }
        i = i + 1;
    }
    None
}

fn list_name(kind: ResourceKind, m: &Vec<JsonMember>) -> (r: Option<String>)
    ensures
        opt_view(r) == listed_name(kind, member_views(m@)),
{
    match kind {
        ResourceKind::Container | ResourceKind::Image => match get(m, "Names") {
            Some(JsonValue::Array(items)) => match first_string(items) {
                Some(t) => if !t.as_str().is_empty() {
                    Some(t.clone())
                } else {
                    None
                },
                None => None,
            },
            _ => None,
        },
        ResourceKind::Secret => match spec_name_of(m) {
            Some(n) => Some(n.clone()),
            None => None,
        },
        ResourceKind::Network => match required_string(m, "name") {
            Some(n) => Some(n.clone()),
            None => None,
        },
        _ => match required_string(m, "Name") {
            Some(n) => Some(n.clone()),
            None => None,
        },
    }
}

fn list_identity(kind: ResourceKind, v: &JsonValue) -> (r: Option<ResourceIdentity>)
    ensures
        match r {
            Some(id) => listed_identity(kind, json_view(*v)) == Some(id@),
            None => listed_identity(kind, json_view(*v)) is None,
        },
{
    let key = match kind {
        ResourceKind::Volume => "Name",
        ResourceKind::Secret => "ID",
        ResourceKind::Network => "id",
        _ => "Id",
    };
    assert(key@ == list_id_key(kind));
    match v {
        JsonValue::Object(m) => match required_string(m, key) {
            Some(id) => Some(ResourceIdentity::new(kind, id.clone(), list_name(kind, m))),
            None => None,
        },
        _ => None,
    }
}

/// Decodes a list response of `kind`: identities ordered by ID, each ID once, and findings for
/// malformed and repeated entries.
///
/// # Errors
///
/// The response's status, content-type, or JSON error, or `PLN0015` when the document does not
/// have the list shape of `kind`.
/// What a list response gives for `kind`: the response's status, content-type or JSON error, a
/// shape error, or the accepted identities (sorted, each once) with the listing's findings.
pub open spec fn list_decoded(kind: ResourceKind, response: LibpodResponse, r: PodmanLensResult<ListedSection>) -> bool {
    match response_document(&response) {
        Err(code) => fails_with(r, code),
        Ok(doc) => match list_entries(kind, doc) {
            None => fails_with(r, DiagnosticCode::InventoryShape),
            Some(entries) => r matches Ok(section) && {
                let (accepted, findings) = listing(kind, entries);
                &&& keys_sorted::<ResourceIdentity>(section.spec_identities())
                &&& distinct(section.spec_identities())
                &&& forall|x: IdentityView| #[trigger] section.spec_identities().contains(x) <==> accepted.contains(x)
                &&& section.spec_findings() == findings
            },
        },
    }
}

pub fn decode_list(kind: ResourceKind, response: &LibpodResponse) -> (r: PodmanLensResult<ListedSection>)
    ensures
        list_decoded(kind, *response, r),
{
    let value = response_json(response)?;
    let empty: Vec<JsonValue> = Vec::new();
    let entries: &Vec<JsonValue> = match kind {
        ResourceKind::Volume => match &value {
            JsonValue::Object(m) => match get(m, "Volumes") {
                None => &empty,
                Some(JsonValue::Null) => &empty,
                Some(JsonValue::Array(items)) => items,
                _ => {
                    return Err(Diagnostic::new(DiagnosticCode::InventoryShape));
                },
            },
            _ => &empty,
        },
        _ => match &value {
            JsonValue::Array(items) => items,
            _ => {
                return Err(Diagnostic::new(DiagnosticCode::InventoryShape));
            },
        },
    };
    let ghost vs = json_views(entries@);
    proof {
        lemma_json_views_len(entries@);
        assert(json_views(empty@) =~= Seq::<JsonView>::empty());
        assert(list_entries(kind, json_view(value)) == Some(vs));
    }
    let mut accepted: Vec<ResourceIdentity> = Vec::new();
    let mut findings = no_findings();
    let mut i: usize = 0;
    while i < entries.len()
        invariant
            i <= entries.len(),
            vs == json_views(entries@),
            vs.len() == entries.len(),
            ({
                let l = listing(kind, vs.take(i as int));
                &&& views(accepted@) == l.0
                &&& views(findings@) == l.1
            }),
        decreases entries.len() - i,
    {
        proof {
            lemma_json_view_at(entries@, i as int);
            assert(vs.take(i + 1).drop_last() =~= vs.take(i as int));
        }
        let ghost before_acc = views(accepted@);
        let ghost before_f = findings@;
        match list_identity(kind, &entries[i]) {
            None => {
                let f = InventoryFinding::section(DiagnosticCode::ResourceMalformed);
                findings.push(f);
                proof {
                    lemma_views_push(before_f, f);
                }
            },
            Some(identity) => {
                let mut taken = false;
                let mut j: usize = 0;
                while j < accepted.len()
                    invariant
                        j <= accepted.len(),
                        before_acc == views(accepted@),
                        taken <==> exists|k: int| 0 <= k < j && (#[trigger] before_acc[k]).id == identity@.id,
                    decreases accepted.len() - j,
                {
                    assert(before_acc[j as int] == accepted@[j as int]@);
                    if crate::text::str_eq(accepted[j].id(), identity.id()) {
                        taken = true;
                    }
                    j = j + 1;
                }
                if taken {
                    let f = InventoryFinding::for_resource(DiagnosticCode::ResourceMalformed, identity);
                    findings.push(f);
                    proof {
                        lemma_views_push(before_f, f);
                    }
                } else {
                    let ghost iv = identity@;
                    accepted.push(identity);
                    proof {
                        assert(views(accepted@) =~= before_acc.push(iv));
                    }
                }
            },
        }
        i = i + 1;
    }
    assert(vs.take(entries.len() as int) =~= vs);
    let identities = sort_distinct(accepted);
    Ok(ListedSection { identities, findings })
}

// ---------------------------------------------------------------------------------------------
// Unmodelled fields.
// ---------------------------------------------------------------------------------------------
/// The JSON kind of a value.
pub open spec fn json_kind(v: JsonView) -> JsonValueKind {
    match v {
        JsonView::Null => JsonValueKind::Null,
        JsonView::Bool(_) => JsonValueKind::Boolean,
        JsonView::Number(_) => JsonValueKind::Number,
        JsonView::Text(_) => JsonValueKind::String,
        JsonView::Array(_) => JsonValueKind::Array,
        JsonView::Object(_) => JsonValueKind::Object,
    }
}

fn json_kind_of(v: &JsonValue) -> (r: JsonValueKind)
    ensures
        r == json_kind(json_view(*v)),
{
    match v {
        JsonValue::Null => JsonValueKind::Null,
        JsonValue::Bool(_) => JsonValueKind::Boolean,
        JsonValue::Number(_) => JsonValueKind::Number,
        JsonValue::Text(_) => JsonValueKind::String,
        JsonValue::Array(_) => JsonValueKind::Array,
        JsonValue::Object(_) => JsonValueKind::Object,
    }
}

/// The members of `m` not named in `known`, as `(prefix.key, kind)`, in order.
pub open spec fn unknown_members(m: Seq<(Seq<char>, JsonView)>, prefix: Seq<char>, known: Seq<Seq<char>>) -> Seq<(Seq<char>, JsonValueKind)>
    decreases m.len(),
{
    if m.len() == 0 {
        Seq::empty()
    } else {
        let rest = unknown_members(m.drop_last(), prefix, known);
        if known.contains(m.last().0) {
            rest
        } else {
            rest.push((prefix + "."@ + m.last().0, json_kind(m.last().1)))
        }
    }
}

/// The unknown members of `v` when it is an object.
pub open spec fn unknown_in(v: Option<JsonView>, prefix: Seq<char>, known: Seq<Seq<char>>) -> Seq<(Seq<char>, JsonValueKind)> {
    match v {
        Some(JsonView::Object(m)) => unknown_members(m, prefix, known),
        _ => Seq::empty(),
    }
}

/// The unknown members of every object item of an array at `prefix`.
pub open spec fn unknown_in_items(items: Seq<JsonView>, prefix: Seq<char>, known: Seq<Seq<char>>) -> Seq<(Seq<char>, JsonValueKind)>
    decreases items.len(),
{
    if items.len() == 0 {
        Seq::empty()
    } else {
        unknown_in_items(items.drop_last(), prefix, known) + unknown_in(
            Some(items.last()),
            prefix + "["@ + decimal((items.len() - 1) as nat) + "]"@,
            known,
        )
    }
}

/// The unknown members of the object items of `v` when it is an array.
pub open spec fn unknown_in_array(v: Option<JsonView>, prefix: Seq<char>, known: Seq<Seq<char>>) -> Seq<(Seq<char>, JsonValueKind)> {
    match v {
        Some(JsonView::Array(items)) => unknown_in_items(items, prefix, known),
        _ => Seq::empty(),
    }
}

/// Every member of every container network object: none of them is modelled.
pub open spec fn unknown_in_networks(nm: Seq<(Seq<char>, JsonView)>) -> Seq<(Seq<char>, JsonValueKind)>
    decreases nm.len(),
{
    if nm.len() == 0 {
        Seq::empty()
    } else {
        unknown_in_networks(nm.drop_last()) + unknown_in(
            Some(nm.last().1),
            "$.NetworkSettings.Networks."@ + nm.last().0,
            Seq::empty(),
        )
    }
}

/// The top-level members that decoding a `kind` document reads.
pub open spec fn top_level_known(kind: ResourceKind) -> Seq<Seq<char>> {
    match kind {
        ResourceKind::Container => seq![
            "Id"@,
            "Name"@,
            "Image"@,
            "ImageName"@,
            "Pod"@,
            "NetworkSettings"@,
            "Mounts"@,
            "Dependencies"@,
            "Config"@,
            "HostConfig"@,
            "IsInfra"@,
        ],
        ResourceKind::Pod => seq!["Id"@, "Name"@, "Labels"@, "Containers"@, "Networks"@],
        ResourceKind::Network => seq!["id"@, "name"@, "labels"@, "internal"@, "options"@, "subnets"@],
        ResourceKind::Volume => seq!["Name"@, "Labels"@, "UID"@, "GID"@],
        ResourceKind::Image => seq!["Id"@, "Names"@, "Labels"@, "Config"@],
        ResourceKind::Secret => seq!["ID"@, "Spec"@, "SecretData"@],
    }
}

/// The networks object of a container's `NetworkSettings`, if both are objects.
pub open spec fn networks_object(m: Seq<(Seq<char>, JsonView)>) -> Option<Seq<(Seq<char>, JsonView)>> {
    match json_get(m, "NetworkSettings"@) {
        Some(JsonView::Object(sm)) => match json_get(sm, "Networks"@) {
            Some(JsonView::Object(nm)) => Some(nm),
            _ => None,
        },
        _ => None,
    }
}

/// The `Secrets` member of a container's `Config` object.
pub open spec fn config_secrets(m: Seq<(Seq<char>, JsonView)>) -> Option<JsonView> {
    match json_get(m, "Config"@) {
        Some(JsonView::Object(cm)) => json_get(cm, "Secrets"@),
        _ => None,
    }
}

/// The unknown nested members of a `kind` document.
pub open spec fn unknown_nested(kind: ResourceKind, m: Seq<(Seq<char>, JsonView)>) -> Seq<(Seq<char>, JsonValueKind)> {
    match kind {
        ResourceKind::Container => unknown_in(json_get(m, "Config"@), "$.Config"@, seq!["Labels"@, "Env"@, "Secrets"@])
            + unknown_in(json_get(m, "NetworkSettings"@), "$.NetworkSettings"@, seq!["Networks"@]) + (match networks_object(m) {
            Some(nm) => unknown_in_networks(nm),
            None => Seq::empty(),
        }) + unknown_in_array(json_get(m, "Mounts"@), "$.Mounts"@, seq!["Type"@, "Name"@]) + unknown_in_array(
            config_secrets(m),
            "$.Config.Secrets"@,
            seq!["ID"@, "Name"@],
        ) + unknown_in(json_get(m, "HostConfig"@), "$.HostConfig"@, seq!["MemorySwappiness"@]),
        ResourceKind::Pod => unknown_in_array(json_get(m, "Containers"@), "$.Containers"@, seq!["Id"@]),
        ResourceKind::Network => unknown_in_array(json_get(m, "subnets"@), "$.subnets"@, seq!["subnet"@]),
        ResourceKind::Image => unknown_in(json_get(m, "Config"@), "$.Config"@, seq!["Env"@]),
        ResourceKind::Secret => unknown_in(json_get(m, "Spec"@), "$.Spec"@, seq!["Name"@, "Labels"@, "Driver"@, "SecretData"@]),
        ResourceKind::Volume => Seq::empty(),
    }
}

/// Every unknown member of a `kind` document, top-level first, in order.
pub open spec fn unknown_fields(kind: ResourceKind, m: Seq<(Seq<char>, JsonView)>) -> Seq<(Seq<char>, JsonValueKind)> {
    unknown_members(m, "$"@, top_level_known(kind)) + unknown_nested(kind, m)
}

/// The metadata retained for an unknown member of `resource`.
pub open spec fn unmodelled_view(resource: IdentityView, p: (Seq<char>, JsonValueKind)) -> UnmodelledFieldView {
    UnmodelledFieldView { id: semantic_unmodelled_id(resource.kind, p.0), path: p.0, json_kind: p.1, resource }
}

/// The first `limit` of `offered`, as retained metadata.
pub open spec fn retained(offered: Seq<(Seq<char>, JsonValueKind)>, limit: nat, resource: IdentityView) -> Seq<UnmodelledFieldView> {
    let n = if offered.len() < limit {
        offered.len()
    } else {
        limit
    };
    offered.take(n as int).map_values(|p: (Seq<char>, JsonValueKind)| unmodelled_view(resource, p))
}

/// Unknown members retained up to a limit; once the limit is reached, further ones only mark
/// the collection as overflowed.
struct UnknownFields {
    fields: Vec<UnmodelledField>,
    overflowed: bool,
    limit: usize,
    resource: ResourceIdentity,
    offered: Ghost<Seq<(Seq<char>, JsonValueKind)>>,
}

impl UnknownFields {
    spec fn wf(&self) -> bool {
        &&& views(self.fields@) == retained(self.offered@, self.limit as nat, self.resource@)
        &&& self.overflowed == (self.offered@.len() > self.limit)
    }

    fn new(resource: ResourceIdentity, limit: usize) -> (r: Self)
        ensures
            r.wf(),
            r.offered@ == Seq::<(Seq<char>, JsonValueKind)>::empty(),
            r.limit == limit,
            r.resource@ == resource@,
    {
        let r = UnknownFields { fields: Vec::new(), overflowed: false, limit, resource, offered: Ghost(Seq::empty()) };
        assert(views(r.fields@) =~= retained(r.offered@, limit as nat, r.resource@));
        r
    }

    fn offer(&mut self, path: String, kind: JsonValueKind)
        requires
            old(self).wf(),
        ensures
            final(self).wf(),
            final(self).offered@ == old(self).offered@.push((path@, kind)),
            final(self).limit == old(self).limit,
            final(self).resource@ == old(self).resource@,
    {
        let ghost before = self.offered@;
        let ghost item = (path@, kind);
        let ghost fbefore = self.fields@;
        proof {
            self.offered = Ghost(before.push(item));
        }
        if self.fields.len() >= self.limit {
            self.overflowed = true;
            proof {
                assert(retained(self.offered@, self.limit as nat, self.resource@) =~= retained(
                    before,
                    self.limit as nat,
                    self.resource@,
                ));
            }
        } else {
            let f = UnmodelledField::new(path, kind, self.resource.clone());
            self.fields.push(f);
            proof {
                lemma_views_push(fbefore, f);
                assert(views(fbefore).len() == fbefore.len());
                assert(before.len() < self.limit);
                assert(retained(self.offered@, self.limit as nat, self.resource@) =~= retained(
                    before,
                    self.limit as nat,
                    self.resource@,
                ).push(unmodelled_view(self.resource@, item)));
            }
        }
    }
}

fn known_contains(known: &[&str], key: &str) -> (r: bool)
    ensures
        r == crate::transport::str_views(known@).contains(key@),
{
    let ghost kv = crate::transport::str_views(known@);
    let mut i: usize = 0;
    while i < known.len()
        invariant
            i <= known.len(),
            kv == crate::transport::str_views(known@),
            forall|j: int| 0 <= j < i ==> kv[j] != key@,
        decreases known.len() - i,
    {
        if crate::text::str_eq(known[i], key) {
            assert(kv[i as int] == key@);
            return true;
        }
        i = i + 1;
    }
    false
}

fn offer_unknown_members(c: &mut UnknownFields, members: &Vec<JsonMember>, prefix: &str, known: &[&str])
    requires
        old(c).wf(),
    ensures
        final(c).wf(),
        final(c).offered@ == old(c).offered@ + unknown_members(member_views(members@), prefix@, crate::transport::str_views(known@)),
        final(c).limit == old(c).limit,
        final(c).resource@ == old(c).resource@,
{
    let ghost mv = member_views(members@);
    let ghost kv = crate::transport::str_views(known@);
    let ghost start = c.offered@;
    proof {
        lemma_member_views_len(members@);
        assert(start + unknown_members(mv.take(0), prefix@, kv) =~= start);
    }
    let mut i: usize = 0;
    while i < members.len()
        invariant
            i <= members.len(),
            mv == member_views(members@),
            mv.len() == members.len(),
            kv == crate::transport::str_views(known@),
            c.wf(),
            c.offered@ == start + unknown_members(mv.take(i as int), prefix@, kv),
            c.limit == old(c).limit,
            c.resource@ == old(c).resource@,
        decreases members.len() - i,
    {
        proof {
            lemma_member_view_at(members@, i as int);
            assert(mv.take(i + 1).drop_last() =~= mv.take(i as int));
            assert(mv.take(i + 1).last() == mv[i as int]);
        }
        let key = &members[i].key;
        if !known_contains(known, key.as_str()) {
            let path = member_path(prefix, ".");
            let path = member_path(path.as_str(), key.as_str());
            let kind = json_kind_of(&members[i].value);
            let ghost pre = c.offered@;
            c.offer(path, kind);
            proof {
                assert(c.offered@ =~= start + unknown_members(mv.take(i + 1), prefix@, kv));
            }
        }
        i = i + 1;
    }
    assert(mv.take(members.len() as int) =~= mv);
}

fn offer_unknown_in(c: &mut UnknownFields, value: Option<&JsonValue>, prefix: &str, known: &[&str])
    requires
        old(c).wf(),
    ensures
        final(c).wf(),
        final(c).offered@ == old(c).offered@ + unknown_in(opt_json(value), prefix@, crate::transport::str_views(known@)),
        final(c).limit == old(c).limit,
        final(c).resource@ == old(c).resource@,
{
    match value {
        Some(JsonValue::Object(m)) => offer_unknown_members(c, m, prefix, known),
        _ => {
            assert(c.offered@ + Seq::<(Seq<char>, JsonValueKind)>::empty() =~= c.offered@);
        },
    }
}

fn offer_unknown_in_array(c: &mut UnknownFields, value: Option<&JsonValue>, prefix: &str, known: &[&str])
    requires
        old(c).wf(),
    ensures
        final(c).wf(),
        final(c).offered@ == old(c).offered@ + unknown_in_array(opt_json(value), prefix@, crate::transport::str_views(known@)),
        final(c).limit == old(c).limit,
        final(c).resource@ == old(c).resource@,
{
    let items = match value {
        Some(JsonValue::Array(items)) => items,
        _ => {
            assert(c.offered@ + Seq::<(Seq<char>, JsonValueKind)>::empty() =~= c.offered@);
            return;
        },
    };
    let ghost vs = json_views(items@);
    let ghost kv = crate::transport::str_views(known@);
    let ghost start = c.offered@;
    proof {
        lemma_json_views_len(items@);
        assert(start + unknown_in_items(vs.take(0), prefix@, kv) =~= start);
    }
    let mut i: usize = 0;
    while i < items.len()
        invariant
            i <= items.len(),
            vs == json_views(items@),
            vs.len() == items.len(),
            kv == crate::transport::str_views(known@),
            c.wf(),
            c.offered@ == start + unknown_in_items(vs.take(i as int), prefix@, kv),
            c.limit == old(c).limit,
            c.resource@ == old(c).resource@,
        decreases items.len() - i,
    {
        proof {
            lemma_json_view_at(items@, i as int);
            assert(vs.take(i + 1).drop_last() =~= vs.take(i as int));
            assert(vs.take(i + 1).last() == vs[i as int]);
        }
        let open = member_path(prefix, "[");
        let path = indexed_path(open.as_str(), i, "]");
        assert(path@ =~= prefix@ + "["@ + decimal(i as nat) + "]"@);
        offer_unknown_in(c, Some(&items[i]), path.as_str(), known);
        proof {
            assert(c.offered@ =~= start + unknown_in_items(vs.take(i + 1), prefix@, kv));
        }
        i = i + 1;
    }
    assert(vs.take(items.len() as int) =~= vs);
}

fn offer_unknown_networks(c: &mut UnknownFields, object: &Vec<JsonMember>)
    requires
        old(c).wf(),
    ensures
        final(c).wf(),
        final(c).offered@ == old(c).offered@ + match networks_object(member_views(object@)) {
            Some(nm) => unknown_in_networks(nm),
            None => Seq::empty(),
        },
        final(c).limit == old(c).limit,
        final(c).resource@ == old(c).resource@,
{
    let nm = match get(object, "NetworkSettings") {
        Some(JsonValue::Object(sm)) => match get(sm, "Networks") {
            Some(JsonValue::Object(nm)) => nm,
            _ => {
                assert(c.offered@ + Seq::<(Seq<char>, JsonValueKind)>::empty() =~= c.offered@);
                return;
            },
        },
        _ => {
            assert(c.offered@ + Seq::<(Seq<char>, JsonValueKind)>::empty() =~= c.offered@);
            return;
        },
    };
    let ghost mv = member_views(nm@);
    let ghost start = c.offered@;
    let empty: [&str; 0] = [];
    proof {
        lemma_member_views_len(nm@);
        assert(start + unknown_in_networks(mv.take(0)) =~= start);
        assert(crate::transport::str_views(empty@) =~= Seq::<Seq<char>>::empty());
    }
    let mut i: usize = 0;
    while i < nm.len()
        invariant
            i <= nm.len(),
            mv == member_views(nm@),
            mv.len() == nm.len(),
            crate::transport::str_views(empty@) == Seq::<Seq<char>>::empty(),
            c.wf(),
            c.offered@ == start + unknown_in_networks(mv.take(i as int)),
            c.limit == old(c).limit,
            c.resource@ == old(c).resource@,
        decreases nm.len() - i,
    {
        proof {
            lemma_member_view_at(nm@, i as int);
            assert(mv.take(i + 1).drop_last() =~= mv.take(i as int));
            assert(mv.take(i + 1).last() == mv[i as int]);
        }
        let path = member_path("$.NetworkSettings.Networks.", nm[i].key.as_str());
        offer_unknown_in(c, Some(&nm[i].value), path.as_str(), &empty);
        proof {
            assert(c.offered@ =~= start + unknown_in_networks(mv.take(i + 1)));
        }
        i = i + 1;
    }
    assert(mv.take(nm.len() as int) =~= mv);
}

fn config_secrets_of(object: &Vec<JsonMember>) -> (r: Option<&JsonValue>)
    ensures
        opt_json(r) == config_secrets(member_views(object@)),
{
    match get(object, "Config") {
        Some(JsonValue::Object(cm)) => get(cm, "Secrets"),
        _ => None,
    }
}

fn top_level_known_of(kind: ResourceKind) -> (r: Vec<&'static str>)
    ensures
        crate::transport::str_views(r@) == top_level_known(kind),
{
    let r = match kind {
        ResourceKind::Container => vec![
            "Id",
            "Name",
            "Image",
            "ImageName",
            "Pod",
            "NetworkSettings",
            "Mounts",
            "Dependencies",
            "Config",
            "HostConfig",
            "IsInfra",
        ],
        ResourceKind::Pod => vec!["Id", "Name", "Labels", "Containers", "Networks"],
        ResourceKind::Network => vec!["id", "name", "labels", "internal", "options", "subnets"],
        ResourceKind::Volume => vec!["Name", "Labels", "UID", "GID"],
        ResourceKind::Image => vec!["Id", "Names", "Labels", "Config"],
        ResourceKind::Secret => vec!["ID", "Spec", "SecretData"],
    };
    assert(crate::transport::str_views(r@) =~= top_level_known(kind));
    r
}

fn offer_unknown_container(c: &mut UnknownFields, object: &Vec<JsonMember>)
    requires
        old(c).wf(),
    ensures
        final(c).wf(),
        final(c).offered@ == old(c).offered@ + unknown_nested(ResourceKind::Container, member_views(object@)),
        final(c).limit == old(c).limit,
        final(c).resource@ == old(c).resource@,
{
    let ghost m = member_views(object@);
    let ghost s0 = c.offered@;
    let k1 = ["Labels", "Env", "Secrets"];
    let k2 = ["Networks"];
    let k3 = ["Type", "Name"];
    let k4 = ["ID", "Name"];
    let k5 = ["MemorySwappiness"];
    proof {
        assert(crate::transport::str_views(k1@) =~= seq!["Labels"@, "Env"@, "Secrets"@]);
        assert(crate::transport::str_views(k2@) =~= seq!["Networks"@]);
        assert(crate::transport::str_views(k3@) =~= seq!["Type"@, "Name"@]);
        assert(crate::transport::str_views(k4@) =~= seq!["ID"@, "Name"@]);
        assert(crate::transport::str_views(k5@) =~= seq!["MemorySwappiness"@]);
    }
    offer_unknown_in(c, get(object, "Config"), "$.Config", &k1);
    let ghost s1 = c.offered@;
    offer_unknown_in(c, get(object, "NetworkSettings"), "$.NetworkSettings", &k2);
    let ghost s2 = c.offered@;
    offer_unknown_networks(c, object);
    let ghost s3 = c.offered@;
    offer_unknown_in_array(c, get(object, "Mounts"), "$.Mounts", &k3);
    let ghost s4 = c.offered@;
    offer_unknown_in_array(c, config_secrets_of(object), "$.Config.Secrets", &k4);
    let ghost s5 = c.offered@;
    offer_unknown_in(c, get(object, "HostConfig"), "$.HostConfig", &k5);
    proof {
        let a = unknown_in(json_get(m, "Config"@), "$.Config"@, seq!["Labels"@, "Env"@, "Secrets"@]);
        let b = unknown_in(json_get(m, "NetworkSettings"@), "$.NetworkSettings"@, seq!["Networks"@]);
        let n = match networks_object(m) {
            Some(nm) => unknown_in_networks(nm),
            None => Seq::empty(),
        };
        let d = unknown_in_array(json_get(m, "Mounts"@), "$.Mounts"@, seq!["Type"@, "Name"@]);
        let e = unknown_in_array(config_secrets(m), "$.Config.Secrets"@, seq!["ID"@, "Name"@]);
        let f = unknown_in(json_get(m, "HostConfig"@), "$.HostConfig"@, seq!["MemorySwappiness"@]);
        assert(s1 == s0 + a);
        assert(s2 == s1 + b);
        assert(s3 == s2 + n);
        assert(s4 == s3 + d);
        assert(s5 == s4 + e);
        assert(c.offered@ == s5 + f);
        assert(unknown_nested(ResourceKind::Container, m) == a + b + n + d + e + f);
        assert(c.offered@ =~= s0 + (a + b + n + d + e + f));
    }
}

fn offer_unknown_fields(c: &mut UnknownFields, kind: ResourceKind, object: &Vec<JsonMember>)
    requires
        old(c).wf(),
    ensures
        final(c).wf(),
        final(c).offered@ == old(c).offered@ + unknown_fields(kind, member_views(object@)),
        final(c).limit == old(c).limit,
        final(c).resource@ == old(c).resource@,
{
    let ghost m = member_views(object@);
    let ghost start = c.offered@;
    let known = top_level_known_of(kind);
    offer_unknown_members(c, object, "$", known.as_slice());
    let ghost top = c.offered@;
    match kind {
        ResourceKind::Container => {
            offer_unknown_container(c, object);
        },
        ResourceKind::Pod => {
            let k = ["Id"];
            assert(crate::transport::str_views(k@) =~= seq!["Id"@]);
            offer_unknown_in_array(c, get(object, "Containers"), "$.Containers", &k);
        },
        ResourceKind::Network => {
            let k = ["subnet"];
            assert(crate::transport::str_views(k@) =~= seq!["subnet"@]);
            offer_unknown_in_array(c, get(object, "subnets"), "$.subnets", &k);
        },
        ResourceKind::Image => {
            let k = ["Env"];
            assert(crate::transport::str_views(k@) =~= seq!["Env"@]);
            offer_unknown_in(c, get(object, "Config"), "$.Config", &k);
        },
        ResourceKind::Secret => {
            let k = ["Name", "Labels", "Driver", "SecretData"];
            assert(crate::transport::str_views(k@) =~= seq!["Name"@, "Labels"@, "Driver"@, "SecretData"@]);
            offer_unknown_in(c, get(object, "Spec"), "$.Spec", &k);
        },
        ResourceKind::Volume => {
            assert(top + Seq::<(Seq<char>, JsonValueKind)>::empty() =~= top);
        },
    }
    assert(c.offered@ == top + unknown_nested(kind, m));
    assert(c.offered@ =~= start + unknown_fields(kind, m));
}

// ---------------------------------------------------------------------------------------------
// Observations.
// ---------------------------------------------------------------------------------------------
/// One acquired resource: its identity, acquisition state, findings, retained unmodelled
/// fields, and, when its document decoded, its record.
pub struct ResourceObservation {
    identity: ResourceIdentity,
    state: ResourceObservationState,
    findings: Vec<InventoryFinding>,
    unmodelled: Vec<UnmodelledField>,
    unmodelled_completeness: UnmodelledCompleteness,
    record: Option<ObservationRecord>,
}

impl ResourceObservation {
    pub closed spec fn spec_identity(&self) -> IdentityView {
        self.identity@
    }

    pub closed spec fn spec_state(&self) -> ResourceObservationState {
        self.state
    }

    pub closed spec fn spec_findings(&self) -> Seq<InventoryFindingView> {
        views(self.findings@)
    }

    pub closed spec fn spec_unmodelled(&self) -> Seq<UnmodelledFieldView> {
        views(self.unmodelled@)
    }

    pub closed spec fn spec_completeness(&self) -> UnmodelledCompleteness {
        self.unmodelled_completeness
    }

    pub closed spec fn spec_record(&self) -> Option<ObservationRecord> {
        self.record
    }

    /// Returns the stable native identity.
    pub fn identity(&self) -> (r: &ResourceIdentity)
        ensures
            r@ == self.spec_identity(),
    {
        &self.identity
    }

    /// Returns the non-atomic acquisition state of this resource.
    pub fn state(&self) -> (r: ResourceObservationState)
        ensures
            r == self.spec_state(),
    {
        self.state
    }

    /// Returns the structured findings for this resource.
    pub fn findings(&self) -> (r: &[InventoryFinding])
        ensures
            views(r@) == self.spec_findings(),
    {
        self.findings.as_slice()
    }

    /// Returns the retained unmodelled metadata, without raw values.
    pub fn unmodelled_fields(&self) -> (r: &[UnmodelledField])
        ensures
            views(r@) == self.spec_unmodelled(),
    {
        self.unmodelled.as_slice()
    }

    /// Returns whether the retained metadata accounts for every unmodelled field.
    pub fn unmodelled_completeness(&self) -> (r: UnmodelledCompleteness)
        ensures
            r == self.spec_completeness(),
    {
        self.unmodelled_completeness
    }

    /// Returns the decoded record, when the document decoded.
    pub fn record(&self) -> (r: Option<&ObservationRecord>)
        ensures
            match r {
                Some(x) => self.spec_record() == Some(*x),
                None => self.spec_record() is None,
            },
    {
        self.record.as_ref()
    }

    /// Appends findings that reconciliation reports on this resource.
    pub(crate) fn add_findings(&mut self, more: Vec<InventoryFinding>)
        ensures
            final(self).spec_findings() == old(self).spec_findings() + views(more@),
            final(self).spec_identity() == old(self).spec_identity(),
            final(self).spec_state() == old(self).spec_state(),
            final(self).spec_unmodelled() == old(self).spec_unmodelled(),
            final(self).spec_completeness() == old(self).spec_completeness(),
            final(self).spec_record() == old(self).spec_record(),
    {
        append_findings(&mut self.findings, more);
    }

    /// Takes the decoded record out, leaving none.
    pub(crate) fn take_record(&mut self) -> (r: Option<ObservationRecord>)
        ensures
            r == old(self).spec_record(),
            final(self).spec_record() is None,
            final(self).spec_findings() == old(self).spec_findings(),
            final(self).spec_identity() == old(self).spec_identity(),
            final(self).spec_state() == old(self).spec_state(),
            final(self).spec_unmodelled() == old(self).spec_unmodelled(),
            final(self).spec_completeness() == old(self).spec_completeness(),
    {
        self.record.take()
    }

    /// Puts a record back.
    pub(crate) fn put_record(&mut self, record: Option<ObservationRecord>)
        ensures
            final(self).spec_record() == record,
            final(self).spec_findings() == old(self).spec_findings(),
            final(self).spec_identity() == old(self).spec_identity(),
            final(self).spec_state() == old(self).spec_state(),
            final(self).spec_unmodelled() == old(self).spec_unmodelled(),
            final(self).spec_completeness() == old(self).spec_completeness(),
    {
        self.record = record;
    }
}

/// The findings that report unknown members: an overflow finding when more were found than
/// retained, then one per retained member.
pub open spec fn unknown_findings(identity: IdentityView, kept: Seq<UnmodelledFieldView>, overflow: bool) -> Seq<InventoryFindingView> {
    (if overflow {
        seq![field_finding(DiagnosticCode::UnknownFieldOverflow, identity, "$"@)]
    } else {
        Seq::empty()
    }) + kept.map_values(|u: UnmodelledFieldView| field_finding(DiagnosticCode::NativeFieldUnsupported, identity, u.path))
}

/// A complete observation of the document `m` of a listed resource, with at most `limit`
/// unknown members retained.
pub open spec fn observation_decoded(
    o: ResourceObservation,
    listed: IdentityView,
    m: Seq<(Seq<char>, JsonView)>,
    policy: EnvironmentValuePolicy,
    api_version: Seq<char>,
    limit: nat,
) -> bool {
    inspected_identity(listed, m) matches Ok(identity) && {
        let unknown = unknown_fields(listed.kind, m);
        let kept = retained(unknown, limit, identity);
        let overflow = unknown.len() > limit;
        let extra = unknown_findings(identity, kept, overflow);
        let n = o.spec_findings().len() - extra.len();
        &&& o.spec_identity() == identity
        &&& o.spec_state() == ResourceObservationState::Complete
        &&& n >= 0
        &&& o.spec_findings().skip(n) == extra
        &&& o.spec_record() matches Some(rec) && record_decoded(
            rec,
            o.spec_findings().take(n),
            identity,
            listed.kind,
            m,
            policy,
            api_version,
        )
        &&& o.spec_unmodelled() == kept
        &&& o.spec_completeness() == if overflow {
            UnmodelledCompleteness::Incomplete
        } else {
            UnmodelledCompleteness::Complete
        }
    }
}

/// What decoding an inspect response of a listed resource gives: the error that rejects it, or
/// its complete observation.
pub open spec fn inspect_decoded(
    r: PodmanLensResult<ResourceObservation>,
    listed: IdentityView,
    response: &LibpodResponse,
    policy: EnvironmentValuePolicy,
    api_version: Seq<char>,
    limit: nat,
) -> bool {
    match response_document(response) {
        Err(code) => fails_with(r, code),
        Ok(JsonView::Object(m)) => match document_error(listed, m) {
            Some(code) => fails_with(r, code),
            None => r matches Ok(o) && observation_decoded(o, listed, m, policy, api_version, limit),
        },
        Ok(_) => fails_with(r, DiagnosticCode::InventoryShape),
    }
}

/// Decodes the inspect response of a listed resource, retaining at most `unknown_field_limit`
/// unknown members; `api_version` is the service's reported Libpod API version.
///
/// # Errors
///
/// The response's status, content-type, or JSON error; `PLN0015` for a document that is not an
/// object or has no ID; `PLN0017` for one whose ID is not the listed one, or a secret without
/// its `Spec`.
pub fn decode_observation(
    listed: &ResourceIdentity,
    response: &LibpodResponse,
    options: AcquisitionOptions,
    api_version: &str,
    unknown_field_limit: usize,
) -> (r: PodmanLensResult<ResourceObservation>)
    ensures
        inspect_decoded(r, listed@, response, options.spec_policy(), api_version@, unknown_field_limit as nat),
{
    let value = response_json(response)?;
    let object = match &value {
        JsonValue::Object(m) => m,
        _ => {
            return Err(Diagnostic::new(DiagnosticCode::InventoryShape));
        },
    };
    let (record, mut findings) = decode_document(listed, object, options.environment_value_policy(), api_version)?;
    let ghost base = views(findings@);
    let identity = record.identity.clone();
    let mut unknown = UnknownFields::new(identity.clone(), unknown_field_limit);
    offer_unknown_fields(&mut unknown, listed.kind(), object);
    let UnknownFields { fields, overflowed, limit: _, resource: _, offered: _ } = unknown;
    let ghost kept = views(fields@);
    if overflowed {
        let f = InventoryFinding::field(DiagnosticCode::UnknownFieldOverflow, identity.clone(), "$".to_string());
        let ghost before = findings@;
        findings.push(f);
        proof {
            lemma_views_push(before, f);
        }
    }
    let ghost with_overflow = views(findings@);
    let mut i: usize = 0;
    while i < fields.len()
        invariant
            i <= fields.len(),
            kept == views(fields@),
            views(findings@) == with_overflow + kept.take(i as int).map_values(
                |u: UnmodelledFieldView| field_finding(DiagnosticCode::NativeFieldUnsupported, identity@, u.path),
            ),
        decreases fields.len() - i,
    {
        let f = InventoryFinding::field(DiagnosticCode::NativeFieldUnsupported, identity.clone(), fields[i].path().to_string());
        let ghost before = findings@;
        findings.push(f);
        proof {
            lemma_views_push(before, f);
            assert(kept[i as int] == fields@[i as int]@);
            assert(kept.take(i + 1) =~= kept.take(i as int).push(kept[i as int]));
            assert(views(findings@) =~= with_overflow + kept.take(i + 1).map_values(
                |u: UnmodelledFieldView| field_finding(DiagnosticCode::NativeFieldUnsupported, identity@, u.path),
            ));
        }
        i = i + 1;
    }
    proof {
        assert(kept.take(fields.len() as int) =~= kept);
        let extra = unknown_findings(identity@, kept, overflowed);
        assert(views(findings@) =~= base + extra);
        assert(views(findings@).skip(base.len() as int) =~= extra);
        assert(views(findings@).take(base.len() as int) =~= base);
    }
    let completeness = if overflowed {
        UnmodelledCompleteness::Incomplete
    } else {
        UnmodelledCompleteness::Complete
    };
    Ok(
        ResourceObservation {
            identity,
            state: ResourceObservationState::Complete,
            findings,
            unmodelled: fields,
            unmodelled_completeness: completeness,
            record: Some(record),
        },
    )
}

/// A field that applies is `Malformed` when `malformed`, else `Unavailable`.
pub open spec fn incomplete_field<T>(f: Option<ObservationField<T>>, malformed: bool) -> bool {
    f is None || f == Some(if malformed {
        ObservationField::<T>::Malformed
    } else {
        ObservationField::<T>::Unavailable
    })
}

/// The record of a resource whose document could not be acquired (`malformed` false) or
/// decoded: every field that applies to its kind says so.
pub open spec fn incomplete_record(rec: ObservationRecord, identity: IdentityView, malformed: bool) -> bool {
    &&& rec.identity@ == identity
    &&& fields_exist_for(rec, identity.kind)
    &&& rec.labels == if malformed {
        ObservationField::<Labels>::Malformed
    } else {
        ObservationField::<Labels>::Unavailable
    }
    &&& incomplete_field(rec.relationships, malformed)
    &&& incomplete_field(rec.image_aliases, malformed)
    &&& incomplete_field(rec.environment, malformed)
    &&& incomplete_field(rec.infra, malformed)
    &&& incomplete_field(rec.configured_image, malformed)
    &&& incomplete_field(rec.local_image_id, malformed)
    &&& incomplete_field(rec.memory_swappiness, malformed)
    &&& incomplete_field(rec.network_internal, malformed)
    &&& incomplete_field(rec.network_options, malformed)
    &&& incomplete_field(rec.network_subnets, malformed)
    &&& incomplete_field(rec.volume_owner_user, malformed)
    &&& incomplete_field(rec.volume_owner_group, malformed)
    &&& incomplete_field(rec.secret_driver, malformed)
}

fn incomplete<T>(f: Option<ObservationField<T>>, malformed: bool) -> (r: Option<ObservationField<T>>)
    requires
        f is None || f == Some(ObservationField::<T>::Absent),
    ensures
        r is Some <==> f is Some,
        incomplete_field(r, malformed),
{
    match f {
        Some(_) => Some(if malformed {
            ObservationField::Malformed
        } else {
            ObservationField::Unavailable
        }),
        None => None,
    }
}

fn incomplete_record_of(identity: ResourceIdentity, malformed: bool) -> (r: ObservationRecord)
    ensures
        incomplete_record(r, identity@, malformed),
{
    let mut rec = ObservationRecord::new(identity);
    rec.labels = if malformed {
        ObservationField::Malformed
    } else {
        ObservationField::Unavailable
    };
    rec.relationships = incomplete(rec.relationships, malformed);
    rec.image_aliases = incomplete(rec.image_aliases, malformed);
    rec.environment = incomplete(rec.environment, malformed);
    rec.infra = incomplete(rec.infra, malformed);
    rec.configured_image = incomplete(rec.configured_image, malformed);
    rec.local_image_id = incomplete(rec.local_image_id, malformed);
    rec.memory_swappiness = incomplete(rec.memory_swappiness, malformed);
    rec.network_internal = incomplete(rec.network_internal, malformed);
    rec.network_options = incomplete(rec.network_options, malformed);
    rec.network_subnets = incomplete(rec.network_subnets, malformed);
    rec.volume_owner_user = incomplete(rec.volume_owner_user, malformed);
    rec.volume_owner_group = incomplete(rec.volume_owner_group, malformed);
    rec.secret_driver = incomplete(rec.secret_driver, malformed);
    rec
}

/// The observation of a resource that could not be acquired or decoded: one finding of `code`
/// on the resource, no retained metadata, and a record whose every field is unavailable, or
/// malformed unless the resource was unavailable.
pub open spec fn partial(o: ResourceObservation, identity: IdentityView, code: DiagnosticCode) -> bool {
    let unavailable = code == DiagnosticCode::ResourceUnavailable;
    &&& o.spec_identity() == identity
    &&& o.spec_state() == if unavailable {
        ResourceObservationState::Unavailable
    } else {
        ResourceObservationState::Malformed
    }
    &&& o.spec_findings() == seq![resource_finding(code, identity)]
    &&& o.spec_unmodelled() == Seq::<UnmodelledFieldView>::empty()
    &&& o.spec_completeness() == UnmodelledCompleteness::Incomplete
    &&& o.spec_record() matches Some(rec) && incomplete_record(rec, identity, !unavailable)
}

fn partial_observation(identity: ResourceIdentity, code: DiagnosticCode) -> (r: ResourceObservation)
    ensures
        partial(r, identity@, code),
{
    let unavailable = code == DiagnosticCode::ResourceUnavailable;
    let state = if unavailable {
        ResourceObservationState::Unavailable
    } else {
        ResourceObservationState::Malformed
    };
    let findings = one_finding(InventoryFinding::for_resource(code, identity.clone()));
    let record = incomplete_record_of(identity.clone(), !unavailable);
    let r = ResourceObservation {
        identity,
        state,
        findings,
        unmodelled: Vec::new(),
        unmodelled_completeness: UnmodelledCompleteness::Incomplete,
        record: Some(record),
    };
    assert(views(r.unmodelled@) =~= Seq::<UnmodelledFieldView>::empty());
    r
}

/// What an inspect response (or its absence, `None`) gives for a listed resource: a partial
/// observation for a failed request or a `404`, else the decoded observation or a partial one
/// carrying the decoder's code.
pub open spec fn inspected(
    listed: IdentityView,
    response: Option<LibpodResponse>,
    options: AcquisitionOptions,
    api_version: Seq<char>,
    unknown_field_limit: nat,
    r: ResourceObservation,
) -> bool {
    match response {
        None => partial(r, listed, DiagnosticCode::ResourceUnavailable),
        Some(resp) => if resp.spec_status() == 404 {
            partial(r, listed, DiagnosticCode::ResourceUnavailable)
        } else {
            exists|d: PodmanLensResult<ResourceObservation>|
                #[trigger] inspect_decoded(d, listed, &resp, options.spec_policy(), api_version, unknown_field_limit)
                    && match d {
                    Ok(o) => r == o,
                    Err(e) => partial(r, listed, e@),
                }
        },
    }
}

/// The observation of a listed resource from its inspect response, or from the failure to get
/// one (`None`): a failed request or a `404` makes the resource unavailable, and a response that
/// does not decode makes it malformed with the decoder's code.
pub fn inspect_observation(
    listed: &ResourceIdentity,
    response: Option<&LibpodResponse>,
    options: AcquisitionOptions,
    api_version: &str,
    unknown_field_limit: usize,
) -> (r: ResourceObservation)
    ensures
        inspected(listed@, match response {
            Some(x) => Some(*x),
            None => None,
        }, options, api_version@, unknown_field_limit as nat, r),
{
    match response {
        None => partial_observation(listed.clone(), DiagnosticCode::ResourceUnavailable),
        Some(resp) => {
            if resp.status() == 404 {
                return partial_observation(listed.clone(), DiagnosticCode::ResourceUnavailable);
            }
            let d = decode_observation(listed, resp, options, api_version, unknown_field_limit);
            let ghost dd = d;
            let r = match d {
                Ok(o) => o,
                Err(e) => partial_observation(listed.clone(), e.code()),
            };
            assert(inspect_decoded(dd, listed@, resp, options.spec_policy(), api_version@, unknown_field_limit as nat));
            r
        },
    }
}

} // verus!
