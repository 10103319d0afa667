//! Provenance-aware native observations and the resource records that discovery reads.
//!
//! An observation field says whether the reviewed wire field was observed, absent, or unusable
//! for a stated reason, so that an adapter can never mistake a decoder failure for an intentional
//! empty value.

use vstd::prelude::*;

use crate::inventory::{kind_rank, JsonValueKind, ResourceKind};
use crate::once::{duplicate_strings, opt_view, same_text, views, Duplicate, SameValue};
use crate::order::Keyed;
use crate::planning::{append_key, text_key, text_key_exec};

verus! {

/// Provenance that prevents observed runtime facts from becoming desired intent accidentally.
#[derive(Clone, Copy, Debug, Eq, PartialEq, Structural)]
#[non_exhaustive]
pub enum ObservationOrigin {
    /// An explicit setting declared in the native resource configuration.
    Configured,
    /// A native effective value that may incorporate Podman defaults.
    Effective,
    /// A value allocated by the runtime, such as an address or a live state.
    RuntimeAssigned,
    /// A local resolver result, such as a resolved image ID.
    LocalResolution,
}

/// A successfully decoded value and its non-promotable provenance.
#[derive(Clone, Debug)]
pub struct ObservedValue<T> {
    value: T,
    origin: ObservationOrigin,
}

impl<T> ObservedValue<T> {
    /// The value exactly as observed.
    pub closed spec fn spec_value(&self) -> T {
        self.value
    }

    /// The source disposition of the value.
    pub closed spec fn spec_origin(&self) -> ObservationOrigin {
        self.origin
    }

    /// Creates an observed value with explicit provenance.
    pub fn new(value: T, origin: ObservationOrigin) -> (r: Self)
        ensures
            r.spec_value() == value,
            r.spec_origin() == origin,
    {
        ObservedValue { value, origin }
    }

    /// Returns the value exactly as observed.
    pub fn value(&self) -> (r: &T)
        ensures
            *r == self.spec_value(),
    {
        &self.value
    }

    /// Returns the source disposition of the value.
    pub fn origin(&self) -> (r: ObservationOrigin)
        ensures
            r == self.spec_origin(),
    {
        self.origin
    }
}

/// Stable semantic identifier for bounded metadata not modelled by this release.
#[derive(Clone, Copy, Debug, Eq, Ord, PartialEq, PartialOrd, Structural)]
#[non_exhaustive]
pub enum UnmodelledFieldId {
    /// Container `HostConfig` data outside the bounded typed subset.
    ContainerHostConfig,
    /// Container secret-grant metadata outside the bounded typed subset.
    ContainerSecretGrant,
    /// Container configuration data outside the bounded typed subset.
    ContainerConfig,
    /// Container network-settings data outside the bounded typed subset.
    ContainerNetworkSettings,
    /// Container mount data outside the bounded typed subset.
    ContainerMount,
    /// Other container inspect data outside the bounded typed subset.
    ContainerTopLevel,
    /// Pod membership data outside the bounded typed subset.
    PodMember,
    /// Pod infra-configuration data outside the bounded typed subset.
    PodInfraConfig,
    /// Other pod inspect data outside the bounded typed subset.
    PodTopLevel,
    /// Network subnet data outside the bounded typed subset.
    NetworkSubnet,
    /// Network route data outside the bounded typed subset.
    NetworkRoute,
    /// Other network inspect data outside the bounded typed subset.
    NetworkTopLevel,
    /// Volume inspect data outside the bounded typed subset.
    VolumeTopLevel,
    /// Image configuration data outside the bounded typed subset.
    ImageConfig,
    /// Other image inspect data outside the bounded typed subset.
    ImageTopLevel,
    /// Secret specification metadata outside the bounded typed subset.
    SecretSpec,
    /// Other secret inspect data outside the bounded typed subset.
    SecretTopLevel,
}

/// The stable semantic spelling of each unmodelled-field identifier.
pub open spec fn unmodelled_id_str(id: UnmodelledFieldId) -> Seq<char> {
    match id {
        UnmodelledFieldId::ContainerHostConfig => "podman.native.container.host-config"@,
        UnmodelledFieldId::ContainerSecretGrant => "podman.native.container.secret-grant"@,
        UnmodelledFieldId::ContainerConfig => "podman.native.container.config"@,
        UnmodelledFieldId::ContainerNetworkSettings => "podman.native.container.network-settings"@,
        UnmodelledFieldId::ContainerMount => "podman.native.container.mount"@,
        UnmodelledFieldId::ContainerTopLevel => "podman.native.container.top-level"@,
        UnmodelledFieldId::PodMember => "podman.native.pod.member"@,
        UnmodelledFieldId::PodInfraConfig => "podman.native.pod.infra-config"@,
        UnmodelledFieldId::PodTopLevel => "podman.native.pod.top-level"@,
        UnmodelledFieldId::NetworkSubnet => "podman.native.network.subnet"@,
        UnmodelledFieldId::NetworkRoute => "podman.native.network.route"@,
        UnmodelledFieldId::NetworkTopLevel => "podman.native.network.top-level"@,
        UnmodelledFieldId::VolumeTopLevel => "podman.native.volume.top-level"@,
        UnmodelledFieldId::ImageConfig => "podman.native.image.config"@,
        UnmodelledFieldId::ImageTopLevel => "podman.native.image.top-level"@,
        UnmodelledFieldId::SecretSpec => "podman.native.secret.spec"@,
        UnmodelledFieldId::SecretTopLevel => "podman.native.secret.top-level"@,
    }
}

impl UnmodelledFieldId {
    /// Returns the stable semantic identifier.
    pub fn as_str(self) -> (r: &'static str)
        ensures
            r@ == unmodelled_id_str(self),
    {
        let r = match self {
            UnmodelledFieldId::ContainerHostConfig => "podman.native.container.host-config",
            UnmodelledFieldId::ContainerSecretGrant => "podman.native.container.secret-grant",
            UnmodelledFieldId::ContainerConfig => "podman.native.container.config",
            UnmodelledFieldId::ContainerNetworkSettings => "podman.native.container.network-settings",
            UnmodelledFieldId::ContainerMount => "podman.native.container.mount",
            UnmodelledFieldId::ContainerTopLevel => "podman.native.container.top-level",
            UnmodelledFieldId::PodMember => "podman.native.pod.member",
            UnmodelledFieldId::PodInfraConfig => "podman.native.pod.infra-config",
            UnmodelledFieldId::PodTopLevel => "podman.native.pod.top-level",
            UnmodelledFieldId::NetworkSubnet => "podman.native.network.subnet",
            UnmodelledFieldId::NetworkRoute => "podman.native.network.route",
            UnmodelledFieldId::NetworkTopLevel => "podman.native.network.top-level",
            UnmodelledFieldId::VolumeTopLevel => "podman.native.volume.top-level",
            UnmodelledFieldId::ImageConfig => "podman.native.image.config",
            UnmodelledFieldId::ImageTopLevel => "podman.native.image.top-level",
            UnmodelledFieldId::SecretSpec => "podman.native.secret.spec",
            UnmodelledFieldId::SecretTopLevel => "podman.native.secret.top-level",
        };
        r
    }
}

/// The observation state of one native field.
///
/// `Absent` means that the reviewed wire field was absent or `null`; it never means malformed,
/// unavailable, inapplicable, or omitted from the native model.
#[derive(Clone, Debug)]
#[non_exhaustive]
pub enum ObservationField<T> {
    /// The field was absent from an otherwise decoded response.
    Absent,
    /// The field was decoded and carries its source disposition.
    Observed(ObservedValue<T>),
    /// The containing resource or section could not be acquired.
    Unavailable,
    /// The field was present but could not be decoded according to its reviewed shape.
    Malformed,
    /// The reviewed native version does not give this field a usable meaning.
    VersionInapplicable,
    /// The field has no meaning for this resource kind.
    NotApplicable,
    /// The field was deliberately retained only as bounded unmodelled metadata.
    Unmodelled(UnmodelledFieldId),
}

/// The observed value of a field, if it was observed.
pub open spec fn observed_value<T>(field: ObservationField<T>) -> Option<T> {
    match field {
        ObservationField::Observed(v) => Some(v.spec_value()),
        _ => None,
    }
}

impl<T> ObservationField<T> {
    /// Returns the observed value only when the field decoded successfully.
    pub fn observed(&self) -> (r: Option<&ObservedValue<T>>)
        ensures
            r == (match self {
                ObservationField::Observed(v) => Some(v),
                _ => None::<&ObservedValue<T>>,
            }),
    {
        match self {
            ObservationField::Observed(value) => Some(value),
            _ => None,
        }
    }

    /// Returns whether this field contains a usable observation.
    pub fn is_observed(&self) -> (r: bool)
        ensures
            r == (self is Observed),
    {
        match self {
            ObservationField::Observed(_) => true,
            _ => false,
        }
    }

    /// Returns whether the native field was present but did not match its reviewed shape.
    pub fn is_malformed(&self) -> (r: bool)
        ensures
            r == (self is Malformed),
    {
        match self {
            ObservationField::Malformed => true,
            _ => false,
        }
    }
}

// ---------------------------------------------------------------------------------------------
// Identities.
// ---------------------------------------------------------------------------------------------
/// The content of a native resource identity.
pub struct IdentityView {
    pub kind: ResourceKind,
    pub id: Seq<char>,
    pub name: Option<Seq<char>>,
}

/// A stable native identity for one observed resource.
#[derive(Debug)]
pub struct ResourceIdentity {
    kind: ResourceKind,
    id: String,
    name: Option<String>,
}

impl View for ResourceIdentity {
    type V = IdentityView;

    closed spec fn view(&self) -> IdentityView {
        IdentityView { kind: self.kind, id: self.id@, name: opt_view(self.name) }
    }
}

impl ResourceIdentity {
    /// Creates the identity of one observed resource from its kind, native ID, and name.
    pub fn new(kind: ResourceKind, id: String, name: Option<String>) -> (r: Self)
        ensures
            r@ == (IdentityView { kind, id: id@, name: opt_view(name) }),
    {
        ResourceIdentity { kind, id, name }
    }

    /// Returns the Podman resource kind.
    pub fn kind(&self) -> (r: ResourceKind)
        ensures
            r == self@.kind,
    {
        self.kind
    }

    /// Returns the stable identifier used for deterministic inspect requests.
    pub fn id(&self) -> (r: &str)
        ensures
            r@ == self@.id,
    {
        self.id.as_str()
    }

    /// Returns the observed human-facing name when the resource exposes one.
    pub fn name(&self) -> (r: Option<&str>)
        ensures
            match r {
                Some(n) => self@.name == Some(n@),
                None => self@.name is None,
            },
    {
        match &self.name {
            Some(n) => Some(n.as_str()),
            None => None,
        }
    }
}

impl Clone for ResourceIdentity {
    fn clone(&self) -> (r: Self)
        ensures
            r@ == self@,
    {
        let name = match &self.name {
            Some(n) => Some(n.clone()),
            None => None,
        };
        ResourceIdentity { kind: self.kind, id: self.id.clone(), name }
    }
}

impl Duplicate for ResourceIdentity {
    fn duplicate_value(&self) -> (r: Self) {
        self.clone()
    }
}

impl SameValue for ResourceIdentity {
    fn same_value(&self, other: &Self) -> (r: bool) {
        let names = match (&self.name, &other.name) {
            (Some(a), Some(b)) => same_text(a, b),
            (None, None) => true,
            _ => false,
        };
        self.kind == other.kind && same_text(&self.id, &other.id) && names
    }
}

/// The key of an optional text: nothing sorts before every present text.
pub open spec fn opt_text_key(s: Option<Seq<char>>) -> Seq<i64> {
    match s {
        None => seq![-1i64],
        Some(t) => seq![0i64] + text_key(t),
    }
}

/// The order key of an identity: kind rank, then native ID, then name (absent first).
pub open spec fn identity_key(v: IdentityView) -> Seq<i64> {
    seq![kind_rank(v.kind) as i64] + text_key(v.id) + opt_text_key(v.name)
}

pub(crate) fn opt_text_key_exec(s: Option<&str>) -> (r: Vec<i64>)
    ensures
        r@ == opt_text_key(match s {
            Some(t) => Some(t@),
            None => None,
        }),
{
    let mut out: Vec<i64> = Vec::new();
    match s {
        None => {
            out.push(-1);
        },
        Some(t) => {
            out.push(0);
            let k = text_key_exec(t);
            append_key(&mut out, &k);
        },
    }
    out
}

pub(crate) fn identity_key_exec(v: &ResourceIdentity) -> (r: Vec<i64>)
    ensures
        r@ == identity_key(v@),
{
    let mut out: Vec<i64> = Vec::new();
    out.push(v.kind().canonical_rank() as i64);
    let id = text_key_exec(v.id());
    append_key(&mut out, &id);
    let name = opt_text_key_exec(v.name());
    append_key(&mut out, &name);
    proof {
        assert(out@ =~= identity_key(v@));
    }
    out
}


/// A text key ends at its first negative entry, so a text key followed by anything determines
/// the text and what follows it.
pub proof fn lemma_text_key_prefix(a: Seq<char>, x: Seq<i64>, b: Seq<char>, y: Seq<i64>)
    requires
        text_key(a) + x == text_key(b) + y,
    ensures
        a == b,
        x == y,
{
    let ka = text_key(a);
    let kb = text_key(b);
    assert(ka.len() == a.len() + 1);
    assert(kb.len() == b.len() + 1);
    let l = ka + x;
    if a.len() < b.len() {
        assert(l[a.len() as int] == ka[a.len() as int]);
        assert(ka[a.len() as int] == -1i64);
        assert((kb + y)[a.len() as int] == kb[a.len() as int]);
        assert(kb[a.len() as int] == (b[a.len() as int] as u32) as i64);
        assert(false);
    }
    if b.len() < a.len() {
        assert((kb + y)[b.len() as int] == kb[b.len() as int]);
        assert(kb[b.len() as int] == -1i64);
        assert(l[b.len() as int] == ka[b.len() as int]);
        assert(ka[b.len() as int] == (a[b.len() as int] as u32) as i64);
        assert(false);
    }
    assert(ka =~= l.take(ka.len() as int));
    assert(kb =~= (kb + y).take(kb.len() as int));
    crate::planner::lemma_text_key_injective(a, b);
    assert(x =~= l.skip(ka.len() as int));
    assert(y =~= (kb + y).skip(kb.len() as int));
}

/// Distinct identities have distinct keys.
pub proof fn lemma_identity_key_injective(a: IdentityView, b: IdentityView)
    requires
        identity_key(a) == identity_key(b),
    ensures
        a == b,
{
    let ka = identity_key(a);
    let kb = identity_key(b);
    assert(ka[0] == kind_rank(a.kind) as i64);
    assert(kb[0] == kind_rank(b.kind) as i64);
    crate::inventory::lemma_kind_rank_injective(a.kind, b.kind);
    let ra = text_key(a.id) + opt_text_key(a.name);
    let rb = text_key(b.id) + opt_text_key(b.name);
    assert(ra =~= ka.skip(1));
    assert(rb =~= kb.skip(1));
    lemma_text_key_prefix(a.id, opt_text_key(a.name), b.id, opt_text_key(b.name));
    let oa = opt_text_key(a.name);
    assert(oa[0] == opt_text_key(b.name)[0]);
    match (a.name, b.name) {
        (Some(x), Some(y)) => {
            assert(text_key(x) + Seq::<i64>::empty() =~= oa.skip(1));
            assert(text_key(y) + Seq::<i64>::empty() =~= opt_text_key(b.name).skip(1));
            lemma_text_key_prefix(x, Seq::<i64>::empty(), y, Seq::<i64>::empty());
        },
        _ => {},
    }
}

impl Keyed for ResourceIdentity {
    open spec fn key_of(v: IdentityView) -> Seq<i64> {
        identity_key(v)
    }

    fn key(&self) -> (r: Vec<i64>) {
        identity_key_exec(self)
    }
}

// ---------------------------------------------------------------------------------------------
// Native relationships and labels.
// ---------------------------------------------------------------------------------------------
/// The content of one native relationship.
pub struct RelationshipView {
    pub kind: ResourceKind,
    pub references: Seq<Seq<char>>,
    pub field_paths: Seq<Seq<char>>,
}

/// One native relationship from a dependent resource to the resource its references name.
///
/// One relationship can carry several references when the wire format names the same target by
/// an identifier and by a name; resolution requires every reference to select the same target.
#[derive(Debug)]
pub struct NativeRelationship {
    kind: ResourceKind,
    references: Vec<String>,
    field_paths: Vec<String>,
}

/// The texts of a sequence of strings.
pub open spec fn texts(s: Seq<String>) -> Seq<Seq<char>> {
    s.map_values(|x: String| x@)
}

impl View for NativeRelationship {
    type V = RelationshipView;

    closed spec fn view(&self) -> RelationshipView {
        RelationshipView { kind: self.kind, references: texts(self.references@), field_paths: texts(self.field_paths@) }
    }
}

/// The distinct values of `pairs`, in first-occurrence order.
pub open spec fn first_occurrences(values: Seq<Seq<char>>) -> Seq<Seq<char>>
    decreases values.len(),
{
    if values.len() == 0 {
        Seq::empty()
    } else {
        let before = first_occurrences(values.drop_last());
        if before.contains(values.last()) {
            before
        } else {
            before.push(values.last())
        }
    }
}

impl NativeRelationship {
    /// One relationship asserted by one reference at one source path.
    pub fn new(kind: ResourceKind, target: String, field_path: String) -> (r: Self)
        ensures
            r@ == (RelationshipView { kind, references: seq![target@], field_paths: seq![field_path@] }),
    {
        let mut references: Vec<String> = Vec::new();
        references.push(target);
        let mut field_paths: Vec<String> = Vec::new();
        field_paths.push(field_path);
        let r = NativeRelationship { kind, references, field_paths };
        proof {
            assert(texts(r.references@) =~= seq![target@]);
            assert(texts(r.field_paths@) =~= seq![field_path@]);
        }
        r
    }

    /// One relationship asserted by several `(reference, source path)` pairs: the distinct
    /// references in first-occurrence order and every path in order, or `None` for no pair.
    pub fn coalesced(kind: ResourceKind, pairs: Vec<(String, String)>) -> (r: Option<Self>)
        ensures
            pairs.len() == 0 <==> r is None,
            r matches Some(rel) ==> rel@ == (RelationshipView {
                kind,
                references: first_occurrences(pairs@.map_values(|p: (String, String)| p.0@)),
                field_paths: pairs@.map_values(|p: (String, String)| p.1@),
            }),
    {
        let ghost refs = pairs@.map_values(|p: (String, String)| p.0@);
        let ghost paths = pairs@.map_values(|p: (String, String)| p.1@);
        let mut values: Vec<String> = Vec::new();
        let mut field_paths: Vec<String> = Vec::new();
        let mut i: usize = 0;
        while i < pairs.len()
            invariant
                i <= pairs.len(),
                refs == pairs@.map_values(|p: (String, String)| p.0@),
                paths == pairs@.map_values(|p: (String, String)| p.1@),
                texts(values@) == first_occurrences(refs.take(i as int)),
                texts(field_paths@) == paths.take(i as int),
            decreases pairs.len() - i,
        {
            let value = &pairs[i].0;
            let mut seen = false;
            let mut k: usize = 0;
            while k < values.len()
                invariant
                    k <= values.len(),
                    seen <==> exists|j: int| 0 <= j < k && values@[j]@ == value@,
                decreases values.len() - k,
            {
                if same_text(&values[k], value) {
                    seen = true;
                }
                k = k + 1;
            }
            proof {
                assert(refs.take(i + 1).drop_last() =~= refs.take(i as int));
                assert(refs.take(i + 1).last() == value@);
                assert(seen <==> texts(values@).contains(value@)) by {
                    if seen {
                        let j = choose|j: int| 0 <= j < values.len() && values@[j]@ == value@;
                        assert(texts(values@)[j] == value@);
                    }
                    if texts(values@).contains(value@) {
                        let j = choose|j: int| 0 <= j < texts(values@).len() && texts(values@)[j] == value@;
                        assert(values@[j]@ == value@);
                    }
                }
            }
            if !seen {
                values.push(value.clone());
                proof {
                    assert(texts(values@) =~= first_occurrences(refs.take(i + 1)));
                }
            }
            field_paths.push(pairs[i].1.clone());
            proof {
                assert(paths.take(i + 1) =~= paths.take(i as int).push(pairs@[i as int].1@));
                assert(texts(field_paths@) =~= paths.take(i + 1));
            }
            i = i + 1;
        }
        proof {
            assert(refs.take(i as int) =~= refs);
            assert(paths.take(i as int) =~= paths);
        }
        if values.len() == 0 {
            proof {
                if pairs.len() > 0 {
                    lemma_first_occurrences_nonempty(refs);
                }
            }
            None
        } else {
            Some(NativeRelationship { kind, references: values, field_paths })
        }
    }

    /// Returns the kind of the resource the references name.
    pub fn kind(&self) -> (r: ResourceKind)
        ensures
            r == self@.kind,
    {
        self.kind
    }

    /// Returns the native references, every one of which must select the same target.
    pub fn references(&self) -> (r: &[String])
        ensures
            texts(r@) == self@.references,
    {
        self.references.as_slice()
    }

    /// Returns every source location that asserted this relationship.
    pub fn field_paths(&self) -> (r: &[String])
        ensures
            texts(r@) == self@.field_paths,
    {
        self.field_paths.as_slice()
    }
}

proof fn lemma_first_occurrences_nonempty(values: Seq<Seq<char>>)
    requires
        values.len() > 0,
    ensures
        first_occurrences(values).len() > 0,
    decreases values.len(),
{
    let before = first_occurrences(values.drop_last());
    if before.contains(values.last()) {
        assert(before.len() > 0);
    }
}

impl Clone for NativeRelationship {
    fn clone(&self) -> (r: Self)
        ensures
            r@ == self@,
    {
        let references = duplicate_strings(&self.references);
        let field_paths = duplicate_strings(&self.field_paths);
        let r = NativeRelationship { kind: self.kind, references, field_paths };
        proof {
            assert(texts(r.references@) =~= texts(self.references@));
            assert(texts(r.field_paths@) =~= texts(self.field_paths@));
        }
        r
    }
}

/// The content of a label map: its entries in order.
pub type LabelsView = Seq<(Seq<char>, Seq<char>)>;

/// Whether `i` is the first position of `key` in `labels`.
pub open spec fn first_label_at(labels: LabelsView, key: Seq<char>, i: int) -> bool {
    &&& 0 <= i < labels.len()
    &&& labels[i].0 == key
    &&& forall|j: int| 0 <= j < i ==> (#[trigger] labels[j]).0 != key
}

/// The value that `labels` holds for `key`.
pub open spec fn label_value(labels: LabelsView, key: Seq<char>) -> Option<Seq<char>> {
    if exists|i: int| first_label_at(labels, key, i) {
        let i = choose|i: int| first_label_at(labels, key, i);
        Some(labels[i].1)
    } else {
        None
    }
}

proof fn lemma_first_label_unique(labels: LabelsView, key: Seq<char>, i: int, j: int)
    requires
        first_label_at(labels, key, i),
        first_label_at(labels, key, j),
    ensures
        i == j,
{
    if i < j {
        assert(labels[i].0 != key);
    }
    if j < i {
        assert(labels[j].0 != key);
    }
}

/// Observed resource labels: a map from label key to value.
#[derive(Debug)]
pub struct Labels {
    entries: Vec<(String, String)>,
}

impl View for Labels {
    type V = LabelsView;

    closed spec fn view(&self) -> LabelsView {
        self.entries@.map_values(|e: (String, String)| (e.0@, e.1@))
    }
}

impl Labels {
    pub(crate) fn from_entries(entries: Vec<(String, String)>) -> (r: Self)
        ensures
            r@ == entries@.map_values(|e: (String, String)| (e.0@, e.1@)),
    {
        Labels { entries }
    }

    /// An empty label map.
    pub fn new() -> (r: Self)
        ensures
            r@ == Seq::<(Seq<char>, Seq<char>)>::empty(),
            forall|k: Seq<char>| label_value(r@, k) is None,
    {
        let r = Labels { entries: Vec::new() };
        assert(r@ =~= Seq::<(Seq<char>, Seq<char>)>::empty());
        r
    }

    fn find(&self, key: &str) -> (r: Option<usize>)
        ensures
            match r {
                Some(i) => first_label_at(self@, key@, i as int),
                None => forall|j: int| 0 <= j < self@.len() ==> (#[trigger] self@[j]).0 != key@,
            },
    {
        let mut i: usize = 0;
        while i < self.entries.len()
            invariant
                i <= self.entries.len(),
                forall|j: int| 0 <= j < i ==> (#[trigger] self@[j]).0 != key@,
            decreases self.entries.len() - i,
        {
            if crate::text::str_eq(self.entries[i].0.as_str(), key) {
                return Some(i);
            }
            i = i + 1;
        }
        None
    }

    /// Sets the value of `key`, replacing an earlier value of the same key.
    pub fn insert(&mut self, key: String, value: String)
        ensures
            forall|k: Seq<char>|
                label_value(final(self)@, k) == if k == key@ {
                    Some(value@)
                } else {
                    label_value(old(self)@, k)
                },
    {
        let ghost before = self@;
        match self.find(key.as_str()) {
            Some(i) => {
                self.entries.set(i, (key, value));
                proof {
                    assert(self@ =~= before.update(i as int, (key@, value@)));
                    assert forall|k: Seq<char>|
                        label_value(self@, k) == if k == key@ {
                            Some(value@)
                        } else {
                            label_value(before, k)
                        } by {
                        lemma_label_update(before, i as int, key@, value@, k);
                    }
                }
            },
            None => {
                self.entries.push((key, value));
                proof {
                    assert(self@ =~= before.push((key@, value@)));
                    assert forall|k: Seq<char>|
                        label_value(self@, k) == if k == key@ {
                            Some(value@)
                        } else {
                            label_value(before, k)
                        } by {
                        lemma_label_push(before, key@, value@, k);
                    }
                }
            },
        }
    }

    /// Returns the value of `key`.
    pub fn get(&self, key: &str) -> (r: Option<&String>)
        ensures
            match r {
                Some(v) => label_value(self@, key@) == Some(v@),
                None => label_value(self@, key@) is None,
            },
    {
        match self.find(key) {
            Some(i) => {
                proof {
                    let c = choose|j: int| first_label_at(self@, key@, j);
                    lemma_first_label_unique(self@, key@, c, i as int);
                }
                Some(&self.entries[i].1)
            },
            None => None,
        }
    }
}

proof fn lemma_label_update(before: LabelsView, i: int, key: Seq<char>, value: Seq<char>, k: Seq<char>)
    requires
        first_label_at(before, key, i),
    ensures
        label_value(before.update(i, (key, value)), k) == if k == key {
            Some(value)
        } else {
            label_value(before, k)
        },
{
    let after = before.update(i, (key, value));
    if k == key {
        assert(first_label_at(after, k, i));
        let c = choose|j: int| first_label_at(after, k, j);
        lemma_first_label_unique(after, k, c, i);
    } else {
        assert forall|j: int| first_label_at(after, k, j) <==> first_label_at(before, k, j) by {
            if 0 <= j < before.len() {
                assert(after[j].0 == k <==> before[j].0 == k);
                assert((forall|m: int| 0 <= m < j ==> (#[trigger] after[m]).0 != k) <==> (forall|m: int|
                    0 <= m < j ==> (#[trigger] before[m]).0 != k)) by {
                    assert forall|m: int| 0 <= m < j implies (after[m].0 == k <==> before[m].0 == k) by {}
                }
            }
        }
        if exists|j: int| first_label_at(after, k, j) {
            let a = choose|j: int| first_label_at(after, k, j);
            let b = choose|j: int| first_label_at(before, k, j);
            lemma_first_label_unique(before, k, a, b);
        }
    }
}

proof fn lemma_label_push(before: LabelsView, key: Seq<char>, value: Seq<char>, k: Seq<char>)
    requires
        forall|j: int| 0 <= j < before.len() ==> (#[trigger] before[j]).0 != key,
    ensures
        label_value(before.push((key, value)), k) == if k == key {
            Some(value)
        } else {
            label_value(before, k)
        },
{
    let after = before.push((key, value));
    let n = before.len() as int;
    if k == key {
        assert(first_label_at(after, k, n));
        let c = choose|j: int| first_label_at(after, k, j);
        lemma_first_label_unique(after, k, c, n);
    } else {
        assert forall|j: int| first_label_at(after, k, j) <==> first_label_at(before, k, j) by {
            if 0 <= j < before.len() {
                assert(after[j] == before[j]);
                assert((forall|m: int| 0 <= m < j ==> (#[trigger] after[m]).0 != k) <==> (forall|m: int|
                    0 <= m < j ==> (#[trigger] before[m]).0 != k)) by {
                    assert forall|m: int| 0 <= m < j implies after[m] == before[m] by {}
                }
            }
            if j == n {
                assert(after[n].0 == key);
            }
        }
        if exists|j: int| first_label_at(after, k, j) {
            let a = choose|j: int| first_label_at(after, k, j);
            let b = choose|j: int| first_label_at(before, k, j);
            lemma_first_label_unique(before, k, a, b);
        }
    }
}

// ---------------------------------------------------------------------------------------------
// Environment, network options, and volume owners.
// ---------------------------------------------------------------------------------------------
/// A non-serializing opaque runtime environment value; it has no `Debug` output to leak.
pub struct SensitiveEnvironmentValue {
    value: String,
}

impl View for SensitiveEnvironmentValue {
    type V = Seq<char>;

    closed spec fn view(&self) -> Seq<char> {
        self.value@
    }
}

impl SensitiveEnvironmentValue {
    pub(crate) fn new(value: String) -> (r: Self)
        ensures
            r@ == value@,
    {
        SensitiveEnvironmentValue { value }
    }

    /// Lets an explicitly authorized caller use this value without formatting or serializing it.
    pub fn expose<R, F: FnOnce(&str) -> R>(&self, use_value: F) -> (r: R)
        requires
            forall|s: &str| s@ == self@ ==> use_value.requires((s,)),
        ensures
            exists|s: &str| s@ == self@ && use_value.ensures((s,), r),
    {
        let s = self.value.as_str();
        use_value(s)
    }
}

impl Clone for SensitiveEnvironmentValue {
    fn clone(&self) -> (r: Self)
        ensures
            r@ == self@,
    {
        SensitiveEnvironmentValue { value: self.value.clone() }
    }
}

/// Protected runtime environment value state.
#[non_exhaustive]
pub enum ProtectedEnvironmentValue {
    /// The source value is deliberately not retained.
    Redacted,
    /// An explicitly authorized opaque value.
    AuthorizedOpaque(SensitiveEnvironmentValue),
}

/// The retained value of an environment entry: `None` when it was redacted.
pub open spec fn env_value_view(v: ProtectedEnvironmentValue) -> Option<Seq<char>> {
    match v {
        ProtectedEnvironmentValue::Redacted => None,
        ProtectedEnvironmentValue::AuthorizedOpaque(s) => Some(s@),
    }
}

/// One protected runtime environment name/value-state pair.
pub struct ProtectedEnvironmentEntry {
    name: String,
    value: ProtectedEnvironmentValue,
}

impl View for ProtectedEnvironmentEntry {
    type V = (Seq<char>, Option<Seq<char>>);

    closed spec fn view(&self) -> (Seq<char>, Option<Seq<char>>) {
        (self.name@, env_value_view(self.value))
    }
}

impl ProtectedEnvironmentEntry {
    pub(crate) fn new(name: String, value: ProtectedEnvironmentValue) -> (r: Self)
        ensures
            r@ == (name@, env_value_view(value)),
    {
        ProtectedEnvironmentEntry { name, value }
    }

    /// Returns the variable name.
    pub fn name(&self) -> (r: &str)
        ensures
            r@ == self@.0,
    {
        self.name.as_str()
    }

    /// Returns the protected state, never a public deployment value.
    pub fn value(&self) -> (r: &ProtectedEnvironmentValue)
        ensures
            env_value_view(*r) == self@.1,
    {
        &self.value
    }
}

/// A protected runtime environment observation: names and value states in source order.
pub struct ProtectedEnvironment {
    entries: Vec<ProtectedEnvironmentEntry>,
}

impl View for ProtectedEnvironment {
    type V = Seq<(Seq<char>, Option<Seq<char>>)>;

    closed spec fn view(&self) -> Seq<(Seq<char>, Option<Seq<char>>)> {
        views(self.entries@)
    }
}

impl ProtectedEnvironment {
    pub(crate) fn new(entries: Vec<ProtectedEnvironmentEntry>) -> (r: Self)
        ensures
            r@ == views(entries@),
    {
        ProtectedEnvironment { entries }
    }

    /// Returns variable names and protected value states in source order.
    pub fn entries(&self) -> (r: &[ProtectedEnvironmentEntry])
        ensures
            views(r@) == self@,
    {
        self.entries.as_slice()
    }
}

/// The keys of observed network driver options, in order, without their values.
#[derive(Debug)]
pub struct NetworkOptionKeys {
    keys: Vec<String>,
}

impl View for NetworkOptionKeys {
    type V = Seq<Seq<char>>;

    closed spec fn view(&self) -> Seq<Seq<char>> {
        texts(self.keys@)
    }
}

impl NetworkOptionKeys {
    pub(crate) fn new(keys: Vec<String>) -> (r: Self)
        ensures
            r@ == texts(keys@),
    {
        NetworkOptionKeys { keys }
    }

    /// Returns the observed option keys in order.
    pub fn keys(&self) -> (r: &[String])
        ensures
            texts(r@) == self@,
    {
        self.keys.as_slice()
    }

    /// Returns the number of observed option keys.
    pub fn len(&self) -> (r: usize)
        ensures
            r == self@.len(),
    {
        self.keys.len()
    }

    /// Returns whether no option keys were observed.
    pub fn is_empty(&self) -> (r: bool)
        ensures
            r == (self@.len() == 0),
    {
        self.keys.len() == 0
    }
}

/// A Unix user or group identifier reported by Podman for a volume.
#[derive(Clone, Copy, Debug, Eq, PartialEq, Structural)]
pub struct UnixId {
    value: u32,
}

impl UnixId {
    pub closed spec fn spec_get(self) -> u32 {
        self.value
    }

    pub(crate) fn new(value: u32) -> (r: Self)
        ensures
            r.spec_get() == value,
    {
        UnixId { value }
    }

    /// Returns the literal value reported by Podman.
    pub fn get(self) -> (r: u32)
        ensures
            r == self.spec_get(),
    {
        self.value
    }
}

/// The native wire representation of a volume owner ID.
#[derive(Clone, Copy, Debug, Eq, PartialEq, Structural)]
pub enum VolumeOwnerIdWireValue {
    /// Podman's `omitempty` wire shape omitted the property, which may mean the default of zero.
    WireAbsentMayMeanZero,
    /// A concrete numeric value was present, including literal zero.
    Explicit(UnixId),
}

impl View for VolumeOwnerIdWireValue {
    type V = Option<u32>;

    /// `None` when the wire omitted the value, else the reported value.
    open spec fn view(&self) -> Option<u32> {
        match self {
            VolumeOwnerIdWireValue::WireAbsentMayMeanZero => None,
            VolumeOwnerIdWireValue::Explicit(id) => Some(id.spec_get()),
        }
    }
}

/// One observed resource, as discovery and reconciliation read it: its identity, labels, and
/// the kind-specific fields of its observation.
///
/// The relationship field exists for containers and pods, the alias field for images, the
/// environment for containers and images, the infra marker, the two image references, and the
/// memory swappiness for containers, the three network fields for networks, the two owner fields
/// for volumes, and the driver for secrets; each is `None` for other kinds.
pub struct ObservationRecord {
    /// The observed resource.
    pub identity: ResourceIdentity,
    /// Its labels.
    pub labels: ObservationField<Labels>,
    /// Its native relationships to other resources.
    pub relationships: Option<ObservationField<Vec<NativeRelationship>>>,
    /// The locally resolved aliases of an image.
    pub image_aliases: Option<ObservationField<Vec<String>>>,
    /// The protected runtime environment of a container or an image.
    pub environment: Option<ObservationField<ProtectedEnvironment>>,
    /// Whether a container is a pod's infra container.
    pub infra: Option<ObservationField<bool>>,
    /// The image a container was configured with.
    pub configured_image: Option<ObservationField<String>>,
    /// The local image ID a container runs.
    pub local_image_id: Option<ObservationField<String>>,
    /// The memory swappiness of a container.
    pub memory_swappiness: Option<ObservationField<u64>>,
    /// Whether a network is internal.
    pub network_internal: Option<ObservationField<bool>>,
    /// The driver option keys of a network.
    pub network_options: Option<ObservationField<NetworkOptionKeys>>,
    /// The subnets of a network.
    pub network_subnets: Option<ObservationField<Vec<String>>>,
    /// The owner user of a volume.
    pub volume_owner_user: Option<ObservationField<VolumeOwnerIdWireValue>>,
    /// The owner group of a volume.
    pub volume_owner_group: Option<ObservationField<VolumeOwnerIdWireValue>>,
    /// The driver of a secret.
    pub secret_driver: Option<ObservationField<String>>,
}

/// The field exists, and is `Absent`, exactly for the kinds `applies` holds of.
pub open spec fn absent_for<T>(f: Option<ObservationField<T>>, applies: bool) -> bool {
    f == if applies {
        Some(ObservationField::<T>::Absent)
    } else {
        None
    }
}

impl ObservationRecord {
    /// A record of `identity` whose other fields are all absent or not applicable to its kind.
    pub fn new(identity: ResourceIdentity) -> (r: Self)
        ensures
            r.identity@ == identity@,
            r.labels is Absent,
            ({
                let k = identity@.kind;
                let container = k == ResourceKind::Container;
                &&& absent_for(r.relationships, container || k == ResourceKind::Pod)
                &&& absent_for(r.image_aliases, k == ResourceKind::Image)
                &&& absent_for(r.environment, container || k == ResourceKind::Image)
                &&& absent_for(r.infra, container)
                &&& absent_for(r.configured_image, container)
                &&& absent_for(r.local_image_id, container)
                &&& absent_for(r.memory_swappiness, container)
                &&& absent_for(r.network_internal, k == ResourceKind::Network)
                &&& absent_for(r.network_options, k == ResourceKind::Network)
                &&& absent_for(r.network_subnets, k == ResourceKind::Network)
                &&& absent_for(r.volume_owner_user, k == ResourceKind::Volume)
                &&& absent_for(r.volume_owner_group, k == ResourceKind::Volume)
                &&& absent_for(r.secret_driver, k == ResourceKind::Secret)
            }),
    {
        let kind = identity.kind();
        let container = match kind {
            ResourceKind::Container => true,
            _ => false,
        };
        let pod = match kind {
            ResourceKind::Pod => true,
            _ => false,
        };
        let image = match kind {
            ResourceKind::Image => true,
            _ => false,
        };
        let network = match kind {
            ResourceKind::Network => true,
            _ => false,
        };
        let volume = match kind {
            ResourceKind::Volume => true,
            _ => false,
        };
        let secret = match kind {
            ResourceKind::Secret => true,
            _ => false,
        };
        ObservationRecord {
            identity,
            labels: ObservationField::Absent,
            relationships: absent_when(container || pod),
            image_aliases: absent_when(image),
            environment: absent_when(container || image),
            infra: absent_when(container),
            configured_image: absent_when(container),
            local_image_id: absent_when(container),
            memory_swappiness: absent_when(container),
            network_internal: absent_when(network),
            network_options: absent_when(network),
            network_subnets: absent_when(network),
            volume_owner_user: absent_when(volume),
            volume_owner_group: absent_when(volume),
            secret_driver: absent_when(secret),
        }
    }
}

/// `Some(Absent)` when the field applies, else `None`.
fn absent_when<T>(applies: bool) -> (r: Option<ObservationField<T>>)
    ensures
        absent_for(r, applies),
{
    if applies {
        Some(ObservationField::Absent)
    } else {
        None
    }
}

// ---------------------------------------------------------------------------------------------
// Unmodelled fields and observation states.
// ---------------------------------------------------------------------------------------------
/// `path` begins with `prefix`.
pub open spec fn starts_with(path: Seq<char>, prefix: Seq<char>) -> bool {
    path.len() >= prefix.len() && path.take(prefix.len() as int) == prefix
}

/// The stable semantic identifier of an unmodelled field of a `kind` resource at `path`.
pub open spec fn semantic_unmodelled_id(kind: ResourceKind, path: Seq<char>) -> UnmodelledFieldId {
    if kind == ResourceKind::Container && starts_with(path, "$.HostConfig"@) {
        UnmodelledFieldId::ContainerHostConfig
    } else if kind == ResourceKind::Container && starts_with(path, "$.Config.Secrets"@) {
        UnmodelledFieldId::ContainerSecretGrant
    } else if kind == ResourceKind::Container && starts_with(path, "$.Config"@) {
        UnmodelledFieldId::ContainerConfig
    } else if kind == ResourceKind::Container && starts_with(path, "$.NetworkSettings"@) {
        UnmodelledFieldId::ContainerNetworkSettings
    } else if kind == ResourceKind::Container && starts_with(path, "$.Mounts"@) {
        UnmodelledFieldId::ContainerMount
    } else if kind == ResourceKind::Pod && starts_with(path, "$.Containers"@) {
        UnmodelledFieldId::PodMember
    } else if kind == ResourceKind::Pod && starts_with(path, "$.InfraConfig"@) {
        UnmodelledFieldId::PodInfraConfig
    } else if kind == ResourceKind::Network && starts_with(path, "$.subnets"@) {
        UnmodelledFieldId::NetworkSubnet
    } else if kind == ResourceKind::Network && starts_with(path, "$.routes"@) {
        UnmodelledFieldId::NetworkRoute
    } else if kind == ResourceKind::Image && starts_with(path, "$.Config"@) {
        UnmodelledFieldId::ImageConfig
    } else if kind == ResourceKind::Secret && starts_with(path, "$.Spec"@) {
        UnmodelledFieldId::SecretSpec
    } else {
        match kind {
            ResourceKind::Container => UnmodelledFieldId::ContainerTopLevel,
            ResourceKind::Pod => UnmodelledFieldId::PodTopLevel,
            ResourceKind::Network => UnmodelledFieldId::NetworkTopLevel,
            ResourceKind::Volume => UnmodelledFieldId::VolumeTopLevel,
            ResourceKind::Image => UnmodelledFieldId::ImageTopLevel,
            ResourceKind::Secret => UnmodelledFieldId::SecretTopLevel,
        }
    }
}

pub(crate) fn has_prefix(path: &str, prefix: &str) -> (r: bool)
    ensures
        r == starts_with(path@, prefix@),
{
    let p = crate::text::to_chars(path);
    let q = crate::text::to_chars(prefix);
    if p.len() < q.len() {
        return false;
    }
    let head = crate::text::slice_chars(&p, 0, q.len());
    assert(head@ =~= p@.take(q@.len() as int));
    crate::text::chars_eq(&head, &q)
}

fn semantic_id_of(kind: ResourceKind, path: &str) -> (r: UnmodelledFieldId)
    ensures
        r == semantic_unmodelled_id(kind, path@),
{
    let container = kind == ResourceKind::Container;
    if container && has_prefix(path, "$.HostConfig") {
        UnmodelledFieldId::ContainerHostConfig
    } else if container && has_prefix(path, "$.Config.Secrets") {
        UnmodelledFieldId::ContainerSecretGrant
    } else if container && has_prefix(path, "$.Config") {
        UnmodelledFieldId::ContainerConfig
    } else if container && has_prefix(path, "$.NetworkSettings") {
        UnmodelledFieldId::ContainerNetworkSettings
    } else if container && has_prefix(path, "$.Mounts") {
        UnmodelledFieldId::ContainerMount
    } else if kind == ResourceKind::Pod && has_prefix(path, "$.Containers") {
        UnmodelledFieldId::PodMember
    } else if kind == ResourceKind::Pod && has_prefix(path, "$.InfraConfig") {
        UnmodelledFieldId::PodInfraConfig
    } else if kind == ResourceKind::Network && has_prefix(path, "$.subnets") {
        UnmodelledFieldId::NetworkSubnet
    } else if kind == ResourceKind::Network && has_prefix(path, "$.routes") {
        UnmodelledFieldId::NetworkRoute
    } else if kind == ResourceKind::Image && has_prefix(path, "$.Config") {
        UnmodelledFieldId::ImageConfig
    } else if kind == ResourceKind::Secret && has_prefix(path, "$.Spec") {
        UnmodelledFieldId::SecretSpec
    } else {
        match kind {
            ResourceKind::Container => UnmodelledFieldId::ContainerTopLevel,
            ResourceKind::Pod => UnmodelledFieldId::PodTopLevel,
            ResourceKind::Network => UnmodelledFieldId::NetworkTopLevel,
            ResourceKind::Volume => UnmodelledFieldId::VolumeTopLevel,
            ResourceKind::Image => UnmodelledFieldId::ImageTopLevel,
            ResourceKind::Secret => UnmodelledFieldId::SecretTopLevel,
        }
    }
}

/// The content of one unmodelled field.
pub struct UnmodelledFieldView {
    pub id: UnmodelledFieldId,
    pub path: Seq<char>,
    pub json_kind: JsonValueKind,
    pub resource: IdentityView,
}

/// Bounded, redacted metadata for one native field that remains unmodelled: its path and JSON
/// kind, never its value.
#[derive(Debug)]
pub struct UnmodelledField {
    id: UnmodelledFieldId,
    path: String,
    json_kind: JsonValueKind,
    resource: ResourceIdentity,
}

impl View for UnmodelledField {
    type V = UnmodelledFieldView;

    closed spec fn view(&self) -> UnmodelledFieldView {
        UnmodelledFieldView { id: self.id, path: self.path@, json_kind: self.json_kind, resource: self.resource@ }
    }
}

impl UnmodelledField {
    pub(crate) fn new(path: String, json_kind: JsonValueKind, resource: ResourceIdentity) -> (r: Self)
        ensures
            r@ == (UnmodelledFieldView {
                id: semantic_unmodelled_id(resource@.kind, path@),
                path: path@,
                json_kind,
                resource: resource@,
            }),
    {
        let id = semantic_id_of(resource.kind(), path.as_str());
        UnmodelledField { id, path, json_kind, resource }
    }

    /// Returns the stable semantic ID, never a raw native value.
    pub fn id(&self) -> (r: &UnmodelledFieldId)
        ensures
            *r == self@.id,
    {
        &self.id
    }

    /// Returns the observed JSON path.
    pub fn path(&self) -> (r: &str)
        ensures
            r@ == self@.path,
    {
        self.path.as_str()
    }

    /// Returns the observed JSON value kind.
    pub fn json_kind(&self) -> (r: JsonValueKind)
        ensures
            r == self@.json_kind,
    {
        self.json_kind
    }

    /// Returns the carrying resource identity.
    pub fn resource(&self) -> (r: &ResourceIdentity)
        ensures
            r@ == self@.resource,
    {
        &self.resource
    }
}

/// Completeness state for bounded unmodelled metadata.
#[derive(Clone, Copy, Debug, Eq, PartialEq, Structural)]
pub enum UnmodelledCompleteness {
    /// All direct unmodelled fields were retained within configured bounds.
    Complete,
    /// The observation is partial or the retention budget overflowed.
    Incomplete,
}

/// Acquisition state of one resource observation.
#[derive(Clone, Copy, Debug, Eq, PartialEq, Structural)]
#[non_exhaustive]
pub enum ResourceObservationState {
    /// The inspected response decoded according to the current native contract.
    Complete,
    /// The resource could not be acquired during the non-atomic inventory read.
    Unavailable,
    /// The resource inspect response was malformed or contradicted the list identity.
    Malformed,
}

} // verus!
