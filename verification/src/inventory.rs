//! Resource kinds and the acquisition controls of a native inventory.

use vstd::prelude::*;

verus! {

/// Maximum JSON body accepted by the inventory decoder after transport framing limits apply.
pub const MAX_INVENTORY_JSON_BYTES: usize = 16777216;

/// Maximum unknown native fields retained for one resource record.
pub const MAX_UNKNOWN_FIELDS_PER_RECORD: usize = 128;

/// Maximum unknown native fields retained across one inventory response.
pub const MAX_UNKNOWN_FIELDS_PER_INVENTORY: usize = 2048;

/// Controls how runtime environment values are retained after an explicit read-only inspection.
#[derive(Clone, Copy, Debug, Eq, PartialEq, Structural)]
#[non_exhaustive]
pub enum EnvironmentValuePolicy {
    /// Retain environment names and source order while replacing every value with a marker.
    Redact,
    /// Retain values behind an opaque non-serializing wrapper.
    Include,
}

/// Explicit controls for one native inventory acquisition.
#[derive(Clone, Copy, Debug, Eq, PartialEq, Structural)]
pub struct AcquisitionOptions {
    environment_values: EnvironmentValuePolicy,
}

impl AcquisitionOptions {
    /// Uses the default policy that redacts runtime environment values.
    pub fn redacted() -> (r: Self)
        ensures
            r.spec_policy() == EnvironmentValuePolicy::Redact,
    {
        AcquisitionOptions { environment_values: EnvironmentValuePolicy::Redact }
    }

    /// Explicitly authorizes retaining runtime environment values in opaque sensitive wrappers.
    pub fn include_environment_values() -> (r: Self)
        ensures
            r.spec_policy() == EnvironmentValuePolicy::Include,
    {
        AcquisitionOptions { environment_values: EnvironmentValuePolicy::Include }
    }

    pub closed spec fn spec_policy(self) -> EnvironmentValuePolicy {
        self.environment_values
    }

    /// Returns the selected environment-value policy.
    pub fn environment_value_policy(self) -> (r: EnvironmentValuePolicy)
        ensures
            r == self.spec_policy(),
    {
        self.environment_values
    }
}

impl Default for AcquisitionOptions {
    fn default() -> (r: Self)
        ensures
            r.spec_policy() == EnvironmentValuePolicy::Redact,
    {
        AcquisitionOptions::redacted()
    }
}

/// A Podman resource kind available from the Libpod inventory API.
///
/// The declaration order is the canonical order: container, pod, network, volume, image, then
/// secret, so the derived ordering is the canonical one.
#[derive(Clone, Copy, Debug, Eq, PartialEq, Hash, PartialOrd, Ord, Structural)]
#[non_exhaustive]
pub enum ResourceKind {
    /// A container.
    Container,
    /// A pod.
    Pod,
    /// A network.
    Network,
    /// A named volume.
    Volume,
    /// An image.
    Image,
    /// Secret metadata.
    Secret,
}

/// The canonical rank of each kind in inventories, identities, and resource groups.
pub open spec fn kind_rank(kind: ResourceKind) -> nat {
    match kind {
        ResourceKind::Container => 0,
        ResourceKind::Pod => 1,
        ResourceKind::Network => 2,
        ResourceKind::Volume => 3,
        ResourceKind::Image => 4,
        ResourceKind::Secret => 5,
    }
}

/// The Libpod collection name of each kind.
pub open spec fn kind_collection(kind: ResourceKind) -> Seq<char> {
    match kind {
        ResourceKind::Container => "containers"@,
        ResourceKind::Pod => "pods"@,
        ResourceKind::Network => "networks"@,
        ResourceKind::Volume => "volumes"@,
        ResourceKind::Image => "images"@,
        ResourceKind::Secret => "secrets"@,
    }
}

impl ResourceKind {
    /// Returns this kind's fixed canonical order in inventories, identities, and resource groups.
    pub fn canonical_rank(self) -> (r: u8)
        ensures
            r == kind_rank(self),
    {
        match self {
            ResourceKind::Container => 0,
            ResourceKind::Pod => 1,
            ResourceKind::Network => 2,
            ResourceKind::Volume => 3,
            ResourceKind::Image => 4,
            ResourceKind::Secret => 5,
        }
    }

    /// Returns every kind in canonical order.
    pub fn all() -> (r: Vec<ResourceKind>)
        ensures
            r@ == seq![
                ResourceKind::Container,
                ResourceKind::Pod,
                ResourceKind::Network,
                ResourceKind::Volume,
                ResourceKind::Image,
                ResourceKind::Secret,
            ],
            forall|i: int, j: int| 0 <= i < j < r@.len() ==> kind_rank(#[trigger] r@[i]) < kind_rank(#[trigger] r@[j]),
    {
        let r = vec![
            ResourceKind::Container,
            ResourceKind::Pod,
            ResourceKind::Network,
            ResourceKind::Volume,
            ResourceKind::Image,
            ResourceKind::Secret,
        ];
        assert(r@ =~= seq![
            ResourceKind::Container,
            ResourceKind::Pod,
            ResourceKind::Network,
            ResourceKind::Volume,
            ResourceKind::Image,
            ResourceKind::Secret,
        ]);
        r
    }

    /// Returns the Libpod collection name of this kind.
    pub fn collection(self) -> (r: &'static str)
        ensures
            r@ == kind_collection(self),
    {
        match self {
            ResourceKind::Container => "containers",
            ResourceKind::Pod => "pods",
            ResourceKind::Network => "networks",
            ResourceKind::Volume => "volumes",
            ResourceKind::Image => "images",
            ResourceKind::Secret => "secrets",
        }
    }
}

/// Distinct kinds have distinct ranks.
pub proof fn lemma_kind_rank_injective(a: ResourceKind, b: ResourceKind)
    ensures
        kind_rank(a) == kind_rank(b) <==> a == b,
{
}

/// The JSON kind of an observed native value.
#[derive(Clone, Copy, Debug, Eq, PartialEq, Structural)]
pub enum JsonValueKind {
    /// `null`.
    Null,
    /// A JSON boolean.
    Boolean,
    /// A JSON number.
    Number,
    /// A JSON string.
    String,
    /// A JSON array.
    Array,
    /// A JSON object.
    Object,
}

} // verus!
