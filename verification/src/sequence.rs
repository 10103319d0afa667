//! The order of an acquisition's requests, as a state machine: the caller performs each `GET`
//! the machine asks for and hands back what came of it, and the machine decides what follows.
//!
//! The machine asks for the ping, then the version probe, then one list request per resource
//! kind in canonical order, then one inspect request per listed identity in list order. It stops
//! at the first probe failure and never asks for a request twice.

use vstd::prelude::*;

use crate::acquisition::{
    inspect_path, inspect_path_text, list_path, list_path_text, reconciled_sections, record_limit_of, InventorySection,
    InventorySectionAvailability, ResourceInventory, UnknownFieldBudget,
};
use crate::decode::{decode_list, inspect_observation, inspected, list_decoded, ListedSection, ResourceObservation};
use crate::diagnostic::{Diagnostic, DiagnosticCode, PodmanLensResult};
use crate::inventory::{AcquisitionOptions, ResourceKind};
use crate::observation::IdentityView;
use crate::once::views;
use crate::probe::{
    body_engine_version, engine_version, json_content_type, ping_api_version, ping_api_version_ok, require_json_content_type,
    require_ok_status, version_probe_path, version_probe_path_text,
};
use crate::reconcile::section_finding;
use crate::transport::{header_values, HeaderView, LibpodResponse};
use crate::once::Duplicate;
use crate::version::{
    reported_version, semver_parse, supported_target, ObservedApiVersion, ObservedPodmanVersion, TargetProfile, TargetProfileView,
    VersionView,
};

verus! {

/// The path of the liveness ping that opens every acquisition.
pub open spec fn ping_path() -> Seq<char> {
    "/libpod/_ping"@
}

/// The resource kinds in canonical order.
pub open spec fn canonical_kinds() -> Seq<ResourceKind> {
    seq![
        ResourceKind::Container,
        ResourceKind::Pod,
        ResourceKind::Network,
        ResourceKind::Volume,
        ResourceKind::Image,
        ResourceKind::Secret,
    ]
}

/// The two probe requests: the ping, then the version probe its API version selects.
pub open spec fn probe_requests(api: VersionView) -> Seq<Seq<char>> {
    seq![ping_path(), version_probe_path_text(api)]
}

/// One list request per kind, in canonical order.
pub open spec fn list_requests(api: VersionView) -> Seq<Seq<char>> {
    Seq::new(6, |k: int| list_path_text(api, canonical_kinds()[k]))
}

/// The inspect requests of one listing, in list order.
pub open spec fn section_requests(api: VersionView, ids: Seq<IdentityView>) -> Seq<Seq<char>> {
    ids.map_values(|id: IdentityView| inspect_path_text(api, id))
}

/// The inspect requests of every successful listing (`Some` of its identities), kind by kind.
pub open spec fn inspect_requests(api: VersionView, listed: Seq<Option<Seq<IdentityView>>>) -> Seq<Seq<char>>
    decreases listed.len(),
{
    if listed.len() == 0 {
        Seq::empty()
    } else {
        inspect_requests(api, listed.drop_last()) + match listed.last() {
            Some(ids) => section_requests(api, ids),
            None => Seq::empty(),
        }
    }
}

/// Every request of an acquisition whose service reports `api` and whose listings gave
/// `listed`, in the order they are sent.
pub open spec fn acquisition_requests(api: VersionView, listed: Seq<Option<Seq<IdentityView>>>) -> Seq<Seq<char>> {
    probe_requests(api) + list_requests(api) + inspect_requests(api, listed)
}

/// Where an acquisition stands.
#[derive(Clone, Copy, Debug, PartialEq, Eq, Structural)]
pub enum AcquisitionStage {
    /// The ping is outstanding.
    Ping,
    /// The version probe is outstanding.
    Version,
    /// A list request is outstanding.
    Listing,
    /// An inspect request is outstanding.
    Inspecting,
    /// Every request has been answered and the inventory is assembled.
    Finished,
    /// The probe failed with this rule; nothing more is requested.
    Failed(DiagnosticCode),
}

/// What the caller does next.
#[derive(Debug)]
pub enum AcquisitionAction {
    /// Send one bodyless `GET` of this path and hand back the outcome.
    Get(String),
    /// The acquisition is complete.
    Finish,
    /// The probe failed; the acquisition stops with this diagnostic.
    Fail(Diagnostic),
}

/// The content of an action.
pub enum ActionView {
    Get(Seq<char>),
    Finish,
    Fail(DiagnosticCode),
}

impl View for AcquisitionAction {
    type V = ActionView;

    closed spec fn view(&self) -> ActionView {
        match self {
            AcquisitionAction::Get(p) => ActionView::Get(p@),
            AcquisitionAction::Finish => ActionView::Finish,
            AcquisitionAction::Fail(d) => ActionView::Fail(d@),
        }
    }
}

/// What came of one request.
pub enum AcquisitionEvent {
    /// The service answered.
    Response(LibpodResponse),
    /// The transport failed before an answer arrived.
    TransportFailed(Diagnostic),
}

/// The content of a service observation: the reported engine and API versions, and the
/// deployment target they form when it is a reviewed one.
pub struct ServiceObservationView {
    pub engine: VersionView,
    pub api: VersionView,
    pub output_target_profile: Option<TargetProfileView>,
}

/// The reported versions of a probed Libpod service.
pub struct ServiceObservation {
    engine_version: ObservedPodmanVersion,
    api_version: ObservedApiVersion,
    output_target_profile: Option<TargetProfile>,
}

impl View for ServiceObservation {
    type V = ServiceObservationView;

    closed spec fn view(&self) -> ServiceObservationView {
        ServiceObservationView {
            engine: self.engine_version@,
            api: self.api_version@,
            output_target_profile: match self.output_target_profile {
                Some(t) => Some(t@),
                None => None,
            },
        }
    }
}

/// The observation of a service that reported `engine` and `api`: the target profile they form
/// exactly when they are a reviewed deployment target.
pub open spec fn service_observed(engine: VersionView, api: VersionView, s: ServiceObservationView) -> bool {
    &&& s.engine == engine
    &&& s.api == api
    &&& s.output_target_profile == if supported_target(engine.parts, api.parts) {
        Some(TargetProfileView { podman: engine, api, execution_context: None })
    } else {
        None
    }
}

impl ServiceObservation {
    /// Returns the reported Podman Engine version.
    pub fn engine_version(&self) -> (r: &ObservedPodmanVersion)
        ensures
            r@ == self@.engine,
    {
        &self.engine_version
    }

    /// Returns the API version from the `Libpod-API-Version` ping header.
    pub fn api_version(&self) -> (r: &ObservedApiVersion)
        ensures
            r@ == self@.api,
    {
        &self.api_version
    }

    /// Returns a reviewed output profile when the observed runtime is a supported target.
    pub fn output_target_profile(&self) -> (r: Option<&TargetProfile>)
        ensures
            match (r, self@.output_target_profile) {
                (Some(t), Some(v)) => t@ == v,
                (None, None) => true,
                _ => false,
            },
    {
        self.output_target_profile.as_ref()
    }
}

/// What an acquisition has done so far: its options and stage, the versions the probe reported,
/// what each finished list request gave, every observation in request order, the budget of
/// unknown fields left, the outstanding inspect position, the sections handed to the inventory
/// once finished, and every request sent.
pub struct AcquisitionStateView {
    pub options: AcquisitionOptions,
    pub stage: AcquisitionStage,
    pub api: Option<VersionView>,
    pub engine: Option<VersionView>,
    pub listings: Seq<PodmanLensResult<ListedSection>>,
    pub observations: Seq<ResourceObservation>,
    pub remaining: nat,
    pub kind: nat,
    pub item: nat,
    pub sections: Seq<InventorySection>,
    pub issued: Seq<Seq<char>>,
}

/// A read-only inventory acquisition in progress.
pub struct AcquisitionState {
    options: AcquisitionOptions,
    stage: AcquisitionStage,
    api: Option<ObservedApiVersion>,
    engine: Option<ObservedPodmanVersion>,
    listed: Vec<PodmanLensResult<ListedSection>>,
    done: Vec<Vec<ResourceObservation>>,
    current: Vec<ResourceObservation>,
    kind: usize,
    item: usize,
    budget: UnknownFieldBudget,
    inventory: Option<ResourceInventory>,
    listings: Ghost<Seq<PodmanLensResult<ListedSection>>>,
    observations: Ghost<Seq<ResourceObservation>>,
    sections: Ghost<Seq<InventorySection>>,
    issued: Ghost<Seq<Seq<char>>>,
}

/// What one listing outcome gives the request order: its identities, or nothing.
pub open spec fn listing_view(l: PodmanLensResult<ListedSection>) -> Option<Seq<IdentityView>> {
    match l {
        Ok(s) => Some(s.spec_identities()),
        Err(_) => None,
    }
}

pub open spec fn listing_views(ls: Seq<PodmanLensResult<ListedSection>>) -> Seq<Option<Seq<IdentityView>>> {
    ls.map_values(|l: PodmanLensResult<ListedSection>| listing_view(l))
}

/// How many identities a listing outcome gives to inspect.
pub open spec fn listing_width(l: PodmanLensResult<ListedSection>) -> nat {
    match l {
        Ok(s) => s.spec_identities().len(),
        Err(_) => 0,
    }
}

/// How many identities the listings give to inspect, all told.
pub open spec fn listed_count(ls: Seq<PodmanLensResult<ListedSection>>) -> nat
    decreases ls.len(),
{
    if ls.len() == 0 {
        0
    } else {
        listed_count(ls.drop_last()) + listing_width(ls.last())
    }
}

/// Where the observations of listing `k` begin among all observations.
pub open spec fn observation_offset(ls: Seq<PodmanLensResult<ListedSection>>, k: int) -> nat {
    listed_count(ls.take(k))
}

/// The observations of listing `k`.
pub open spec fn observations_of(ls: Seq<PodmanLensResult<ListedSection>>, obs: Seq<ResourceObservation>, k: int) -> Seq<
    ResourceObservation,
> {
    obs.subrange(observation_offset(ls, k) as int, observation_offset(ls, k + 1) as int)
}

/// The section of `kind` built from its listing outcome and the observations of its
/// identities: available with the listing's findings, or the section of the failure's code.
pub open spec fn section_acquired(
    kind: ResourceKind,
    listing: PodmanLensResult<ListedSection>,
    obs: Seq<ResourceObservation>,
    section: InventorySection,
) -> bool {
    &&& section.spec_kind() == kind
    &&& match listing {
        Ok(l) => {
            &&& section.spec_availability() == InventorySectionAvailability::Available
            &&& section.spec_observations() == obs
            &&& section.spec_findings() == l.spec_findings()
        },
        Err(e) => {
            &&& section.spec_availability() == if e@ == DiagnosticCode::InventoryJson || e@
                == DiagnosticCode::InventoryShape {
                InventorySectionAvailability::Malformed
            } else {
                InventorySectionAvailability::Unavailable
            }
            &&& section.spec_observations() == Seq::<ResourceObservation>::empty()
            &&& section.spec_findings() == seq![section_finding(e@)]
        },
    }
}

/// The six sections, kind by kind in canonical order, each built from its listing and the
/// observations of its identities.
pub open spec fn sections_acquired(
    ls: Seq<PodmanLensResult<ListedSection>>,
    obs: Seq<ResourceObservation>,
    sections: Seq<InventorySection>,
) -> bool {
    &&& ls.len() == 6
    &&& sections.len() == 6
    &&& obs.len() == listed_count(ls)
    &&& forall|k: int|
        0 <= k < 6 ==> section_acquired(canonical_kinds()[k], ls[k], observations_of(ls, obs, k), #[trigger] sections[k])
}

/// The inspect requests of listing `k` already sent when `i` of them are answered or pending.
pub open spec fn pending_requests(api: VersionView, listed: Seq<Option<Seq<IdentityView>>>, k: int, i: int) -> Seq<Seq<char>> {
    if 0 <= k < listed.len() {
        match listed[k] {
            Some(ids) => section_requests(api, ids.take(i)),
            None => Seq::empty(),
        }
    } else {
        Seq::empty()
    }
}

/// Every request sent once listing `k` has `i` of its inspect requests sent.
pub open spec fn requests_through(api: VersionView, listed: Seq<Option<Seq<IdentityView>>>, k: int, i: int) -> Seq<Seq<char>> {
    probe_requests(api) + list_requests(api) + inspect_requests(api, listed.take(k)) + pending_requests(api, listed, k, i)
}

impl View for AcquisitionState {
    type V = AcquisitionStateView;

    closed spec fn view(&self) -> AcquisitionStateView {
        AcquisitionStateView {
            options: self.options,
            stage: self.stage,
            api: match self.api {
                Some(a) => Some(a@),
                None => None,
            },
            engine: match self.engine {
                Some(e) => Some(e@),
                None => None,
            },
            listings: self.listings@,
            observations: self.observations@,
            remaining: self.budget.spec_remaining() as nat,
            kind: self.kind as nat,
            item: self.item as nat,
            sections: self.sections@,
            issued: self.issued@,
        }
    }
}

/// The requests sent so far are exactly the prefix of the order that the stage has reached.
pub open spec fn sequence_ok(s: AcquisitionStateView) -> bool {
    let listed = listing_views(s.listings);
    match s.stage {
        AcquisitionStage::Ping => s.issued == seq![ping_path()],
        AcquisitionStage::Version => match s.api {
            Some(a) => s.issued == probe_requests(a),
            None => false,
        },
        AcquisitionStage::Listing => match s.api {
            Some(a) => listed.len() < 6 && s.issued == probe_requests(a) + list_requests(a).take(listed.len() as int + 1),
            None => false,
        },
        AcquisitionStage::Inspecting => match s.api {
            Some(a) => listed.len() == 6 && s.kind < 6 && match listed[s.kind as int] {
                Some(ids) => s.item < ids.len() && s.issued == requests_through(a, listed, s.kind as int, s.item as int + 1),
                None => false,
            },
            None => false,
        },
        AcquisitionStage::Finished => match s.api {
            Some(a) => listed.len() == 6 && s.issued == acquisition_requests(a, listed),
            None => false,
        },
        AcquisitionStage::Failed(_) => s.issued == seq![ping_path()] || match s.api {
            Some(a) => s.issued == probe_requests(a),
            None => false,
        },
    }
}

/// The state after a probe failure with `code`, and the action that reports it.
pub open spec fn failed_with(before: AcquisitionStateView, after: AcquisitionStateView, action: ActionView, code: DiagnosticCode) -> bool {
    &&& action == ActionView::Fail(code)
    &&& after == AcquisitionStateView { stage: AcquisitionStage::Failed(code), ..before }
}

/// `a` is the API version of the one `Libpod-API-Version` header among `headers`.
pub open spec fn header_api_version(headers: Seq<HeaderView>, a: VersionView) -> bool {
    let text = header_values(headers, "libpod-api-version"@)[0];
    a.text == text && Some(a.parts) == semver_parse(text)
}

/// What the machine makes of the ping's outcome: a transport failure, a status other than
/// `200` (`PLN0007`) or a missing or unparsable API version header (`PLN0008`) fails the probe;
/// otherwise the header's version is kept and the version probe it selects is sent.
pub open spec fn ping_answered(event: AcquisitionEvent, before: AcquisitionStateView, after: AcquisitionStateView, action: ActionView) -> bool {
    match event {
        AcquisitionEvent::TransportFailed(d) => failed_with(before, after, action, d@),
        AcquisitionEvent::Response(x) => if x.spec_status() != 200 {
            failed_with(before, after, action, DiagnosticCode::ProbeHttpStatus)
        } else if !ping_api_version_ok(x.spec_headers()) {
            failed_with(before, after, action, DiagnosticCode::ProbeHeader)
        } else {
            after.api matches Some(a) && {
                &&& header_api_version(x.spec_headers(), a)
                &&& action == ActionView::Get(version_probe_path_text(a))
                &&& after == AcquisitionStateView {
                    stage: AcquisitionStage::Version,
                    api: Some(a),
                    issued: before.issued.push(version_probe_path_text(a)),
                    ..before
                }
            }
        },
    }
}

/// What the machine makes of the version probe's outcome: a transport failure, a status other
/// than `200`, a body that is not JSON by its content type, or a body without one engine
/// version fails the probe with its code; otherwise the engine version is kept and the first
/// list request is sent.
pub open spec fn version_answered(event: AcquisitionEvent, before: AcquisitionStateView, after: AcquisitionStateView, action: ActionView) -> bool {
    match event {
        AcquisitionEvent::TransportFailed(d) => failed_with(before, after, action, d@),
        AcquisitionEvent::Response(x) => if x.spec_status() != 200 {
            failed_with(before, after, action, DiagnosticCode::ProbeHttpStatus)
        } else if !json_content_type(x.spec_headers()) {
            failed_with(before, after, action, DiagnosticCode::ProbeHeader)
        } else {
            match body_engine_version(x.spec_body()) {
                Err(code) => failed_with(before, after, action, code),
                Ok(t) => if !reported_version(t) {
                    failed_with(before, after, action, DiagnosticCode::ProbeComponent)
                } else {
                    before.api matches Some(a) && after.engine matches Some(e) && {
                        &&& e.text == t
                        &&& Some(e.parts) == semver_parse(t)
                        &&& action == ActionView::Get(list_path_text(a, ResourceKind::Container))
                        &&& after == AcquisitionStateView {
                            stage: AcquisitionStage::Listing,
                            engine: Some(e),
                            issued: before.issued.push(list_path_text(a, ResourceKind::Container)),
                            ..before
                        }
                    }
                },
            }
        },
    }
}

/// What the machine makes of a list request's outcome: the listing of the next kind is the
/// decoded answer, or the transport's failure; the next list request follows, or, after the
/// last kind, the first inspect request or the assembled inventory.
pub open spec fn listing_answered(event: AcquisitionEvent, before: AcquisitionStateView, after: AcquisitionStateView, action: ActionView) -> bool {
    let n = before.listings.len() as int;
    &&& after.listings.len() == n + 1
    &&& after.listings.take(n) == before.listings
    &&& match event {
        AcquisitionEvent::Response(x) => list_decoded(canonical_kinds()[n], x, after.listings[n]),
        AcquisitionEvent::TransportFailed(d) => after.listings[n] == Err::<ListedSection, Diagnostic>(d),
    }
    &&& after.options == before.options
    &&& after.api == before.api
    &&& after.engine == before.engine
    &&& after.observations == before.observations
    &&& after.remaining == before.remaining
    &&& n + 1 < 6 ==> (before.api matches Some(a) && action == ActionView::Get(list_path_text(a, canonical_kinds()[n + 1]))
        && after.stage == AcquisitionStage::Listing)
}

/// What the machine makes of an inspect request's outcome: the next observation is the
/// inspected record of the outstanding identity, under the limit the budget left, and the
/// budget pays for what it retained; the next inspect request or the inventory follows.
pub open spec fn inspection_answered(event: AcquisitionEvent, before: AcquisitionStateView, after: AcquisitionStateView) -> bool {
    let n = before.observations.len() as int;
    let response = match event {
        AcquisitionEvent::Response(x) => Some(x),
        AcquisitionEvent::TransportFailed(_) => None,
    };
    &&& after.observations.len() == n + 1
    &&& after.observations.take(n) == before.observations
    &&& listing_view(before.listings[before.kind as int]) matches Some(ids) && before.api matches Some(a) && inspected(
        ids[before.item as int],
        response,
        before.options,
        a.text,
        record_limit_of(before.remaining),
        after.observations[n],
    )
    &&& after.remaining == if before.remaining >= after.observations[n].spec_unmodelled().len() {
        (before.remaining - after.observations[n].spec_unmodelled().len()) as nat
    } else {
        0
    }
    &&& after.options == before.options
    &&& after.api == before.api
    &&& after.engine == before.engine
    &&& after.listings == before.listings
}

proof fn lemma_inspect_requests_step(api: VersionView, listed: Seq<Option<Seq<IdentityView>>>, k: int)
    requires
        0 <= k < listed.len(),
    ensures
        inspect_requests(api, listed.take(k + 1)) == inspect_requests(api, listed.take(k)) + match listed[k] {
            Some(ids) => section_requests(api, ids),
            None => Seq::empty(),
        },
{
    assert(listed.take(k + 1).drop_last() =~= listed.take(k));
}

proof fn lemma_section_requests_take(api: VersionView, ids: Seq<IdentityView>, i: int)
    requires
        0 <= i < ids.len(),
    ensures
        section_requests(api, ids.take(i + 1)) == section_requests(api, ids.take(i)).push(inspect_path_text(api, ids[i])),
{
    assert(section_requests(api, ids.take(i + 1)) =~= section_requests(api, ids.take(i)).push(inspect_path_text(api, ids[i])));
}

proof fn lemma_offset_step(ls: Seq<PodmanLensResult<ListedSection>>, k: int)
    requires
        0 <= k < ls.len(),
    ensures
        observation_offset(ls, k + 1) == observation_offset(ls, k) + listing_width(ls[k]),
{
    assert(ls.take(k + 1).drop_last() =~= ls.take(k));
}

proof fn lemma_offset_monotone(ls: Seq<PodmanLensResult<ListedSection>>, j: int, k: int)
    requires
        0 <= j <= k <= ls.len(),
    ensures
        observation_offset(ls, j) <= observation_offset(ls, k),
    decreases k - j,
{
    if j < k {
        lemma_offset_step(ls, k - 1);
        lemma_offset_monotone(ls, j, k - 1);
    }
}

impl AcquisitionState {
    /// The observations of the listings before `k` are finished, `i` of listing `k`'s are
    /// gathered, and nothing else is.
    closed spec fn chunks_ok(&self, k: int, i: int) -> bool {
        let ls = self.listings@;
        let obs = self.observations@;
        &&& self.done@.len() == k
        &&& forall|j: int| 0 <= j < k ==> (#[trigger] self.done@[j])@ == observations_of(ls, obs, j)
        &&& obs.len() == observation_offset(ls, k) + i
        &&& self.current@ == obs.subrange(observation_offset(ls, k) as int, obs.len() as int)
    }

    /// Whether the state keeps the request order and what the answers gave.
    pub closed spec fn wf(&self) -> bool {
        &&& sequence_ok(self@)
        &&& self.kind <= 6
        &&& match self.stage {
            AcquisitionStage::Listing => {
                &&& self.api is Some
                &&& self.engine is Some
                &&& self.listed@ == self.listings@
                &&& self.observations@.len() == 0
                &&& self.done@.len() == 0
                &&& self.current@.len() == 0
            },
            AcquisitionStage::Inspecting => {
                &&& self.api is Some
                &&& self.engine is Some
                &&& self.listed@ == self.listings@
                &&& self.chunks_ok(self.kind as int, self.item as int)
            },
            AcquisitionStage::Finished => {
                &&& self.engine is Some
                &&& self.inventory matches Some(inv) && reconciled_sections(self.sections@, inv.spec_sections())
                    && (inv.spec_service() matches Some(sv) && service_observed(self@.engine->0, self@.api->0, sv))
                &&& sections_acquired(self.listings@, self.observations@, self.sections@)
            },
            _ => {
                &&& self.listings@.len() == 0
                &&& self.observations@.len() == 0
            },
        }
    }

    /// Opens an acquisition: its first request is the ping.
    pub fn start(options: AcquisitionOptions) -> (r: (Self, AcquisitionAction))
        ensures
            r.0.wf(),
            r.0@ == (AcquisitionStateView {
                options,
                stage: AcquisitionStage::Ping,
                api: None,
                engine: None,
                listings: Seq::empty(),
                observations: Seq::empty(),
                remaining: crate::inventory::MAX_UNKNOWN_FIELDS_PER_INVENTORY as nat,
                kind: 0,
                item: 0,
                sections: Seq::empty(),
                issued: seq![ping_path()],
            }),
            r.1@ == ActionView::Get(ping_path()),
    {
        let issued: Ghost<Seq<Seq<char>>> = Ghost(Seq::empty().push(ping_path()));
        let s = AcquisitionState {
            options,
            stage: AcquisitionStage::Ping,
            api: None,
            engine: None,
            listed: Vec::new(),
            done: Vec::new(),
            current: Vec::new(),
            kind: 0,
            item: 0,
            budget: UnknownFieldBudget::new(),
            inventory: None,
            listings: Ghost(Seq::empty()),
            observations: Ghost(Seq::empty()),
            sections: Ghost(Seq::empty()),
            issued,
        };
        assert(s@.issued =~= seq![ping_path()]);
        (s, AcquisitionAction::Get(String::from_str("/libpod/_ping")))
    }

    /// The API version the ping reported, once it has.
    pub fn api_version(&self) -> (r: Option<&ObservedApiVersion>)
        ensures
            match (r, self@.api) {
                (Some(a), Some(v)) => a@ == v,
                (None, None) => true,
                _ => false,
            },
    {
        self.api.as_ref()
    }

    /// The engine version the version probe reported, once it has.
    pub fn engine_version(&self) -> (r: Option<&ObservedPodmanVersion>)
        ensures
            match (r, self@.engine) {
                (Some(e), Some(v)) => e@ == v,
                (None, None) => true,
                _ => false,
            },
    {
        self.engine.as_ref()
    }

    /// The observation of the probed service, once the probe has read both versions.
    pub fn service(&self) -> (r: Option<ServiceObservation>)
        ensures
            match (self@.engine, self@.api) {
                (Some(e), Some(a)) => r matches Some(s) && service_observed(e, a, s@),
                _ => r is None,
            },
    {
        match (&self.engine, &self.api) {
            (Some(engine), Some(api)) => {
                let output_target_profile = match TargetProfile::new(engine.duplicate_value(), api.duplicate_value()) {
                    Ok(t) => Some(t),
                    Err(_) => None,
                };
                Some(ServiceObservation { engine_version: engine.duplicate_value(), api_version: api.duplicate_value(), output_target_profile })
            },
            _ => None,
        }
    }

    /// Whether the probe has succeeded: the machine has gone on to the inventory.
    pub fn is_probed(&self) -> (r: bool)
        ensures
            r == (self@.stage == AcquisitionStage::Listing || self@.stage == AcquisitionStage::Inspecting
                || self@.stage == AcquisitionStage::Finished),
    {
        match self.stage {
            AcquisitionStage::Listing | AcquisitionStage::Inspecting | AcquisitionStage::Finished => true,
            _ => false,
        }
    }

    /// The assembled inventory, once every request has been answered: the six sections built
    /// from the listings and the observations, reconciled.
    pub fn into_inventory(self) -> (r: Option<ResourceInventory>)
        ensures
            self@.stage != AcquisitionStage::Finished ==> r is None,
            self.wf() && self@.stage == AcquisitionStage::Finished ==> (r matches Some(inv) && reconciled_sections(
                self@.sections,
                inv.spec_sections(),
            ) && sections_acquired(self@.listings, self@.observations, self@.sections) && (inv.spec_service() matches Some(
                sv,
            ) && service_observed(self@.engine->0, self@.api->0, sv))),
    {
        match self.stage {
            AcquisitionStage::Finished => self.inventory,
            _ => None,
        }
    }

    fn fail(&mut self, code: DiagnosticCode) -> (r: AcquisitionAction)
        requires
            old(self).wf(),
            old(self)@.stage == AcquisitionStage::Ping || old(self)@.stage == AcquisitionStage::Version,
        ensures
            final(self).wf(),
            failed_with(old(self)@, final(self)@, r@, code),
    {
        self.stage = AcquisitionStage::Failed(code);
        AcquisitionAction::Fail(Diagnostic::new(code))
    }

    /// From listing `k` with `i` of its inspect requests sent and answered, sends the next
    /// inspect request of a successful listing, or assembles the inventory when none is left.
    fn advance(&mut self, k: usize, i: usize) -> (r: AcquisitionAction)
        requires
            old(self).api is Some,
            old(self).engine is Some,
            old(self).listed@ == old(self).listings@,
            old(self).listings@.len() == 6,
            k < 6,
            old(self).chunks_ok(k as int, i as int),
            match old(self).api {
                Some(a) => old(self).issued@ == requests_through(a@, listing_views(old(self).listings@), k as int, i as int),
                None => false,
            },
            match listing_views(old(self).listings@)[k as int] {
                Some(ids) => i <= ids.len(),
                None => i == 0,
            },
        ensures
            final(self).wf(),
            final(self)@.options == old(self)@.options,
            final(self)@.api == old(self)@.api,
            final(self)@.engine == old(self)@.engine,
            final(self)@.listings == old(self)@.listings,
            final(self)@.observations == old(self)@.observations,
            final(self)@.remaining == old(self)@.remaining,
            match r@ {
                ActionView::Get(p) => final(self)@.stage == AcquisitionStage::Inspecting && final(self)@.issued
                    == old(self)@.issued.push(p),
                ActionView::Finish => final(self)@.stage == AcquisitionStage::Finished && final(self)@.issued
                    == old(self)@.issued,
                ActionView::Fail(_) => false,
            },
    {
        let ghost a = self@.api->0;
        let ghost ls = self.listings@;
        let ghost obs = self.observations@;
        let ghost seen = listing_views(ls);
        let mut k = k;
        let mut i = i;
        while k < 6
            invariant
                match self.api {
                    Some(v) => v@ == a,
                    None => false,
                },
                self.engine is Some,
                self.listings@ == ls,
                self.observations@ == obs,
                seen == listing_views(ls),
                self.listed@ == ls,
                ls.len() == 6,
                k <= 6,
                k == 6 ==> i == 0,
                self.chunks_ok(k as int, i as int),
                self.issued@ == requests_through(a, seen, k as int, i as int),
                k < 6 ==> match seen[k as int] {
                    Some(ids) => i <= ids.len(),
                    None => i == 0,
                },
                self.issued@ == old(self).issued@,
                self.stage == old(self).stage,
                self.api == old(self).api,
                self.options == old(self).options,
                self.budget == old(self).budget,
                self.sections == old(self).sections,
                self.engine == old(self).engine,
                ls == old(self).listings@,
                obs == old(self).observations@,
            decreases 6 - k,
        {
            assert(seen[k as int] == listing_view(ls[k as int]));
            let pending = match &self.listed[k] {
                Ok(l) => i < l.identities().len(),
                Err(_) => false,
            };
            if pending {
                let api = match &self.api {
                    Some(v) => v,
                    None => {
                        return AcquisitionAction::Finish;
                    },
                };
                let path = match &self.listed[k] {
                    Ok(l) => {
                        let ids = l.identities();
                        assert(views(ids@)[i as int] == ids@[i as int]@);
                        inspect_path(api, &ids[i])
                    },
                    Err(_) => {
                        return AcquisitionAction::Finish;
                    },
                };
                proof {
                    let ids = seen[k as int]->0;
                    lemma_section_requests_take(a, ids, i as int);
                    assert(path@ == inspect_path_text(a, ids[i as int]));
                    assert(requests_through(a, seen, k as int, i + 1) =~= self.issued@.push(path@));
                }
                self.stage = AcquisitionStage::Inspecting;
                self.kind = k;
                self.item = i;
                self.issued = Ghost(self.issued@.push(path@));
                return AcquisitionAction::Get(path);
            }
            proof {
                lemma_inspect_requests_step(a, seen, k as int);
                lemma_offset_step(ls, k as int);
                match seen[k as int] {
                    Some(ids) => {
                        assert(ids.take(i as int) =~= ids);
                    },
                    None => {},
                }
                assert(requests_through(a, seen, k + 1, 0) =~= requests_through(a, seen, k as int, i as int));
            }
            let ghost cur = self.current@;
            let mut finished: Vec<ResourceObservation> = Vec::new();
            std::mem::swap(&mut finished, &mut self.current);
            self.done.push(finished);
            proof {
                assert(cur == observations_of(ls, obs, k as int));
                assert forall|j: int| 0 <= j < k + 1 implies (#[trigger] self.done@[j])@ == observations_of(ls, obs, j) by {
                }
                assert(self.current@ =~= obs.subrange(observation_offset(ls, k + 1) as int, obs.len() as int));
            }
            k = k + 1;
            i = 0;
        }
        proof {
            assert(seen.take(6) =~= seen);
            assert(ls.take(6) =~= ls);
            assert(requests_through(a, seen, 6, i as int) =~= acquisition_requests(a, seen));
        }
        let kinds = ResourceKind::all();
        let mut sections: Vec<InventorySection> = Vec::new();
        let mut n: usize = 0;
        let mut listed: Vec<PodmanLensResult<ListedSection>> = Vec::new();
        std::mem::swap(&mut listed, &mut self.listed);
        let mut done: Vec<Vec<ResourceObservation>> = Vec::new();
        std::mem::swap(&mut done, &mut self.done);
        let ghost d0 = done@;
        while n < 6
            invariant
                kinds@ == canonical_kinds(),
                n <= 6,
                ls.len() == 6,
                d0.len() == 6,
                listed@ == ls.skip(n as int),
                done@ == d0.skip(n as int),
                forall|j: int| 0 <= j < 6 ==> (#[trigger] d0[j])@ == observations_of(ls, obs, j),
                sections@.len() == n,
                forall|j: int|
                    0 <= j < n ==> section_acquired(canonical_kinds()[j], ls[j], observations_of(ls, obs, j), #[trigger] sections@[j]),
            decreases 6 - n,
        {
            let listing = listed.remove(0);
            let observations = done.remove(0);
            let kind = kinds[n];
            proof {
                assert(listing == ls[n as int]);
                assert(observations == d0[n as int]);
                assert(listed@ =~= ls.skip(n + 1));
                assert(done@ =~= d0.skip(n + 1));
            }
            let section = match listing {
                Ok(l) => InventorySection::available(kind, l, observations),
                Err(e) => InventorySection::unavailable(kind, e.code()),
            };
            sections.push(section);
            n = n + 1;
        }
        self.sections = Ghost(sections@);
        let inventory = ResourceInventory::assemble(sections);
        let inventory = match self.service() {
            Some(service) => inventory.with_service(service),
            None => {
                return AcquisitionAction::Finish;
            },
        };
        self.inventory = Some(inventory);
        self.stage = AcquisitionStage::Finished;
        self.kind = 6;
        AcquisitionAction::Finish
    }

    /// Takes what came of the outstanding request and decides the next one.
    ///
    /// The ping's answer must be `200` with an API version header; the version probe's must be
    /// `200` JSON with an engine version; a transport failure or a rejected answer during the
    /// probe ends the acquisition with that diagnostic. A failed list request makes its kind
    /// unavailable; a failed inspect request gives a partial observation. Once finished or
    /// failed, the machine asks for nothing more.
    pub fn step(&mut self, event: AcquisitionEvent) -> (r: AcquisitionAction)
        requires
            old(self).wf(),
        ensures
            final(self).wf(),
            final(self)@.options == old(self)@.options,
            match r@ {
                ActionView::Get(p) => final(self)@.issued == old(self)@.issued.push(p),
                _ => final(self)@.issued == old(self)@.issued,
            },
            r@ is Fail <==> final(self)@.stage is Failed,
            r@ is Finish <==> final(self)@.stage == AcquisitionStage::Finished,
            r@ is Fail ==> (old(self)@.stage == AcquisitionStage::Ping || old(self)@.stage == AcquisitionStage::Version
                || old(self)@.stage is Failed),
            old(self)@.stage == AcquisitionStage::Ping ==> ping_answered(event, old(self)@, final(self)@, r@),
            old(self)@.stage == AcquisitionStage::Version ==> version_answered(event, old(self)@, final(self)@, r@),
            old(self)@.stage == AcquisitionStage::Listing ==> listing_answered(event, old(self)@, final(self)@, r@),
            old(self)@.stage == AcquisitionStage::Inspecting ==> inspection_answered(event, old(self)@, final(self)@),
            old(self)@.stage == AcquisitionStage::Finished ==> final(self)@ == old(self)@ && r@ == ActionView::Finish,
            old(self)@.stage matches AcquisitionStage::Failed(c) ==> final(self)@ == old(self)@ && r@ == ActionView::Fail(c),
    {
        match self.stage {
            AcquisitionStage::Finished => AcquisitionAction::Finish,
            AcquisitionStage::Failed(code) => AcquisitionAction::Fail(Diagnostic::new(code)),
            AcquisitionStage::Ping => {
                let response = match event {
                    AcquisitionEvent::TransportFailed(d) => {
                        return self.fail(d.code());
                    },
                    AcquisitionEvent::Response(response) => response,
                };
                if let Err(e) = require_ok_status(response.status()) {
                    return self.fail(e.code());
                }
                let api = match ping_api_version(response.headers()) {
                    Ok(api) => api,
                    Err(e) => {
                        return self.fail(e.code());
                    },
                };
                let path = version_probe_path(&api);
                proof {
                    assert(seq![ping_path()].push(path@) =~= probe_requests(api@));
                }
                self.api = Some(api);
                self.stage = AcquisitionStage::Version;
                self.issued = Ghost(self.issued@.push(path@));
                AcquisitionAction::Get(path)
            },
            AcquisitionStage::Version => {
                let response = match event {
                    AcquisitionEvent::TransportFailed(d) => {
                        return self.fail(d.code());
                    },
                    AcquisitionEvent::Response(response) => response,
                };
                if let Err(e) = require_ok_status(response.status()) {
                    return self.fail(e.code());
                }
                if let Err(e) = require_json_content_type(response.headers()) {
                    return self.fail(e.code());
                }
                let engine = match engine_version(response.body()) {
                    Ok(v) => v,
                    Err(e) => {
                        return self.fail(e.code());
                    },
                };
                let kinds = ResourceKind::all();
                let path = match &self.api {
                    Some(api) => list_path(api, kinds[0]),
                    None => {
                        return self.fail(DiagnosticCode::ProbeHttpStatus);
                    },
                };
                let ghost a = self@.api->0;
                proof {
                    assert(probe_requests(a).push(path@) =~= probe_requests(a) + list_requests(a).take(1));
                }
                self.engine = Some(engine);
                self.listed = Vec::new();
                self.done = Vec::new();
                self.current = Vec::new();
                assert(self.listed@ =~= self.listings@);
                self.stage = AcquisitionStage::Listing;
                self.issued = Ghost(self.issued@.push(path@));
                AcquisitionAction::Get(path)
            },
            AcquisitionStage::Listing => {
                let kinds = ResourceKind::all();
                let n = self.listed.len();
                let ghost a = self@.api->0;
                let listing = match event {
                    AcquisitionEvent::Response(response) => decode_list(kinds[n], &response),
                    AcquisitionEvent::TransportFailed(d) => Err(d),
                };
                let ghost lg = listing;
                self.listed.push(listing);
                self.listings = Ghost(self.listings@.push(lg));
                proof {
                    assert(self.listed@ =~= self.listings@);
                    assert(listing_views(self.listings@) =~= listing_views(old(self).listings@).push(listing_view(lg)));
                    assert(self.listings@.take(n as int) =~= old(self).listings@);
                }
                if n + 1 < 6 {
                    let path = match &self.api {
                        Some(api) => list_path(api, kinds[n + 1]),
                        None => {
                            return AcquisitionAction::Finish;
                        },
                    };
                    proof {
                        assert(list_requests(a)[n + 1] == path@);
                        assert(list_requests(a).take(n + 1).push(path@) =~= list_requests(a).take(n + 2));
                        assert(probe_requests(a) + list_requests(a).take(n + 1) + seq![path@] =~= probe_requests(a)
                            + list_requests(a).take(n + 2));
                        assert(self.issued@.push(path@) =~= probe_requests(a) + list_requests(a).take(n + 2));
                    }
                    self.issued = Ghost(self.issued@.push(path@));
                    AcquisitionAction::Get(path)
                } else {
                    let ghost seen = listing_views(self.listings@);
                    proof {
                        assert(list_requests(a).take(6) =~= list_requests(a));
                        assert(seen.take(0) =~= Seq::<Option<Seq<IdentityView>>>::empty());
                        match seen[0] {
                            Some(ids) => {
                                assert(ids.take(0) =~= Seq::<IdentityView>::empty());
                                assert(section_requests(a, ids.take(0)) =~= Seq::<Seq<char>>::empty());
                            },
                            None => {},
                        }
                        assert(requests_through(a, seen, 0, 0) =~= self.issued@);
                        assert(self.listings@.take(0) =~= Seq::<PodmanLensResult<ListedSection>>::empty());
                        assert(self.observations@.subrange(0, 0) =~= self.current@);
                        assert(seen[0] == listing_view(self.listings@[0]));
                    }
                    self.advance(0, 0)
                }
            },
            AcquisitionStage::Inspecting => {
                let ghost a = self@.api->0;
                let ghost ls = self.listings@;
                let ghost obs = self.observations@;
                let response = match event {
                    AcquisitionEvent::Response(response) => Some(response),
                    AcquisitionEvent::TransportFailed(_) => None,
                };
                let k = self.kind;
                let i = self.item;
                assert(listing_views(ls)[k as int] == listing_view(ls[k as int]));
                let observation = match (&self.listed[k], &self.api) {
                    (Ok(l), Some(api)) => {
                        let ids = l.identities();
                        assert(views(ids@)[i as int] == ids@[i as int]@);
                        inspect_observation(&ids[i], response.as_ref(), self.options, api.original(), self.budget.record_limit())
                    },
                    _ => {
                        return AcquisitionAction::Finish;
                    },
                };
                let ghost o = observation;
                self.budget.spend(&observation);
                self.current.push(observation);
                self.observations = Ghost(self.observations@.push(o));
                proof {
                    let off = observation_offset(ls, k as int);
                    assert forall|j: int| 0 <= j < k implies (#[trigger] self.done@[j])@ == observations_of(ls, self.observations@, j) by {
                        lemma_offset_monotone(ls, j + 1, k as int);
                        lemma_offset_monotone(ls, j, j + 1);
                        assert(observations_of(ls, self.observations@, j) =~= observations_of(ls, obs, j));
                    }
                    assert(self.current@ =~= self.observations@.subrange(off as int, self.observations@.len() as int));
                    assert(self.observations@.take(obs.len() as int) =~= obs);
                }
                self.advance(k, i + 1)
            },
        }
    }
}

/// The requests of a finished acquisition are exactly the ping, the version probe, the list
/// request of every kind in canonical order, and then the inspect request of every identity of
/// every successful listing, kind by kind and in list order, each sent once.
pub proof fn lemma_finished_requests(s: AcquisitionStateView)
    requires
        sequence_ok(s),
        s.stage == AcquisitionStage::Finished,
    ensures
        match s.api {
            Some(a) => s.issued == probe_requests(a) + list_requests(a) + inspect_requests(a, listing_views(s.listings)),
            None => false,
        },
        s.issued[0] == ping_path(),
        s.listings.len() == 6,
{
}

/// A failed acquisition sent at most the ping and the version probe: a probe failure stops it.
pub proof fn lemma_failed_requests(s: AcquisitionStateView)
    requires
        sequence_ok(s),
        s.stage is Failed,
    ensures
        s.issued.len() <= 2,
        s.issued[0] == ping_path(),
{
}

} // verus!
