//! Read-only Libpod service probing: the checks applied to the version probe's response.

use vstd::prelude::*;

use crate::deployment::before_first;
use crate::diagnostic::{Diagnostic, DiagnosticCode, PodmanLensResult};
use crate::text::{find_first, slice_chars, string_from_chars, to_chars, trim, trimmed};
use crate::json::{get, json_get, json_view, json_views, json_document, lemma_json_view_at, lemma_json_views_len, parse_json, JsonValue, JsonView};
use crate::version::{reported_version, semver_parse, ObservedApiVersion, ObservedPodmanVersion};
use crate::transport::{header_values, same_ignoring_ascii_case, eq_ignore_ascii_case, LibpodHeaders};

verus! {

/// Maximum accepted byte length of the small Libpod version JSON response.
pub const MAX_PROBE_JSON_BYTES: usize = 65_536;

/// The media type of a content-type value: the part before the first `;`.
pub open spec fn media_type(v: Seq<char>) -> Seq<char> {
    if v.contains(';') {
        before_first(v, ';')
    } else {
        v
    }
}

/// Exactly one content type is present and it names JSON, ignoring case, parameters and
/// surrounding whitespace.
pub open spec fn json_content_type(headers: Seq<crate::transport::HeaderView>) -> bool {
    let values = header_values(headers, "content-type"@);
    values.len() == 1 && same_ignoring_ascii_case(trim(media_type(values[0])), "application/json"@)
}

/// Requires exactly one `Content-Type` header naming `application/json`; the comparison ignores
/// ASCII case, parameters after `;`, and surrounding whitespace.
pub fn require_json_content_type(headers: &LibpodHeaders) -> (r: PodmanLensResult<()>)
    ensures
        r is Ok <==> json_content_type(headers@),
        r matches Err(e) ==> e@ == DiagnosticCode::ProbeHeader,
{
    let values = headers.values("content-type");
    if values.len() != 1 {
        return Err(Diagnostic::new(DiagnosticCode::ProbeHeader));
    }
    let chars = to_chars(values[0]);
    let media = match find_first(&chars, ';') {
        Some(k) => {
            proof {
                assert(chars@.contains(';'));
            }
            slice_chars(&chars, 0, k)
        },
        None => slice_chars(&chars, 0, chars.len()),
    };
    assert(media@ =~= media_type(chars@));
    let t = trimmed(&media);
    let text = string_from_chars(&t);
    if eq_ignore_ascii_case(text.as_str(), "application/json") {
        Ok(())
    } else {
        Err(Diagnostic::new(DiagnosticCode::ProbeHeader))
    }
}


/// Requires the HTTP status `200`.
pub fn require_ok_status(status: u16) -> (r: PodmanLensResult<()>)
    ensures
        r is Ok <==> status == 200,
        r matches Err(e) ==> e@ == DiagnosticCode::ProbeHttpStatus,
{
    if status == 200 {
        Ok(())
    } else {
        Err(Diagnostic::new(DiagnosticCode::ProbeHttpStatus))
    }
}

/// Exactly one `Libpod-API-Version` header holds a semantic version.
pub open spec fn ping_api_version_ok(headers: Seq<crate::transport::HeaderView>) -> bool {
    let values = header_values(headers, "libpod-api-version"@);
    values.len() == 1 && reported_version(values[0])
}

/// Reads the service's API version from exactly one `Libpod-API-Version` ping header.
///
/// # Errors
///
/// Returns `PLN0008` unless exactly one such header holds a semantic version.
pub fn ping_api_version(headers: &LibpodHeaders) -> (r: PodmanLensResult<ObservedApiVersion>)
    ensures
        r is Ok <==> ping_api_version_ok(headers@),
        r matches Ok(v) ==> v@.text == header_values(headers@, "libpod-api-version"@)[0] && Some(v@.parts)
            == semver_parse(v@.text),
        r matches Err(e) ==> e@ == DiagnosticCode::ProbeHeader,
{
    let values = headers.values("libpod-api-version");
    if values.len() != 1 {
        return Err(Diagnostic::new(DiagnosticCode::ProbeHeader));
    }
    match ObservedApiVersion::parse_reported(values[0]) {
        Ok(v) => Ok(v),
        Err(_) => Err(Diagnostic::new(DiagnosticCode::ProbeHeader)),
    }
}

/// The versioned path of the version probe: an API 3 service is asked at its own advertised
/// version; any other at `4.0.0`.
pub open spec fn version_probe_path_text(api: crate::version::VersionView) -> Seq<char> {
    "/v"@ + (if api.parts.major == 3 {
        api.text
    } else {
        "4.0.0"@
    }) + "/libpod/version"@
}

/// Returns the path of the Libpod version request for the service's advertised API version.
pub fn version_probe_path(api_version: &ObservedApiVersion) -> (r: String)
    ensures
        r@ == version_probe_path_text(api_version@),
{
    let version = if api_version.as_semver().major == 3 {
        api_version.original()
    } else {
        "4.0.0"
    };
    let mut chars: Vec<char> = Vec::new();
    let prefix = to_chars("/v");
    let middle = to_chars(version);
    let suffix = to_chars("/libpod/version");
    crate::text::append_chars(&mut chars, &prefix);
    crate::text::append_chars(&mut chars, &middle);
    crate::text::append_chars(&mut chars, &suffix);
    string_from_chars(&chars)
}

// ---------------------------------------------------------------------------------------------
// The engine version.
// ---------------------------------------------------------------------------------------------
/// `c` is an object component named `Podman Engine`.
pub open spec fn is_engine_component(c: JsonView) -> bool {
    c matches JsonView::Object(m) && json_get(m, "Name"@) == Some(JsonView::Text("Podman Engine"@))
}

/// The number of engine components.
pub open spec fn engine_count(cs: Seq<JsonView>) -> nat
    decreases cs.len(),
{
    if cs.len() == 0 {
        0
    } else {
        engine_count(cs.drop_last()) + if is_engine_component(cs.last()) {
            1nat
        } else {
            0nat
        }
    }
}

/// An engine component.
pub open spec fn the_engine(cs: Seq<JsonView>) -> JsonView {
    cs[choose|i: int| 0 <= i < cs.len() && #[trigger] is_engine_component(cs[i])]
}

/// The `Version` text of a component, if it has one.
pub open spec fn component_version(c: JsonView) -> Option<Seq<char>> {
    match c {
        JsonView::Object(m) => match json_get(m, "Version"@) {
            Some(JsonView::Text(v)) => Some(v),
            _ => None,
        },
        _ => None,
    }
}

/// The `Components` array of a version document.
pub open spec fn probe_components(doc: JsonView) -> Option<Seq<JsonView>> {
    match doc {
        JsonView::Object(m) => match json_get(m, "Components"@) {
            Some(JsonView::Array(cs)) => Some(cs),
            _ => None,
        },
        _ => None,
    }
}

/// The engine version text a decoded version document reports, or the code of its problem:
/// `ProbeShape` without a `Components` array, `ProbeComponent` unless exactly one component is
/// the engine and it carries a text version.
pub open spec fn document_engine_version(doc: JsonView) -> Result<Seq<char>, DiagnosticCode> {
    match probe_components(doc) {
        None => Err(DiagnosticCode::ProbeShape),
        Some(cs) => if engine_count(cs) == 1 && component_version(the_engine(cs)) is Some {
            Ok(component_version(the_engine(cs))->0)
        } else {
            Err(DiagnosticCode::ProbeComponent)
        },
    }
}

/// The engine version text a version response body reports, or the code of its problem:
/// `ProbeJson` when the body is too long or not JSON.
pub open spec fn body_engine_version(body: Seq<u8>) -> Result<Seq<char>, DiagnosticCode> {
    if body.len() > MAX_PROBE_JSON_BYTES {
        Err(DiagnosticCode::ProbeJson)
    } else {
        match json_document(body) {
            None => Err(DiagnosticCode::ProbeJson),
            Some(doc) => document_engine_version(doc),
        }
    }
}

/// The outcome of reading the engine version: the text must also be a reported semantic
/// version, else `ProbeComponent`.
pub open spec fn engine_version_outcome(text: Result<Seq<char>, DiagnosticCode>, r: PodmanLensResult<ObservedPodmanVersion>) -> bool {
    match text {
        Err(code) => r matches Err(e) && e@ == code,
        Ok(t) => {
            &&& r is Ok <==> reported_version(t)
            &&& r matches Ok(v) ==> v@.text == t && Some(v@.parts) == semver_parse(t)
            &&& r matches Err(e) ==> e@ == DiagnosticCode::ProbeComponent
        },
    }
}

proof fn lemma_engine_count_prefix(cs: Seq<JsonView>, k: int)
    requires
        0 <= k < cs.len(),
    ensures
        engine_count(cs.take(k + 1)) == engine_count(cs.take(k)) + if is_engine_component(cs[k]) {
            1nat
        } else {
            0nat
        },
{
    assert(cs.take(k + 1).drop_last() =~= cs.take(k));
}

proof fn lemma_engine_count_monotone(cs: Seq<JsonView>, k: int)
    requires
        0 <= k <= cs.len(),
    ensures
        engine_count(cs.take(k)) <= engine_count(cs),
    decreases cs.len() - k,
{
    if k < cs.len() {
        lemma_engine_count_prefix(cs, k);
        lemma_engine_count_monotone(cs, k + 1);
    } else {
        assert(cs.take(k) =~= cs);
    }
}

/// When exactly one component is the engine, every engine component is that one.
proof fn lemma_single_engine(cs: Seq<JsonView>, i: int, j: int)
    requires
        engine_count(cs) == 1,
        0 <= i < j < cs.len(),
        is_engine_component(cs[i]),
    ensures
        !is_engine_component(cs[j]),
{
    lemma_engine_count_prefix(cs, i);
    lemma_engine_count_monotone(cs, i + 1);
    if is_engine_component(cs[j]) {
        lemma_engine_count_prefix(cs, j);
        lemma_engine_count_between(cs, i + 1, j);
        lemma_engine_count_monotone(cs, j + 1);
    }
}

proof fn lemma_engine_count_between(cs: Seq<JsonView>, a: int, b: int)
    requires
        0 <= a <= b <= cs.len(),
    ensures
        engine_count(cs.take(a)) <= engine_count(cs.take(b)),
    decreases b - a,
{
    if a < b {
        lemma_engine_count_prefix(cs, a);
        lemma_engine_count_between(cs, a + 1, b);
    }
}

/// Reads the engine version from a decoded version document.
pub fn engine_version_from_document(doc: &JsonValue) -> (r: PodmanLensResult<ObservedPodmanVersion>)
    ensures
        engine_version_outcome(document_engine_version(json_view(*doc)), r),
{
    let members = match doc {
        JsonValue::Object(m) => m,
        _ => {
            return Err(Diagnostic::new(DiagnosticCode::ProbeShape));
        },
    };
    let components = match get(members, "Components") {
        Some(JsonValue::Array(items)) => items,
        _ => {
            return Err(Diagnostic::new(DiagnosticCode::ProbeShape));
        },
    };
    let ghost cs = json_views(components@);
    proof {
        lemma_json_views_len(components@);
        assert(probe_components(json_view(*doc)) == Some(cs));
    }
    let mut engine: Option<&String> = None;
    let ghost mut at: int = 0;
    let mut i: usize = 0;
    while i < components.len()
        invariant
            i <= components.len(),
            cs == json_views(components@),
            cs.len() == components.len(),
            probe_components(json_view(*doc)) == Some(cs),
            engine is None ==> engine_count(cs.take(i as int)) == 0,
            engine matches Some(v) ==> engine_count(cs.take(i as int)) == 1 && 0 <= at < i && is_engine_component(cs[at])
                && component_version(cs[at]) == Some(v@),
        decreases components.len() - i,
    {
        proof {
            lemma_json_view_at(components@, i as int);
            lemma_engine_count_prefix(cs, i as int);
        }
        match &components[i] {
            JsonValue::Object(m) => {
                let is_engine = match get(m, "Name") {
                    Some(JsonValue::Text(name)) => crate::text::str_eq(name.as_str(), "Podman Engine"),
                    _ => false,
                };
                assert(is_engine == is_engine_component(cs[i as int]));
                if is_engine {
                    let version = match get(m, "Version") {
                        Some(JsonValue::Text(v)) => v,
                        _ => {
                            proof {
                                lemma_engine_count_monotone(cs, i + 1);
                                if engine_count(cs) == 1 {
                                    lemma_unique_engine_is(cs, i as int);
                                }
                            }
                            return Err(Diagnostic::new(DiagnosticCode::ProbeComponent));
                        },
                    };
                    if engine.is_some() {
                        proof {
                            lemma_engine_count_monotone(cs, i + 1);
                        }
                        return Err(Diagnostic::new(DiagnosticCode::ProbeComponent));
                    }
                    engine = Some(version);
                    proof {
                        at = i as int;
                    }
                }
            },
            _ => {},
        }
        i = i + 1;
    }
    assert(cs.take(components.len() as int) =~= cs);
    match engine {
        None => Err(Diagnostic::new(DiagnosticCode::ProbeComponent)),
        Some(v) => {
            proof {
                lemma_unique_engine_is(cs, at);
            }
            match ObservedPodmanVersion::parse_reported(v.as_str()) {
                Ok(version) => Ok(version),
                Err(_) => Err(Diagnostic::new(DiagnosticCode::ProbeComponent)),
            }
        },
    }
}

/// With exactly one engine component, the engine is the one at `i`.
proof fn lemma_unique_engine_is(cs: Seq<JsonView>, i: int)
    requires
        engine_count(cs) == 1,
        0 <= i < cs.len(),
        is_engine_component(cs[i]),
    ensures
        the_engine(cs) == cs[i],
{
    let c = choose|c: int| 0 <= c < cs.len() && #[trigger] is_engine_component(cs[c]);
    if c < i {
        lemma_single_engine(cs, c, i);
    } else if c > i {
        lemma_single_engine(cs, i, c);
    }
}

/// Reads the Podman engine version from a version response body; the body is bounded before it
/// is decoded.
pub fn engine_version(body: &[u8]) -> (r: PodmanLensResult<ObservedPodmanVersion>)
    ensures
        engine_version_outcome(body_engine_version(body@), r),
{
    if body.len() > MAX_PROBE_JSON_BYTES {
        return Err(Diagnostic::new(DiagnosticCode::ProbeJson));
    }
    match parse_json(body) {
        None => Err(Diagnostic::new(DiagnosticCode::ProbeJson)),
        Some(doc) => engine_version_from_document(&doc),
    }
}

} // verus!
