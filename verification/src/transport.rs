//! Transport-neutral parts of Libpod responses: validated headers, case-insensitive lookup, and
//! buffered responses.

use vstd::prelude::*;

use crate::deployment::ascii_lower;
use crate::diagnostic::{Diagnostic, DiagnosticCode, PodmanLensResult};
use crate::text::{char_is_ascii_alnum, char_is_control, is_ascii_alnum, is_control, to_chars};

verus! {

/// A character allowed in an HTTP field name (an RFC 9110 token character).
pub open spec fn is_token_char(c: char) -> bool {
    is_ascii_alnum(c) || "!#$%&'*+-.^_`|~"@.contains(c)
}

/// A non-empty HTTP field name.
pub open spec fn valid_header_name(s: Seq<char>) -> bool {
    s.len() > 0 && forall|i: int| 0 <= i < s.len() ==> is_token_char(#[trigger] s[i])
}

/// An HTTP field value: no control character other than horizontal tab.
pub open spec fn valid_header_value(s: Seq<char>) -> bool {
    forall|i: int| 0 <= i < s.len() ==> #[trigger] s[i] == '\t' || !is_control(s[i])
}

/// Equality of two texts ignoring ASCII case.
pub open spec fn same_ignoring_ascii_case(a: Seq<char>, b: Seq<char>) -> bool {
    a.len() == b.len() && forall|i: int| 0 <= i < a.len() ==> ascii_lower(#[trigger] a[i]) == ascii_lower(b[i])
}

/// The content of one header.
pub struct HeaderView {
    pub name: Seq<char>,
    pub value: Seq<char>,
}

/// One validated response header.
#[derive(Clone, Debug, Eq, PartialEq)]
pub struct LibpodHeader {
    name: String,
    value: String,
}

impl View for LibpodHeader {
    type V = HeaderView;

    closed spec fn view(&self) -> HeaderView {
        HeaderView { name: self.name@, value: self.value@ }
    }
}

fn token_char(c: char) -> (r: bool)
    ensures
        r == is_token_char(c),
{
    let extra = to_chars("!#$%&'*+-.^_`|~");
    if char_is_ascii_alnum(c) {
        return true;
    }
    let mut i: usize = 0;
    while i < extra.len()
        invariant
            i <= extra.len(),
            extra@ == "!#$%&'*+-.^_`|~"@,
            forall|j: int| 0 <= j < i ==> extra@[j] != c,
        decreases extra.len() - i,
    {
        if extra[i] == c {
            return true;
        }
        i = i + 1;
    }
    false
}

fn header_name_is_valid(s: &str) -> (r: bool)
    ensures
        r == valid_header_name(s@),
{
    let chars = to_chars(s);
    if chars.len() == 0 {
        return false;
    }
    let mut i: usize = 0;
    while i < chars.len()
        invariant
            i <= chars.len(),
            chars@ == s@,
            forall|j: int| 0 <= j < i ==> is_token_char(#[trigger] chars@[j]),
        decreases chars.len() - i,
    {
        if !token_char(chars[i]) {
            return false;
        }
        i = i + 1;
    }
    true
}

fn header_value_is_valid(s: &str) -> (r: bool)
    ensures
        r == valid_header_value(s@),
{
    let chars = to_chars(s);
    let mut i: usize = 0;
    while i < chars.len()
        invariant
            i <= chars.len(),
            chars@ == s@,
            forall|j: int| 0 <= j < i ==> #[trigger] chars@[j] == '\t' || !is_control(chars@[j]),
        decreases chars.len() - i,
    {
        if chars[i] != '\t' && char_is_control(chars[i]) {
            return false;
        }
        i = i + 1;
    }
    true
}

impl LibpodHeader {
    /// Validates one header; fails with `InvalidTransportMessage` when the name is not a
    /// non-empty token or the value holds a control character other than tab.
    pub fn new(name: &str, value: &str) -> (r: PodmanLensResult<Self>)
        ensures
            r is Ok <==> valid_header_name(name@) && valid_header_value(value@),
            r matches Ok(h) ==> h@ == (HeaderView { name: name@, value: value@ }),
            r matches Err(e) ==> e@ == DiagnosticCode::InvalidTransportMessage,
    {
        if header_name_is_valid(name) && header_value_is_valid(value) {
            Ok(LibpodHeader { name: name.to_owned(), value: value.to_owned() })
        } else {
            Err(Diagnostic::new(DiagnosticCode::InvalidTransportMessage))
        }
    }

    /// Returns the header name as received.
    pub fn name(&self) -> (r: &str)
        ensures
            r@ == self@.name,
    {
        self.name.as_str()
    }

    /// Returns the header value.
    pub fn value(&self) -> (r: &str)
        ensures
            r@ == self@.value,
    {
        self.value.as_str()
    }
}

/// The contents of a sequence of headers.
pub open spec fn header_views(s: Seq<LibpodHeader>) -> Seq<HeaderView> {
    s.map_values(|h: LibpodHeader| h@)
}

/// The values, in order, of the headers whose name equals `name` ignoring ASCII case.
pub open spec fn header_values(hs: Seq<HeaderView>, name: Seq<char>) -> Seq<Seq<char>>
    decreases hs.len(),
{
    if hs.len() == 0 {
        Seq::empty()
    } else {
        let rest = header_values(hs.drop_last(), name);
        if same_ignoring_ascii_case(hs.last().name, name) {
            rest.push(hs.last().value)
        } else {
            rest
        }
    }
}

/// An ordered collection of response headers.
#[derive(Clone, Debug, Eq, PartialEq)]
pub struct LibpodHeaders {
    headers: Vec<LibpodHeader>,
}

impl View for LibpodHeaders {
    type V = Seq<HeaderView>;

    closed spec fn view(&self) -> Seq<HeaderView> {
        header_views(self.headers@)
    }
}

fn lower_eq(a: char, b: char) -> (r: bool)
    ensures
        r == (ascii_lower(a) == ascii_lower(b)),
{
    let x: u32 = if 'A' <= a && a <= 'Z' {
        a as u32 + 32
    } else {
        a as u32
    };
    let y: u32 = if 'A' <= b && b <= 'Z' {
        b as u32 + 32
    } else {
        b as u32
    };
    proof {
        assert(ascii_lower(a) as u32 == x);
        assert(ascii_lower(b) as u32 == y);
    }
    x == y
}

/// Whether two texts are equal ignoring ASCII case.
pub fn eq_ignore_ascii_case(a: &str, b: &str) -> (r: bool)
    ensures
        r == same_ignoring_ascii_case(a@, b@),
{
    let x = to_chars(a);
    let y = to_chars(b);
    if x.len() != y.len() {
        return false;
    }
    let mut i: usize = 0;
    while i < x.len()
        invariant
            i <= x.len(),
            x.len() == y.len(),
            x@ == a@,
            y@ == b@,
            forall|j: int| 0 <= j < i ==> ascii_lower(#[trigger] x@[j]) == ascii_lower(y@[j]),
        decreases x.len() - i,
    {
        if !lower_eq(x[i], y[i]) {
            return false;
        }
        i = i + 1;
    }
    true
}

/// The contents of a sequence of text slices.
pub open spec fn str_views(s: Seq<&str>) -> Seq<Seq<char>> {
    s.map_values(|v: &str| v@)
}

impl LibpodHeaders {
    /// Collects headers in the order received.
    pub fn new(headers: Vec<LibpodHeader>) -> (r: Self)
        ensures
            r@ == header_views(headers@),
    {
        LibpodHeaders { headers }
    }

    /// Returns the values of every header named `name`, ignoring ASCII case, in order.
    pub fn values(&self, name: &str) -> (r: Vec<&str>)
        ensures
            str_views(r@) == header_values(self@, name@),
    {
        let mut out: Vec<&str> = Vec::new();
        let mut i: usize = 0;
        while i < self.headers.len()
            invariant
                i <= self.headers.len(),
                str_views(out@) == header_values(header_views(self.headers@).take(i as int), name@),
            decreases self.headers.len() - i,
        {
            let h = &self.headers[i];
            let ghost pre = header_views(self.headers@).take(i as int);
            let ghost next = header_views(self.headers@).take(i + 1);
            assert(next.drop_last() =~= pre);
            assert(next.last() == h@);
            if eq_ignore_ascii_case(h.name.as_str(), name) {
                out.push(h.value.as_str());
                assert(str_views(out@) =~= header_values(pre, name@).push(h@.value));
            }
            i = i + 1;
        }
        assert(header_views(self.headers@).take(self.headers.len() as int) =~= header_views(self.headers@));
        out
    }

    /// Returns every header in order.
    pub fn headers(&self) -> (r: &[LibpodHeader])
        ensures
            header_views(r@) == self@,
    {
        self.headers.as_slice()
    }
}

/// One buffered Libpod response: its status, headers, and body bytes.
#[derive(Clone, Debug)]
pub struct LibpodResponse {
    status: u16,
    headers: LibpodHeaders,
    body: Vec<u8>,
}

impl LibpodResponse {
    pub closed spec fn spec_status(&self) -> u16 {
        self.status
    }

    pub closed spec fn spec_headers(&self) -> Seq<HeaderView> {
        self.headers@
    }

    pub closed spec fn spec_body(&self) -> Seq<u8> {
        self.body@
    }

    /// A response with `status`, `headers`, and `body`.
    pub fn new(status: u16, headers: LibpodHeaders, body: Vec<u8>) -> (r: Self)
        ensures
            r.spec_status() == status,
            r.spec_headers() == headers@,
            r.spec_body() == body@,
    {
        LibpodResponse { status, headers, body }
    }

    /// Returns the HTTP status code.
    pub fn status(&self) -> (r: u16)
        ensures
            r == self.spec_status(),
    {
        self.status
    }

    /// Returns the response headers.
    pub fn headers(&self) -> (r: &LibpodHeaders)
        ensures
            r@ == self.spec_headers(),
    {
        &self.headers
    }

    /// Returns the body bytes.
    pub fn body(&self) -> (r: &[u8])
        ensures
            r@ == self.spec_body(),
    {
        self.body.as_slice()
    }
}

} // verus!
