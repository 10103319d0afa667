//! Network declarations that need no address arithmetic: static MAC addresses, port protocols,
//! and route types.

use vstd::prelude::*;

use crate::deployment::ascii_lower;
use crate::diagnostic::{fails_with, Diagnostic, DiagnosticCode, PodmanLensResult};
use crate::text::{char_is_ascii_hex, is_ascii_hex, string_from_chars, to_chars};

verus! {

/// A transport protocol of a port mapping.
#[derive(Clone, Copy, Debug, Eq, PartialEq, Hash, Structural)]
#[non_exhaustive]
pub enum PortProtocol {
    /// TCP transport.
    Tcp,
    /// UDP transport.
    Udp,
    /// SCTP transport.
    Sctp,
}

/// The behaviour of a static network route.
#[derive(Clone, Copy, Debug, Eq, PartialEq, Hash, Structural)]
#[non_exhaustive]
pub enum RouteType {
    /// A route that forwards traffic through a declared gateway.
    Unicast,
    /// A route that drops matching traffic.
    Blackhole,
    /// A route that reports the destination as unreachable.
    Unreachable,
    /// A route that reports the destination as administratively prohibited.
    Prohibit,
}

/// One octet of a MAC address as an unsigned hexadecimal number of two characters: two hex
/// digits, or a `+` sign and one hex digit.
pub open spec fn mac_octet(a: char, b: char) -> bool {
    (is_ascii_hex(a) || a == '+') && is_ascii_hex(b)
}

/// Six two-character octets separated by `:`.
pub open spec fn valid_mac(s: Seq<char>) -> bool {
    s.len() == 17 && forall|k: int|
        0 <= k < 6 ==> #[trigger] mac_octet(s[3 * k], s[3 * k + 1]) && (k < 5 ==> s[3 * k + 2] == ':')
}

/// A declared static MAC address for one network attachment, in lower case.
#[derive(Clone, Debug, Eq, PartialEq)]
pub struct StaticMacAddress {
    value: String,
}

impl View for StaticMacAddress {
    type V = Seq<char>;

    closed spec fn view(&self) -> Seq<char> {
        self.value@
    }
}

fn lowercase(c: char) -> (r: char)
    ensures
        r == ascii_lower(c),
{
    if 'A' <= c && c <= 'Z' {
        let v: u8 = (c as u32 + 32) as u8;
        let l = v as char;
        proof {
            assert(ascii_lower(c) == ((c as u32) + 32) as char);
        }
        l
    } else {
        c
    }
}

impl StaticMacAddress {
    /// Creates a normalized lower-case six-octet MAC address.
    ///
    /// # Errors
    ///
    /// Returns `PLN0034` for an invalid MAC address.
    pub fn new(value: &str) -> (r: PodmanLensResult<Self>)
        ensures
            r is Ok <==> valid_mac(value@),
            r matches Ok(m) ==> m@ == value@.map_values(|c: char| ascii_lower(c)),
            r is Err ==> fails_with(r, DiagnosticCode::InvalidDeploymentIntent),
    {
        let cs = to_chars(value);
        if cs.len() != 17 {
            return Err(Diagnostic::new(DiagnosticCode::InvalidDeploymentIntent));
        }
        let mut k: usize = 0;
        while k < 6
            invariant
                k <= 6,
                cs@ == value@,
                cs.len() == 17,
                forall|j: int| 0 <= j < k ==> #[trigger] mac_octet(cs@[3 * j], cs@[3 * j + 1]) && (j < 5 ==> cs@[3 * j + 2] == ':'),
            decreases 6 - k,
        {
            let a = cs[3 * k];
            let b = cs[3 * k + 1];
            let octet = (char_is_ascii_hex(a) || a == '+') && char_is_ascii_hex(b);
            let separated = k == 5 || cs[3 * k + 2] == ':';
            if !octet || !separated {
                proof {
                    assert(!(mac_octet(cs@[3 * (k as int)], cs@[3 * (k as int) + 1]) && (k < 5 ==> cs@[3 * (k as int) + 2] == ':')));
                }
                return Err(Diagnostic::new(DiagnosticCode::InvalidDeploymentIntent));
            }
            proof {
                let kk = k as int;
                assert(mac_octet(cs@[3 * kk], cs@[3 * kk + 1]) && (kk < 5 ==> cs@[3 * kk + 2] == ':'));
                assert forall|j: int| 0 <= j < kk + 1 implies #[trigger] mac_octet(cs@[3 * j], cs@[3 * j + 1]) && (j < 5 ==> cs@[3 * j
                    + 2] == ':') by {
                    if j == kk {
                    }
                }
            }
            k = k + 1;
        }
        let mut lower: Vec<char> = Vec::new();
        let mut i: usize = 0;
        while i < cs.len()
            invariant
                i <= cs.len(),
                lower@ == cs@.take(i as int).map_values(|c: char| ascii_lower(c)),
            decreases cs.len() - i,
        {
            lower.push(lowercase(cs[i]));
            assert(cs@.take(i + 1) =~= cs@.take(i as int).push(cs@[i as int]));
            assert(lower@ =~= cs@.take(i + 1).map_values(|c: char| ascii_lower(c)));
            i = i + 1;
        }
        assert(cs@.take(cs.len() as int) =~= cs@);
        Ok(StaticMacAddress { value: string_from_chars(&lower) })
    }

    /// Returns the normalized MAC address.
    pub fn as_str(&self) -> (r: &str)
        ensures
            r@ == self@,
    {
        self.value.as_str()
    }
}

} // verus!
