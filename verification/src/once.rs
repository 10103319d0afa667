//! Assign-once slots and value comparison for typed settings.

use vstd::prelude::*;

use crate::diagnostic::{fails_with, Diagnostic, DiagnosticCode, PodmanLensResult};

verus! {

/// Values that can be compared by their mathematical content.
pub trait SameValue: View + Sized {
    /// Whether `self` and `other` have the same content.
    fn same_value(&self, other: &Self) -> (r: bool)
        ensures
            r == (self@ == other@),
    ;
}

impl SameValue for bool {
    fn same_value(&self, other: &Self) -> (r: bool) {
        *self == *other
    }
}

impl SameValue for i64 {
    fn same_value(&self, other: &Self) -> (r: bool) {
        *self == *other
    }
}

impl SameValue for u32 {
    fn same_value(&self, other: &Self) -> (r: bool) {
        *self == *other
    }
}

/// The content of an optional value.
pub open spec fn opt_view<T: View>(o: Option<T>) -> Option<T::V> {
    match o {
        Some(v) => Some(v@),
        None => None,
    }
}

/// One assign-once step: an empty slot takes the value; a filled slot keeps its value and the
/// step fails, as a duplicate when the values agree and as a conflict otherwise.
pub open spec fn once_update<V>(before: Option<V>, value: V, after: Option<V>, r: PodmanLensResult<()>) -> bool {
    match before {
        None => r is Ok && after == Some(value),
        Some(existing) => after == before && fails_with(
            r,
            if existing == value {
                DiagnosticCode::DeploymentDuplicateResource
            } else {
                DiagnosticCode::DeploymentUnsupportedCombination
            },
        ),
    }
}

/// Assigns `value` to an empty slot, rejecting a repeat or a conflicting second assignment.
pub fn set_once<T: SameValue>(slot: &mut Option<T>, value: T) -> (r: PodmanLensResult<()>)
    ensures
        once_update(opt_view(*old(slot)), value@, opt_view(*final(slot)), r),
{
    match slot {
        None => {
            *slot = Some(value);
            Ok(())
        },
        Some(existing) => {
            if existing.same_value(&value) {
                Err(Diagnostic::new(DiagnosticCode::DeploymentDuplicateResource))
            } else {
                Err(Diagnostic::new(DiagnosticCode::DeploymentUnsupportedCombination))
            }
        },
    }
}

/// Whether two strings hold the same text.
pub fn same_text(a: &String, b: &String) -> (r: bool)
    ensures
        r == (a@ == b@),
{
    crate::text::str_eq(a.as_str(), b.as_str())
}

/// Whether two string vectors hold the same texts in the same order.
pub fn same_texts(a: &Vec<String>, b: &Vec<String>) -> (r: bool)
    ensures
        r == (a@.map_values(|s: String| s@) == b@.map_values(|s: String| s@)),
{
    if a.len() != b.len() {
        assert(a@.map_values(|s: String| s@).len() != b@.map_values(|s: String| s@).len());
        return false;
    }
    let mut i: usize = 0;
    while i < a.len()
        invariant
            i <= a.len(),
            a.len() == b.len(),
            forall|j: int| 0 <= j < i ==> a@[j]@ == b@[j]@,
        decreases a.len() - i,
    {
        if !same_text(&a[i], &b[i]) {
            assert(a@.map_values(|s: String| s@)[i as int] != b@.map_values(|s: String| s@)[i as int]);
            return false;
        }
        i = i + 1;
    }
    assert(a@.map_values(|s: String| s@) =~= b@.map_values(|s: String| s@));
    true
}

/// The contents of a sequence of values.
pub open spec fn views<T: View>(s: Seq<T>) -> Seq<T::V> {
    s.map_values(|x: T| x@)
}

/// Whether two vectors hold values with the same contents in the same order.
pub fn same_vec<T: SameValue>(a: &Vec<T>, b: &Vec<T>) -> (r: bool)
    ensures
        r == (views(a@) == views(b@)),
{
    if a.len() != b.len() {
        assert(views(a@).len() != views(b@).len());
        return false;
    }
    let mut i: usize = 0;
    while i < a.len()
        invariant
            i <= a.len(),
            a.len() == b.len(),
            forall|j: int| 0 <= j < i ==> a@[j]@ == b@[j]@,
        decreases a.len() - i,
    {
        if !a[i].same_value(&b[i]) {
            assert(views(a@)[i as int] != views(b@)[i as int]);
            return false;
        }
        i = i + 1;
    }
    assert(views(a@) =~= views(b@));
    true
}

/// Whether two optional values have the same content.
pub fn same_option<T: SameValue>(a: &Option<T>, b: &Option<T>) -> (r: bool)
    ensures
        r == (opt_view(*a) == opt_view(*b)),
{
    match (a, b) {
        (Some(x), Some(y)) => x.same_value(y),
        (None, None) => true,
        _ => false,
    }
}

/// Values that can be copied together with their content.
pub trait Duplicate: View + Sized {
    /// A copy with the same content.
    fn duplicate_value(&self) -> (r: Self)
        ensures
            r@ == self@,
    ;
}

/// A copy of every element, in order.
pub fn duplicate_vec<T: Duplicate>(v: &Vec<T>) -> (r: Vec<T>)
    ensures
        views(r@) == views(v@),
{
    let mut out: Vec<T> = Vec::new();
    let mut i: usize = 0;
    while i < v.len()
        invariant
            i <= v.len(),
            views(out@) == views(v@).take(i as int),
        decreases v.len() - i,
    {
        let ghost before = views(out@);
        out.push(v[i].duplicate_value());
        assert(views(out@) =~= before.push(v@[i as int]@));
        assert(views(v@).take(i + 1) =~= views(v@).take(i as int).push(v@[i as int]@));
        i = i + 1;
    }
    assert(views(v@).take(v.len() as int) =~= views(v@));
    out
}

/// A copy of an optional value.
pub fn duplicate_option<T: Duplicate>(o: &Option<T>) -> (r: Option<T>)
    ensures
        opt_view(r) == opt_view(*o),
{
    match o {
        Some(v) => Some(v.duplicate_value()),
        None => None,
    }
}

/// A copy of every string, in order.
pub fn duplicate_strings(v: &Vec<String>) -> (r: Vec<String>)
    ensures
        r@ == v@,
{
    let mut out: Vec<String> = Vec::new();
    let mut i: usize = 0;
    while i < v.len()
        invariant
            i <= v.len(),
            out@ == v@.take(i as int),
        decreases v.len() - i,
    {
        out.push(v[i].clone());
        assert(out@ =~= v@.take(i + 1));
        i = i + 1;
    }
    assert(v@.take(v.len() as int) =~= v@);
    out
}

} // verus!
