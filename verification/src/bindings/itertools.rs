//! Sorting, as `itertools` does it.

use itertools::Itertools;
use vstd::prelude::*;
use vstd::relations::sorted_by;

verus! {

/// The order of byte strings: at the first place where two differ the lesser
/// byte decides, and a string comes before those that it begins.
pub open spec fn bytes_le(a: Seq<u8>, b: Seq<u8>) -> bool
    decreases a.len(),
{
    if a.len() == 0 {
        true
    } else if b.len() == 0 {
        false
    } else if a[0] != b[0] {
        a[0] < b[0]
    } else {
        bytes_le(a.drop_first(), b.drop_first())
    }
}

/// `bytes_le` as a relation.
pub open spec fn bytes_order() -> spec_fn(Seq<u8>, Seq<u8>) -> bool {
    |a: Seq<u8>, b: Seq<u8>| bytes_le(a, b)
}

/// The byte strings that a list holds, in the same order.
pub open spec fn byte_strings(values: Seq<Vec<u8>>) -> Seq<Seq<u8>> {
    values.map_values(|v: Vec<u8>| v@)
}

/// Calls `Itertools::sorted` on the items of `values`.
///
/// Assumed: the result holds the same byte strings, each as often as
/// `values` does, in ascending order. The order of `Vec<u8>` is that of
/// slices, which compares byte by byte.
#[verifier::external_body]
pub(crate) fn sorted(values: &Vec<Vec<u8>>) -> (r: Vec<Vec<u8>>)
    ensures
        byte_strings(r@).to_multiset() == byte_strings(values@).to_multiset(),
        sorted_by(byte_strings(r@), bytes_order()),
{
    values.iter().sorted().cloned().collect()
}

} // verus!
