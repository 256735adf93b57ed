//! Checks on the headers of a request.

use crate::bindings::itertools::{byte_strings, bytes_le, bytes_order, sorted};
use crate::message::{copy_bytes, headers_view, values_of, Header, HeaderView};
use vstd::prelude::*;
use vstd::relations::{sorted_by, total_ordering};
use vstd::seq_lib::lemma_sorted_unique;

verus! {

/// Type of check to perform on headers
///
/// An HTTP request can have multiple entries with the same header name
#[derive(Debug, Clone, PartialEq, Eq)]
pub enum HeaderCheck {
    /// At least one entry correspond to the pattern
    AtLeastOnce(Vec<u8>),
    /// There is only one key corresponding to the pattern
    ExactlyOnce(Vec<u8>),
    /// All entries correspond to the pattern
    All(Vec<Vec<u8>>),
}

/// What a [`HeaderCheck`] stands for.
pub enum HeaderCheckView {
    AtLeastOnce(Seq<u8>),
    ExactlyOnce(Seq<u8>),
    All(Seq<Seq<u8>>),
}

impl View for HeaderCheck {
    type V = HeaderCheckView;

    open spec fn view(&self) -> HeaderCheckView {
        match self {
            HeaderCheck::AtLeastOnce(value) => HeaderCheckView::AtLeastOnce(value@),
            HeaderCheck::ExactlyOnce(value) => HeaderCheckView::ExactlyOnce(value@),
            HeaderCheck::All(values) => HeaderCheckView::All(byte_strings(values@)),
        }
    }
}

/// Whether the headers called `key` meet `check`.
///
/// `AtLeastOnce`: one of them has the value. `ExactlyOnce`: there is one
/// only, and it has the value. `All`: their values are the given ones, each
/// as often as it is given, in any order.
pub open spec fn header_check_holds(
    headers: Seq<HeaderView>,
    key: Seq<char>,
    check: HeaderCheckView,
) -> bool {
    let found = values_of(headers, key);
    match check {
        HeaderCheckView::AtLeastOnce(value) => found.contains(value),
        HeaderCheckView::ExactlyOnce(value) => found.len() == 1 && found[0] == value,
        HeaderCheckView::All(values) => found.to_multiset() == values.to_multiset(),
    }
}

/// Where a request has two or more headers of one name, and one of them has
/// the expected value, the check for exactly one fails and the check for at
/// least one holds.
pub proof fn repeated_header_is_not_exactly_once(
    headers: Seq<HeaderView>,
    key: Seq<char>,
    value: Seq<u8>,
)
    requires
        values_of(headers, key).len() >= 2,
        values_of(headers, key).contains(value),
    ensures
        !header_check_holds(headers, key, HeaderCheckView::ExactlyOnce(value)),
        header_check_holds(headers, key, HeaderCheckView::AtLeastOnce(value)),
{
}

proof fn bytes_le_reflexive(a: Seq<u8>)
    ensures
        bytes_le(a, a),
    decreases a.len(),
{
    if a.len() != 0 {
        bytes_le_reflexive(a.drop_first());
    }
}

proof fn bytes_le_antisymmetric(a: Seq<u8>, b: Seq<u8>)
    requires
        bytes_le(a, b),
        bytes_le(b, a),
    ensures
        a == b,
    decreases a.len(),
{
    if a.len() != 0 {
        bytes_le_antisymmetric(a.drop_first(), b.drop_first());
        assert(a =~= seq![a[0]] + a.drop_first());
        assert(b =~= seq![b[0]] + b.drop_first());
    } else {
        assert(a =~= b);
    }
}

proof fn bytes_le_transitive(a: Seq<u8>, b: Seq<u8>, c: Seq<u8>)
    requires
        bytes_le(a, b),
        bytes_le(b, c),
    ensures
        bytes_le(a, c),
    decreases a.len(),
{
    if a.len() != 0 && a[0] == b[0] && b[0] == c[0] {
        bytes_le_transitive(a.drop_first(), b.drop_first(), c.drop_first());
    }
}

proof fn bytes_le_connected(a: Seq<u8>, b: Seq<u8>)
    ensures
        bytes_le(a, b) || bytes_le(b, a),
    decreases a.len(),
{
    if a.len() != 0 && b.len() != 0 && a[0] == b[0] {
        bytes_le_connected(a.drop_first(), b.drop_first());
    }
}

/// The order of byte strings is a total order.
pub proof fn bytes_order_is_total()
    ensures
        total_ordering(bytes_order()),
{
    let le = bytes_order();
    assert forall|x: Seq<u8>| #[trigger] le(x, x) by {
        bytes_le_reflexive(x);
    }
    assert forall|x: Seq<u8>, y: Seq<u8>| #[trigger] le(x, y) && #[trigger] le(y, x) implies x
        == y by {
        bytes_le_antisymmetric(x, y);
    }
    assert forall|x: Seq<u8>, y: Seq<u8>, z: Seq<u8>| #[trigger]
        le(x, y) && #[trigger] le(y, z) implies le(x, z) by {
        bytes_le_transitive(x, y, z);
    }
    assert forall|x: Seq<u8>, y: Seq<u8>| #[trigger] le(x, y) || #[trigger] le(y, x) by {
        bytes_le_connected(x, y);
    }
}

/// Whether two byte strings are equal.
pub fn bytes_eq(a: &Vec<u8>, b: &Vec<u8>) -> (r: bool)
    ensures
        r == (a@ == b@),
{
    if a.len() != b.len() {
        return false;
    }
    let mut i: usize = 0;
    while i < a.len()
        invariant
            i <= a.len(),
            a.len() == b.len(),
            forall|k: int| 0 <= k < i ==> a@[k] == b@[k],
        decreases a.len() - i,
    {
        if a[i] != b[i] {
            return false;
        }
        i += 1;
    }
    assert(a@ =~= b@);
    true
}

/// Whether two lists hold the same byte strings in the same order.
pub fn byte_strings_eq(a: &Vec<Vec<u8>>, b: &Vec<Vec<u8>>) -> (r: bool)
    ensures
        r == (byte_strings(a@) == byte_strings(b@)),
{
    if a.len() != b.len() {
        assert(byte_strings(a@).len() != byte_strings(b@).len());
        return false;
    }
    let mut i: usize = 0;
    while i < a.len()
        invariant
            i <= a.len(),
            a.len() == b.len(),
            forall|k: int| 0 <= k < i ==> byte_strings(a@)[k] == byte_strings(b@)[k],
        decreases a.len() - i,
    {
        if !bytes_eq(&a[i], &b[i]) {
            assert(byte_strings(a@)[i as int] != byte_strings(b@)[i as int]);
            return false;
        }
        i += 1;
    }
    assert(byte_strings(a@) =~= byte_strings(b@));
    true
}

/// One more header at the end adds its value to those of its name, and
/// nothing to those of another name.
pub proof fn values_of_push(headers: Seq<HeaderView>, header: HeaderView, key: Seq<char>)
    ensures
        values_of(headers.push(header), key) == if header.name == key {
            values_of(headers, key).push(header.value)
        } else {
            values_of(headers, key)
        },
{
    reveal(Seq::filter);
    let all = headers.push(header);
    let named = |h: HeaderView| h.name == key;
    assert(all.drop_last() =~= headers);
    assert(all.last() == header);
    assert(all.filter(named) == if named(header) {
        headers.filter(named).push(header)
    } else {
        headers.filter(named)
    });
    if header.name == key {
        assert(values_of(all, key) =~= values_of(headers, key).push(header.value));
    }
}

/// The values of the headers called `key`, in the order of the list.
pub fn header_values(headers: &Vec<Header>, key: &String) -> (r: Vec<Vec<u8>>)
    ensures
        byte_strings(r@) == values_of(headers_view(headers@), key@),
{
    let mut found: Vec<Vec<u8>> = Vec::new();
    let mut i: usize = 0;
    assert(headers_view(headers@.take(0)) =~= Seq::empty());
    assert(byte_strings(found@) =~= values_of(Seq::empty(), key@));
    while i < headers.len()
        invariant
            i <= headers.len(),
            byte_strings(found@) == values_of(headers_view(headers@.take(i as int)), key@),
        decreases headers.len() - i,
    {
        proof {
            values_of_push(headers_view(headers@.take(i as int)), headers@[i as int]@, key@);
            assert(headers_view(headers@.take(i + 1)) =~= headers_view(
                headers@.take(i as int),
            ).push(headers@[i as int]@));
        }
        if headers[i].name == *key {
            let ghost before = found@;
            found.push(copy_bytes(&headers[i].value));
            assert(byte_strings(found@) =~= byte_strings(before).push(headers@[i as int].value@));
        }
        i += 1;
    }
    assert(headers@.take(headers@.len() as int) =~= headers@);
    found
}

/// Whether one of `values` is `value`.
pub fn holds_value(values: &Vec<Vec<u8>>, value: &Vec<u8>) -> (r: bool)
    ensures
        r == byte_strings(values@).contains(value@),
{
    let mut i: usize = 0;
    while i < values.len()
        invariant
            i <= values.len(),
            forall|k: int| 0 <= k < i ==> byte_strings(values@)[k] != value@,
        decreases values.len() - i,
    {
        if bytes_eq(&values[i], value) {
            assert(byte_strings(values@)[i as int] == value@);
            return true;
        }
        i += 1;
    }
    false
}

/// Check headers against key-value pair
pub fn check_headers(req_headers: &Vec<Header>, key: &String, value: &HeaderCheck) -> (r: bool)
    ensures
        r == header_check_holds(headers_view(req_headers@), key@, value@),
{
    let found = header_values(req_headers, key);
    match value {
        HeaderCheck::AtLeastOnce(value) => holds_value(&found, value),
        HeaderCheck::ExactlyOnce(value) => found.len() == 1 && bytes_eq(&found[0], value),
        HeaderCheck::All(values) => {
            let actual = sorted(&found);
            let expected = sorted(values);
            proof {
                if byte_strings(found@).to_multiset() == byte_strings(values@).to_multiset() {
                    bytes_order_is_total();
                    lemma_sorted_unique(
                        byte_strings(actual@),
                        byte_strings(expected@),
                        bytes_order(),
                    );
                }
            }
            byte_strings_eq(&actual, &expected)
        },
    }
}

} // verus!
