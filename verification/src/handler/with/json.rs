//! JSON documents, and the two ways in which a body is held against one.

use crate::bindings::json::{
    json_document, json_pretty_text, json_text, parse_json, write_json, write_json_pretty,
};
use crate::error::Error;
use vstd::prelude::*;
use vstd::string::StringExecFns;

verus! {

/// A JSON number: a non-negative integer, a negative integer, or a binary
/// floating-point number given by the text that stands for it in JSON.
#[derive(Debug, Clone, PartialEq, Eq)]
pub enum Number {
    /// An integer that is not negative
    PosInt(u64),
    /// An integer that is negative
    NegInt(i64),
    /// A finite double, in its shortest text that reads back as the same
    /// double
    Float(String),
}

/// What a [`Number`] stands for.
pub enum NumberView {
    PosInt(u64),
    NegInt(i64),
    Float(Seq<char>),
}

impl View for Number {
    type V = NumberView;

    open spec fn view(&self) -> NumberView {
        match self {
            Number::PosInt(n) => NumberView::PosInt(*n),
            Number::NegInt(n) => NumberView::NegInt(*n),
            Number::Float(text) => NumberView::Float(text@),
        }
    }
}

/// The text of a double with `-0.0` written as `0.0`.
pub open spec fn unsigned_zero(text: Seq<char>) -> Seq<char> {
    if text == "-0.0"@ {
        "0.0"@
    } else {
        text
    }
}

/// Whether two numbers are the same number. The double `-0.0` is the same
/// number as `0.0`. An integer and a double are never the same number.
pub open spec fn same_number(a: NumberView, b: NumberView) -> bool {
    match (a, b) {
        (NumberView::PosInt(x), NumberView::PosInt(y)) => x == y,
        (NumberView::NegInt(x), NumberView::NegInt(y)) => x == y,
        (NumberView::Float(x), NumberView::Float(y)) => unsigned_zero(x) == unsigned_zero(y),
        _ => false,
    }
}

impl Number {
    /// Whether two numbers are the same number.
    pub fn equals(&self, other: &Number) -> (r: bool)
        ensures
            r == same_number(self@, other@),
    {
        match (self, other) {
            (Number::PosInt(a), Number::PosInt(b)) => *a == *b,
            (Number::NegInt(a), Number::NegInt(b)) => *a == *b,
            (Number::Float(a), Number::Float(b)) => {
                let negative_zero = String::from_str("-0.0");
                let zero = String::from_str("0.0");
                let a = if *a == negative_zero {
                    &zero
                } else {
                    a
                };
                let b = if *b == negative_zero {
                    &zero
                } else {
                    b
                };
                *a == *b
            },
            _ => false,
        }
    }
}

/// A JSON document.
#[derive(Debug, PartialEq, Eq)]
pub enum Json {
    Null,
    Bool(bool),
    Number(Number),
    String(String),
    Array(Vec<Json>),
    /// The members of an object, each with its key. Where a key stands more
    /// than once, the first member with it counts.
    Object(Vec<(String, Json)>),
}

/// What a [`Json`] stands for: the members of an object are a map.
pub enum JsonView {
    Null,
    Bool(bool),
    Number(NumberView),
    String(Seq<char>),
    Array(Seq<JsonView>),
    Object(Map<Seq<char>, JsonView>),
}

/// The index of the first member called `key`, where there is one.
pub open spec fn first_member(members: Seq<(String, Json)>, key: Seq<char>) -> Option<int>
    decreases members.len(),
{
    if members.len() == 0 {
        None
    } else if members[0].0@ == key {
        Some(0)
    } else {
        match first_member(members.drop_first(), key) {
            Some(i) => Some(i + 1),
            None => None,
        }
    }
}

/// `first_member` finds the least index with the key, or none where no
/// member has it.
pub proof fn first_member_is_first(members: Seq<(String, Json)>, key: Seq<char>)
    ensures
        match first_member(members, key) {
            Some(i) => {
                &&& 0 <= i < members.len()
                &&& members[i].0@ == key
                &&& forall|j: int| 0 <= j < i ==> (#[trigger] members[j]).0@ != key
            },
            None => forall|j: int| 0 <= j < members.len() ==> (#[trigger] members[j]).0@ != key,
        },
    decreases members.len(),
{
    if members.len() != 0 && members[0].0@ != key {
        let rest = members.drop_first();
        first_member_is_first(rest, key);
        match first_member(rest, key) {
            Some(i) => {
                assert forall|j: int| 0 <= j < i + 1 implies (#[trigger] members[j]).0@ != key by {
                    if j > 0 {
                        assert(rest[j - 1] == members[j]);
                    }
                }
            },
            None => {
                assert forall|j: int| 0 <= j < members.len() implies (#[trigger] members[j]).0@
                    != key by {
                    if j > 0 {
                        assert(rest[j - 1] == members[j]);
                    }
                }
            },
        }
    }
}

impl Json {
    pub open spec fn view(&self) -> JsonView
        decreases self,
    {
        match self {
            Json::Null => JsonView::Null,
            Json::Bool(b) => JsonView::Bool(*b),
            Json::Number(n) => JsonView::Number(n@),
            Json::String(s) => JsonView::String(s@),
            Json::Array(items) => JsonView::Array(
                Seq::new(
                    items@.len(),
                    |i: int|
                        if 0 <= i < items@.len() {
                            items@[i].view()
                        } else {
                            JsonView::Null
                        },
                ),
            ),
            Json::Object(members) => JsonView::Object(
                Map::new(
                    |key: Seq<char>| first_member(members@, key) is Some,
                    |key: Seq<char>|
                        match first_member(members@, key) {
                            Some(i) => if 0 <= i < members@.len() {
                                members@[i].1.view()
                            } else {
                                JsonView::Null
                            },
                            None => JsonView::Null,
                        },
                ),
            ),
        }
    }
}

/// Exact equality: whether two documents are the same document. Arrays are
/// the same where they have the same items in the same order, objects where
/// they have the same keys with the same values.
pub open spec fn same(a: JsonView, b: JsonView) -> bool
    decreases a,
{
    match a {
        JsonView::Null => b is Null,
        JsonView::Bool(x) => b == JsonView::Bool(x),
        JsonView::Number(x) => b matches JsonView::Number(y) && same_number(x, y),
        JsonView::String(x) => b == JsonView::String(x),
        JsonView::Array(items) => b matches JsonView::Array(others) && (items.len() == others.len()
            && forall|i: int| 0 <= i < items.len() ==> same(#[trigger] items[i], others[i])),
        JsonView::Object(members) => b matches JsonView::Object(others) && ((forall|
            key: Seq<char>,
        | #[trigger]
            members.dom().contains(key) == others.dom().contains(key)) && forall|key: Seq<char>|
         #[trigger]
            members.dom().contains(key) ==> same(members[key], others[key])),
    }
}

/// Partial containment: whether all that `expected` holds is found in
/// `actual`.
///
/// Every member of an expected object must be a member of the actual object,
/// under the same key, with a value that contains it in turn. Every item of
/// an expected array must be contained in some item of the actual array. Any
/// other document is contained only in an equal one. What `actual` holds
/// beyond that does not count.
pub open spec fn contained(expected: JsonView, actual: JsonView) -> bool
    decreases expected, 0nat,
{
    match expected {
        JsonView::Array(items) => match actual {
            JsonView::Array(others) => forall|i: int|
                0 <= i < items.len() ==> found_in(#[trigger] items[i], others),
            _ => false,
        },
        JsonView::Object(members) => match actual {
            JsonView::Object(others) => forall|key: Seq<char>| #[trigger]
                members.dom().contains(key) ==> others.dom().contains(key) && contained(
                    members[key],
                    others[key],
                ),
            _ => false,
        },
        _ => same(expected, actual),
    }
}

/// Whether some document of `others` contains `item`.
pub open spec fn found_in(item: JsonView, others: Seq<JsonView>) -> bool
    decreases item, 1nat,
{
    exists|j: int| 0 <= j < others.len() && contained(item, #[trigger] others[j])
}

/// Every document is the same as itself.
pub proof fn exact_equality_is_reflexive(a: JsonView)
    ensures
        same(a, a),
    decreases a,
{
    match a {
        JsonView::Array(items) => {
            assert forall|i: int| 0 <= i < items.len() implies same(
                #[trigger] items[i],
                items[i],
            ) by {
                exact_equality_is_reflexive(items[i]);
            }
        },
        JsonView::Object(members) => {
            assert forall|key: Seq<char>| #[trigger] members.dom().contains(key) implies same(
                members[key],
                members[key],
            ) by {
                exact_equality_is_reflexive(members[key]);
            }
        },
        _ => {},
    }
}

/// Exact equality is symmetric: two documents are the same whichever of them
/// is asked first.
pub proof fn exact_equality_is_symmetric(a: JsonView, b: JsonView)
    ensures
        same(a, b) == same(b, a),
    decreases a,
{
    if same(a, b) {
        same_the_other_way(a, b);
    }
    if same(b, a) {
        same_the_other_way(b, a);
    }
}

proof fn same_the_other_way(a: JsonView, b: JsonView)
    requires
        same(a, b),
    ensures
        same(b, a),
    decreases a,
{
    match a {
        JsonView::Array(items) => {
            let others = b->Array_0;
            assert forall|i: int| 0 <= i < others.len() implies same(
                #[trigger] others[i],
                items[i],
            ) by {
                assert(same(items[i], others[i]));
                same_the_other_way(items[i], others[i]);
            }
        },
        JsonView::Object(members) => {
            let others = b->Object_0;
            assert forall|key: Seq<char>| #[trigger] others.dom().contains(key) implies same(
                others[key],
                members[key],
            ) by {
                assert(members.dom().contains(key));
                same_the_other_way(members[key], others[key]);
            }
        },
        _ => {},
    }
}

/// A document holds all that it holds itself: equal documents contain each
/// other.
pub proof fn containment_is_reflexive(a: JsonView)
    ensures
        contained(a, a),
    decreases a,
{
    match a {
        JsonView::Array(items) => {
            assert forall|i: int| 0 <= i < items.len() implies found_in(
                #[trigger] items[i],
                items,
            ) by {
                containment_is_reflexive(items[i]);
            }
        },
        JsonView::Object(members) => {
            assert forall|key: Seq<char>| #[trigger]
                members.dom().contains(key) implies contained(members[key], members[key]) by {
                containment_is_reflexive(members[key]);
            }
        },
        _ => {},
    }
}

/// Containment goes one way only: an object with more members contains one
/// with fewer, and is not contained in it.
pub proof fn containment_is_one_way(key: Seq<char>, value: JsonView, other: Seq<char>)
    requires
        key != other,
    ensures
        contained(
            JsonView::Object(map![key => value]),
            JsonView::Object(map![key => value, other => value]),
        ),
        !contained(
            JsonView::Object(map![key => value, other => value]),
            JsonView::Object(map![key => value]),
        ),
{
    let small = map![key => value];
    let large = map![key => value, other => value];
    containment_is_reflexive(value);
    assert(large.dom().contains(other));
    assert(!small.dom().contains(other));
    assert forall|k: Seq<char>| #[trigger] small.dom().contains(k) implies large.dom().contains(k)
        && contained(small[k], large[k]) by {
        assert(k == key);
    }
    assert(contained(JsonView::Object(small), JsonView::Object(large)));
    let more = JsonView::Object(large);
    let less = JsonView::Object(small);
    if contained(more, less) {
        assert(more matches JsonView::Object(members) && members == large);
        assert(large.dom().contains(other));
        assert(small.dom().contains(other));
    }
}

/// Whether no two of the members have the same key.
pub open spec fn keys_distinct(members: Seq<(String, Json)>) -> bool {
    forall|i: int, j: int|
        0 <= i < j < members.len() ==> (#[trigger] members[i]).0@ != (#[trigger] members[j]).0@
}

/// Whether the first member called `key` in `kept`, where there is one,
/// stands for the same value as the first one in `members`.
pub open spec fn agrees(
    kept: Seq<(String, Json)>,
    members: Seq<(String, Json)>,
    key: Seq<char>,
) -> bool {
    match (first_member(kept, key), first_member(members, key)) {
        (Some(j), Some(f)) => 0 <= j < kept.len() && 0 <= f < members.len() && kept[j].1@
            == members[f].1@,
        (Some(_), None) => false,
        (None, _) => true,
    }
}

/// One more member at the end is the first of its key where no member
/// before it has that key, and changes nothing for the other keys.
pub proof fn first_member_push(members: Seq<(String, Json)>, member: (String, Json), key: Seq<char>)
    ensures
        first_member(members.push(member), key) == match first_member(members, key) {
            Some(i) => Some(i),
            None => if member.0@ == key {
                Some(members.len() as int)
            } else {
                None
            },
        },
{
    let more = members.push(member);
    first_member_is_first(members, key);
    first_member_is_first(more, key);
    match first_member(members, key) {
        Some(i) => {
            assert(more[i] == members[i]);
            match first_member(more, key) {
                Some(j) => {
                    if j < i {
                        assert(more[j] == members[j]);
                    }
                },
                None => {},
            }
        },
        None => {
            match first_member(more, key) {
                Some(j) => {
                    if j < members.len() {
                        assert(more[j] == members[j]);
                    }
                },
                None => {
                    assert(more[members.len() as int] == member);
                },
            }
        },
    }
}

/// Finds the first member called `key`.
pub fn find_member(members: &Vec<(String, Json)>, key: &String) -> (r: Option<usize>)
    ensures
        match r {
            Some(i) => first_member(members@, key@) == Some(i as int),
            None => first_member(members@, key@) is None,
        },
{
    proof {
        first_member_is_first(members@, key@);
    }
    let mut i: usize = 0;
    while i < members.len()
        invariant
            i <= members.len(),
            forall|j: int| 0 <= j < i ==> (#[trigger] members@[j]).0@ != key@,
        decreases members.len() - i,
    {
        if members[i].0 == *key {
            proof {
                first_member_is_first(members@, key@);
                let first = first_member(members@, key@);
                assert(members@[i as int].0@ == key@);
                if let Some(f) = first {
                    if f < i {
                        assert(members@[f].0@ == key@);
                    }
                }
            }
            return Some(i);
        }
        i += 1;
    }
    None
}

impl Json {
    /// Whether no object in the document has two members with one key.
    pub open spec fn distinct(&self) -> bool
        decreases self,
    {
        match self {
            Json::Array(items) => forall|i: int|
                0 <= i < items@.len() ==> (#[trigger] items@[i]).distinct(),
            Json::Object(members) => keys_distinct(members@) && forall|i: int|
                0 <= i < members@.len() ==> (#[trigger] members@[i]).1.distinct(),
            _ => true,
        }
    }

    /// The same document, with the first member of each key only.
    #[verifier::loop_isolation(false)]
    pub fn without_repeats(&self) -> (r: Json)
        ensures
            r@ == self@,
            r.distinct(),
        decreases self,
    {
        match self {
            Json::Null => Json::Null,
            Json::Bool(b) => Json::Bool(*b),
            Json::Number(Number::PosInt(n)) => Json::Number(Number::PosInt(*n)),
            Json::Number(Number::NegInt(n)) => Json::Number(Number::NegInt(*n)),
            Json::Number(Number::Float(text)) => Json::Number(Number::Float(text.clone())),
            Json::String(s) => Json::String(s.clone()),
            Json::Array(items) => {
                let mut kept: Vec<Json> = Vec::new();
                let mut i: usize = 0;
                while i < items.len()
                    invariant
                        i <= items.len(),
                        kept@.len() == i,
                        forall|k: int|
                            0 <= k < i ==> (#[trigger] kept@[k])@ == items@[k]@
                                && kept@[k].distinct(),
                    decreases items.len() - i,
                {
                    kept.push(items[i].without_repeats());
                    i += 1;
                }
                let r = Json::Array(kept);
                assert(r@->Array_0 =~= self@->Array_0);
                r
            },
            Json::Object(members) => {
                let mut kept: Vec<(String, Json)> = Vec::new();
                let mut i: usize = 0;
                proof {
                    assert forall|key: Seq<char>|
                        (#[trigger] first_member(kept@, key) is Some) == (first_member(
                            members@,
                            key,
                        ) matches Some(f) && f < 0) by {
                        first_member_is_first(members@, key);
                    }
                }
                while i < members.len()
                    invariant
                        i <= members.len(),
                        forall|k: int|
                            0 <= k < kept@.len() ==> (#[trigger] kept@[k]).1.distinct(),
                        forall|k: int|
                            0 <= k < kept@.len() ==> first_member(
                                kept@,
                                (#[trigger] kept@[k]).0@,
                            ) == Some(k),
                        forall|key: Seq<char>|
                            (#[trigger] first_member(kept@, key) is Some) == (first_member(
                                members@,
                                key,
                            ) matches Some(f) && f < i),
                        forall|key: Seq<char>| #[trigger] agrees(kept@, members@, key),
                    decreases members.len() - i,
                {
                    let key = &members[i].0;
                    let ghost before = kept@;
                    proof {
                        first_member_is_first(members@, key@);
                    }
                    let first = find_member(members, key);
                    let is_first = match first {
                        Some(f) => f == i,
                        None => false,
                    };
                    if is_first {
                        let member = (key.clone(), members[i].1.without_repeats());
                        kept.push(member);
                        proof {
                            assert forall|other: Seq<char>| true implies #[trigger] first_member(
                                kept@,
                                other,
                            ) == match first_member(before, other) {
                                Some(j) => Some(j),
                                None => if key@ == other {
                                    Some(before.len() as int)
                                } else {
                                    None
                                },
                            } by {
                                first_member_push(before, member, other);
                            }
                            assert(first_member(before, key@) is None);
                            assert forall|k: int| 0 <= k < kept@.len() implies first_member(
                                kept@,
                                (#[trigger] kept@[k]).0@,
                            ) == Some(k) by {
                                if k < before.len() {
                                    assert(kept@[k] == before[k]);
                                }
                            }
                            assert forall|other: Seq<char>|
                                (#[trigger] first_member(kept@, other) is Some) == (first_member(
                                    members@,
                                    other,
                                ) matches Some(f) && f < i + 1) by {
                                first_member_is_first(members@, other);
                            }
                            assert forall|other: Seq<char>| #[trigger]
                                agrees(kept@, members@, other) by {
                                first_member_is_first(members@, other);
                                assert(agrees(before, members@, other));
                                if let Some(j) = first_member(kept@, other) {
                                    if j < before.len() {
                                        assert(kept@[j] == before[j]);
                                    }
                                }
                            }
                        }
                    } else {
                        proof {
                            assert forall|other: Seq<char>|
                                (#[trigger] first_member(kept@, other) is Some) == (first_member(
                                    members@,
                                    other,
                                ) matches Some(f) && f < i + 1) by {
                                first_member_is_first(members@, other);
                            }
                        }
                    }
                    i += 1;
                }
                let r = Json::Object(kept);
                proof {
                    let xs = r@->Object_0;
                    let ys = self@->Object_0;
                    assert forall|key: Seq<char>| xs.dom().contains(key) == ys.dom().contains(
                        key,
                    ) by {
                        first_member_is_first(members@, key);
                    }
                    assert forall|key: Seq<char>| xs.dom().contains(key) implies xs[key]
                        == ys[key] by {
                        first_member_is_first(members@, key);
                        first_member_is_first(kept@, key);
                        assert(agrees(kept@, members@, key));
                    }
                    assert(xs =~= ys);
                    assert forall|a: int, b: int| 0 <= a < b < kept@.len() implies (
                    #[trigger] kept@[a]).0@ != (#[trigger] kept@[b]).0@ by {
                        assert(first_member(kept@, kept@[a].0@) == Some(a));
                        assert(first_member(kept@, kept@[b].0@) == Some(b));
                    }
                }
                r
            },
        }
    }

    /// Reads a document from its text.
    ///
    /// Fails where the text is no JSON document.
    pub fn parse(text: &str) -> (r: Result<Json, Error>)
        ensures
            match r {
                Ok(document) => json_document(text@) == Some(document@),
                Err(err) => json_document(text@) is None && err is Json,
            },
    {
        match parse_json(text) {
            Ok(document) => Ok(document),
            Err(message) => Err(Error::Json(message)),
        }
    }

    /// Writes the document out as text. Of the members of an object with
    /// one key, the first is written.
    pub fn to_text(&self) -> (r: String)
        ensures
            r@ == json_text(self@),
    {
        write_json(&self.without_repeats())
    }

    /// Writes the document out as text in lines, with indentation.
    pub fn to_pretty_text(&self) -> (r: String)
        ensures
            r@ == json_pretty_text(self@),
    {
        write_json_pretty(&self.without_repeats())
    }

    /// Exact equality: whether two documents are the same document. The
    /// order of an object's members does not count.
    #[verifier::loop_isolation(false)]
    pub fn equals(&self, other: &Json) -> (r: bool)
        ensures
            r == same(self@, other@),
        decreases self,
    {
        match self {
            Json::Null => match other {
                Json::Null => true,
                _ => false,
            },
            Json::Bool(a) => match other {
                Json::Bool(b) => *a == *b,
                _ => false,
            },
            Json::Number(a) => match other {
                Json::Number(b) => a.equals(b),
                _ => false,
            },
            Json::String(a) => match other {
                Json::String(b) => *a == *b,
                _ => false,
            },
            Json::Array(items) => match other {
                Json::Array(others) => {
                    let ghost xs = self@->Array_0;
                    let ghost ys = other@->Array_0;
                    if items.len() != others.len() {
                        assert(xs.len() != ys.len());
                        return false;
                    }
                    let mut i: usize = 0;
                    while i < items.len()
                        invariant
                            i <= items.len(),
                            forall|k: int| 0 <= k < i ==> same(#[trigger] xs[k], ys[k]),
                        decreases items.len() - i,
                    {
                        if !items[i].equals(&others[i]) {
                            assert(!same(xs[i as int], ys[i as int]));
                            return false;
                        }
                        i += 1;
                    }
                    true
                },
                _ => false,
            },
            Json::Object(members) => match other {
                Json::Object(others) => {
                    let ghost xs = self@->Object_0;
                    let ghost ys = other@->Object_0;
                    let mut i: usize = 0;
                    while i < members.len()
                        invariant
                            i <= members.len(),
                            forall|k: int|
                                0 <= k < i ==> xs.dom().contains((#[trigger] members@[k]).0@)
                                    && ys.dom().contains(members@[k].0@) && same(
                                    xs[members@[k].0@],
                                    ys[members@[k].0@],
                                ),
                        decreases members.len() - i,
                    {
                        let key = &members[i].0;
                        proof {
                            first_member_is_first(members@, key@);
                            first_member_is_first(others@, key@);
                        }
                        let first = find_member(members, key);
                        let there = find_member(others, key);
                        match (first, there) {
                            (Some(f), Some(j)) => {
                                if !members[f].1.equals(&others[j].1) {
                                    assert(xs.dom().contains(key@));
                                    assert(!same(xs[key@], ys[key@]));
                                    return false;
                                }
                            },
                            _ => {
                                assert(xs.dom().contains(key@));
                                assert(!ys.dom().contains(key@));
                                return false;
                            },
                        }
                        i += 1;
                    }
                    let mut j: usize = 0;
                    while j < others.len()
                        invariant
                            j <= others.len(),
                            forall|k: int|
                                0 <= k < j ==> xs.dom().contains((#[trigger] others@[k]).0@),
                        decreases others.len() - j,
                    {
                        let key = &others[j].0;
                        proof {
                            first_member_is_first(others@, key@);
                        }
                        if find_member(members, key).is_none() {
                            assert(ys.dom().contains(key@));
                            assert(!xs.dom().contains(key@));
                            return false;
                        }
                        j += 1;
                    }
                    proof {
                        assert forall|key: Seq<char>|
                            xs.dom().contains(key) == ys.dom().contains(key) by {
                            first_member_is_first(members@, key);
                            first_member_is_first(others@, key);
                            if let Some(f) = first_member(members@, key) {
                                assert(members@[f].0@ == key);
                            }
                            if let Some(f) = first_member(others@, key) {
                                assert(others@[f].0@ == key);
                            }
                        }
                        assert forall|key: Seq<char>| #[trigger]
                            xs.dom().contains(key) implies same(xs[key], ys[key]) by {
                            first_member_is_first(members@, key);
                            let f = first_member(members@, key)->Some_0;
                            assert(members@[f].0@ == key);
                        }
                    }
                    true
                },
                _ => false,
            },
        }
    }

    /// Partial containment: whether all that `self` holds is found in
    /// `actual`.
    #[verifier::loop_isolation(false)]
    pub fn is_contained_in(&self, actual: &Json) -> (r: bool)
        ensures
            r == contained(self@, actual@),
        decreases self,
    {
        match self {
            Json::Array(items) => match actual {
                Json::Array(others) => {
                    let ghost xs = self@->Array_0;
                    let ghost ys = actual@->Array_0;
                    let mut i: usize = 0;
                    while i < items.len()
                        invariant
                            i <= items.len(),
                            forall|k: int| 0 <= k < i ==> found_in(#[trigger] xs[k], ys),
                        decreases items.len() - i,
                    {
                        let mut j: usize = 0;
                        let mut found = false;
                        while j < others.len() && !found
                            invariant
                                j <= others.len(),
                                found ==> found_in(xs[i as int], ys),
                                forall|m: int|
                                    0 <= m < j ==> !contained(xs[i as int], #[trigger] ys[m]),
                            decreases others.len() - j + if found { 0int } else { 1int },
                        {
                            if items[i].is_contained_in(&others[j]) {
                                assert(contained(xs[i as int], ys[j as int]));
                                found = true;
                            } else {
                                j += 1;
                            }
                        }
                        if !found {
                            assert(!found_in(xs[i as int], ys));
                            return false;
                        }
                        i += 1;
                    }
                    true
                },
                _ => false,
            },
            Json::Object(members) => match actual {
                Json::Object(others) => {
                    let ghost xs = self@->Object_0;
                    let ghost ys = actual@->Object_0;
                    let mut i: usize = 0;
                    while i < members.len()
                        invariant
                            i <= members.len(),
                            forall|k: int|
                                0 <= k < i ==> xs.dom().contains((#[trigger] members@[k]).0@)
                                    && ys.dom().contains(members@[k].0@) && contained(
                                    xs[members@[k].0@],
                                    ys[members@[k].0@],
                                ),
                        decreases members.len() - i,
                    {
                        let key = &members[i].0;
                        proof {
                            first_member_is_first(members@, key@);
                            first_member_is_first(others@, key@);
                        }
                        let first = find_member(members, key);
                        let there = find_member(others, key);
                        match (first, there) {
                            (Some(f), Some(j)) => {
                                if !members[f].1.is_contained_in(&others[j].1) {
                                    assert(xs.dom().contains(key@));
                                    assert(!contained(xs[key@], ys[key@]));
                                    return false;
                                }
                            },
                            _ => {
                                assert(xs.dom().contains(key@));
                                assert(!ys.dom().contains(key@));
                                return false;
                            },
                        }
                        i += 1;
                    }
                    proof {
                        assert forall|key: Seq<char>| #[trigger]
                            xs.dom().contains(key) implies ys.dom().contains(key) && contained(
                            xs[key],
                            ys[key],
                        ) by {
                            first_member_is_first(members@, key);
                            let f = first_member(members@, key)->Some_0;
                            assert(members@[f].0@ == key);
                        }
                    }
                    true
                },
                _ => false,
            },
            _ => self.equals(actual),
        }
    }
}

/// Uni-directional matches for JSON documents
///
/// This will return true if all of the properties or items of `self` are in `other`, but does not
/// check if the inverse is true.
pub trait JsonEq {
    /// Whether all of `self` is found in `other`.
    spec fn found(&self, other: &Self) -> bool;

    /// Checks whether all of `self` is found in `other`.
    fn json_eq(&self, other: &Self) -> (r: bool)
        ensures
            r == self.found(other),
    ;
}

impl JsonEq for Json {
    open spec fn found(&self, other: &Self) -> bool {
        contained(self@, other@)
    }

    fn json_eq(&self, other: &Self) -> (r: bool) {
        self.is_contained_in(other)
    }
}

impl JsonEq for String {
    /// A text is found in an equal text only.
    open spec fn found(&self, other: &Self) -> bool {
        self@ == other@
    }

    fn json_eq(&self, other: &Self) -> (r: bool) {
        *self == *other
    }
}

} // verus!
