//! JSON documents as plain data, with the operations on them that the rest of the library needs.

use crate::text::{
    char_from, chars_of, comes_before, parse_unsigned, replace_text, same_text, text_of,
};
use vstd::prelude::*;

verus! {

/// A number of a document.
#[derive(Debug, Clone)]
pub struct JsonNumber {
    /// The number as it is written out.
    pub text: String,
    /// The value, where it is an integer that fits `i64`.
    pub signed: Option<i64>,
    /// The value, where it is an integer that fits `u64`.
    pub unsigned: Option<u64>,
    /// The bit pattern of the nearest double-precision value.
    pub bits: u64,
    /// The nearest double-precision value in decimal, without an exponent.
    pub decimal: String,
}

/// A JSON value. The members of an object are sorted by key and no key occurs twice.
#[derive(Debug)]
pub enum Json {
    Null,
    Bool(bool),
    Number(JsonNumber),
    Text(String),
    Array(Vec<Json>),
    Object(Vec<Member>),
}

/// One member of an object.
#[derive(Debug)]
pub struct Member {
    pub key: String,
    pub value: Json,
}

/// The mathematical value of a number.
pub struct NumberView {
    pub text: Seq<char>,
    pub signed: Option<i64>,
    pub unsigned: Option<u64>,
    pub bits: u64,
    pub decimal: Seq<char>,
}

/// The mathematical value of a document.
pub enum JsonView {
    Null,
    Bool(bool),
    Number(NumberView),
    Text(Seq<char>),
    Array(Seq<JsonView>),
    Object(Seq<(Seq<char>, JsonView)>),
}

impl View for JsonNumber {
    type V = NumberView;

    open spec fn view(&self) -> NumberView {
        NumberView {
            text: self.text@,
            signed: self.signed,
            unsigned: self.unsigned,
            bits: self.bits,
            decimal: self.decimal@,
        }
    }
}

/// The values of a list of documents.
pub open spec fn items_view(items: Seq<Json>) -> Seq<JsonView> {
    Seq::new(items.len(), |i: int| json_view(items[i]))
}

/// The values of a list of members.
pub open spec fn members_view(members: Seq<Member>) -> Seq<(Seq<char>, JsonView)> {
    Seq::new(members.len(), |i: int| (members[i].key@, json_view(members[i].value)))
}

/// The value of a document.
pub open spec fn json_view(json: Json) -> JsonView
    decreases json,
{
    match json {
        Json::Null => JsonView::Null,
        Json::Bool(b) => JsonView::Bool(b),
        Json::Number(n) => JsonView::Number(n@),
        Json::Text(s) => JsonView::Text(s@),
        Json::Array(items) => JsonView::Array(
            Seq::new(
                items@.len(),
                |i: int|
                    if 0 <= i < items@.len() {
                        json_view(items@[i])
                    } else {
                        arbitrary()
                    },
            ),
        ),
        Json::Object(members) => JsonView::Object(
            Seq::new(
                members@.len(),
                |i: int|
                    if 0 <= i < members@.len() {
                        (members@[i].key@, json_view(members@[i].value))
                    } else {
                        arbitrary()
                    },
            ),
        ),
    }
}

impl View for Json {
    type V = JsonView;

    open spec fn view(&self) -> JsonView {
        json_view(*self)
    }
}

/// Makes a member.
pub fn member(key: &str, value: Json) -> (m: Member)
    ensures
        m.key@ == key@,
        m.value@ == value@,
{
    Member { key: key.to_owned(), value }
}

/// The value of an optional document.
pub open spec fn json_option(json: Option<Json>) -> Option<JsonView> {
    match json {
        Some(json) => Some(json@),
        None => None,
    }
}

/// An array's value is the list of its items' values.
pub broadcast proof fn array_view(items: Vec<Json>)
    ensures
        #[trigger] json_view(Json::Array(items)) == JsonView::Array(items_view(items@)),
{
    assert(json_view(Json::Array(items))->Array_0 =~= items_view(items@));
}

/// An object's value is the list of its members' keys and values.
pub broadcast proof fn object_view(members: Vec<Member>)
    ensures
        #[trigger] json_view(Json::Object(members)) == JsonView::Object(members_view(members@)),
{
    assert(json_view(Json::Object(members))->Object_0 =~= members_view(members@));
}

/// The value under `key`, if some member has that key.
pub open spec fn lookup(members: Seq<(Seq<char>, JsonView)>, key: Seq<char>) -> Option<JsonView>
    decreases members.len(),
{
    if members.len() == 0 {
        None
    } else if members[0].0 == key {
        Some(members[0].1)
    } else {
        lookup(members.skip(1), key)
    }
}

/// What `lookup` finds is the value of the first member with that key, a part of the object.
pub proof fn lookup_position(members: Seq<(Seq<char>, JsonView)>, key: Seq<char>) -> (i: int)
    ensures
        lookup(members, key) is Some <==> 0 <= i < members.len(),
        lookup(members, key) is Some ==> members[i].0 == key && lookup(members, key) == Some(
            members[i].1,
        ) && decreases_to!(members => members[i].1),
        lookup(members, key) is None ==> forall|k: int|
            0 <= k < members.len() ==> (#[trigger] members[k]).0 != key,
        forall|k: int| 0 <= k < i && k < members.len() ==> (#[trigger] members[k]).0 != key,
    decreases members.len(),
{
    if members.len() == 0 {
        -1
    } else if members[0].0 == key {
        assert(decreases_to!(members => members[0]));
        assert(decreases_to!(members[0] => members[0].1));
        0
    } else {
        let rest = members.skip(1);
        let j = lookup_position(rest, key);
        if lookup(rest, key) is Some {
            assert(rest[j] == members[j + 1]);
            assert(decreases_to!(members => members[j + 1]));
            assert(decreases_to!(members[j + 1] => members[j + 1].1));
            assert forall|k: int| 0 <= k < j + 1 && k < members.len() implies (
            #[trigger] members[k]).0 != key by {
                if k > 0 {
                    assert(rest[k - 1] == members[k]);
                }
            }
            j + 1
        } else {
            assert forall|k: int| 0 <= k < members.len() implies (#[trigger] members[k]).0 != key by {
                if k > 0 {
                    assert(rest[k - 1] == members[k]);
                }
            }
            -1
        }
    }
}

/// The first position whose member has `key` decides the lookup.
pub proof fn lookup_at(members: Seq<(Seq<char>, JsonView)>, key: Seq<char>, i: int)
    requires
        0 <= i < members.len(),
        members[i].0 == key,
        forall|k: int| 0 <= k < i ==> (#[trigger] members[k]).0 != key,
    ensures
        lookup(members, key) == Some(members[i].1),
{
    let j = lookup_position(members, key);
    if lookup(members, key) is Some && j < i {
        assert(members[j].0 != key);
    }
}

/// The value of member `key` of an object; `None` for anything but an object.
pub open spec fn field(json: JsonView, key: Seq<char>) -> Option<JsonView> {
    match json {
        JsonView::Object(members) => lookup(members, key),
        _ => None,
    }
}

/// A field is a proper part of the document that holds it.
pub broadcast proof fn field_is_part(json: JsonView, key: Seq<char>)
    ensures
        (#[trigger] field(json, key)) is Some ==> decreases_to!(json => field(json, key)->0),
{
    if let JsonView::Object(members) = json {
        let i = lookup_position(members, key);
        assert(decreases_to!(json => members));
    }
}

/// The items of an array; `None` for anything but an array.
pub open spec fn array_items(json: JsonView) -> Option<Seq<JsonView>> {
    match json {
        JsonView::Array(items) => Some(items),
        _ => None,
    }
}

/// The text of a string; `None` for anything but a string.
pub open spec fn text_value(json: JsonView) -> Option<Seq<char>> {
    match json {
        JsonView::Text(s) => Some(s),
        _ => None,
    }
}

/// The value of member `key`, where it is an array.
pub open spec fn array_field(json: JsonView, key: Seq<char>) -> Option<Seq<JsonView>> {
    match field(json, key) {
        Some(value) => array_items(value),
        None => None,
    }
}

/// The value of member `key`, where it is a string.
pub open spec fn text_field(json: JsonView, key: Seq<char>) -> Option<Seq<char>> {
    match field(json, key) {
        Some(value) => text_value(value),
        None => None,
    }
}

/// The value of member `key`, where it is an object.
pub open spec fn object_field(json: JsonView, key: Seq<char>) -> Option<
    Seq<(Seq<char>, JsonView)>,
> {
    match field(json, key) {
        Some(JsonView::Object(members)) => Some(members),
        _ => None,
    }
}

/// The value of member `key`, where it is an integer that fits `u64`.
pub open spec fn unsigned_field(json: JsonView, key: Seq<char>) -> Option<u64> {
    match field(json, key) {
        Some(JsonView::Number(n)) => n.unsigned,
        _ => None,
    }
}

/// The position of a double-precision value among all of them, from its bit pattern. Both zeros
/// have position 0.
pub open spec fn rank(bits: u64) -> int {
    if bits < 0x8000_0000_0000_0000 {
        bits as int
    } else {
        0x8000_0000_0000_0000 - bits as int
    }
}

/// Computes `rank`.
pub fn rank_of(bits: u64) -> (r: i128)
    ensures
        r == rank(bits),
{
    if bits < 0x8000_0000_0000_0000 {
        bits as i128
    } else {
        0x8000_0000_0000_0000i128 - (bits as i128)
    }
}

/// Equality of numbers: integers by value, other numbers by their double-precision value. An
/// integer never equals a number that was written with a fraction or an exponent.
pub open spec fn same_number(a: NumberView, b: NumberView) -> bool {
    &&& a.signed == b.signed
    &&& a.unsigned == b.unsigned
    &&& a.signed is None && a.unsigned is None ==> rank(a.bits) == rank(b.bits)
}

/// Equality of documents.
pub open spec fn same_json(a: JsonView, b: JsonView) -> bool
    decreases a,
{
    match (a, b) {
        (JsonView::Null, JsonView::Null) => true,
        (JsonView::Bool(x), JsonView::Bool(y)) => x == y,
        (JsonView::Number(x), JsonView::Number(y)) => same_number(x, y),
        (JsonView::Text(x), JsonView::Text(y)) => x == y,
        (JsonView::Array(x), JsonView::Array(y)) => x.len() == y.len() && forall|i: int|
            0 <= i < x.len() ==> same_json(#[trigger] x[i], y[i]),
        (JsonView::Object(x), JsonView::Object(y)) => x.len() == y.len() && forall|i: int|
            0 <= i < x.len() ==> (#[trigger] x[i]).0 == y[i].0 && same_json(x[i].1, y[i].1),
        _ => false,
    }
}

/// Every document equals itself.
pub proof fn same_json_reflexive(a: JsonView)
    ensures
        same_json(a, a),
    decreases a,
{
    match a {
        JsonView::Array(x) => {
            assert forall|i: int| 0 <= i < x.len() implies same_json(#[trigger] x[i], x[i]) by {
                same_json_reflexive(x[i]);
            }
        },
        JsonView::Object(x) => {
            assert forall|i: int| 0 <= i < x.len() implies (#[trigger] x[i]).0 == x[i].0 && same_json(
                x[i].1,
                x[i].1,
            ) by {
                assert(decreases_to!(x => x[i]));
                same_json_reflexive(x[i].1);
            }
        },
        _ => {},
    }
}

/// Equality of documents does not depend on the order of its arguments.
pub proof fn same_json_symmetric(a: JsonView, b: JsonView)
    ensures
        same_json(a, b) == same_json(b, a),
    decreases a,
{
    match (a, b) {
        (JsonView::Array(x), JsonView::Array(y)) => {
            if x.len() == y.len() {
                assert forall|i: int| 0 <= i < x.len() implies same_json(#[trigger] x[i], y[i])
                    == same_json(y[i], x[i]) by {
                    same_json_symmetric(x[i], y[i]);
                }
                if same_json(b, a) {
                    assert forall|i: int| 0 <= i < x.len() implies same_json(
                        #[trigger] x[i],
                        y[i],
                    ) by {
                        assert(same_json(y[i], x[i]));
                    }
                }
            }
        },
        (JsonView::Object(x), JsonView::Object(y)) => {
            if x.len() == y.len() {
                assert forall|i: int| 0 <= i < x.len() implies same_json((#[trigger] x[i]).1, y[i].1)
                    == same_json(y[i].1, x[i].1) by {
                    assert(decreases_to!(x => x[i]));
                    same_json_symmetric(x[i].1, y[i].1);
                }
                if same_json(b, a) {
                    assert forall|i: int| 0 <= i < x.len() implies (#[trigger] x[i]).0 == y[i].0
                        && same_json(x[i].1, y[i].1) by {
                        assert(y[i].0 == x[i].0 && same_json(y[i].1, x[i].1));
                    }
                }
                if same_json(a, b) {
                    assert forall|i: int| 0 <= i < y.len() implies (#[trigger] y[i]).0 == x[i].0
                        && same_json(y[i].1, x[i].1) by {
                        assert(x[i].0 == y[i].0 && same_json(x[i].1, y[i].1));
                    }
                }
            }
        },
        _ => {},
    }
}

/// Tests equality of documents.
pub fn json_eq(a: &Json, b: &Json) -> (same: bool)
    ensures
        same == same_json(a@, b@),
    decreases a@,
{
    broadcast use array_view, object_view;

    match (a, b) {
        (Json::Null, Json::Null) => true,
        (Json::Bool(x), Json::Bool(y)) => *x == *y,
        (Json::Number(x), Json::Number(y)) => {
            x.signed == y.signed && x.unsigned == y.unsigned && (x.signed.is_some()
                || x.unsigned.is_some() || rank_of(x.bits) == rank_of(y.bits))
        },
        (Json::Text(x), Json::Text(y)) => *x == *y,
        (Json::Array(x), Json::Array(y)) => {
            if x.len() != y.len() {
                return false;
            }
            let mut i: usize = 0;
            while i < x.len()
                invariant
                    i <= x@.len(),
                    x@.len() == y@.len(),
                    a@ == JsonView::Array(items_view(x@)),
                    b@ == JsonView::Array(items_view(y@)),
                    forall|k: int|
                        0 <= k < i ==> same_json(
                            #[trigger] items_view(x@)[k],
                            items_view(y@)[k],
                        ),
                decreases x@.len() - i,
            {
                assert(decreases_to!(a@ => a@->Array_0));
                assert(decreases_to!(a@->Array_0 => items_view(x@)[i as int]));
                assert(items_view(x@)[i as int] == x@[i as int]@);
                assert(items_view(y@)[i as int] == y@[i as int]@);
                if !json_eq(&x[i], &y[i]) {
                    return false;
                }
                i = i + 1;
            }
            true
        },
        (Json::Object(x), Json::Object(y)) => {
            if x.len() != y.len() {
                return false;
            }
            let mut i: usize = 0;
            while i < x.len()
                invariant
                    i <= x@.len(),
                    x@.len() == y@.len(),
                    a@ == JsonView::Object(members_view(x@)),
                    b@ == JsonView::Object(members_view(y@)),
                    forall|k: int|
                        0 <= k < i ==> (#[trigger] members_view(x@)[k]).0 == members_view(y@)[k].0
                            && same_json(members_view(x@)[k].1, members_view(y@)[k].1),
                decreases x@.len() - i,
            {
                assert(decreases_to!(a@ => a@->Object_0));
                assert(decreases_to!(a@->Object_0 => members_view(x@)[i as int]));
                assert(decreases_to!(members_view(x@)[i as int] => members_view(x@)[i as int].1));
                assert(members_view(x@)[i as int] == (x@[i as int].key@, x@[i as int].value@));
                assert(members_view(y@)[i as int] == (y@[i as int].key@, y@[i as int].value@));
                if x[i].key != y[i].key || !json_eq(&x[i].value, &y[i].value) {
                    return false;
                }
                i = i + 1;
            }
            true
        },
        _ => false,
    }
}

/// A separate document with the same value.
pub fn copy_json(json: &Json) -> (c: Json)
    ensures
        c@ == json@,
    decreases json@,
{
    broadcast use array_view, object_view;

    match json {
        Json::Null => Json::Null,
        Json::Bool(b) => Json::Bool(*b),
        Json::Number(n) => Json::Number(copy_number(n)),
        Json::Text(s) => Json::Text(s.clone()),
        Json::Array(items) => {
            let mut copied: Vec<Json> = Vec::new();
            let mut i: usize = 0;
            while i < items.len()
                invariant
                    i <= items@.len(),
                    copied@.len() == i,
                    json@ == JsonView::Array(items_view(items@)),
                    forall|k: int| 0 <= k < i ==> (#[trigger] copied@[k])@ == items_view(items@)[k],
                decreases items@.len() - i,
            {
                assert(decreases_to!(json@ => json@->Array_0));
                assert(decreases_to!(json@->Array_0 => items_view(items@)[i as int]));
                copied.push(copy_json(&items[i]));
                i = i + 1;
            }
            assert(items_view(copied@) =~= items_view(items@));
            Json::Array(copied)
        },
        Json::Object(members) => {
            let mut copied: Vec<Member> = Vec::new();
            let mut i: usize = 0;
            while i < members.len()
                invariant
                    i <= members@.len(),
                    copied@.len() == i,
                    json@ == JsonView::Object(members_view(members@)),
                    forall|k: int|
                        0 <= k < i ==> ((#[trigger] copied@[k]).key@, copied@[k].value@)
                            == members_view(members@)[k],
                decreases members@.len() - i,
            {
                assert(decreases_to!(json@ => json@->Object_0));
                assert(decreases_to!(json@->Object_0 => members_view(members@)[i as int]));
                assert(decreases_to!(members_view(members@)[i as int] => members_view(members@)[i as int].1));
                copied.push(
                    Member { key: members[i].key.clone(), value: copy_json(&members[i].value) },
                );
                i = i + 1;
            }
            assert(members_view(copied@) =~= members_view(members@));
            Json::Object(copied)
        },
    }
}

fn copy_number(n: &JsonNumber) -> (c: JsonNumber)
    ensures
        c@ == n@,
{
    JsonNumber {
        text: n.text.clone(),
        signed: n.signed,
        unsigned: n.unsigned,
        bits: n.bits,
        decimal: n.decimal.clone(),
    }
}

/// The position of the member with `key`.
pub fn member_index(members: &Vec<Member>, key: &str) -> (r: Option<usize>)
    ensures
        match r {
            Some(i) => i < members@.len() && members@[i as int].key@ == key@ && lookup(
                members_view(members@),
                key@,
            ) == Some(members@[i as int].value@) && forall|k: int|
                0 <= k < i ==> (#[trigger] members_view(members@)[k]).0 != key@,
            None => lookup(members_view(members@), key@) is None,
        },
{
    let ghost view = members_view(members@);
    let mut i: usize = 0;
    while i < members.len()
        invariant
            i <= members@.len(),
            view == members_view(members@),
            forall|k: int| 0 <= k < i ==> (#[trigger] view[k]).0 != key@,
        decreases members@.len() - i,
    {
        if same_text(members[i].key.as_str(), key) {
            proof {
                assert(view[i as int].0 == key@);
                lookup_at(view, key@, i as int);
            }
            return Some(i);
        }
        assert(view[i as int].0 != key@);
        i = i + 1;
    }
    proof {
        let j = lookup_position(view, key@);
        assert(lookup(view, key@) is None);
    }
    None
}

impl Json {
    /// The value of member `key` of an object.
    pub fn get(&self, key: &str) -> (r: Option<&Json>)
        ensures
            match r {
                Some(value) => field(self@, key@) == Some(value@),
                None => field(self@, key@) is None,
            },
    {
        broadcast use object_view;

        match self {
            Json::Object(members) => match member_index(members, key) {
                Some(i) => Some(&members[i].value),
                None => None,
            },
            _ => None,
        }
    }

    /// The text of a string.
    pub fn as_str(&self) -> (r: Option<&str>)
        ensures
            match r {
                Some(s) => text_value(self@) == Some(s@),
                None => text_value(self@) is None,
            },
    {
        match self {
            Json::Text(s) => Some(s.as_str()),
            _ => None,
        }
    }

    /// The items of an array.
    pub fn as_array(&self) -> (r: Option<&Vec<Json>>)
        ensures
            match r {
                Some(items) => self@ == JsonView::Array(items_view(items@)),
                None => array_items(self@) is None,
            },
    {
        broadcast use array_view;

        match self {
            Json::Array(items) => Some(items),
            _ => None,
        }
    }

    /// The members of an object.
    pub fn as_object(&self) -> (r: Option<&Vec<Member>>)
        ensures
            match r {
                Some(members) => self@ == JsonView::Object(members_view(members@)),
                None => !(self@ is Object),
            },
    {
        broadcast use object_view;

        match self {
            Json::Object(members) => Some(members),
            _ => None,
        }
    }

    /// The integer, where the value is one that fits `u64`.
    pub fn as_u64(&self) -> (r: Option<u64>)
        ensures
            r == (match self@ {
                JsonView::Number(n) => n.unsigned,
                _ => None,
            }),
    {
        match self {
            Json::Number(n) => n.unsigned,
            _ => None,
        }
    }

    /// The text of member `key`, where it is a string.
    pub fn get_str(&self, key: &str) -> (r: Option<&str>)
        ensures
            match r {
                Some(s) => text_field(self@, key@) == Some(s@),
                None => text_field(self@, key@) is None,
            },
    {
        match self.get(key) {
            Some(value) => value.as_str(),
            None => None,
        }
    }

    /// The items of member `key`, where it is an array.
    pub fn get_array(&self, key: &str) -> (r: Option<&Vec<Json>>)
        ensures
            match r {
                Some(items) => array_field(self@, key@) == Some(items_view(items@)),
                None => array_field(self@, key@) is None,
            },
    {
        match self.get(key) {
            Some(value) => value.as_array(),
            None => None,
        }
    }

    /// The members of member `key`, where it is an object.
    pub fn get_object(&self, key: &str) -> (r: Option<&Vec<Member>>)
        ensures
            match r {
                Some(members) => object_field(self@, key@) == Some(members_view(members@)),
                None => object_field(self@, key@) is None,
            },
    {
        match self.get(key) {
            Some(value) => value.as_object(),
            None => None,
        }
    }

    /// The integer under `key`, where it is one that fits `u64`.
    pub fn get_u64(&self, key: &str) -> (r: Option<u64>)
        ensures
            r == unsigned_field(self@, key@),
    {
        match self.get(key) {
            Some(value) => value.as_u64(),
            None => None,
        }
    }
}

/// Whether the keys are in strictly ascending order.
pub open spec fn sorted_keys(members: Seq<(Seq<char>, JsonView)>) -> bool {
    forall|i: int, j: int|
        0 <= i < j < members.len() ==> crate::text::precedes((#[trigger] members[i]).0, (#[trigger] members[j]).0)
}

/// How deeply arrays and objects may be nested in a text that is read.
pub const MAX_DEPTH: u8 = 127;

/// Whether a document is written so that reading the text gives it back: its numbers are integers,
/// the keys of its objects are in order, and it is nested no deeper than `depth`.
pub open spec fn readable(json: JsonView, depth: nat) -> bool
    decreases json,
{
    match json {
        JsonView::Null | JsonView::Bool(_) | JsonView::Text(_) => true,
        JsonView::Number(n) => (exists|i: i64| n == #[trigger] crate::outside::number_of(i)) || (
        exists|u: u64| n == #[trigger] crate::outside::natural_of(u)),
        JsonView::Array(items) => depth > 0 && forall|i: int|
            0 <= i < items.len() ==> readable(#[trigger] items[i], (depth - 1) as nat),
        JsonView::Object(members) => depth > 0 && sorted_keys(members) && forall|i: int|
            0 <= i < members.len() ==> readable((#[trigger] members[i]).1, (depth - 1) as nat),
    }
}

/// `members` with `key` bound to `value`: an existing member keeps its place, a new one goes to
/// its place in the order of the keys.
pub open spec fn inserted(
    members: Seq<(Seq<char>, JsonView)>,
    key: Seq<char>,
    value: JsonView,
) -> Seq<(Seq<char>, JsonView)>
    decreases members.len(),
{
    if members.len() == 0 {
        seq![(key, value)]
    } else if members[0].0 == key {
        seq![(key, value)] + members.skip(1)
    } else if crate::text::precedes(key, members[0].0) {
        seq![(key, value)] + members
    } else {
        seq![members[0]] + inserted(members.skip(1), key, value)
    }
}

/// After an insertion the key has the new value and every other key has the value it had.
pub proof fn inserted_lookup(
    members: Seq<(Seq<char>, JsonView)>,
    key: Seq<char>,
    value: JsonView,
    other: Seq<char>,
)
    requires
        sorted_keys(members),
    ensures
        lookup(inserted(members, key, value), key) == Some(value),
        other != key ==> lookup(inserted(members, key, value), other) == lookup(members, other),
    decreases members.len(),
{
    let after = inserted(members, key, value);
    if members.len() == 0 {
        assert(after.skip(1) =~= members);
    } else if members[0].0 == key {
        assert(after.skip(1) =~= members.skip(1));
    } else if crate::text::precedes(key, members[0].0) {
        assert(after.skip(1) =~= members);
    } else {
        assert(after.skip(1) =~= inserted(members.skip(1), key, value));
        inserted_lookup(members.skip(1), key, value, other);
    }
}

/// An insertion puts a pair in, and leaves nothing but it and the pairs that were there.
pub proof fn inserted_holds(members: Seq<(Seq<char>, JsonView)>, key: Seq<char>, value: JsonView)
    ensures
        forall|i: int|
            0 <= i < inserted(members, key, value).len() ==> (#[trigger] inserted(
                members,
                key,
                value,
            )[i]) == (key, value) || members.contains(inserted(members, key, value)[i]),
    decreases members.len(),
{
    let after = inserted(members, key, value);
    if members.len() > 0 {
        inserted_holds(members.skip(1), key, value);
        let rest = inserted(members.skip(1), key, value);
        assert forall|i: int| 0 <= i < after.len() implies (#[trigger] after[i]) == (key, value)
            || members.contains(after[i]) by {
            if members[0].0 == key {
                if i > 0 {
                    assert(after[i] == members[i]);
                }
            } else if crate::text::precedes(key, members[0].0) {
                if i > 0 {
                    assert(after[i] == members[i - 1]);
                }
            } else if i == 0 {
                assert(after[i] == members[0]);
            } else {
                assert(after[i] == rest[i - 1]);
                if rest[i - 1] != (key, value) {
                    let j = members.skip(1).index_of(rest[i - 1]);
                    assert(members[j + 1] == after[i]);
                }
            }
        }
    }
}

/// An insertion keeps the keys in strictly ascending order.
pub proof fn inserted_sorted(members: Seq<(Seq<char>, JsonView)>, key: Seq<char>, value: JsonView)
    requires
        sorted_keys(members),
    ensures
        sorted_keys(inserted(members, key, value)),
        forall|i: int|
            0 <= i < inserted(members, key, value).len() ==> (#[trigger] inserted(
                members,
                key,
                value,
            )[i]).0 == key || exists|j: int|
                0 <= j < members.len() && members[j].0 == inserted(members, key, value)[i].0,
    decreases members.len(),
{
    let after = inserted(members, key, value);
    if members.len() == 0 {
    } else if members[0].0 == key {
        assert forall|i: int| 0 <= i < after.len() implies (#[trigger] after[i]).0 == key || exists|
            j: int,
        | 0 <= j < members.len() && members[j].0 == after[i].0 by {
            if i > 0 {
                assert(members[i].0 == after[i].0);
            }
        }
    } else if crate::text::precedes(key, members[0].0) {
        assert forall|i: int, j: int| 0 <= i < j < after.len() implies crate::text::precedes(
            (#[trigger] after[i]).0,
            (#[trigger] after[j]).0,
        ) by {
            if i == 0 {
                if j > 1 {
                    crate::text::precedes_transitive(key, members[0].0, members[j - 1].0);
                }
            } else {
                assert(after[i] == members[i - 1] && after[j] == members[j - 1]);
            }
        }
        assert forall|i: int| 0 <= i < after.len() implies (#[trigger] after[i]).0 == key || exists|
            j: int,
        | 0 <= j < members.len() && members[j].0 == after[i].0 by {
            if i > 0 {
                assert(members[i - 1].0 == after[i].0);
            }
        }
    } else {
        let rest = members.skip(1);
        let deeper = inserted(rest, key, value);
        inserted_sorted(rest, key, value);
        crate::text::precedes_orders(key, members[0].0);
        assert forall|i: int, j: int| 0 <= i < j < after.len() implies crate::text::precedes(
            (#[trigger] after[i]).0,
            (#[trigger] after[j]).0,
        ) by {
            assert(after[j] == deeper[j - 1]);
            if i == 0 {
                if deeper[j - 1].0 != key {
                    let k = choose|k: int| 0 <= k < rest.len() && rest[k].0 == deeper[j - 1].0;
                    assert(rest[k] == members[k + 1]);
                }
            } else {
                assert(after[i] == deeper[i - 1]);
            }
        }
        assert forall|i: int| 0 <= i < after.len() implies (#[trigger] after[i]).0 == key || exists|
            j: int,
        | 0 <= j < members.len() && members[j].0 == after[i].0 by {
            if i == 0 {
                assert(members[0].0 == after[0].0);
            } else {
                assert(after[i] == deeper[i - 1]);
                if deeper[i - 1].0 != key {
                    let k = choose|k: int| 0 <= k < rest.len() && rest[k].0 == deeper[i - 1].0;
                    assert(members[k + 1].0 == after[i].0);
                }
            }
        }
    }
}

/// Binds `key` to `value`.
pub fn insert_member(members: &mut Vec<Member>, key: String, value: Json)
    ensures
        members_view(final(members)@) == inserted(members_view(old(members)@), key@, value@),
{
    let ghost before = members_view(members@);
    let mut i: usize = 0;
    assert(before.skip(0) =~= before);
    assert(before.take(0) =~= Seq::<(Seq<char>, JsonView)>::empty());
    while i < members.len() && members[i].key != key && !comes_before(
        key.as_str(),
        members[i].key.as_str(),
    )
        invariant
            i <= members@.len(),
            before == members_view(members@),
            members@ == old(members)@,
            inserted(before, key@, value@) == before.take(i as int) + inserted(
                before.skip(i as int),
                key@,
                value@,
            ),
        decreases members@.len() - i,
    {
        proof {
            let rest = before.skip(i as int);
            assert(rest[0] == before[i as int]);
            assert(rest.skip(1) =~= before.skip(i + 1));
            assert(before.take(i as int) + (seq![rest[0]] + inserted(
                before.skip(i + 1),
                key@,
                value@,
            )) =~= before.take(i + 1) + inserted(before.skip(i + 1), key@, value@));
        }
        i = i + 1;
    }
    let ghost rest = before.skip(i as int);
    if i < members.len() && members[i].key == key {
        proof {
            assert(rest[0] == before[i as int]);
        }
        let replaced_member = Member { key, value };
        members.set(i, replaced_member);
        assert(members_view(members@) =~= before.take(i as int) + (seq![(key@, value@)]
            + rest.skip(1)));
    } else {
        proof {
            if i < members@.len() {
                assert(rest[0] == before[i as int]);
            }
        }
        members.insert(i, Member { key, value });
        assert(members_view(members@) =~= before.take(i as int) + (seq![(key@, value@)] + rest));
        assert(rest.len() == 0 ==> seq![(key@, value@)] + rest =~= seq![(key@, value@)]);
    }
}

/// `members` without the first member that has `key`.
pub open spec fn without(members: Seq<(Seq<char>, JsonView)>, key: Seq<char>) -> Seq<
    (Seq<char>, JsonView),
>
    decreases members.len(),
{
    if members.len() == 0 {
        members
    } else if members[0].0 == key {
        members.skip(1)
    } else {
        seq![members[0]] + without(members.skip(1), key)
    }
}

/// Taking out a key that is not there changes nothing.
pub proof fn without_absent(members: Seq<(Seq<char>, JsonView)>, key: Seq<char>)
    requires
        lookup(members, key) is None,
    ensures
        without(members, key) == members,
    decreases members.len(),
{
    if members.len() > 0 {
        without_absent(members.skip(1), key);
        assert(without(members, key) =~= members);
    }
}

/// Taking out a key undoes its insertion into an object that did not have it.
pub proof fn without_undoes_inserted(
    members: Seq<(Seq<char>, JsonView)>,
    key: Seq<char>,
    value: JsonView,
)
    requires
        lookup(members, key) is None,
    ensures
        without(inserted(members, key, value), key) == members,
    decreases members.len(),
{
    let after = inserted(members, key, value);
    if members.len() == 0 {
        assert(after.skip(1) =~= members);
    } else if crate::text::precedes(key, members[0].0) {
        assert(after.skip(1) =~= members);
    } else {
        without_undoes_inserted(members.skip(1), key, value);
        assert(after.skip(1) =~= inserted(members.skip(1), key, value));
        assert(without(after, key) =~= members);
    }
}

/// Takes the first member with `key` out.
pub fn remove_member(members: &mut Vec<Member>, key: &str) -> (r: Option<Json>)
    ensures
        members_view(final(members)@) == without(members_view(old(members)@), key@),
        match r {
            Some(value) => lookup(members_view(old(members)@), key@) == Some(value@),
            None => lookup(members_view(old(members)@), key@) is None,
        },
{
    let ghost before = members_view(members@);
    match member_index(members, key) {
        Some(i) => {
            proof {
                without_at(before, key@, i as int);
            }
            let taken = members.remove(i);
            assert(members_view(members@) =~= before.take(i as int) + before.skip(i + 1));
            Some(taken.value)
        },
        None => {
            proof {
                without_absent(before, key@);
            }
            None
        },
    }
}

proof fn without_at(members: Seq<(Seq<char>, JsonView)>, key: Seq<char>, i: int)
    requires
        0 <= i < members.len(),
        members[i].0 == key,
        forall|k: int| 0 <= k < i ==> (#[trigger] members[k]).0 != key,
    ensures
        without(members, key) == members.take(i) + members.skip(i + 1),
    decreases i,
{
    if i == 0 {
        assert(members.take(0) + members.skip(1) =~= members.skip(1));
    } else {
        let rest = members.skip(1);
        assert forall|k: int| 0 <= k < i - 1 implies (#[trigger] rest[k]).0 != key by {
            assert(members[k + 1].0 != key);
        }
        without_at(rest, key, i - 1);
        assert(seq![members[0]] + (rest.take(i - 1) + rest.skip(i)) =~= members.take(i)
            + members.skip(i + 1));
    }
}

/// A reference token with its escapes undone.
pub open spec fn unescaped(token: Seq<char>) -> Seq<char> {
    crate::text::replaced(crate::text::replaced(token, "~1"@, "/"@), "~0"@, "~"@)
}

/// The part of a document that one reference token selects.
pub open spec fn selected(json: JsonView, token: Seq<char>) -> Option<JsonView> {
    match json {
        JsonView::Object(members) => lookup(members, token),
        JsonView::Array(items) => if crate::text::all_digits(token) && (token[0] != '0'
            || token.len() == 1) && crate::text::digits_value(token) < items.len() {
            Some(items[crate::text::digits_value(token) as int])
        } else {
            None
        },
        _ => None,
    }
}

/// The part of a document that a JSON pointer selects.
pub open spec fn pointed(json: JsonView, pointer: Seq<char>) -> Option<JsonView>
    decreases pointer.len(),
{
    if pointer.len() == 0 {
        Some(json)
    } else if pointer[0] != '/' {
        None
    } else {
        let rest = pointer.skip(1);
        let n = crate::text::before_char(rest, '/');
        proof {
            crate::text::before_char_bound(rest, '/');
        }
        match selected(json, unescaped(rest.take(n as int))) {
            Some(part) => pointed(part, rest.skip(n as int)),
            None => None,
        }
    }
}

/// The part of a document that one reference token selects.
fn select<'a>(json: &'a Json, token: &str) -> (r: Option<&'a Json>)
    ensures
        match r {
            Some(part) => selected(json@, token@) == Some(part@),
            None => selected(json@, token@) is None,
        },
{
    broadcast use array_view, object_view;

    match json {
        Json::Object(members) => match member_index(members, token) {
            Some(i) => Some(&members[i].value),
            None => None,
        },
        Json::Array(items) => {
            let chars = chars_of(token);
            if chars.len() == 0 || chars[0] == '+' || (chars[0] == '0' && chars.len() != 1) {
                assert(!crate::text::all_digits(token@) || token@[0] == '0');
                return None;
            }
            let parsed = parse_unsigned(token, u64::MAX);
            assert(json@ == JsonView::Array(items_view(items@)));
            assert(items_view(items@).len() == items.len());
            match parsed {
                Some(n) => {
                    assert(crate::text::all_digits(token@) && n == crate::text::digits_value(token@));
                    if n < items.len() as u64 {
                        let i: usize = n as usize;
                        assert(items_view(items@)[i as int] == items@[i as int]@);
                        Some(&items[i])
                    } else {
                        None
                    }
                },
                None => None,
            }
        },
        _ => None,
    }
}

/// The part of a document that the JSON pointer `pointer[from..]` selects.
fn follow<'a>(json: &'a Json, pointer: &Vec<char>, from: usize) -> (r: Option<&'a Json>)
    requires
        from <= pointer@.len(),
    ensures
        match r {
            Some(part) => pointed(json@, pointer@.skip(from as int)) == Some(part@),
            None => pointed(json@, pointer@.skip(from as int)) is None,
        },
    decreases pointer@.len() - from,
{
    let ghost whole = pointer@.skip(from as int);
    if from == pointer.len() {
        return Some(json);
    }
    if pointer[from] != '/' {
        return None;
    }
    let start: usize = from + 1;
    let ghost rest = whole.skip(1);
    assert(rest =~= pointer@.skip(start as int));
    let end: usize = char_from(pointer, start, '/');
    let token = text_of(pointer, start, end);
    assert(token@ =~= rest.take(end - start));
    assert(rest.skip(end - start) =~= pointer@.skip(end as int));
    let plain = unescape(token.as_str());
    match select(json, plain.as_str()) {
        Some(part) => follow(part, pointer, end),
        None => None,
    }
}

/// A reference token with its escapes undone.
fn unescape(token: &str) -> (plain: String)
    ensures
        plain@ == unescaped(token@),
{
    proof {
        reveal_strlit("~1");
        reveal_strlit("~0");
    }
    let slashes = replace_text(token, "~1", "/");
    replace_text(slashes.as_str(), "~0", "~")
}

/// The part of a document that a JSON pointer selects.
pub fn point<'a>(json: &'a Json, pointer: &str) -> (r: Option<&'a Json>)
    ensures
        match r {
            Some(part) => pointed(json@, pointer@) == Some(part@),
            None => pointed(json@, pointer@) is None,
        },
{
    let chars = chars_of(pointer);
    assert(pointer@.skip(0) =~= pointer@);
    follow(json, &chars, 0)
}

/// `members` with all of `more` bound in turn.
pub open spec fn extended(
    members: Seq<(Seq<char>, JsonView)>,
    more: Seq<(Seq<char>, JsonView)>,
) -> Seq<(Seq<char>, JsonView)>
    decreases more.len(),
{
    if more.len() == 0 {
        members
    } else {
        inserted(extended(members, more.drop_last()), more.last().0, more.last().1)
    }
}

/// Binds copies of all of `more` in turn.
pub fn extend_members(members: &mut Vec<Member>, more: &Vec<Member>)
    ensures
        members_view(final(members)@) == extended(members_view(old(members)@), members_view(more@)),
{
    let ghost start = members_view(members@);
    let ghost view = members_view(more@);
    let mut i: usize = 0;
    assert(view.take(0) =~= Seq::<(Seq<char>, JsonView)>::empty());
    while i < more.len()
        invariant
            i <= more@.len(),
            view == members_view(more@),
            members_view(members@) == extended(start, view.take(i as int)),
        decreases more@.len() - i,
    {
        assert(view.take(i + 1).drop_last() =~= view.take(i as int));
        assert(view.take(i + 1).last() == (more@[i as int].key@, more@[i as int].value@));
        let value = copy_json(&more[i].value);
        insert_member(members, more[i].key.clone(), value);
        i = i + 1;
    }
    assert(view.take(view.len() as int) =~= view);
}

/// Two lists of members in the order of their keys are equal if every key has the same value in
/// both.
pub proof fn sorted_members_equal(
    left: Seq<(Seq<char>, JsonView)>,
    right: Seq<(Seq<char>, JsonView)>,
)
    requires
        sorted_keys(left),
        sorted_keys(right),
        forall|key: Seq<char>| #[trigger] lookup(left, key) == lookup(right, key),
    ensures
        left == right,
    decreases left.len(),
{
    if left.len() == 0 {
        if right.len() > 0 {
            assert(lookup(left, right[0].0) == lookup(right, right[0].0));
        }
        assert(left =~= right);
    } else {
        assert(lookup(left, left[0].0) == lookup(right, left[0].0));
        let at = lookup_position(right, left[0].0);
        assert(lookup(left, right[0].0) == lookup(right, right[0].0));
        let back = lookup_position(left, right[0].0);
        crate::text::precedes_orders(left[0].0, right[0].0);
        assert(left[0].0 == right[0].0);
        let key = left[0].0;
        assert forall|other: Seq<char>| #[trigger]
            lookup(left.skip(1), other) == lookup(right.skip(1), other) by {
            if other == key {
                let i = lookup_position(left.skip(1), key);
                let j = lookup_position(right.skip(1), key);
                crate::text::precedes_orders(key, key);
                if lookup(left.skip(1), key) is Some {
                    assert(left[i + 1].0 == key);
                }
                if lookup(right.skip(1), key) is Some {
                    assert(right[j + 1].0 == key);
                }
            } else {
                assert(lookup(left, other) == lookup(right, other));
            }
        }
        sorted_members_equal(left.skip(1), right.skip(1));
        assert(left =~= seq![left[0]] + left.skip(1));
        assert(right =~= seq![right[0]] + right.skip(1));
    }
}

} // verus!
