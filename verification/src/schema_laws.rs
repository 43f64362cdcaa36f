//! What conforming to a schema promises: what each of its words rules out, and what it admits.

use crate::json::{JsonView, NumberView};
use vstd::prelude::*;

verus! {

/// Whether a value is of the named kind.
pub open spec fn is_of_type(name: Seq<char>, value: JsonView) -> bool {
    ||| name == "null"@ && value is Null
    ||| name == "object"@ && value is Object
    ||| name == "array"@ && value is Array
    ||| name == "string"@ && value is Text
    ||| name == "boolean"@ && value is Bool
    ||| name == "number"@ && value is Number
    ||| name == "integer"@ && (value matches JsonView::Number(n) && (n.signed is Some || n.unsigned
        is Some))
}

proof fn type_names_differ()
    ensures
        seq![
            "null"@,
            "object"@,
            "array"@,
            "string"@,
            "boolean"@,
            "number"@,
            "integer"@,
        ].no_duplicates(),
{
    reveal_strlit("null");
    reveal_strlit("object");
    reveal_strlit("array");
    reveal_strlit("string");
    reveal_strlit("boolean");
    reveal_strlit("number");
    reveal_strlit("integer");
    assert("null"@.len() == 4 && "object"@.len() == 6 && "array"@.len() == 5);
    assert("string"@.len() == 6 && "boolean"@.len() == 7 && "number"@.len() == 6);
    assert("integer"@.len() == 7);
    assert("object"@[0] == 'o' && "string"@[0] == 's' && "number"@[0] == 'n');
    assert("boolean"@[0] == 'b' && "integer"@[0] == 'i');
}

/// A value that conforms to a schema is of the type that the schema names.
pub proof fn types_are_kept(schema: JsonView, value: JsonView, name: Seq<char>)
    requires
        crate::json::field(schema, "type"@) == Some(JsonView::Text(name)),
        name == "null"@ || name == "object"@ || name == "array"@ || name == "string"@ || name
            == "boolean"@ || name == "number"@ || name == "integer"@,
    ensures
        crate::schema::conforms(schema, value) ==> is_of_type(name, value),
        crate::schema::type_allows(schema, value) <==> is_of_type(name, value),
{
    type_names_differ();
    let all = seq![
        "null"@,
        "object"@,
        "array"@,
        "string"@,
        "boolean"@,
        "number"@,
        "integer"@,
    ];
    assert(all[0] == "null"@ && all[1] == "object"@ && all[2] == "array"@ && all[3] == "string"@);
    assert(all[4] == "boolean"@ && all[5] == "number"@ && all[6] == "integer"@);
    let names = crate::schema::type_names(schema);
    assert(names == seq![name]);
    assert(names[0] == name);
}

/// A value that conforms to a schema is one of those that the schema lists, and the one that it
/// fixes.
pub proof fn listed_values_are_kept(schema: JsonView, value: JsonView)
    requires
        crate::schema::conforms(schema, value),
    ensures
        crate::json::field(schema, "enum"@) matches Some(JsonView::Array(items)) ==> exists|i: int|
            0 <= i < items.len() && crate::json::same_json(#[trigger] items[i], value),
        crate::json::field(schema, "const"@) matches Some(constant) ==> crate::json::same_json(
            constant,
            value,
        ),
{
}

/// A number that conforms to a schema lies within the schema's bounds, and inside those that are
/// excluded.
pub proof fn bounds_are_kept(schema: JsonView, n: NumberView)
    requires
        crate::schema::conforms(schema, JsonView::Number(n)),
    ensures
        crate::json::field(schema, "minimum"@) matches Some(JsonView::Number(b))
            ==> crate::json::rank(b.bits) <= crate::json::rank(n.bits),
        crate::json::field(schema, "maximum"@) matches Some(JsonView::Number(b))
            ==> crate::json::rank(n.bits) <= crate::json::rank(b.bits),
        crate::json::field(schema, "exclusiveMinimum"@) matches Some(JsonView::Number(b))
            ==> crate::json::rank(b.bits) < crate::json::rank(n.bits),
        crate::json::field(schema, "exclusiveMaximum"@) matches Some(JsonView::Number(b))
            ==> crate::json::rank(n.bits) < crate::json::rank(b.bits),
{
}

/// Positive numbers are ordered like their bits, negative ones the other way round; every negative
/// number lies below every positive one, and both zeros are the same.
pub proof fn numbers_are_ordered_by_their_bits(a: u64, b: u64)
    ensures
        a < 0x8000_0000_0000_0000 && b < 0x8000_0000_0000_0000 ==> (crate::json::rank(a)
            < crate::json::rank(b) <==> a < b),
        a >= 0x8000_0000_0000_0000 && b >= 0x8000_0000_0000_0000 ==> (crate::json::rank(a)
            < crate::json::rank(b) <==> a > b),
        a > 0x8000_0000_0000_0000 && b < 0x8000_0000_0000_0000 ==> crate::json::rank(a)
            < crate::json::rank(b),
        crate::json::rank(0) == crate::json::rank(0x8000_0000_0000_0000),
{
}

/// A text that conforms to a schema is neither too short nor too long, and a list neither; an object
/// has every member that is required.
pub proof fn sizes_are_kept(schema: JsonView, value: JsonView)
    requires
        crate::schema::conforms(schema, value),
    ensures
        value matches JsonView::Text(text) ==> ((crate::json::unsigned_field(
            schema,
            "minLength"@,
        ) matches Some(b) ==> b <= text.len()) && (crate::json::unsigned_field(
            schema,
            "maxLength"@,
        ) matches Some(b) ==> text.len() <= b)),
        value matches JsonView::Array(items) ==> ((crate::json::unsigned_field(
            schema,
            "minItems"@,
        ) matches Some(b) ==> b <= items.len()) && (crate::json::unsigned_field(
            schema,
            "maxItems"@,
        ) matches Some(b) ==> items.len() <= b)),
        value matches JsonView::Object(members) ==> (crate::json::field(
            schema,
            "required"@,
        ) matches Some(JsonView::Array(names)) ==> forall|name: Seq<char>|
            names.contains(JsonView::Text(name)) ==> #[trigger] crate::json::lookup(members, name)
                is Some),
{
    if let (JsonView::Object(members), Some(JsonView::Array(names))) = (
        value,
        crate::json::field(schema, "required"@),
    ) {
        assert forall|name: Seq<char>| names.contains(JsonView::Text(name)) implies (
        #[trigger] crate::json::lookup(members, name)) is Some by {
            texts_hold(names, name);
            let texts = crate::schema::texts_of(names);
            assert(texts[texts.index_of(name)] == name);
        }
    }
}

proof fn texts_hold(items: Seq<JsonView>, text: Seq<char>)
    ensures
        crate::schema::texts_of(items).contains(text) <==> items.contains(JsonView::Text(text)),
    decreases items.len(),
{
    if items.len() > 0 {
        let rest = items.drop_last();
        texts_hold(rest, text);
        let before = crate::schema::texts_of(rest);
        let all = crate::schema::texts_of(items);
        assert(items[items.len() - 1] == items.last());
        if rest.contains(JsonView::Text(text)) {
            assert(items[rest.index_of(JsonView::Text(text))] == JsonView::Text(text));
        }
        if items.contains(JsonView::Text(text)) && items.last() != JsonView::Text(text) {
            assert(rest[items.index_of(JsonView::Text(text))] == JsonView::Text(text));
        }
        if let JsonView::Text(last) = items.last() {
            assert(all == before.push(last));
            assert(all[before.len() as int] == last);
            if before.contains(text) {
                assert(all[before.index_of(text)] == text);
            }
            if all.contains(text) && text != last {
                assert(before[all.index_of(text)] == text);
            }
        }
    }
}

/// The parts of a value conform to the schemas of those parts: a member to the schema under its
/// name, or to that for further members, and an item to the schema for items. A schema that allows
/// no further members has none.
pub proof fn parts_conform(schema: JsonView, value: JsonView, i: int)
    requires
        crate::schema::conforms(schema, value),
    ensures
        value matches JsonView::Object(members) ==> (0 <= i < members.len() ==> ({
            let own = match crate::json::field(schema, "properties"@) {
                Some(properties) => crate::json::field(properties, members[i].0),
                None => None,
            };
            &&& own matches Some(child) ==> crate::schema::conforms(child, members[i].1)
            &&& own is None ==> crate::json::field(schema, "additionalProperties"@) != Some(
                JsonView::Bool(false),
            )
            &&& own is None ==> (crate::json::field(
                schema,
                "additionalProperties"@,
            ) matches Some(child) ==> (child is Object ==> crate::schema::conforms(
                child,
                members[i].1,
            )))
        })),
        value matches JsonView::Array(items) ==> (0 <= i < items.len() ==> (crate::json::field(
            schema,
            "items"@,
        ) matches Some(child) ==> crate::schema::conforms(child, items[i]))),
{
    match value {
        JsonView::Object(members) => {
            if 0 <= i < members.len() {
                assert(crate::schema::member_conforms(schema, members[i].0, members[i].1));
            }
        },
        JsonView::Array(items) => {
            if 0 <= i < items.len() {
                assert(crate::schema::item_conforms(schema, items[i]));
            }
        },
        _ => {},
    }
}

/// A value conforms to all of the schemas under `allOf`, to some under `anyOf` and to one under
/// `oneOf`.
pub proof fn alternatives_are_kept(schema: JsonView, value: JsonView, i: int, j: int)
    requires
        crate::schema::conforms(schema, value),
    ensures
        crate::json::field(schema, "allOf"@) matches Some(JsonView::Array(all)) ==> (0 <= i
            < all.len() ==> crate::schema::conforms(all[i], value)),
        crate::json::field(schema, "anyOf"@) matches Some(JsonView::Array(some)) ==> exists|k: int|
            0 <= k < some.len() && crate::schema::conforms(#[trigger] some[k], value),
        crate::json::field(schema, "oneOf"@) matches Some(JsonView::Array(one)) ==> ((exists|
            k: int,
        |
            0 <= k < one.len() && crate::schema::conforms(#[trigger] one[k], value)) && (0 <= i < j
            < one.len() ==> !(crate::schema::conforms(one[i], value) && crate::schema::conforms(
            one[j],
            value,
        )))),
{
    if let Some(JsonView::Array(all)) = crate::json::field(schema, "allOf"@) {
        crate::schema::no_error_means_conforms(schema, value, Seq::empty());
        assert(crate::schema::branches_error(all, value, Seq::empty()) is None);
        branches_conform(all, value, i);
    }
    if let Some(JsonView::Array(one)) = crate::json::field(schema, "oneOf"@) {
        conforming_counts(one, value, i, j);
    }
}

proof fn branches_conform(branches: Seq<JsonView>, value: JsonView, i: int)
    requires
        crate::schema::branches_error(branches, value, Seq::empty()) is None,
    ensures
        0 <= i < branches.len() ==> crate::schema::conforms(branches[i], value),
    decreases branches.len(),
{
    if branches.len() > 0 {
        branches_conform(branches.drop_last(), value, i);
        crate::schema::no_error_means_conforms(branches.last(), value, Seq::empty());
    }
}

proof fn conforming_counts(options: Seq<JsonView>, value: JsonView, i: int, j: int)
    ensures
        crate::schema::conforming(options, value) > 0 ==> exists|k: int|
            0 <= k < options.len() && crate::schema::conforms(#[trigger] options[k], value),
        0 <= i < options.len() && crate::schema::conforms(options[i], value)
            ==> crate::schema::conforming(options, value) >= 1,
        0 <= i < j < options.len() && crate::schema::conforms(options[i], value)
            && crate::schema::conforms(options[j], value) ==> crate::schema::conforming(
            options,
            value,
        ) >= 2,
    decreases options.len(),
{
    if options.len() > 0 {
        let rest = options.drop_last();
        conforming_counts(rest, value, i, j);
        assert(options[options.len() - 1] == options.last());
        if crate::schema::conforming(rest, value) > 0 {
            let k = choose|k: int|
                0 <= k < rest.len() && crate::schema::conforms(#[trigger] rest[k], value);
            assert(options[k] == rest[k]);
        }
        if 0 <= i < rest.len() {
            assert(rest[i] == options[i]);
        }
        if 0 <= j < rest.len() {
            assert(rest[j] == options[j]);
        }
    }
}

/// A schema without words admits everything.
pub proof fn empty_schemas_admit_everything(value: JsonView)
    ensures
        crate::schema::conforms(JsonView::Object(Seq::empty()), value),
{
    let schema = JsonView::Object(Seq::empty());
    if let JsonView::Object(members) = value {
        assert forall|i: int| 0 <= i < members.len() implies crate::schema::member_conforms(
            schema,
            (#[trigger] members[i]).0,
            members[i].1,
        ) by {}
    }
    if let JsonView::Array(items) = value {
        assert forall|i: int| 0 <= i < items.len() implies crate::schema::item_conforms(
            schema,
            #[trigger] items[i],
        ) by {}
    }
}

} // verus!
