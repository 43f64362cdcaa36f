//! Validation of JSON values against the JSON Schema subset that model catalogs publish.

use crate::json::{json_eq, rank_of, Json, JsonView, Member};
use crate::text::{concat, concat3, decimal, same_text};
use vstd::prelude::*;

verus! {

/// The type names that a schema allows; empty where it names none.
pub open spec fn type_names(schema: JsonView) -> Seq<Seq<char>> {
    match crate::json::field(schema, "type"@) {
        Some(JsonView::Text(name)) => seq![name],
        Some(JsonView::Array(items)) => texts_of(items),
        _ => Seq::empty(),
    }
}

/// The strings among `items`, in order.
pub open spec fn texts_of(items: Seq<JsonView>) -> Seq<Seq<char>>
    decreases items.len(),
{
    if items.len() == 0 {
        Seq::empty()
    } else {
        match items.last() {
            JsonView::Text(s) => texts_of(items.drop_last()).push(s),
            _ => texts_of(items.drop_last()),
        }
    }
}

/// Whether `value` has the type called `name`. A name that is not known admits every value.
pub open spec fn has_type(name: Seq<char>, value: JsonView) -> bool {
    if name == "null"@ {
        value is Null
    } else if name == "object"@ {
        value is Object
    } else if name == "array"@ {
        value is Array
    } else if name == "string"@ {
        value is Text
    } else if name == "integer"@ {
        value matches JsonView::Number(n) && (n.signed is Some || n.unsigned is Some)
    } else if name == "number"@ {
        value is Number
    } else if name == "boolean"@ {
        value is Bool
    } else {
        true
    }
}

/// Whether the schema's `type`, if it names any, admits `value`.
pub open spec fn type_allows(schema: JsonView, value: JsonView) -> bool {
    let names = type_names(schema);
    names.len() == 0 || exists|i: int| 0 <= i < names.len() && has_type(#[trigger] names[i], value)
}

/// Whether the schema's `enum`, if it has one, lists `value`.
pub open spec fn enum_allows(schema: JsonView, value: JsonView) -> bool {
    match crate::json::array_field(schema, "enum"@) {
        Some(items) => exists|i: int| 0 <= i < items.len() && crate::json::same_json(#[trigger] items[i], value),
        None => true,
    }
}

/// Whether the schema's `const`, if it has one, equals `value`.
pub open spec fn const_allows(schema: JsonView, value: JsonView) -> bool {
    match crate::json::field(schema, "const"@) {
        Some(constant) => crate::json::same_json(constant, value),
        None => true,
    }
}

/// The position of the number under `key` among the double-precision values.
pub open spec fn bound(schema: JsonView, key: Seq<char>) -> Option<int> {
    match crate::json::field(schema, key) {
        Some(JsonView::Number(n)) => Some(crate::json::rank(n.bits)),
        _ => None,
    }
}

/// How the number under `key` reads in decimal.
pub open spec fn bound_text(schema: JsonView, key: Seq<char>) -> Seq<char> {
    match crate::json::field(schema, key) {
        Some(JsonView::Number(n)) => n.decimal,
        _ => Seq::empty(),
    }
}

/// Whether the schema's four bounds on numbers admit `value`.
pub open spec fn range_allows(schema: JsonView, value: JsonView) -> bool {
    match value {
        JsonView::Number(n) => {
            &&& bound(schema, "minimum"@) matches Some(b) ==> crate::json::rank(n.bits) >= b
            &&& bound(schema, "maximum"@) matches Some(b) ==> crate::json::rank(n.bits) <= b
            &&& bound(schema, "exclusiveMinimum"@) matches Some(b) ==> crate::json::rank(n.bits) > b
            &&& bound(schema, "exclusiveMaximum"@) matches Some(b) ==> crate::json::rank(n.bits) < b
        },
        _ => true,
    }
}

/// Whether the schema's bounds on the number of characters admit `value`.
pub open spec fn length_allows(schema: JsonView, value: JsonView) -> bool {
    match value {
        JsonView::Text(s) => {
            &&& crate::json::unsigned_field(schema, "minLength"@) matches Some(b) ==> s.len() >= b
            &&& crate::json::unsigned_field(schema, "maxLength"@) matches Some(b) ==> s.len() <= b
        },
        _ => true,
    }
}

/// Whether the schema's bounds on the number of items admit `value`.
pub open spec fn count_allows(schema: JsonView, value: JsonView) -> bool {
    match value {
        JsonView::Array(items) => {
            &&& crate::json::unsigned_field(schema, "minItems"@) matches Some(b) ==> items.len() >= b
            &&& crate::json::unsigned_field(schema, "maxItems"@) matches Some(b) ==> items.len() <= b
        },
        _ => true,
    }
}

/// The names that the schema requires.
pub open spec fn required_names(schema: JsonView) -> Seq<Seq<char>> {
    match crate::json::array_field(schema, "required"@) {
        Some(items) => texts_of(items),
        None => Seq::empty(),
    }
}

/// Whether an object has every required member.
pub open spec fn required_present(schema: JsonView, value: JsonView) -> bool {
    match value {
        JsonView::Object(members) => {
            let names = required_names(schema);
            forall|i: int| 0 <= i < names.len() ==> crate::json::lookup(members, #[trigger] names[i]) is Some
        },
        _ => true,
    }
}

/// The schema for member `key`: the one under `properties`, else `additionalProperties` where
/// that is an object.
pub open spec fn member_schema(schema: JsonView, key: Seq<char>) -> Option<JsonView> {
    match named_schema(schema, key) {
        Some(child) => Some(child),
        None => match crate::json::field(schema, "additionalProperties"@) {
            Some(JsonView::Object(members)) => Some(JsonView::Object(members)),
            _ => None,
        },
    }
}

/// The schema under `properties` for member `key`.
pub open spec fn named_schema(schema: JsonView, key: Seq<char>) -> Option<JsonView> {
    match crate::json::field(schema, "properties"@) {
        Some(properties) => crate::json::field(properties, key),
        None => None,
    }
}

/// Whether the schema refuses member `key`: it is not named and further members are forbidden.
pub open spec fn member_refused(schema: JsonView, key: Seq<char>) -> bool {
    named_schema(schema, key) is None && crate::json::field(schema, "additionalProperties"@) == Some(
        JsonView::Bool(false),
    )
}

/// The schema of a member is a proper part of the schema.
pub proof fn member_schema_is_part(schema: JsonView, key: Seq<char>)
    ensures
        member_schema(schema, key) matches Some(child) ==> decreases_to!(schema => child),
{
    broadcast use crate::json::field_is_part;

    if let Some(properties) = crate::json::field(schema, "properties"@) {
        assert(decreases_to!(schema => properties));
        if let Some(child) = crate::json::field(properties, key) {
            assert(decreases_to!(properties => child));
        }
    }
    if let Some(child) = crate::json::field(schema, "additionalProperties"@) {
        assert(decreases_to!(schema => child));
    }
}

/// The items under `key` are proper parts of the document.
pub proof fn array_field_is_part(schema: JsonView, key: Seq<char>)
    ensures
        crate::json::array_field(schema, key) matches Some(items) ==> decreases_to!(schema => items),
{
    crate::json::field_is_part(schema, key);
    if let Some(value) = crate::json::field(schema, key) {
        assert(decreases_to!(schema => value));
        if let JsonView::Array(items) = value {
            assert(decreases_to!(value => value->Array_0));
        }
    }
}

/// Whether `value` satisfies every constraint of `schema`.
pub open spec fn conforms(schema: JsonView, value: JsonView) -> bool
    decreases schema, 2nat,
{
    proof {
        array_field_is_part(schema, "allOf"@);
        array_field_is_part(schema, "anyOf"@);
        array_field_is_part(schema, "oneOf"@);
    }
    &&& (crate::json::array_field(schema, "allOf"@) matches Some(branches) ==> forall|i: int|
        0 <= i < branches.len() ==> conforms(#[trigger] branches[i], value))
    &&& (crate::json::array_field(schema, "anyOf"@) matches Some(options) ==> exists|i: int|
        0 <= i < options.len() && conforms(#[trigger] options[i], value))
    &&& (crate::json::array_field(schema, "oneOf"@) matches Some(options) ==> conforming(options, value) == 1)
    &&& enum_allows(schema, value)
    &&& const_allows(schema, value)
    &&& type_allows(schema, value)
    &&& range_allows(schema, value)
    &&& length_allows(schema, value)
    &&& required_present(schema, value)
    &&& (value matches JsonView::Object(members) ==> forall|i: int|
        0 <= i < members.len() ==> member_conforms(schema, (#[trigger] members[i]).0, members[i].1))
    &&& (value matches JsonView::Array(items) ==> forall|i: int|
        0 <= i < items.len() ==> item_conforms(schema, #[trigger] items[i]))
    &&& count_allows(schema, value)
}

/// How many of `options` the value conforms to.
pub open spec fn conforming(options: Seq<JsonView>, value: JsonView) -> nat
    decreases options, 0nat,
{
    if options.len() == 0 {
        0
    } else {
        conforming(options.drop_last(), value) + if conforms(options.last(), value) {
            1nat
        } else {
            0nat
        }
    }
}

/// Whether a member of an object satisfies what the object's schema says of it.
pub open spec fn member_conforms(schema: JsonView, key: Seq<char>, value: JsonView) -> bool
    decreases schema, 1nat,
{
    proof {
        member_schema_is_part(schema, key);
    }
    !member_refused(schema, key) && match member_schema(schema, key) {
        Some(child) => conforms(child, value),
        None => true,
    }
}

/// Whether an item of an array satisfies the schema's `items`.
pub open spec fn item_conforms(schema: JsonView, value: JsonView) -> bool
    decreases schema, 1nat,
{
    proof {
        crate::json::field_is_part(schema, "items"@);
    }
    match crate::json::field(schema, "items"@) {
        Some(child) => conforms(child, value),
        None => true,
    }
}

/// The first of two findings.
pub open spec fn or_else(first: Option<Seq<char>>, second: Option<Seq<char>>) -> Option<Seq<char>> {
    match first {
        Some(message) => Some(message),
        None => second,
    }
}

/// `message`, unless `holds`.
pub open spec fn unless(holds: bool, message: Seq<char>) -> Option<Seq<char>> {
    if holds {
        None
    } else {
        Some(message)
    }
}

/// What is wrong with `value` as a number, if anything.
pub open spec fn range_error(schema: JsonView, value: JsonView, path: Seq<char>) -> Option<
    Seq<char>,
> {
    match value {
        JsonView::Number(n) => or_else(
            unless(
                bound(schema, "minimum"@) matches Some(b) ==> crate::json::rank(n.bits) >= b,
                path + " must be at least "@ + bound_text(schema, "minimum"@),
            ),
            or_else(
                unless(
                    bound(schema, "maximum"@) matches Some(b) ==> crate::json::rank(n.bits) <= b,
                    path + " must be at most "@ + bound_text(schema, "maximum"@),
                ),
                or_else(
                    unless(
                        bound(schema, "exclusiveMinimum"@) matches Some(b) ==> crate::json::rank(n.bits) > b,
                        path + " must be greater than "@ + bound_text(schema, "exclusiveMinimum"@),
                    ),
                    unless(
                        bound(schema, "exclusiveMaximum"@) matches Some(b) ==> crate::json::rank(n.bits) < b,
                        path + " must be less than "@ + bound_text(schema, "exclusiveMaximum"@),
                    ),
                ),
            ),
        ),
        _ => None,
    }
}

/// What is wrong with `size` against the two bounds, if anything.
pub open spec fn size_error(
    schema: JsonView,
    size: nat,
    low: Seq<char>,
    high: Seq<char>,
    unit: Seq<char>,
    path: Seq<char>,
) -> Option<Seq<char>> {
    match (crate::json::unsigned_field(schema, low), crate::json::unsigned_field(schema, high)) {
        (Some(b), _) if size < b => Some(
            path + " must contain at least "@ + crate::text::numeral(b as nat) + unit,
        ),
        (_, Some(b)) if size > b => Some(path + " must contain at most "@ + crate::text::numeral(b as nat) + unit),
        _ => None,
    }
}

/// The first required name that the object lacks, as a complaint.
pub open spec fn required_error(
    names: Seq<Seq<char>>,
    members: Seq<(Seq<char>, JsonView)>,
    path: Seq<char>,
) -> Option<Seq<char>>
    decreases names.len(),
{
    if names.len() == 0 {
        None
    } else {
        or_else(
            required_error(names.drop_last(), members, path),
            unless(
                crate::json::lookup(members, names.last()) is Some,
                path + "."@ + names.last() + " is required"@,
            ),
        )
    }
}

/// The first complaint of `schema` about `value`, which stands at `path`; `None` where there is
/// none.
pub open spec fn schema_error(schema: JsonView, value: JsonView, path: Seq<char>) -> Option<
    Seq<char>,
>
    decreases schema, 3nat, 0nat,
{
    proof {
        array_field_is_part(schema, "allOf"@);
        array_field_is_part(schema, "anyOf"@);
        array_field_is_part(schema, "oneOf"@);
    }
    or_else(
        match crate::json::array_field(schema, "allOf"@) {
            Some(branches) => branches_error(branches, value, path),
            None => None,
        },
        or_else(
            match crate::json::array_field(schema, "anyOf"@) {
                Some(options) => unless(
                    passing(options, value, path) > 0,
                    path + " does not match any allowed schema"@,
                ),
                None => None,
            },
            or_else(
                match crate::json::array_field(schema, "oneOf"@) {
                    Some(options) => unless(
                        passing(options, value, path) == 1,
                        path + " must match exactly one allowed schema"@,
                    ),
                    None => None,
                },
                or_else(
                    plain_error(schema, value, path),
                    or_else(parts_error(schema, value, path), items_count_error(schema, value, path)),
                ),
            ),
        ),
    )
}

/// The first complaint of the keywords that look at `value` alone.
pub open spec fn plain_error(schema: JsonView, value: JsonView, path: Seq<char>) -> Option<
    Seq<char>,
> {
    or_else(
        unless(enum_allows(schema, value), path + " is not an allowed value"@),
        or_else(
            unless(const_allows(schema, value), path + " must equal the schema constant"@),
            or_else(
                unless(type_allows(schema, value), path + " has the wrong JSON type"@),
                or_else(
                    range_error(schema, value, path),
                    or_else(
                        match value {
                            JsonView::Text(s) => size_error(
                                schema,
                                s.len(),
                                "minLength"@,
                                "maxLength"@,
                                " characters"@,
                                path,
                            ),
                            _ => None,
                        },
                        match value {
                            JsonView::Object(members) => required_error(
                                required_names(schema),
                                members,
                                path,
                            ),
                            _ => None,
                        },
                    ),
                ),
            ),
        ),
    )
}

/// The complaint about the number of items of an array.
pub open spec fn items_count_error(schema: JsonView, value: JsonView, path: Seq<char>) -> Option<
    Seq<char>,
> {
    match value {
        JsonView::Array(items) => size_error(
            schema,
            items.len(),
            "minItems"@,
            "maxItems"@,
            " items"@,
            path,
        ),
        _ => None,
    }
}

/// The first complaint about a member of an object or an item of an array.
pub open spec fn parts_error(schema: JsonView, value: JsonView, path: Seq<char>) -> Option<Seq<char>>
    decreases schema, 2nat, 0nat,
{
    proof {
        crate::json::field_is_part(schema, "items"@);
    }
    match value {
        JsonView::Object(members) => members_error(schema, members, path),
        JsonView::Array(items) => match crate::json::field(schema, "items"@) {
            Some(child) => items_error(child, items, path),
            None => None,
        },
        _ => None,
    }
}

/// The first complaint of any of `branches`.
pub open spec fn branches_error(branches: Seq<JsonView>, value: JsonView, path: Seq<char>) -> Option<
    Seq<char>,
>
    decreases branches, 0nat, 0nat,
{
    if branches.len() == 0 {
        None
    } else {
        or_else(
            branches_error(branches.drop_last(), value, path),
            schema_error(branches.last(), value, path),
        )
    }
}

/// How many of `options` have no complaint.
pub open spec fn passing(options: Seq<JsonView>, value: JsonView, path: Seq<char>) -> nat
    decreases options, 0nat, 0nat,
{
    if options.len() == 0 {
        0
    } else {
        passing(options.drop_last(), value, path) + if schema_error(options.last(), value, path)
            is None {
            1nat
        } else {
            0nat
        }
    }
}

/// The first complaint about a member.
pub open spec fn members_error(
    schema: JsonView,
    members: Seq<(Seq<char>, JsonView)>,
    path: Seq<char>,
) -> Option<Seq<char>>
    decreases schema, 1nat, members.len(),
{
    if members.len() == 0 {
        None
    } else {
        let key = members.last().0;
        proof {
            member_schema_is_part(schema, key);
        }
        or_else(
            members_error(schema, members.drop_last(), path),
            if member_refused(schema, key) {
                Some(path + "."@ + key + " is not accepted by this model"@)
            } else {
                match member_schema(schema, key) {
                    Some(child) => schema_error(child, members.last().1, path + "."@ + key),
                    None => None,
                }
            },
        )
    }
}

/// The first complaint about an item.
pub open spec fn items_error(child: JsonView, items: Seq<JsonView>, path: Seq<char>) -> Option<
    Seq<char>,
>
    decreases child, 4nat, items.len(),
{
    if items.len() == 0 {
        None
    } else {
        or_else(
            items_error(child, items.drop_last(), path),
            schema_error(
                child,
                items.last(),
                path + "["@ + crate::text::numeral((items.len() - 1) as nat) + "]"@,
            ),
        )
    }
}

/// A schema has no complaint exactly about the values that conform to it, wherever they stand.
pub proof fn no_error_means_conforms(schema: JsonView, value: JsonView, path: Seq<char>)
    ensures
        schema_error(schema, value, path) is None <==> conforms(schema, value),
    decreases schema, 3nat, 0nat,
{
    array_field_is_part(schema, "allOf"@);
    array_field_is_part(schema, "anyOf"@);
    array_field_is_part(schema, "oneOf"@);
    crate::json::field_is_part(schema, "items"@);
    if let Some(branches) = crate::json::array_field(schema, "allOf"@) {
        no_branch_error(branches, value, path);
    }
    if let Some(options) = crate::json::array_field(schema, "anyOf"@) {
        passing_counts(options, value, path);
    }
    if let Some(options) = crate::json::array_field(schema, "oneOf"@) {
        passing_counts(options, value, path);
    }
    no_plain_error(schema, value, path);
    assert(items_count_error(schema, value, path) is None <==> count_allows(schema, value));
    match value {
        JsonView::Object(members) => {
            no_member_error(schema, members, path);
        },
        JsonView::Array(items) => {
            if let Some(child) = crate::json::field(schema, "items"@) {
                no_item_error(child, items, path);
                if items_error(child, items, path) is None {
                    assert forall|i: int| 0 <= i < items.len() implies item_conforms(
                        schema,
                        #[trigger] items[i],
                    ) by {
                        assert(conforms(child, items[i]));
                    }
                }
                if forall|i: int| 0 <= i < items.len() ==> item_conforms(schema, #[trigger] items[i]) {
                    assert forall|i: int| 0 <= i < items.len() implies conforms(
                        child,
                        #[trigger] items[i],
                    ) by {
                        assert(item_conforms(schema, items[i]));
                    }
                }
            } else {
                assert forall|i: int| 0 <= i < items.len() implies item_conforms(
                    schema,
                    #[trigger] items[i],
                ) by {}
            }
        },
        _ => {},
    }
}

proof fn no_plain_error(schema: JsonView, value: JsonView, path: Seq<char>)
    ensures
        plain_error(schema, value, path) is None <==> {
            &&& enum_allows(schema, value)
            &&& const_allows(schema, value)
            &&& type_allows(schema, value)
            &&& range_allows(schema, value)
            &&& length_allows(schema, value)
            &&& required_present(schema, value)
        },
{
    if let JsonView::Object(members) = value {
        no_required_error(required_names(schema), members, path);
    }
}

proof fn no_branch_error(branches: Seq<JsonView>, value: JsonView, path: Seq<char>)
    ensures
        branches_error(branches, value, path) is None <==> forall|i: int|
            0 <= i < branches.len() ==> conforms(#[trigger] branches[i], value),
    decreases branches, 0nat, 0nat,
{
    if branches.len() > 0 {
        let rest = branches.drop_last();
        no_branch_error(rest, value, path);
        no_error_means_conforms(branches.last(), value, path);
        if forall|i: int| 0 <= i < branches.len() ==> conforms(#[trigger] branches[i], value) {
            assert forall|i: int| 0 <= i < rest.len() implies conforms(#[trigger] rest[i], value) by {
                assert(conforms(branches[i], value));
            }
            assert(conforms(branches[branches.len() - 1], value));
        }
        if branches_error(branches, value, path) is None {
            assert forall|i: int| 0 <= i < branches.len() implies conforms(
                #[trigger] branches[i],
                value,
            ) by {
                if i < rest.len() {
                    assert(conforms(rest[i], value));
                }
            }
        }
    }
}

proof fn passing_counts(options: Seq<JsonView>, value: JsonView, path: Seq<char>)
    ensures
        passing(options, value, path) == conforming(options, value),
        passing(options, value, path) > 0 <==> exists|i: int|
            0 <= i < options.len() && conforms(#[trigger] options[i], value),
    decreases options, 0nat, 0nat,
{
    if options.len() > 0 {
        let rest = options.drop_last();
        let last = options.len() - 1;
        passing_counts(rest, value, path);
        no_error_means_conforms(options.last(), value, path);
        if passing(rest, value, path) > 0 {
            let i = choose|i: int| 0 <= i < rest.len() && conforms(#[trigger] rest[i], value);
            assert(conforms(options[i], value));
        }
        if exists|i: int| 0 <= i < options.len() && conforms(#[trigger] options[i], value) {
            let i = choose|i: int| 0 <= i < options.len() && conforms(#[trigger] options[i], value);
            if i < last {
                assert(conforms(rest[i], value));
            }
        }
    }
}

proof fn no_required_error(
    names: Seq<Seq<char>>,
    members: Seq<(Seq<char>, JsonView)>,
    path: Seq<char>,
)
    ensures
        required_error(names, members, path) is None <==> forall|i: int|
            0 <= i < names.len() ==> crate::json::lookup(members, #[trigger] names[i]) is Some,
    decreases names.len(),
{
    if names.len() > 0 {
        let rest = names.drop_last();
        no_required_error(rest, members, path);
        assert(forall|i: int| 0 <= i < rest.len() ==> rest[i] == #[trigger] names[i]);
        assert(names.last() == names[names.len() - 1]);
        if required_error(names, members, path) is None {
            assert forall|i: int| 0 <= i < names.len() implies crate::json::lookup(members, #[trigger] names[i])
                is Some by {
                if i < rest.len() {
                    assert(crate::json::lookup(members, rest[i]) is Some);
                }
            }
        }
    }
}

proof fn no_member_error(schema: JsonView, members: Seq<(Seq<char>, JsonView)>, path: Seq<char>)
    ensures
        members_error(schema, members, path) is None <==> forall|i: int|
            0 <= i < members.len() ==> member_conforms(
                schema,
                (#[trigger] members[i]).0,
                members[i].1,
            ),
    decreases schema, 1nat, members.len(),
{
    if members.len() > 0 {
        let rest = members.drop_last();
        let key = members.last().0;
        no_member_error(schema, rest, path);
        member_schema_is_part(schema, key);
        if let Some(child) = member_schema(schema, key) {
            no_error_means_conforms(child, members.last().1, path + "."@ + key);
        }
        assert(forall|i: int| 0 <= i < rest.len() ==> rest[i] == #[trigger] members[i]);
        assert(members.last() == members[members.len() - 1]);
        if members_error(schema, members, path) is None {
            assert forall|i: int| 0 <= i < members.len() implies member_conforms(
                schema,
                (#[trigger] members[i]).0,
                members[i].1,
            ) by {
                if i < rest.len() {
                    assert(member_conforms(schema, rest[i].0, rest[i].1));
                }
            }
        }
        if forall|i: int|
            0 <= i < members.len() ==> member_conforms(
                schema,
                (#[trigger] members[i]).0,
                members[i].1,
            ) {
            assert forall|i: int| 0 <= i < rest.len() implies member_conforms(
                schema,
                (#[trigger] rest[i]).0,
                rest[i].1,
            ) by {
                assert(member_conforms(schema, members[i].0, members[i].1));
            }
        }
    }
}

proof fn no_item_error(child: JsonView, items: Seq<JsonView>, path: Seq<char>)
    ensures
        items_error(child, items, path) is None <==> forall|i: int|
            0 <= i < items.len() ==> conforms(child, #[trigger] items[i]),
    decreases child, 4nat, items.len(),
{
    if items.len() > 0 {
        let rest = items.drop_last();
        no_item_error(child, rest, path);
        no_error_means_conforms(
            child,
            items.last(),
            path + "["@ + crate::text::numeral((items.len() - 1) as nat) + "]"@,
        );
        assert(forall|i: int| 0 <= i < rest.len() ==> rest[i] == #[trigger] items[i]);
        assert(items.last() == items[items.len() - 1]);
        if items_error(child, items, path) is None {
            assert forall|i: int| 0 <= i < items.len() implies conforms(child, #[trigger] items[i]) by {
                if i < rest.len() {
                    assert(conforms(child, rest[i]));
                }
            }
        }
        if forall|i: int| 0 <= i < items.len() ==> conforms(child, #[trigger] items[i]) {
            assert forall|i: int| 0 <= i < rest.len() implies conforms(child, #[trigger] rest[i]) by {
                assert(conforms(child, items[i]));
            }
        }
    }
}

/// The strings among `items`, in order.
pub fn collect_texts(items: &Vec<Json>) -> (texts: Vec<String>)
    ensures
        texts@.map_values(|s: String| s@) == texts_of(crate::json::items_view(items@)),
{
    let ghost view = crate::json::items_view(items@);
    let mut texts: Vec<String> = Vec::new();
    let mut i: usize = 0;
    assert(view.take(0) =~= Seq::<JsonView>::empty());
    assert(texts@.map_values(|s: String| s@) =~= Seq::<Seq<char>>::empty());
    while i < items.len()
        invariant
            i <= items@.len(),
            view == crate::json::items_view(items@),
            texts@.map_values(|s: String| s@) == texts_of(view.take(i as int)),
        decreases items@.len() - i,
    {
        proof {
            assert(view.take(i + 1).drop_last() =~= view.take(i as int));
            assert(view.take(i + 1).last() == items@[i as int]@);
        }
        if let Some(s) = items[i].as_str() {
            let ghost before = texts@;
            texts.push(s.to_owned());
            assert(texts@.map_values(|s: String| s@) =~= before.map_values(|s: String| s@).push(s@));
        }
        i = i + 1;
    }
    assert(view.take(view.len() as int) =~= view);
    texts
}

fn value_has_type(name: &str, value: &Json) -> (b: bool)
    ensures
        b == has_type(name@, value@),
{
    if same_text(name, "null") {
        matches!(value, Json::Null)
    } else if same_text(name, "object") {
        matches!(value, Json::Object(_))
    } else if same_text(name, "array") {
        matches!(value, Json::Array(_))
    } else if same_text(name, "string") {
        matches!(value, Json::Text(_))
    } else if same_text(name, "integer") {
        match value {
            Json::Number(n) => n.signed.is_some() || n.unsigned.is_some(),
            _ => false,
        }
    } else if same_text(name, "number") {
        matches!(value, Json::Number(_))
    } else if same_text(name, "boolean") {
        matches!(value, Json::Bool(_))
    } else {
        true
    }
}

fn check_type(schema: &Json, value: &Json) -> (b: bool)
    ensures
        b == type_allows(schema@, value@),
{
    broadcast use crate::json::array_view;

    let ghost names = type_names(schema@);
    match schema.get("type") {
        Some(Json::Text(name)) => {
            let b = value_has_type(name.as_str(), value);
            assert(names[0] == name@);
            b
        },
        Some(Json::Array(items)) => {
            let texts = collect_texts(items);
            assert(names == texts@.map_values(|s: String| s@));
            if texts.len() == 0 {
                return true;
            }
            let mut i: usize = 0;
            while i < texts.len()
                invariant
                    i <= texts@.len(),
                    names == texts@.map_values(|s: String| s@),
                    names == type_names(schema@),
                    names.len() > 0,
                    forall|k: int| 0 <= k < i ==> !has_type(#[trigger] names[k], value@),
                decreases texts@.len() - i,
            {
                assert(names[i as int] == texts@[i as int]@);
                if value_has_type(texts[i].as_str(), value) {
                    return true;
                }
                i = i + 1;
            }
            false
        },
        _ => true,
    }
}

fn check_enum(schema: &Json, value: &Json) -> (b: bool)
    ensures
        b == enum_allows(schema@, value@),
{
    match schema.get_array("enum") {
        Some(items) => {
            let ghost view = crate::json::items_view(items@);
            let mut i: usize = 0;
            while i < items.len()
                invariant
                    i <= items@.len(),
                    view == crate::json::items_view(items@),
                    crate::json::array_field(schema@, "enum"@) == Some(view),
                    forall|k: int| 0 <= k < i ==> !crate::json::same_json(#[trigger] view[k], value@),
                decreases items@.len() - i,
            {
                assert(view[i as int] == items@[i as int]@);
                if json_eq(&items[i], value) {
                    proof {
                        let listed = crate::json::array_field(schema@, "enum"@)->0;
                        assert(crate::json::same_json(listed[i as int], value@));
                        assert(enum_allows(schema@, value@));
                    }
                    return true;
                }
                i = i + 1;
            }
            false
        },
        None => true,
    }
}

fn number_field<'a>(schema: &'a Json, key: &str) -> (r: Option<&'a crate::json::JsonNumber>)
    ensures
        match r {
            Some(n) => crate::json::field(schema@, key@) == Some(JsonView::Number(n@)),
            None => bound(schema@, key@) is None,
        },
{
    match schema.get(key) {
        Some(Json::Number(n)) => Some(n),
        _ => None,
    }
}

fn check_range(schema: &Json, value: &Json, path: &str) -> (r: Result<(), String>)
    ensures
        match r {
            Ok(_) => range_error(schema@, value@, path@) is None,
            Err(message) => range_error(schema@, value@, path@) == Some(message@),
        },
{
    match value {
        Json::Number(n) => {
            let position: i128 = rank_of(n.bits);
            if let Some(b) = number_field(schema, "minimum") {
                if position < rank_of(b.bits) {
                    return Err(concat3(path, " must be at least ", b.decimal.as_str()));
                }
            }
            if let Some(b) = number_field(schema, "maximum") {
                if position > rank_of(b.bits) {
                    return Err(concat3(path, " must be at most ", b.decimal.as_str()));
                }
            }
            if let Some(b) = number_field(schema, "exclusiveMinimum") {
                if position <= rank_of(b.bits) {
                    return Err(concat3(path, " must be greater than ", b.decimal.as_str()));
                }
            }
            if let Some(b) = number_field(schema, "exclusiveMaximum") {
                if position >= rank_of(b.bits) {
                    return Err(concat3(path, " must be less than ", b.decimal.as_str()));
                }
            }
            Ok(())
        },
        _ => Ok(()),
    }
}

fn check_size(
    schema: &Json,
    size: usize,
    low: &str,
    high: &str,
    unit: &str,
    path: &str,
) -> (r: Result<(), String>)
    ensures
        match r {
            Ok(_) => size_error(schema@, size as nat, low@, high@, unit@, path@) is None,
            Err(message) => size_error(schema@, size as nat, low@, high@, unit@, path@) == Some(
                message@,
            ),
        },
{
    if let Some(b) = schema.get_u64(low) {
        if (size as u64) < b {
            let start = concat3(path, " must contain at least ", decimal(b).as_str());
            return Err(concat(start.as_str(), unit));
        }
    }
    if let Some(b) = schema.get_u64(high) {
        if (size as u64) > b {
            let start = concat3(path, " must contain at most ", decimal(b).as_str());
            return Err(concat(start.as_str(), unit));
        }
    }
    Ok(())
}

fn check_required(schema: &Json, members: &Vec<Member>, path: &str) -> (r: Result<(), String>)
    ensures
        match r {
            Ok(_) => required_error(required_names(schema@), crate::json::members_view(members@), path@) is None,
            Err(message) => required_error(
                required_names(schema@),
                crate::json::members_view(members@),
                path@,
            ) == Some(message@),
        },
{
    let ghost names = required_names(schema@);
    match schema.get_array("required") {
        Some(items) => {
            let texts = collect_texts(items);
            let mut i: usize = 0;
            assert(names.take(0) =~= Seq::<Seq<char>>::empty());
            while i < texts.len()
                invariant
                    i <= texts@.len(),
                    names == texts@.map_values(|s: String| s@),
                    names == required_names(schema@),
                    required_error(names.take(i as int), crate::json::members_view(members@), path@) is None,
                decreases texts@.len() - i,
            {
                proof {
                    assert(names.take(i + 1).drop_last() =~= names.take(i as int));
                    assert(names.take(i + 1).last() == texts@[i as int]@);
                }
                if crate::json::member_index(members, texts[i].as_str()).is_none() {
                    let start = concat3(path, ".", texts[i].as_str());
                    proof {
                        required_error_prefix(names, i + 1, crate::json::members_view(members@), path@);
                    }
                    return Err(concat(start.as_str(), " is required"));
                }
                i = i + 1;
            }
            assert(names.take(names.len() as int) =~= names);
            Ok(())
        },
        None => Ok(()),
    }
}

proof fn required_error_prefix(
    names: Seq<Seq<char>>,
    n: int,
    members: Seq<(Seq<char>, JsonView)>,
    path: Seq<char>,
)
    requires
        0 <= n <= names.len(),
        required_error(names.take(n), members, path) is Some,
    ensures
        required_error(names, members, path) == required_error(names.take(n), members, path),
    decreases names.len() - n,
{
    if n < names.len() {
        assert(names.take(n + 1).drop_last() =~= names.take(n));
        required_error_prefix(names, n + 1, members, path);
    } else {
        assert(names.take(n) =~= names);
    }
}

/// Reports the first complaint of `schema` about `value`, which stands at `path`.
pub fn check_schema(schema: &Json, value: &Json, path: &str) -> (r: Result<(), String>)
    ensures
        match r {
            Ok(_) => schema_error(schema@, value@, path@) is None,
            Err(message) => schema_error(schema@, value@, path@) == Some(message@),
        },
        r is Ok <==> conforms(schema@, value@),
    decreases schema@, 3nat, 0nat,
{
    proof {
        array_field_is_part(schema@, "allOf"@);
        array_field_is_part(schema@, "anyOf"@);
        array_field_is_part(schema@, "oneOf"@);
        no_error_means_conforms(schema@, value@, path@);
    }
    if let Some(branches) = schema.get_array("allOf") {
        check_branches(branches, value, path)?;
    }
    if let Some(options) = schema.get_array("anyOf") {
        if count_passing(options, value, path) == 0 {
            return Err(concat(path, " does not match any allowed schema"));
        }
    }
    if let Some(options) = schema.get_array("oneOf") {
        if count_passing(options, value, path) != 1 {
            return Err(concat(path, " must match exactly one allowed schema"));
        }
    }
    check_plain(schema, value, path)?;
    check_parts(schema, value, path)?;
    match value.as_array() {
        Some(items) => check_size(schema, items.len(), "minItems", "maxItems", " items", path),
        None => Ok(()),
    }
}

fn check_plain(schema: &Json, value: &Json, path: &str) -> (r: Result<(), String>)
    ensures
        match r {
            Ok(_) => plain_error(schema@, value@, path@) is None,
            Err(message) => plain_error(schema@, value@, path@) == Some(message@),
        },
{
    if !check_enum(schema, value) {
        return Err(concat(path, " is not an allowed value"));
    }
    if let Some(constant) = schema.get("const") {
        if !json_eq(constant, value) {
            return Err(concat(path, " must equal the schema constant"));
        }
    }
    if !check_type(schema, value) {
        return Err(concat(path, " has the wrong JSON type"));
    }
    check_range(schema, value, path)?;
    if let Some(text) = value.as_str() {
        check_size(schema, text.unicode_len(), "minLength", "maxLength", " characters", path)?;
    }
    match value.as_object() {
        Some(members) => check_required(schema, members, path),
        None => Ok(()),
    }
}

fn check_branches(branches: &Vec<Json>, value: &Json, path: &str) -> (r: Result<(), String>)
    ensures
        match r {
            Ok(_) => branches_error(crate::json::items_view(branches@), value@, path@) is None,
            Err(message) => branches_error(crate::json::items_view(branches@), value@, path@) == Some(message@),
        },
    decreases crate::json::items_view(branches@), 0nat, 0nat,
{
    let ghost view = crate::json::items_view(branches@);
    let mut i: usize = 0;
    assert(view.take(0) =~= Seq::<JsonView>::empty());
    while i < branches.len()
        invariant
            i <= branches@.len(),
            view == crate::json::items_view(branches@),
            branches_error(view.take(i as int), value@, path@) is None,
        decreases branches@.len() - i,
    {
        proof {
            assert(decreases_to!(view => view[i as int]));
            assert(view.take(i + 1).drop_last() =~= view.take(i as int));
            assert(view.take(i + 1).last() == branches@[i as int]@);
        }
        match check_schema(&branches[i], value, path) {
            Ok(_) => {},
            Err(message) => {
                proof {
                    branches_error_prefix(view, i + 1, value@, path@);
                }
                return Err(message);
            },
        }
        i = i + 1;
    }
    assert(view.take(view.len() as int) =~= view);
    Ok(())
}

proof fn branches_error_prefix(branches: Seq<JsonView>, n: int, value: JsonView, path: Seq<char>)
    requires
        0 <= n <= branches.len(),
        branches_error(branches.take(n), value, path) is Some,
    ensures
        branches_error(branches, value, path) == branches_error(branches.take(n), value, path),
    decreases branches.len() - n,
{
    if n < branches.len() {
        assert(branches.take(n + 1).drop_last() =~= branches.take(n));
        branches_error_prefix(branches, n + 1, value, path);
    } else {
        assert(branches.take(n) =~= branches);
    }
}

fn count_passing(options: &Vec<Json>, value: &Json, path: &str) -> (n: usize)
    ensures
        n == passing(crate::json::items_view(options@), value@, path@),
    decreases crate::json::items_view(options@), 0nat, 0nat,
{
    let ghost view = crate::json::items_view(options@);
    let mut i: usize = 0;
    let mut n: usize = 0;
    assert(view.take(0) =~= Seq::<JsonView>::empty());
    while i < options.len()
        invariant
            n <= i <= options@.len(),
            view == crate::json::items_view(options@),
            n == passing(view.take(i as int), value@, path@),
        decreases options@.len() - i,
    {
        proof {
            assert(decreases_to!(view => view[i as int]));
            assert(view.take(i + 1).drop_last() =~= view.take(i as int));
            assert(view.take(i + 1).last() == options@[i as int]@);
        }
        if check_schema(&options[i], value, path).is_ok() {
            n = n + 1;
        }
        i = i + 1;
    }
    assert(view.take(view.len() as int) =~= view);
    n
}

fn check_parts(schema: &Json, value: &Json, path: &str) -> (r: Result<(), String>)
    ensures
        match r {
            Ok(_) => parts_error(schema@, value@, path@) is None,
            Err(message) => parts_error(schema@, value@, path@) == Some(message@),
        },
    decreases schema@, 2nat, 0nat,
{
    broadcast use crate::json::array_view, crate::json::object_view;

    proof {
        crate::json::field_is_part(schema@, "items"@);
    }
    match value {
        Json::Object(members) => check_members(schema, members, path),
        Json::Array(items) => match schema.get("items") {
            Some(child) => check_items(child, items, path),
            None => Ok(()),
        },
        _ => Ok(()),
    }
}

fn check_members(schema: &Json, members: &Vec<Member>, path: &str) -> (r: Result<(), String>)
    ensures
        match r {
            Ok(_) => members_error(schema@, crate::json::members_view(members@), path@) is None,
            Err(message) => members_error(schema@, crate::json::members_view(members@), path@) == Some(message@),
        },
    decreases schema@, 1nat, members@.len(),
{
    broadcast use crate::json::object_view;

    let ghost view = crate::json::members_view(members@);
    let mut i: usize = 0;
    assert(view.take(0) =~= Seq::<(Seq<char>, JsonView)>::empty());
    while i < members.len()
        invariant
            i <= members@.len(),
            view == crate::json::members_view(members@),
            members_error(schema@, view.take(i as int), path@) is None,
        decreases members@.len() - i,
    {
        let key = members[i].key.as_str();
        proof {
            assert(view.take(i + 1).drop_last() =~= view.take(i as int));
            assert(view.take(i + 1).last() == (key@, members@[i as int].value@));
            member_schema_is_part(schema@, key@);
        }
        let named = match schema.get("properties") {
            Some(properties) => properties.get(key),
            None => None,
        };
        let child = match named {
            Some(child) => Some(child),
            None => match schema.get("additionalProperties") {
                Some(Json::Bool(allowed)) => {
                    if !*allowed {
                        let start = concat3(path, ".", key);
                        proof {
                            members_error_prefix(schema@, view, i + 1, path@);
                        }
                        return Err(concat(start.as_str(), " is not accepted by this model"));
                    }
                    None
                },
                Some(Json::Object(rest)) => schema.get("additionalProperties"),
                _ => None,
            },
        };
        if let Some(child) = child {
            let place = concat3(path, ".", key);
            match check_schema(child, &members[i].value, place.as_str()) {
                Ok(_) => {},
                Err(message) => {
                    proof {
                        members_error_prefix(schema@, view, i + 1, path@);
                    }
                    return Err(message);
                },
            }
        }
        i = i + 1;
    }
    assert(view.take(view.len() as int) =~= view);
    Ok(())
}

proof fn members_error_prefix(
    schema: JsonView,
    members: Seq<(Seq<char>, JsonView)>,
    n: int,
    path: Seq<char>,
)
    requires
        0 <= n <= members.len(),
        members_error(schema, members.take(n), path) is Some,
    ensures
        members_error(schema, members, path) == members_error(schema, members.take(n), path),
    decreases members.len() - n,
{
    if n < members.len() {
        assert(members.take(n + 1).drop_last() =~= members.take(n));
        members_error_prefix(schema, members, n + 1, path);
    } else {
        assert(members.take(n) =~= members);
    }
}

fn check_items(child: &Json, items: &Vec<Json>, path: &str) -> (r: Result<(), String>)
    ensures
        match r {
            Ok(_) => items_error(child@, crate::json::items_view(items@), path@) is None,
            Err(message) => items_error(child@, crate::json::items_view(items@), path@) == Some(message@),
        },
    decreases child@, 4nat, items@.len(),
{
    let ghost view = crate::json::items_view(items@);
    let mut i: usize = 0;
    assert(view.take(0) =~= Seq::<JsonView>::empty());
    while i < items.len()
        invariant
            i <= items@.len(),
            view == crate::json::items_view(items@),
            items_error(child@, view.take(i as int), path@) is None,
        decreases items@.len() - i,
    {
        proof {
            assert(view.take(i + 1).drop_last() =~= view.take(i as int));
            assert(view.take(i + 1).last() == items@[i as int]@);
        }
        let start = concat3(path, "[", decimal(i as u64).as_str());
        let place = concat(start.as_str(), "]");
        match check_schema(child, &items[i], place.as_str()) {
            Ok(_) => {},
            Err(message) => {
                proof {
                    items_error_prefix(child@, view, i + 1, path@);
                }
                return Err(message);
            },
        }
        i = i + 1;
    }
    assert(view.take(view.len() as int) =~= view);
    Ok(())
}

proof fn items_error_prefix(child: JsonView, items: Seq<JsonView>, n: int, path: Seq<char>)
    requires
        0 <= n <= items.len(),
        items_error(child, items.take(n), path) is Some,
    ensures
        items_error(child, items, path) == items_error(child, items.take(n), path),
    decreases items.len() - n,
{
    if n < items.len() {
        assert(items.take(n + 1).drop_last() =~= items.take(n));
        items_error_prefix(child, items, n + 1, path);
    } else {
        assert(items.take(n) =~= items);
    }
}

} // verus!
