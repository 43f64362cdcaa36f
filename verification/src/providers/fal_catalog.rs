//! Reading the fal.ai catalog: collecting its pages, resolving the references inside published
//! schemas and recognising the models that turn text or images into video.

use crate::domain::FieldMapping;
use crate::json::{copy_json, insert_member, member, member_index, point, Json, JsonView, Member};
use crate::outside::integer;
use crate::providers::fal::{
    common_field_map, mapped_field, response_error, schema_properties, validation,
};
use crate::providers::{ProviderError, ProviderErrorKind};
use crate::schema::collect_texts;
use crate::text::{
    ascii_lowercase, chars_of, comes_before, concat3, contains_text, parse_unsigned, same_text,
    starts_with_text, text_of,
};
use vstd::prelude::*;

verus! {

/// How deep references may nest.
pub const MAX_REFERENCE_DEPTH: usize = 64;

/// A document with every `$ref` replaced by what it points to in `root`, or the complaint.
pub open spec fn resolved(value: JsonView, root: JsonView, depth: nat) -> Result<JsonView, Seq<char>>
    decreases 66 - depth, 1nat, 0nat,
{
    if depth > 64 {
        Err("fal OpenAPI schema contains recursive references"@)
    } else {
        match value {
            JsonView::Object(members) => match crate::json::text_field(value, "$ref"@) {
                Some(reference) => if !"#"@.is_prefix_of(reference) {
                    Err("fal OpenAPI schema uses an external reference"@)
                } else {
                    match crate::json::pointed(root, reference.skip(1)) {
                        Some(target) => resolved(target, root, depth + 1),
                        None => Err("fal OpenAPI schema contains a missing reference"@),
                    }
                },
                None => match resolved_members(members, root, depth + 1) {
                    Ok(done) => Ok(JsonView::Object(done)),
                    Err(message) => Err(message),
                },
            },
            JsonView::Array(items) => match resolved_items(items, root, depth + 1) {
                Ok(done) => Ok(JsonView::Array(done)),
                Err(message) => Err(message),
            },
            other => Ok(other),
        }
    }
}

/// Members with their references replaced, or the first complaint.
pub open spec fn resolved_members(
    members: Seq<(Seq<char>, JsonView)>,
    root: JsonView,
    depth: nat,
) -> Result<Seq<(Seq<char>, JsonView)>, Seq<char>>
    decreases 66 - depth, 2nat, members.len(),
{
    if members.len() == 0 || depth > 65 {
        Ok(Seq::empty())
    } else {
        match resolved_members(members.drop_last(), root, depth) {
            Ok(done) => match resolved(members.last().1, root, depth) {
                Ok(value) => Ok(done.push((members.last().0, value))),
                Err(message) => Err(message),
            },
            Err(message) => Err(message),
        }
    }
}

/// Items with their references replaced, or the first complaint.
pub open spec fn resolved_items(items: Seq<JsonView>, root: JsonView, depth: nat) -> Result<
    Seq<JsonView>,
    Seq<char>,
>
    decreases 66 - depth, 2nat, items.len(),
{
    if items.len() == 0 || depth > 65 {
        Ok(Seq::empty())
    } else {
        match resolved_items(items.drop_last(), root, depth) {
            Ok(done) => match resolved(items.last(), root, depth) {
                Ok(value) => Ok(done.push(value)),
                Err(message) => Err(message),
            },
            Err(message) => Err(message),
        }
    }
}

fn resolve_members(members: &Vec<Member>, root: &Json, depth: usize) -> (r: Result<
    Vec<Member>,
    &'static str,
>)
    requires
        depth <= 65,
    ensures
        match r {
            Ok(done) => resolved_members(crate::json::members_view(members@), root@, depth as nat) == Ok::<
                Seq<(Seq<char>, JsonView)>,
                Seq<char>,
            >(crate::json::members_view(done@)),
            Err(message) => resolved_members(crate::json::members_view(members@), root@, depth as nat) == Err::<
                Seq<(Seq<char>, JsonView)>,
                Seq<char>,
            >(message@),
        },
    decreases 66 - depth, 2nat, members@.len(),
{
    let ghost view = crate::json::members_view(members@);
    let mut done: Vec<Member> = Vec::new();
    let mut i: usize = 0;
    assert(view.take(0) =~= Seq::<(Seq<char>, JsonView)>::empty());
    assert(crate::json::members_view(done@) =~= Seq::<(Seq<char>, JsonView)>::empty());
    while i < members.len()
        invariant
            i <= members@.len(),
            depth <= 65,
            view == crate::json::members_view(members@),
            resolved_members(view.take(i as int), root@, depth as nat) == Ok::<
                Seq<(Seq<char>, JsonView)>,
                Seq<char>,
            >(crate::json::members_view(done@)),
        decreases members@.len() - i,
    {
        assert(view.take(i + 1).drop_last() =~= view.take(i as int));
        assert(view.take(i + 1).last() == (members@[i as int].key@, members@[i as int].value@));
        match resolve(&members[i].value, root, depth) {
            Ok(value) => {
                let ghost before = crate::json::members_view(done@);
                done.push(Member { key: members[i].key.clone(), value });
                assert(crate::json::members_view(done@) =~= before.push((members@[i as int].key@, value@)));
            },
            Err(message) => {
                proof {
                    resolved_members_prefix(view, root@, depth as nat, i + 1);
                }
                return Err(message);
            },
        }
        i = i + 1;
    }
    assert(view.take(view.len() as int) =~= view);
    Ok(done)
}

proof fn resolved_members_prefix(
    members: Seq<(Seq<char>, JsonView)>,
    root: JsonView,
    depth: nat,
    n: int,
)
    requires
        0 <= n <= members.len(),
        resolved_members(members.take(n), root, depth) is Err,
        depth <= 65,
    ensures
        resolved_members(members, root, depth) == resolved_members(members.take(n), root, depth),
    decreases members.len() - n,
{
    if n < members.len() {
        assert(members.take(n + 1).drop_last() =~= members.take(n));
        resolved_members_prefix(members, root, depth, n + 1);
    } else {
        assert(members.take(n) =~= members);
    }
}

fn resolve_items(items: &Vec<Json>, root: &Json, depth: usize) -> (r: Result<
    Vec<Json>,
    &'static str,
>)
    requires
        depth <= 65,
    ensures
        match r {
            Ok(done) => resolved_items(crate::json::items_view(items@), root@, depth as nat) == Ok::<
                Seq<JsonView>,
                Seq<char>,
            >(crate::json::items_view(done@)),
            Err(message) => resolved_items(crate::json::items_view(items@), root@, depth as nat) == Err::<
                Seq<JsonView>,
                Seq<char>,
            >(message@),
        },
    decreases 66 - depth, 2nat, items@.len(),
{
    let ghost view = crate::json::items_view(items@);
    let mut done: Vec<Json> = Vec::new();
    let mut i: usize = 0;
    assert(view.take(0) =~= Seq::<JsonView>::empty());
    assert(crate::json::items_view(done@) =~= Seq::<JsonView>::empty());
    while i < items.len()
        invariant
            i <= items@.len(),
            depth <= 65,
            view == crate::json::items_view(items@),
            resolved_items(view.take(i as int), root@, depth as nat) == Ok::<
                Seq<JsonView>,
                Seq<char>,
            >(crate::json::items_view(done@)),
        decreases items@.len() - i,
    {
        assert(view.take(i + 1).drop_last() =~= view.take(i as int));
        assert(view.take(i + 1).last() == items@[i as int]@);
        match resolve(&items[i], root, depth) {
            Ok(value) => {
                let ghost before = crate::json::items_view(done@);
                done.push(value);
                assert(crate::json::items_view(done@) =~= before.push(value@));
            },
            Err(message) => {
                proof {
                    resolved_items_prefix(view, root@, depth as nat, i + 1);
                }
                return Err(message);
            },
        }
        i = i + 1;
    }
    assert(view.take(view.len() as int) =~= view);
    Ok(done)
}

proof fn resolved_items_prefix(items: Seq<JsonView>, root: JsonView, depth: nat, n: int)
    requires
        0 <= n <= items.len(),
        resolved_items(items.take(n), root, depth) is Err,
        depth <= 65,
    ensures
        resolved_items(items, root, depth) == resolved_items(items.take(n), root, depth),
    decreases items.len() - n,
{
    if n < items.len() {
        assert(items.take(n + 1).drop_last() =~= items.take(n));
        resolved_items_prefix(items, root, depth, n + 1);
    } else {
        assert(items.take(n) =~= items);
    }
}

fn resolve(value: &Json, root: &Json, depth: usize) -> (r: Result<Json, &'static str>)
    requires
        depth <= 65,
    ensures
        match r {
            Ok(json) => resolved(value@, root@, depth as nat) == Ok::<JsonView, Seq<char>>(json@),
            Err(message) => resolved(value@, root@, depth as nat) == Err::<JsonView, Seq<char>>(
                message@,
            ),
        },
    decreases 66 - depth, 1nat, 0nat,
{
    broadcast use crate::json::array_view, crate::json::object_view;

    if depth > MAX_REFERENCE_DEPTH {
        return Err("fal OpenAPI schema contains recursive references");
    }
    match value {
        Json::Object(members) => {
            if let Some(reference) = value.get_str("$ref") {
                let chars = chars_of(reference);
                proof {
                    reveal_strlit("#");
                }
                if !starts_with_text(reference, "#") {
                    return Err("fal OpenAPI schema uses an external reference");
                }
                let pointer = text_of(&chars, 1, chars.len());
                assert(pointer@ =~= reference@.skip(1));
                return match point(root, pointer.as_str()) {
                    Some(target) => resolve(target, root, depth + 1),
                    None => Err("fal OpenAPI schema contains a missing reference"),
                };
            }
            match resolve_members(members, root, depth + 1) {
                Ok(done) => Ok(Json::Object(done)),
                Err(message) => Err(message),
            }
        },
        Json::Array(items) => match resolve_items(items, root, depth + 1) {
            Ok(done) => Ok(Json::Array(done)),
            Err(message) => Err(message),
        },
        other => Ok(copy_json(other)),
    }
}

/// Replaces every `$ref` of `value` by what it points to in `root`.
pub fn resolve_refs(value: &Json, root: &Json) -> (r: Result<Json, ProviderError>)
    ensures
        match r {
            Ok(json) => resolved(value@, root@, 0) == Ok::<JsonView, Seq<char>>(json@),
            Err(e) => resolved(value@, root@, 0) matches Err(message) && e@ == crate::providers::fal::fal_failure(
                ProviderErrorKind::Response,
                message,
            ),
        },
{
    match resolve(value, root, 0) {
        Ok(json) => Ok(json),
        Err(message) => Err(response_error(message)),
    }
}

/// The input schema that one path of an OpenAPI document declares.
pub open spec fn path_input(path: JsonView) -> Option<JsonView> {
    match crate::json::field(path, "post"@) {
        Some(post) => match crate::json::field(post, "requestBody"@) {
            Some(body) => content_schema(body),
            None => None,
        },
        None => None,
    }
}

/// The schema of the JSON content.
pub open spec fn content_schema(body: JsonView) -> Option<JsonView> {
    match crate::json::field(body, "content"@) {
        Some(content) => match crate::json::field(content, "application/json"@) {
            Some(media) => crate::json::field(media, "schema"@),
            None => None,
        },
        None => None,
    }
}

/// The output schema that one path of an OpenAPI document declares.
pub open spec fn path_output(path: JsonView) -> Option<JsonView> {
    match crate::json::field(path, "post"@) {
        Some(post) => match crate::json::field(post, "responses"@) {
            Some(JsonView::Object(responses)) => match crate::json::lookup(responses, "200"@) {
                Some(answer) => content_schema(answer),
                None => match crate::json::lookup(responses, "201"@) {
                    Some(answer) => content_schema(answer),
                    None => None,
                },
            },
            _ => None,
        },
        None => None,
    }
}

/// The first schema that the paths declare: of the output, or of the input.
pub open spec fn first_schema(paths: Seq<(Seq<char>, JsonView)>, output: bool) -> Option<JsonView>
    decreases paths.len(),
{
    if paths.len() == 0 {
        None
    } else {
        let found = if output {
            path_output(paths[0].1)
        } else {
            path_input(paths[0].1)
        };
        match found {
            Some(schema) => Some(schema),
            None => first_schema(paths.skip(1), output),
        }
    }
}

/// The schema of an OpenAPI document's output or input: the first that a path declares, else the
/// component of that name. None where the document has no paths.
pub open spec fn document_schema(openapi: JsonView, output: bool) -> Option<JsonView> {
    match crate::json::object_field(openapi, "paths"@) {
        Some(paths) => match first_schema(paths, output) {
            Some(schema) => Some(schema),
            None => crate::json::pointed(
                openapi,
                if output {
                    "/components/schemas/Output"@
                } else {
                    "/components/schemas/Input"@
                },
            ),
        },
        None => None,
    }
}

fn json_content<'a>(body: &'a Json) -> (r: Option<&'a Json>)
    ensures
        match r {
            Some(schema) => content_schema(body@) == Some(schema@),
            None => content_schema(body@) is None,
        },
{
    match body.get("content") {
        Some(content) => match content.get("application/json") {
            Some(media) => media.get("schema"),
            None => None,
        },
        None => None,
    }
}

fn input_of_path<'a>(path: &'a Json) -> (r: Option<&'a Json>)
    ensures
        match r {
            Some(schema) => path_input(path@) == Some(schema@),
            None => path_input(path@) is None,
        },
{
    match path.get("post") {
        Some(post) => match post.get("requestBody") {
            Some(body) => json_content(body),
            None => None,
        },
        None => None,
    }
}

fn output_of_path<'a>(path: &'a Json) -> (r: Option<&'a Json>)
    ensures
        match r {
            Some(schema) => path_output(path@) == Some(schema@),
            None => path_output(path@) is None,
        },
{
    match path.get("post") {
        Some(post) => match post.get_object("responses") {
            Some(responses) => match member_index(responses, "200") {
                Some(i) => json_content(&responses[i].value),
                None => match member_index(responses, "201") {
                    Some(i) => json_content(&responses[i].value),
                    None => None,
                },
            },
            None => None,
        },
        None => None,
    }
}

fn find_schema<'a>(openapi: &'a Json, output: bool) -> (r: Option<&'a Json>)
    ensures
        match r {
            Some(schema) => document_schema(openapi@, output) == Some(schema@),
            None => document_schema(openapi@, output) is None,
        },
{
    match openapi.get_object("paths") {
        Some(paths) => {
            let ghost view = crate::json::members_view(paths@);
            let mut i: usize = 0;
            assert(view.skip(0) =~= view);
            while i < paths.len()
                invariant
                    i <= paths@.len(),
                    view == crate::json::members_view(paths@),
                    crate::json::object_field(openapi@, "paths"@) == Some(view),
                    first_schema(view, output) == first_schema(view.skip(i as int), output),
                decreases paths@.len() - i,
            {
                assert(view.skip(i as int)[0] == (paths@[i as int].key@, paths@[i as int].value@));
                assert(view.skip(i as int).skip(1) =~= view.skip(i + 1));
                let found = if output {
                    output_of_path(&paths[i].value)
                } else {
                    input_of_path(&paths[i].value)
                };
                if let Some(schema) = found {
                    return Some(schema);
                }
                i = i + 1;
            }
            if output {
                point(openapi, "/components/schemas/Output")
            } else {
                point(openapi, "/components/schemas/Input")
            }
        },
        None => None,
    }
}

/// The schema of what a model takes.
pub fn openapi_input_schema(openapi: &Json) -> (r: Option<Json>)
    ensures
        match r {
            Some(schema) => document_schema(openapi@, false) == Some(schema@),
            None => document_schema(openapi@, false) is None,
        },
{
    match find_schema(openapi, false) {
        Some(schema) => Some(copy_json(schema)),
        None => None,
    }
}

/// The schema of what a model gives.
pub fn openapi_output_schema(openapi: &Json) -> (r: Option<Json>)
    ensures
        match r {
            Some(schema) => document_schema(openapi@, true) == Some(schema@),
            None => document_schema(openapi@, true) is None,
        },
{
    match find_schema(openapi, true) {
        Some(schema) => Some(copy_json(schema)),
        None => None,
    }
}

/// Whether the object says that its content is a video.
pub open spec fn declares_video(object: JsonView) -> bool {
    crate::json::text_field(object, "contentMediaType"@) matches Some(media) && "video/"@.is_prefix_of(media)
}

/// Whether a member called `key` is the URL of a file.
pub open spec fn url_member(key: Seq<char>, value: JsonView) -> bool {
    (key == "url"@ || key == "video_url"@ || key == "file_url"@) && crate::json::text_field(value, "type"@)
        == Some("string"@)
}

/// Whether a schema, met under `key`, has a URL of a video somewhere: a member that is a file URL
/// and stands in the context of something called video.
pub open spec fn shows_video(value: JsonView, key: Option<Seq<char>>, seen: bool) -> bool
    decreases value,
{
    match value {
        JsonView::Object(members) => exists|i: int|
            0 <= i < members.len() && ({
                let name = (#[trigger] members[i]).0;
                let child = members[i].1;
                let video = seen || crate::text::occurs(crate::text::lower_text(name), "video"@) || declares_video(value);
                (url_member(name, child) && (video || (key matches Some(k) && crate::text::occurs(k, "video"@))))
                    || shows_video(child, Some(name), video)
            }),
        JsonView::Array(items) => exists|i: int|
            0 <= i < items.len() && shows_video(#[trigger] items[i], key, seen),
        _ => false,
    }
}

/// What `shows_video` asks of one member.
spec fn member_shows(
    object: JsonView,
    name: Seq<char>,
    child: JsonView,
    key: Option<Seq<char>>,
    seen: bool,
) -> bool {
    let video = seen || crate::text::occurs(crate::text::lower_text(name), "video"@) || declares_video(object);
    (url_member(name, child) && (video || (key matches Some(k) && crate::text::occurs(k, "video"@))))
        || shows_video(child, Some(name), video)
}

fn search_video(value: &Json, key: Option<&str>, seen: bool) -> (b: bool)
    ensures
        b == shows_video(
            value@,
            (match key {
                Some(k) => Some(k@),
                None => None,
            }),
            seen,
        ),
    decreases value@,
{
    broadcast use crate::json::array_view, crate::json::object_view;

    let ghost key_view: Option<Seq<char>> = match key {
        Some(k) => Some(k@),
        None => None,
    };
    match value {
        Json::Object(members) => {
            let ghost view = crate::json::members_view(members@);
            let declared = match value.get_str("contentMediaType") {
                Some(media) => starts_with_text(media, "video/"),
                None => false,
            };
            let key_video = match key {
                Some(k) => contains_text(k, "video"),
                None => false,
            };
            let mut i: usize = 0;
            while i < members.len()
                invariant
                    i <= members@.len(),
                    view == crate::json::members_view(members@),
                    value@ == JsonView::Object(view),
                    declared == declares_video(value@),
                    key_view == (match key {
                        Some(k) => Some(k@),
                        None => None::<Seq<char>>,
                    }),
                    key_video == (key_view matches Some(k) && crate::text::occurs(k, "video"@)),
                    forall|k: int|
                        0 <= k < i ==> !member_shows(
                            value@,
                            (#[trigger] view[k]).0,
                            view[k].1,
                            key_view,
                            seen,
                        ),
                decreases members@.len() - i,
            {
                assert(decreases_to!(value@ => value@->Object_0));
                assert(decreases_to!(value@->Object_0 => view[i as int]));
                assert(decreases_to!(view[i as int] => view[i as int].1));
                assert(view[i as int] == (members@[i as int].key@, members@[i as int].value@));
                let name = members[i].key.as_str();
                let lowered = ascii_lowercase(name);
                let video = seen || contains_text(lowered.as_str(), "video") || declared;
                let url = (same_text(name, "url") || same_text(name, "video_url") || same_text(
                    name,
                    "file_url",
                )) && match members[i].value.get_str("type") {
                    Some(kind) => same_text(kind, "string"),
                    None => false,
                };
                if (url && (video || key_video)) || search_video(
                    &members[i].value,
                    Some(name),
                    video,
                ) {
                    assert(member_shows(value@, view[i as int].0, view[i as int].1, key_view, seen));
                    assert(shows_video(value@, key_view, seen));
                    return true;
                }
                i = i + 1;
            }
            proof {
                assert(!shows_video(value@, key_view, seen)) by {
                    if shows_video(value@, key_view, seen) {
                        let k = choose|k: int|
                            0 <= k < view.len() && member_shows(
                                value@,
                                (#[trigger] view[k]).0,
                                view[k].1,
                                key_view,
                                seen,
                            );
                        assert(!member_shows(value@, view[k].0, view[k].1, key_view, seen));
                    }
                }
            }
            false
        },
        Json::Array(items) => {
            let ghost view = crate::json::items_view(items@);
            let mut i: usize = 0;
            while i < items.len()
                invariant
                    i <= items@.len(),
                    view == crate::json::items_view(items@),
                    value@ == JsonView::Array(view),
                    key_view == (match key {
                        Some(k) => Some(k@),
                        None => None::<Seq<char>>,
                    }),
                    forall|k: int| 0 <= k < i ==> !shows_video(#[trigger] view[k], key_view, seen),
                decreases items@.len() - i,
            {
                assert(decreases_to!(value@ => value@->Array_0));
                assert(decreases_to!(value@->Array_0 => view[i as int]));
                assert(view[i as int] == items@[i as int]@);
                if search_video(&items[i], key, seen) {
                    assert(shows_video(value@, key_view, seen));
                    return true;
                }
                i = i + 1;
            }
            false
        },
        _ => false,
    }
}

/// Whether a schema has the URL of a video somewhere.
pub fn schema_has_video_url(schema: &Json) -> (b: bool)
    ensures
        b == shows_video(schema@, None, false),
{
    search_video(schema, None, false)
}

/// A text of a catalog entry's metadata.
pub open spec fn meta_text(raw: JsonView, key: Seq<char>) -> Option<Seq<char>> {
    match crate::json::field(raw, "metadata"@) {
        Some(metadata) => crate::json::text_field(metadata, key),
        None => None,
    }
}

/// `text`, or nothing.
pub open spec fn or_empty(text: Option<Seq<char>>) -> Seq<char> {
    match text {
        Some(t) => t,
        None => Seq::empty(),
    }
}

/// What the entry is filed as, and still offered.
pub open spec fn offered_video_entry(raw: JsonView) -> bool {
    let category = or_empty(meta_text(raw, "category"@));
    &&& or_empty(crate::json::text_field(raw, "endpoint_id"@)).len() > 0
    &&& category == "text-to-video"@ || category == "image-to-video"@
    &&& meta_text(raw, "status"@) matches Some(status) ==> status == "active"@
}

/// The values that the schema of a control lists.
pub open spec fn listed_values(input: JsonView, control: Seq<char>) -> Seq<JsonView> {
    match crate::providers::fal::mapped(crate::providers::fal::carried(crate::providers::fal::properties_of(input), crate::providers::fal::controls()), control) {
        Some(name) => match crate::json::lookup(crate::providers::fal::properties_of(input), name) {
            Some(property) => match crate::json::array_field(property, "enum"@) {
                Some(items) => items,
                None => Seq::empty(),
            },
            None => Seq::empty(),
        },
        None => Seq::empty(),
    }
}

/// Texts as an array.
pub open spec fn text_array(texts: Seq<Seq<char>>) -> JsonView {
    JsonView::Array(Seq::new(texts.len(), |i: int| JsonView::Text(texts[i])))
}

/// The number of seconds that a listed value denotes.
pub open spec fn seconds_of(value: JsonView) -> Option<nat> {
    let n = match value {
        JsonView::Number(number) => match number.unsigned {
            Some(n) => Some(n as nat),
            None => None,
        },
        JsonView::Text(text) => crate::text::parsed_unsigned(text, u64::MAX as nat),
        _ => None,
    };
    match n {
        Some(seconds) => if seconds <= u32::MAX {
            Some(seconds)
        } else {
            None
        },
        None => None,
    }
}

/// The durations that the listed values denote.
pub open spec fn durations_of(values: Seq<JsonView>) -> Seq<JsonView>
    decreases values.len(),
{
    if values.len() == 0 {
        Seq::empty()
    } else {
        match seconds_of(values.last()) {
            Some(seconds) => durations_of(values.drop_last()).push(
                JsonView::Number(crate::outside::number_of(seconds as i64)),
            ),
            None => durations_of(values.drop_last()),
        }
    }
}

/// The frames that a model can be given.
pub open spec fn frame_names(map: Seq<(Seq<char>, Seq<char>)>) -> Seq<Seq<char>> {
    let first = if crate::providers::fal::mapped(map, "first_frame"@) is Some {
        seq!["first_frame"@]
    } else {
        Seq::empty()
    };
    if crate::providers::fal::mapped(map, "last_frame"@) is Some {
        first.push("last_frame"@)
    } else {
        first
    }
}

/// A model in the form that both providers share.
pub open spec fn model_document(raw: JsonView, input: JsonView) -> JsonView {
    let map = crate::providers::fal::carried(crate::providers::fal::properties_of(input), crate::providers::fal::controls());
    let id = or_empty(crate::json::text_field(raw, "endpoint_id"@));
    JsonView::Object(
        seq![
            (
                "allowed_passthrough_parameters"@,
                text_array(
                    Seq::new(crate::providers::fal::properties_of(input).len(), |i: int| crate::providers::fal::properties_of(input)[i].0),
                ),
            ),
            ("description"@, JsonView::Text(or_empty(meta_text(raw, "description"@)))),
            ("fal_metadata"@, raw),
            (
                "field_map"@,
                JsonView::Object(
                    Seq::new(map.len(), |i: int| (map[i].0, JsonView::Text(map[i].1))),
                ),
            ),
            ("generate_audio"@, JsonView::Bool(crate::providers::fal::mapped(map, "generate_audio"@) is Some)),
            ("id"@, JsonView::Text(id)),
            ("input_schema"@, input),
            (
                "name"@,
                JsonView::Text(
                    match meta_text(raw, "display_name"@) {
                        Some(name) => name,
                        None => id,
                    },
                ),
            ),
            ("seed"@, JsonView::Bool(crate::providers::fal::mapped(map, "seed"@) is Some)),
            (
                "supported_aspect_ratios"@,
                text_array(crate::schema::texts_of(listed_values(input, "aspect_ratio"@))),
            ),
            (
                "supported_durations"@,
                JsonView::Array(durations_of(listed_values(input, "duration"@))),
            ),
            ("supported_frame_images"@, text_array(frame_names(map))),
            ("supported_resolutions"@, text_array(crate::schema::texts_of(listed_values(input, "resolution"@)))),
            ("supported_sizes"@, text_array(crate::schema::texts_of(listed_values(input, "size"@)))),
        ],
    )
}

/// What a catalog entry amounts to: a model; nothing where it does not turn text or images into
/// video; or the complaint about its schemas.
pub open spec fn normalized(raw: JsonView) -> Result<Option<JsonView>, Seq<char>> {
    match crate::json::field(raw, "openapi"@) {
        Some(openapi) if offered_video_entry(raw) => match (
            document_schema(openapi, false),
            document_schema(openapi, true),
        ) {
            (Some(input), Some(output)) => match (
                resolved(input, openapi, 0),
                resolved(output, openapi, 0),
            ) {
                (Err(message), _) => Err(message),
                (_, Err(message)) => Err(message),
                (Ok(input), Ok(output)) => if shows_video(output, None, false) && crate::providers::fal::mapped(
                    crate::providers::fal::carried(crate::providers::fal::properties_of(input), crate::providers::fal::controls()),
                    "prompt"@,
                ) is Some {
                    Ok(Some(model_document(raw, input)))
                } else {
                    Ok(None)
                },
            },
            _ => Ok(None),
        },
        _ => Ok(None),
    }
}

/// A normalised model always has a prompt and gives a video; its entry is an active one for
/// video.
pub proof fn normalized_models_make_video(raw: JsonView)
    ensures
        normalized(raw) matches Ok(Some(model)) ==> offered_video_entry(raw) && exists|
            input: JsonView,
            output: JsonView,
        |
            #![trigger model_document(raw, input), shows_video(output, None, false)]
            model == model_document(raw, input) && shows_video(output, None, false) && crate::providers::fal::mapped(
                crate::providers::fal::carried(crate::providers::fal::properties_of(input), crate::providers::fal::controls()),
                "prompt"@,
            ) is Some,
{
    if let Ok(Some(model)) = normalized(raw) {
        let openapi = crate::json::field(raw, "openapi"@)->0;
        let input = resolved(document_schema(openapi, false)->0, openapi, 0)->Ok_0;
        let output = resolved(document_schema(openapi, true)->0, openapi, 0)->Ok_0;
        assert(model == model_document(raw, input) && shows_video(output, None, false));
    }
}

fn meta_str<'a>(raw: &'a Json, key: &str) -> (r: Option<&'a str>)
    ensures
        match r {
            Some(text) => meta_text(raw@, key@) == Some(text@),
            None => meta_text(raw@, key@) is None,
        },
{
    match raw.get("metadata") {
        Some(metadata) => metadata.get_str(key),
        None => None,
    }
}

fn is_offered(raw: &Json) -> (b: bool)
    ensures
        b == offered_video_entry(raw@),
{
    let named = match raw.get_str("endpoint_id") {
        Some(id) => !id.is_empty(),
        None => false,
    };
    let filed = match meta_str(raw, "category") {
        Some(category) => same_text(category, "text-to-video") || same_text(
            category,
            "image-to-video",
        ),
        None => {
            proof {
                reveal_strlit("text-to-video");
                reveal_strlit("image-to-video");
                assert("text-to-video"@.len() > 0 && "image-to-video"@.len() > 0);
            }
            false
        },
    };
    let active = match meta_str(raw, "status") {
        Some(status) => same_text(status, "active"),
        None => true,
    };
    named && filed && active
}

fn copied_text(text: Option<&str>) -> (s: String)
    ensures
        s@ == or_empty(
            match text {
                Some(t) => Some(t@),
                None => None,
            },
        ),
{
    match text {
        Some(t) => t.to_owned(),
        None => String::new(),
    }
}

fn texts_json(texts: &Vec<String>) -> (json: Json)
    ensures
        json@ == text_array(texts@.map_values(|s: String| s@)),
{
    broadcast use crate::json::array_view;

    let mut items: Vec<Json> = Vec::new();
    let mut i: usize = 0;
    while i < texts.len()
        invariant
            i <= texts@.len(),
            items@.len() == i,
            forall|k: int| 0 <= k < i ==> (#[trigger] items@[k])@ == JsonView::Text(texts@[k]@),
        decreases texts@.len() - i,
    {
        items.push(Json::Text(texts[i].clone()));
        i = i + 1;
    }
    let json = Json::Array(items);
    assert(json@->Array_0 =~= text_array(texts@.map_values(|s: String| s@))->Array_0);
    json
}

fn values_listed<'a>(
    properties: &'a Vec<Member>,
    map: &Vec<FieldMapping>,
    control: &str,
) -> (r: Option<&'a Vec<Json>>)
    ensures
        match r {
            Some(items) => (match crate::providers::fal::mapped(crate::providers::fal::map_view(map@), control@) {
                Some(name) => match crate::json::lookup(crate::json::members_view(properties@), name) {
                    Some(property) => crate::json::array_field(property, "enum"@) == Some(crate::json::items_view(items@)),
                    None => false,
                },
                None => false,
            }),
            None => (match crate::providers::fal::mapped(crate::providers::fal::map_view(map@), control@) {
                Some(name) => match crate::json::lookup(crate::json::members_view(properties@), name) {
                    Some(property) => crate::json::array_field(property, "enum"@) is None,
                    None => true,
                },
                None => true,
            }),
        },
{
    match mapped_field(map, control) {
        Some(name) => match member_index(properties, name) {
            Some(i) => properties[i].value.get_array("enum"),
            None => None,
        },
        None => None,
    }
}

fn listed_texts(properties: &Vec<Member>, map: &Vec<FieldMapping>, control: &str, Ghost(input): Ghost<JsonView>) -> (json: Json)
    requires
        crate::json::members_view(properties@) == crate::providers::fal::properties_of(input),
        crate::providers::fal::map_view(map@) == crate::providers::fal::carried(crate::providers::fal::properties_of(input), crate::providers::fal::controls()),
    ensures
        json@ == text_array(crate::schema::texts_of(listed_values(input, control@))),
{
    match values_listed(properties, map, control) {
        Some(items) => {
            let texts = collect_texts(items);
            texts_json(&texts)
        },
        None => {
            let texts: Vec<String> = Vec::new();
            assert(texts@.map_values(|s: String| s@) =~= Seq::<Seq<char>>::empty());
            texts_json(&texts)
        },
    }
}

fn seconds(value: &Json) -> (r: Option<u32>)
    ensures
        match r {
            Some(n) => seconds_of(value@) == Some(n as nat),
            None => seconds_of(value@) is None,
        },
{
    let n = match value {
        Json::Number(number) => number.unsigned,
        Json::Text(text) => parse_unsigned(text.as_str(), u64::MAX),
        _ => None,
    };
    match n {
        Some(seconds) => if seconds <= u32::MAX as u64 {
            Some(seconds as u32)
        } else {
            None
        },
        None => None,
    }
}

fn durations_json(values: Option<&Vec<Json>>) -> (json: Json)
    ensures
        json@ == JsonView::Array(
            durations_of(
                match values {
                    Some(items) => crate::json::items_view(items@),
                    None => Seq::empty(),
                },
            ),
        ),
{
    broadcast use crate::json::array_view;

    let mut durations: Vec<Json> = Vec::new();
    assert(crate::json::items_view(durations@) =~= Seq::<JsonView>::empty());
    if let Some(items) = values {
        let ghost view = crate::json::items_view(items@);
        let mut i: usize = 0;
        assert(view.take(0) =~= Seq::<JsonView>::empty());
        while i < items.len()
            invariant
                i <= items@.len(),
                view == crate::json::items_view(items@),
                crate::json::items_view(durations@) == durations_of(view.take(i as int)),
            decreases items@.len() - i,
        {
            assert(view.take(i + 1).drop_last() =~= view.take(i as int));
            assert(view.take(i + 1).last() == items@[i as int]@);
            let ghost before = crate::json::items_view(durations@);
            if let Some(n) = seconds(&items[i]) {
                let number = Json::Number(integer(n as i64));
                let ghost number_view = number@;
                durations.push(number);
                assert(crate::json::items_view(durations@) =~= before.push(number_view));
            }
            i = i + 1;
        }
        assert(view.take(view.len() as int) =~= view);
    }
    Json::Array(durations)
}

fn property_names(properties: &Vec<Member>) -> (json: Json)
    ensures
        json@ == text_array(
            Seq::new(
                crate::json::members_view(properties@).len(),
                |i: int| crate::json::members_view(properties@)[i].0,
            ),
        ),
{
    let mut names: Vec<String> = Vec::new();
    let mut i: usize = 0;
    while i < properties.len()
        invariant
            i <= properties@.len(),
            names@.len() == i,
            forall|k: int| 0 <= k < i ==> (#[trigger] names@[k])@ == properties@[k].key@,
        decreases properties@.len() - i,
    {
        names.push(properties[i].key.clone());
        i = i + 1;
    }
    assert(names@.map_values(|s: String| s@) =~= Seq::new(
        crate::json::members_view(properties@).len(),
        |i: int| crate::json::members_view(properties@)[i].0,
    ));
    texts_json(&names)
}

fn map_json(map: &Vec<FieldMapping>) -> (json: Json)
    ensures
        json@ == JsonView::Object(
            Seq::new(
                crate::providers::fal::map_view(map@).len(),
                |i: int| (crate::providers::fal::map_view(map@)[i].0, JsonView::Text(crate::providers::fal::map_view(map@)[i].1)),
            ),
        ),
{
    broadcast use crate::json::object_view;

    let mut members: Vec<Member> = Vec::new();
    let mut i: usize = 0;
    while i < map.len()
        invariant
            i <= map@.len(),
            members@.len() == i,
            forall|k: int|
                0 <= k < i ==> (#[trigger] members@[k]).key@ == map@[k].canonical@
                    && members@[k].value@ == JsonView::Text(map@[k].field@),
        decreases map@.len() - i,
    {
        members.push(member(map[i].canonical.as_str(), Json::Text(map[i].field.clone())));
        i = i + 1;
    }
    let json = Json::Object(members);
    assert(json@->Object_0 =~= Seq::new(
        crate::providers::fal::map_view(map@).len(),
        |i: int| (crate::providers::fal::map_view(map@)[i].0, JsonView::Text(crate::providers::fal::map_view(map@)[i].1)),
    ));
    json
}

fn frames_json(map: &Vec<FieldMapping>) -> (json: Json)
    ensures
        json@ == text_array(frame_names(crate::providers::fal::map_view(map@))),
{
    let mut names: Vec<String> = Vec::new();
    if mapped_field(map, "first_frame").is_some() {
        names.push("first_frame".to_owned());
    }
    if mapped_field(map, "last_frame").is_some() {
        names.push("last_frame".to_owned());
    }
    assert(names@.map_values(|s: String| s@) =~= frame_names(crate::providers::fal::map_view(map@)));
    texts_json(&names)
}

fn model_json(raw: &Json, input: &Json) -> (json: Json)
    ensures
        json@ == model_document(raw@, input@),
{
    broadcast use crate::json::object_view;

    let properties = schema_properties(input);
    let map = common_field_map(input);
    let id = copied_text(raw.get_str("endpoint_id"));
    let name = match meta_str(raw, "display_name") {
        Some(name) => name.to_owned(),
        None => id.clone(),
    };
    let mut members: Vec<Member> = Vec::new();
    members.push(member("allowed_passthrough_parameters", property_names(&properties)));
    members.push(member("description", Json::Text(copied_text(meta_str(raw, "description")))));
    members.push(member("fal_metadata", copy_json(raw)));
    members.push(member("field_map", map_json(&map)));
    members.push(
        member("generate_audio", Json::Bool(mapped_field(&map, "generate_audio").is_some())),
    );
    members.push(member("id", Json::Text(id)));
    members.push(member("input_schema", copy_json(input)));
    members.push(member("name", Json::Text(name)));
    members.push(member("seed", Json::Bool(mapped_field(&map, "seed").is_some())));
    members.push(
        member(
            "supported_aspect_ratios",
            listed_texts(&properties, &map, "aspect_ratio", Ghost(input@)),
        ),
    );
    members.push(
        member("supported_durations", durations_json(values_listed(&properties, &map, "duration"))),
    );
    members.push(member("supported_frame_images", frames_json(&map)));
    members.push(
        member(
            "supported_resolutions",
            listed_texts(&properties, &map, "resolution", Ghost(input@)),
        ),
    );
    members.push(
        member("supported_sizes", listed_texts(&properties, &map, "size", Ghost(input@))),
    );
    let json = Json::Object(members);
    assert(json@->Object_0 =~= model_document(raw@, input@)->Object_0);
    json
}

/// Turns a catalog entry into a model. Entries that do not turn text or images into video give
/// nothing.
pub fn normalize_fal_model(raw: &Json) -> (r: Result<Option<Json>, ProviderError>)
    ensures
        match r {
            Ok(Some(model)) => normalized(raw@) == Ok::<Option<JsonView>, Seq<char>>(Some(model@)),
            Ok(None) => normalized(raw@) == Ok::<Option<JsonView>, Seq<char>>(None),
            Err(e) => normalized(raw@) matches Err(message) && e@ == crate::providers::fal::fal_failure(
                ProviderErrorKind::Response,
                message,
            ),
        },
{
    if !is_offered(raw) {
        return Ok(None);
    }
    let openapi = match raw.get("openapi") {
        Some(openapi) => openapi,
        None => {
            return Ok(None);
        },
    };
    let input = match openapi_input_schema(openapi) {
        Some(input) => input,
        None => {
            return Ok(None);
        },
    };
    let output = match openapi_output_schema(openapi) {
        Some(output) => output,
        None => {
            return Ok(None);
        },
    };
    let input = resolve_refs(&input, openapi)?;
    let output = resolve_refs(&output, openapi)?;
    if !schema_has_video_url(&output) {
        return Ok(None);
    }
    let map = common_field_map(&input);
    if mapped_field(&map, "prompt").is_none() {
        return Ok(None);
    }
    Ok(Some(model_json(raw, &input)))
}

/// The entries found so far with those of one more page, by identifier.
pub open spec fn collected(
    found: Seq<(Seq<char>, JsonView)>,
    models: Seq<JsonView>,
) -> Seq<(Seq<char>, JsonView)>
    decreases models.len(),
{
    if models.len() == 0 {
        found
    } else {
        let before = collected(found, models.drop_last());
        match crate::json::text_field(models.last(), "endpoint_id"@) {
            Some(id) => crate::json::inserted(before, id, models.last()),
            None => before,
        }
    }
}

/// Adds the entries of a page to those found so far; an entry that came before is replaced.
/// `complaint` is the error for a page without entries.
pub fn collect_models(found: &mut Vec<Member>, payload: &Json, complaint: &str) -> (r: Result<
    (),
    ProviderError,
>)
    ensures
        match r {
            Ok(_) => crate::json::array_field(payload@, "models"@) matches Some(models) && crate::json::members_view(
                final(found)@,
            ) == collected(crate::json::members_view(old(found)@), models),
            Err(e) => crate::json::array_field(payload@, "models"@) is None && final(found)@ == old(found)@ && e@
                == crate::providers::fal::fal_failure(ProviderErrorKind::Response, complaint@),
        },
{
    match payload.get_array("models") {
        Some(models) => {
            let ghost start = crate::json::members_view(found@);
            let ghost view = crate::json::items_view(models@);
            let mut i: usize = 0;
            assert(view.take(0) =~= Seq::<JsonView>::empty());
            while i < models.len()
                invariant
                    i <= models@.len(),
                    view == crate::json::items_view(models@),
                    crate::json::members_view(found@) == collected(start, view.take(i as int)),
                decreases models@.len() - i,
            {
                assert(view.take(i + 1).drop_last() =~= view.take(i as int));
                assert(view.take(i + 1).last() == models@[i as int]@);
                if let Some(id) = models[i].get_str("endpoint_id") {
                    let entry = copy_json(&models[i]);
                    insert_member(found, id.to_owned(), entry);
                }
                i = i + 1;
            }
            assert(view.take(view.len() as int) =~= view);
            Ok(())
        },
        None => Err(response_error(complaint)),
    }
}

/// The cursor of the page after this one; nothing where this is the last.
pub open spec fn following(payload: JsonView) -> Option<Seq<char>> {
    match crate::json::text_field(payload, "next_cursor"@) {
        Some(cursor) => if crate::json::field(payload, "has_more"@) == Some(JsonView::Bool(true)) {
            Some(cursor)
        } else {
            None
        },
        None => None,
    }
}

/// The cursor of the page after this one.
pub fn next_cursor(payload: &Json) -> (r: Option<String>)
    ensures
        match r {
            Some(cursor) => following(payload@) == Some(cursor@),
            None => following(payload@) is None,
        },
{
    match payload.get_str("next_cursor") {
        Some(cursor) => match payload.get("has_more") {
            Some(Json::Bool(more)) => if *more {
                Some(cursor.to_owned())
            } else {
                None
            },
            _ => None,
        },
        None => None,
    }
}

/// How many schemas are asked for at once.
pub const SCHEMA_BATCH: usize = 10;

/// The identifiers in groups of at most `SCHEMA_BATCH`, in order.
pub fn schema_batches(found: &Vec<Member>) -> (batches: Vec<Vec<String>>)
    ensures
        found@.len() == 0 ==> batches@.len() == 0,
        found@.len() > 0 ==> (batches@.len() - 1) * 10 < found@.len() <= batches@.len() * 10,
        forall|b: int|
            0 <= b < batches@.len() ==> (#[trigger] batches@[b])@.len() == (if b * 10 + 10
                <= found@.len() {
                10
            } else {
                found@.len() - b * 10
            }),
        forall|b: int, j: int|
            0 <= b < batches@.len() && 0 <= j < batches@[b]@.len() ==> (
            #[trigger] batches@[b]@[j])@ == found@[b * 10 + j].key@,
{
    let mut batches: Vec<Vec<String>> = Vec::new();
    let mut i: usize = 0;
    while i < found.len()
        invariant
            i <= found@.len(),
            i < found@.len() ==> i == batches@.len() * 10,
            i == found@.len() && i > 0 ==> (batches@.len() - 1) * 10 < i <= batches@.len() * 10,
            i == 0 ==> batches@.len() == 0,
            forall|b: int|
                0 <= b < batches@.len() ==> (#[trigger] batches@[b])@.len() == (if b * 10 + 10
                    <= found@.len() {
                    10
                } else {
                    found@.len() - b * 10
                }),
            forall|b: int, j: int|
                0 <= b < batches@.len() && 0 <= j < batches@[b]@.len() ==> (
                #[trigger] batches@[b]@[j])@ == found@[b * 10 + j].key@,
        decreases found@.len() - i,
    {
        let mut batch: Vec<String> = Vec::new();
        let ghost start = i;
        while i < found.len() && batch.len() < SCHEMA_BATCH
            invariant
                start <= i <= found@.len(),
                batch@.len() == i - start,
                batch@.len() <= 10,
                forall|j: int|
                    0 <= j < batch@.len() ==> (#[trigger] batch@[j])@ == found@[start + j].key@,
            decreases found@.len() - i,
        {
            batch.push(found[i].key.clone());
            i = i + 1;
        }
        batches.push(batch);
    }
    batches
}

/// The first entry of a page with identifier `id`.
pub open spec fn entry_of(models: Seq<JsonView>, id: Seq<char>) -> Option<JsonView>
    decreases models.len(),
{
    if models.len() == 0 {
        None
    } else if crate::json::text_field(models[0], "endpoint_id"@) == Some(id) {
        Some(models[0])
    } else {
        entry_of(models.skip(1), id)
    }
}

/// The entry with identifier `id` in the list that the payload has under `key`.
pub fn find_entry<'a>(payload: &'a Json, key: &str, id: &str) -> (r: Option<&'a Json>)
    ensures
        match r {
            Some(entry) => crate::json::array_field(payload@, key@) matches Some(models) && entry_of(
                models,
                id@,
            ) == Some(entry@),
            None => crate::json::array_field(payload@, key@) matches Some(models) ==> entry_of(models, id@)
                is None,
        },
{
    match payload.get_array(key) {
        Some(models) => {
            let ghost view = crate::json::items_view(models@);
            let mut i: usize = 0;
            assert(view.skip(0) =~= view);
            while i < models.len()
                invariant
                    i <= models@.len(),
                    view == crate::json::items_view(models@),
                    crate::json::array_field(payload@, key@) == Some(view),
                    entry_of(view, id@) == entry_of(view.skip(i as int), id@),
                decreases models@.len() - i,
            {
                assert(view.skip(i as int)[0] == models@[i as int]@);
                assert(view.skip(i as int).skip(1) =~= view.skip(i + 1));
                if let Some(found) = models[i].get_str("endpoint_id") {
                    if same_text(found, id) {
                        return Some(&models[i]);
                    }
                }
                i = i + 1;
            }
            None
        },
        None => None,
    }
}

/// Whether a model is listed before another: by name, then by identifier.
pub open spec fn model_before(a: JsonView, b: JsonView) -> bool {
    let (a_name, b_name) = (
        or_empty(crate::json::text_field(a, "name"@)),
        or_empty(crate::json::text_field(b, "name"@)),
    );
    let (a_id, b_id) = (
        or_empty(crate::json::text_field(a, "id"@)),
        or_empty(crate::json::text_field(b, "id"@)),
    );
    crate::text::precedes(a_name, b_name) || (a_name == b_name && crate::text::precedes(a_id, b_id))
}

fn text_or_empty<'a>(model: &'a Json, key: &str) -> (s: &'a str)
    ensures
        s@ == or_empty(crate::json::text_field(model@, key@)),
{
    proof {
        reveal_strlit("");
        assert(""@ =~= Seq::<char>::empty());
    }
    match model.get_str(key) {
        Some(text) => text,
        None => "",
    }
}

fn is_model_before(a: &Json, b: &Json) -> (before: bool)
    ensures
        before == model_before(a@, b@),
{
    let (a_name, b_name) = (text_or_empty(a, "name"), text_or_empty(b, "name"));
    if comes_before(a_name, b_name) {
        return true;
    }
    same_text(a_name, b_name) && comes_before(text_or_empty(a, "id"), text_or_empty(b, "id"))
}

/// A list in order with one more model in its place, after those that are listed alike.
pub open spec fn model_placed(list: Seq<JsonView>, model: JsonView) -> Seq<JsonView>
    decreases list.len(),
{
    if list.len() == 0 || model_before(model, list[0]) {
        seq![model] + list
    } else {
        seq![list[0]] + model_placed(list.skip(1), model)
    }
}

/// The models that catalog entries amount to, in order. Entries that amount to none, and entries
/// with faulty schemas, are left out.
pub open spec fn listed_models(entries: Seq<JsonView>) -> Seq<JsonView>
    decreases entries.len(),
{
    if entries.len() == 0 {
        Seq::empty()
    } else {
        let rest = listed_models(entries.drop_last());
        match normalized(entries.last()) {
            Ok(Some(model)) => model_placed(rest, model),
            _ => rest,
        }
    }
}

fn place_model(list: &mut Vec<Json>, model: Json)
    ensures
        crate::json::items_view(final(list)@) == model_placed(
            crate::json::items_view(old(list)@),
            model@,
        ),
{
    let ghost start = crate::json::items_view(list@);
    let mut i: usize = 0;
    assert(start.skip(0) =~= start);
    assert(start.take(0) =~= Seq::<JsonView>::empty());
    while i < list.len() && !is_model_before(&model, &list[i])
        invariant
            i <= list@.len(),
            list@ == old(list)@,
            start == crate::json::items_view(list@),
            model_placed(start, model@) == start.take(i as int) + model_placed(
                start.skip(i as int),
                model@,
            ),
        decreases list@.len() - i,
    {
        proof {
            let rest = start.skip(i as int);
            assert(rest[0] == list@[i as int]@);
            assert(rest.skip(1) =~= start.skip(i + 1));
            assert(start.take(i as int) + (seq![rest[0]] + model_placed(start.skip(i + 1), model@))
                =~= start.take(i + 1) + model_placed(start.skip(i + 1), model@));
        }
        i = i + 1;
    }
    proof {
        let rest = start.skip(i as int);
        if i < list@.len() {
            assert(rest[0] == list@[i as int]@);
        }
        assert(model_placed(rest, model@) == seq![model@] + rest);
    }
    list.insert(i, model);
    assert(crate::json::items_view(list@) =~= start.take(i as int) + (seq![model@] + start.skip(
        i as int,
    )));
}

/// Turns catalog entries into the list of models, ordered by name and then by identifier.
pub fn normalize_catalog(entries: &Vec<Json>) -> (models: Vec<Json>)
    ensures
        crate::json::items_view(models@) == listed_models(crate::json::items_view(entries@)),
{
    let ghost view = crate::json::items_view(entries@);
    let mut models: Vec<Json> = Vec::new();
    let mut i: usize = 0;
    assert(crate::json::items_view(models@) =~= Seq::<JsonView>::empty());
    while i < entries.len()
        invariant
            i <= entries@.len(),
            view == crate::json::items_view(entries@),
            crate::json::items_view(models@) == listed_models(view.take(i as int)),
        decreases entries@.len() - i,
    {
        proof {
            assert(view.take(i + 1).drop_last() =~= view.take(i as int));
            assert(view.take(i + 1).last() == entries@[i as int]@);
        }
        match normalize_fal_model(&entries[i]) {
            Ok(Some(model)) => {
                place_model(&mut models, model);
            },
            Ok(None) => {},
            Err(_) => {},
        }
        i = i + 1;
    }
    assert(view.take(i as int) =~= view);
    models
}

/// Whether no model of a list stands after one that it is listed before.
pub open spec fn models_ordered(list: Seq<JsonView>) -> bool {
    forall|i: int, j: int|
        0 <= i < j < list.len() ==> !model_before(#[trigger] list[j], #[trigger] list[i])
}

proof fn model_order(a: JsonView, b: JsonView, c: JsonView)
    ensures
        !(model_before(a, b) && model_before(b, a)),
        model_before(a, b) && !model_before(c, b) ==> !model_before(c, a),
{
    let name = |m: JsonView| or_empty(crate::json::text_field(m, "name"@));
    let id = |m: JsonView| or_empty(crate::json::text_field(m, "id"@));
    crate::text::precedes_orders(name(a), name(b));
    crate::text::precedes_orders(id(a), id(b));
    crate::text::precedes_orders(name(b), name(c));
    crate::text::precedes_orders(id(b), id(c));
    if model_before(a, b) && model_before(c, a) {
        if crate::text::precedes(name(c), name(a)) && crate::text::precedes(name(a), name(b)) {
            crate::text::precedes_transitive(name(c), name(a), name(b));
        }
        if crate::text::precedes(id(c), id(a)) && crate::text::precedes(id(a), id(b)) {
            crate::text::precedes_transitive(id(c), id(a), id(b));
        }
    }
}

proof fn placing_keeps_order(list: Seq<JsonView>, model: JsonView)
    requires
        models_ordered(list),
    ensures
        models_ordered(model_placed(list, model)),
        forall|m: JsonView|
            #[trigger] model_placed(list, model).contains(m) == (list.contains(m) || m == model),
    decreases list.len(),
{
    let placed = model_placed(list, model);
    if list.len() == 0 || model_before(model, list[0]) {
        assert(placed =~= seq![model] + list);
        assert forall|i: int, j: int| 0 <= i < j < placed.len() implies !model_before(
            #[trigger] placed[j],
            #[trigger] placed[i],
        ) by {
            if i == 0 {
                assert(placed[j] == list[j - 1]);
                model_order(model, list[0], list[j - 1]);
                if j > 1 {
                    assert(!model_before(list[j - 1], list[0]));
                }
            } else {
                assert(!model_before(list[j - 1], list[i - 1]));
            }
        }
        assert forall|m: JsonView| #[trigger] placed.contains(m) == (list.contains(m) || m
            == model) by {
            if list.contains(m) {
                let k = choose|k: int| 0 <= k < list.len() && list[k] == m;
                assert(placed[k + 1] == m);
            }
            if m == model {
                assert(placed[0] == m);
            }
        }
    } else {
        let rest = list.skip(1);
        assert forall|i: int, j: int| 0 <= i < j < rest.len() implies !model_before(
            #[trigger] rest[j],
            #[trigger] rest[i],
        ) by {
            assert(!model_before(list[j + 1], list[i + 1]));
        }
        placing_keeps_order(rest, model);
        let tail = model_placed(rest, model);
        assert(placed =~= seq![list[0]] + tail);
        assert forall|i: int, j: int| 0 <= i < j < placed.len() implies !model_before(
            #[trigger] placed[j],
            #[trigger] placed[i],
        ) by {
            assert(placed[j] == tail[j - 1]);
            if i == 0 {
                assert(tail.contains(tail[j - 1]));
                if tail[j - 1] != model {
                    assert(rest.contains(tail[j - 1]));
                    let k = choose|k: int| 0 <= k < rest.len() && rest[k] == tail[j - 1];
                    assert(!model_before(list[k + 1], list[0]));
                }
            } else {
                assert(placed[i] == tail[i - 1]);
            }
        }
        assert forall|m: JsonView| #[trigger] placed.contains(m) == (list.contains(m) || m
            == model) by {
            if list.contains(m) {
                let k = choose|k: int| 0 <= k < list.len() && list[k] == m;
                if k == 0 {
                    assert(placed[0] == m);
                } else {
                    assert(rest[k - 1] == m);
                    assert(tail.contains(m));
                    let n = choose|n: int| 0 <= n < tail.len() && tail[n] == m;
                    assert(placed[n + 1] == m);
                }
            }
            if m == model {
                assert(tail.contains(m));
                let n = choose|n: int| 0 <= n < tail.len() && tail[n] == m;
                assert(placed[n + 1] == m);
            }
            if placed.contains(m) {
                let n = choose|n: int| 0 <= n < placed.len() && placed[n] == m;
                if n == 0 {
                    assert(list[0] == m);
                } else {
                    assert(tail[n - 1] == m);
                    assert(tail.contains(m));
                    if m != model {
                        let k = choose|k: int| 0 <= k < rest.len() && rest[k] == m;
                        assert(list[k + 1] == m);
                    }
                }
            }
        }
    }
}

/// The list of models is ordered by name and then by identifier, and holds exactly the models that
/// the entries amount to.
pub proof fn models_are_listed_in_order(entries: Seq<JsonView>, model: JsonView)
    ensures
        models_ordered(listed_models(entries)),
        listed_models(entries).contains(model) <==> exists|i: int|
            0 <= i < entries.len() && #[trigger] normalized(entries[i]) == Ok::<
                Option<JsonView>,
                Seq<char>,
            >(Some(model)),
    decreases entries.len(),
{
    if entries.len() > 0 {
        let before = entries.drop_last();
        models_are_listed_in_order(before, model);
        let rest = listed_models(before);
        let last = normalized(entries.last());
        if let Ok(Some(made)) = last {
            placing_keeps_order(rest, made);
            assert(model_placed(rest, made).contains(model) == (rest.contains(model) || model
                == made));
        }
        if listed_models(entries).contains(model) {
            if rest.contains(model) {
                let i = choose|i: int|
                    0 <= i < before.len() && #[trigger] normalized(before[i]) == Ok::<
                        Option<JsonView>,
                        Seq<char>,
                    >(Some(model));
                assert(normalized(entries[i]) == normalized(before[i]));
            } else {
                assert(normalized(entries[entries.len() - 1]) == Ok::<Option<JsonView>, Seq<char>>(
                    Some(model),
                ));
            }
        }
        if exists|i: int|
            0 <= i < entries.len() && #[trigger] normalized(entries[i]) == Ok::<
                Option<JsonView>,
                Seq<char>,
            >(Some(model)) {
            let i = choose|i: int|
                0 <= i < entries.len() && #[trigger] normalized(entries[i]) == Ok::<
                    Option<JsonView>,
                    Seq<char>,
                >(Some(model));
            if i + 1 < entries.len() {
                assert(normalized(before[i]) == normalized(entries[i]));
            }
        }
    }
}

/// The complaint about a page of models without its list.
pub const PAGE_COMPLAINT: &'static str = "fal model response is missing models";

/// The complaint about an answer with schemas without its list.
pub const SCHEMA_COMPLAINT: &'static str = "fal schema response is missing models";

/// Finds a model in the answer to a question for it alone.
pub fn looked_up_model(payload: &Json, model_id: &str) -> (r: Result<Json, ProviderError>)
    ensures
        ({
            let entry = match crate::json::array_field(payload@, "models"@) {
                Some(models) => entry_of(models, model_id@),
                None => None,
            };
            match entry {
                None => r matches Err(e) && e@ == crate::providers::fal::fal_failure(
                    ProviderErrorKind::Response,
                    "fal model lookup did not return the requested model"@,
                ),
                Some(raw) => match normalized(raw) {
                    Ok(Some(model)) => r matches Ok(json) && json@ == model,
                    Ok(None) => r matches Err(e) && e@ == crate::providers::fal::fal_failure(
                        ProviderErrorKind::Validation,
                        "fal model "@ + model_id@
                            + " is not compatible with video input/output"@,
                    ),
                    Err(message) => r matches Err(e) && e@ == crate::providers::fal::fal_failure(
                        ProviderErrorKind::Response,
                        message,
                    ),
                },
            }
        }),
{
    match find_entry(payload, "models", model_id) {
        None => Err(response_error("fal model lookup did not return the requested model")),
        Some(raw) => match normalize_fal_model(raw) {
            Ok(Some(model)) => Ok(model),
            Ok(None) => {
                let message = concat3(
                    "fal model ",
                    model_id,
                    " is not compatible with video input/output",
                );
                Err(validation(message.as_str()))
            },
            Err(e) => Err(e),
        },
    }
}

} // verus!
