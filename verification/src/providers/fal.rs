//! The input of fal.ai models: reading their published schemas, building requests that fit them
//! and normalising catalog entries.

use crate::domain::{
    FieldMapping, FrameImage, FrameType, InputReference, ProviderId, VideoModel, VideoRequest,
    FAL_PROVIDER_ID,
};
use crate::json::{copy_json, extend_members, insert_member, Json, JsonView, Member};
use crate::outside::integer;
use crate::providers::{ErrorView, ProviderError, ProviderErrorKind};
use crate::schema::check_schema;
use crate::text::{concat, concat3, decimal, same_text, trim_text};
use vstd::prelude::*;

verus! {

/// A failure of fal.ai that carries nothing but its kind and message.
pub open spec fn fal_failure(kind: ProviderErrorKind, message: Seq<char>) -> ErrorView {
    crate::providers::plain_failure(FAL_PROVIDER_ID@, kind, message)
}

/// A failure of fal.ai.
pub(crate) fn failure(kind: ProviderErrorKind, message: String) -> (e: ProviderError)
    ensures
        e@ == fal_failure(kind, message@),
{
    ProviderError::new(ProviderId::fal(), kind, message)
}

/// A request that fal.ai would refuse.
pub(crate) fn validation(message: &str) -> (e: ProviderError)
    ensures
        e@ == fal_failure(ProviderErrorKind::Validation, message@),
{
    failure(ProviderErrorKind::Validation, message.to_owned())
}

/// An answer of fal.ai that makes no sense.
pub(crate) fn response_error(message: &str) -> (e: ProviderError)
    ensures
        e@ == fal_failure(ProviderErrorKind::Response, message@),
{
    failure(ProviderErrorKind::Response, message.to_owned())
}

/// Checks `value`, which stands at `path`, against a model's schema.
pub fn validate_schema(schema: &Json, value: &Json, path: &str) -> (r: Result<(), ProviderError>)
    ensures
        r is Ok <==> crate::schema::conforms(schema@, value@),
        r matches Err(e) ==> (crate::schema::schema_error(schema@, value@, path@) matches Some(message) && e@
            == fal_failure(ProviderErrorKind::Validation, message)),
{
    match check_schema(schema, value, path) {
        Ok(_) => Ok(()),
        Err(message) => Err(failure(ProviderErrorKind::Validation, message)),
    }
}

/// The properties that a schema declares: those of its `allOf` branches in turn, then its own.
pub open spec fn properties_of(schema: JsonView) -> Seq<(Seq<char>, JsonView)>
    decreases schema, 1nat,
{
    proof {
        crate::schema::array_field_is_part(schema, "allOf"@);
    }
    let inherited = match crate::json::array_field(schema, "allOf"@) {
        Some(branches) => branch_properties(branches),
        None => Seq::empty(),
    };
    match crate::json::object_field(schema, "properties"@) {
        Some(direct) => crate::json::extended(inherited, direct),
        None => inherited,
    }
}

/// The properties that the branches declare, in turn.
pub open spec fn branch_properties(branches: Seq<JsonView>) -> Seq<(Seq<char>, JsonView)>
    decreases branches, 0nat,
{
    if branches.len() == 0 {
        Seq::empty()
    } else {
        crate::json::extended(branch_properties(branches.drop_last()), properties_of(branches.last()))
    }
}

/// The properties that a schema declares.
pub fn schema_properties(schema: &Json) -> (properties: Vec<Member>)
    ensures
        crate::json::members_view(properties@) == properties_of(schema@),
    decreases schema@, 1nat,
{
    proof {
        crate::schema::array_field_is_part(schema@, "allOf"@);
    }
    let mut properties: Vec<Member> = Vec::new();
    assert(crate::json::members_view(properties@) =~= Seq::<(Seq<char>, JsonView)>::empty());
    if let Some(branches) = schema.get_array("allOf") {
        let ghost view = crate::json::items_view(branches@);
        let mut i: usize = 0;
        assert(view.take(0) =~= Seq::<JsonView>::empty());
        while i < branches.len()
            invariant
                i <= branches@.len(),
                view == crate::json::items_view(branches@),
                decreases_to!(schema@ => view),
                crate::json::members_view(properties@) == branch_properties(view.take(i as int)),
            decreases branches@.len() - i,
        {
            assert(decreases_to!(view => view[i as int]));
            assert(view.take(i + 1).drop_last() =~= view.take(i as int));
            assert(view.take(i + 1).last() == branches@[i as int]@);
            let more = schema_properties(&branches[i]);
            extend_members(&mut properties, &more);
            i = i + 1;
        }
        assert(view.take(view.len() as int) =~= view);
    }
    if let Some(direct) = schema.get_object("properties") {
        extend_members(&mut properties, direct);
    }
    properties
}

/// `name`, if it is among the properties.
pub open spec fn present(properties: Seq<(Seq<char>, JsonView)>, name: Seq<char>) -> Option<
    Seq<char>,
> {
    if crate::json::lookup(properties, name) is Some {
        Some(name)
    } else {
        None
    }
}

/// The first of two names that there is.
pub open spec fn either(first: Option<Seq<char>>, second: Option<Seq<char>>) -> Option<Seq<char>> {
    match first {
        Some(name) => Some(name),
        None => second,
    }
}

/// The property that carries a common control, by the names that models give it.
pub open spec fn carrier(properties: Seq<(Seq<char>, JsonView)>, control: Seq<char>) -> Option<
    Seq<char>,
> {
    if control == "prompt"@ {
        either(present(properties, "prompt"@), present(properties, "text"@))
    } else if control == "duration"@ {
        either(
            present(properties, "duration"@),
            either(
                present(properties, "duration_seconds"@),
                either(
                    present(properties, "video_length"@),
                    present(properties, "num_seconds"@),
                ),
            ),
        )
    } else if control == "resolution"@ {
        either(present(properties, "resolution"@), present(properties, "video_resolution"@))
    } else if control == "aspect_ratio"@ {
        present(properties, "aspect_ratio"@)
    } else if control == "size"@ {
        either(present(properties, "size"@), present(properties, "video_size"@))
    } else if control == "generate_audio"@ {
        either(
            present(properties, "generate_audio"@),
            either(present(properties, "enable_audio"@), present(properties, "audio"@)),
        )
    } else if control == "seed"@ {
        present(properties, "seed"@)
    } else if control == "first_frame"@ {
        either(
            present(properties, "image_url"@),
            either(present(properties, "start_image_url"@), present(properties, "first_frame_url"@)),
        )
    } else if control == "last_frame"@ {
        either(present(properties, "end_image_url"@), present(properties, "last_frame_url"@))
    } else if control == "references"@ {
        either(
            present(properties, "reference_image_urls"@),
            either(present(properties, "image_urls"@), present(properties, "reference_images"@)),
        )
    } else {
        None
    }
}

fn find_name(properties: &Vec<Member>, name: &'static str) -> (r: Option<&'static str>)
    ensures
        match r {
            Some(found) => present(crate::json::members_view(properties@), name@) == Some(found@),
            None => present(crate::json::members_view(properties@), name@) is None,
        },
{
    if crate::json::member_index(properties, name).is_some() {
        Some(name)
    } else {
        None
    }
}

fn find_either(
    properties: &Vec<Member>,
    first: &'static str,
    second: &'static str,
) -> (r: Option<&'static str>)
    ensures
        match r {
            Some(found) => either(
                present(crate::json::members_view(properties@), first@),
                present(crate::json::members_view(properties@), second@),
            ) == Some(found@),
            None => either(
                present(crate::json::members_view(properties@), first@),
                present(crate::json::members_view(properties@), second@),
            ) is None,
        },
{
    match find_name(properties, first) {
        Some(name) => Some(name),
        None => find_name(properties, second),
    }
}

fn find_carrier(properties: &Vec<Member>, control: &str) -> (r: Option<&'static str>)
    ensures
        match r {
            Some(found) => carrier(crate::json::members_view(properties@), control@) == Some(found@),
            None => carrier(crate::json::members_view(properties@), control@) is None,
        },
{
    if same_text(control, "prompt") {
        find_either(properties, "prompt", "text")
    } else if same_text(control, "duration") {
        match find_either(properties, "duration", "duration_seconds") {
            Some(name) => Some(name),
            None => find_either(properties, "video_length", "num_seconds"),
        }
    } else if same_text(control, "resolution") {
        find_either(properties, "resolution", "video_resolution")
    } else if same_text(control, "aspect_ratio") {
        find_name(properties, "aspect_ratio")
    } else if same_text(control, "size") {
        find_either(properties, "size", "video_size")
    } else if same_text(control, "generate_audio") {
        match find_name(properties, "generate_audio") {
            Some(name) => Some(name),
            None => find_either(properties, "enable_audio", "audio"),
        }
    } else if same_text(control, "seed") {
        find_name(properties, "seed")
    } else if same_text(control, "first_frame") {
        match find_name(properties, "image_url") {
            Some(name) => Some(name),
            None => find_either(properties, "start_image_url", "first_frame_url"),
        }
    } else if same_text(control, "last_frame") {
        find_either(properties, "end_image_url", "last_frame_url")
    } else if same_text(control, "references") {
        match find_name(properties, "reference_image_urls") {
            Some(name) => Some(name),
            None => find_either(properties, "image_urls", "reference_images"),
        }
    } else {
        None
    }
}

/// The common controls, sorted by name.
pub open spec fn controls() -> Seq<Seq<char>> {
    seq![
        "aspect_ratio"@,
        "duration"@,
        "first_frame"@,
        "generate_audio"@,
        "last_frame"@,
        "prompt"@,
        "references"@,
        "resolution"@,
        "seed"@,
        "size"@,
    ]
}

/// The controls among `names` that have a carrier, with it.
pub open spec fn carried(properties: Seq<(Seq<char>, JsonView)>, names: Seq<Seq<char>>) -> Seq<
    (Seq<char>, Seq<char>),
>
    decreases names.len(),
{
    if names.len() == 0 {
        Seq::empty()
    } else {
        match carrier(properties, names.last()) {
            Some(name) => carried(properties, names.drop_last()).push((names.last(), name)),
            None => carried(properties, names.drop_last()),
        }
    }
}

/// The mathematical value of a field map.
pub open spec fn map_view(map: Seq<FieldMapping>) -> Seq<(Seq<char>, Seq<char>)> {
    Seq::new(map.len(), |i: int| (map[i].canonical@, map[i].field@))
}

fn control_names() -> (names: Vec<&'static str>)
    ensures
        names@.map_values(|s: &str| s@) == controls(),
{
    let mut names: Vec<&'static str> = Vec::new();
    names.push("aspect_ratio");
    names.push("duration");
    names.push("first_frame");
    names.push("generate_audio");
    names.push("last_frame");
    names.push("prompt");
    names.push("references");
    names.push("resolution");
    names.push("seed");
    names.push("size");
    assert(names@.map_values(|s: &str| s@) =~= controls());
    names
}

/// The common controls that a model has and the property that carries each, sorted by control.
pub fn common_field_map(schema: &Json) -> (map: Vec<FieldMapping>)
    ensures
        map_view(map@) == carried(properties_of(schema@), controls()),
{
    let properties = schema_properties(schema);
    let names = control_names();
    let ghost all = controls();
    let ghost view = properties_of(schema@);
    let mut map: Vec<FieldMapping> = Vec::new();
    let mut i: usize = 0;
    assert(all.take(0) =~= Seq::<Seq<char>>::empty());
    assert(map_view(map@) =~= Seq::<(Seq<char>, Seq<char>)>::empty());
    while i < names.len()
        invariant
            i <= names@.len(),
            all == controls(),
            all == names@.map_values(|s: &str| s@),
            view == crate::json::members_view(properties@),
            map_view(map@) == carried(view, all.take(i as int)),
        decreases names@.len() - i,
    {
        assert(all.take(i + 1).drop_last() =~= all.take(i as int));
        assert(all.take(i + 1).last() == names@[i as int]@);
        let ghost before = map_view(map@);
        if let Some(found) = find_carrier(&properties, names[i]) {
            map.push(FieldMapping { canonical: names[i].to_owned(), field: found.to_owned() });
            assert(map_view(map@) =~= before.push((names@[i as int]@, found@)));
        }
        i = i + 1;
    }
    assert(all.take(all.len() as int) =~= all);
    map
}

/// The property under which a field map carries `control`.
pub open spec fn mapped(map: Seq<(Seq<char>, Seq<char>)>, control: Seq<char>) -> Option<Seq<char>>
    decreases map.len(),
{
    if map.len() == 0 {
        None
    } else if map[0].0 == control {
        Some(map[0].1)
    } else {
        mapped(map.skip(1), control)
    }
}

proof fn mapped_at(map: Seq<(Seq<char>, Seq<char>)>, control: Seq<char>, i: int)
    requires
        0 <= i <= map.len(),
        i < map.len() ==> map[i].0 == control,
        forall|k: int| 0 <= k < i ==> (#[trigger] map[k]).0 != control,
    ensures
        mapped(map, control) == (if i < map.len() {
            Some(map[i].1)
        } else {
            None
        }),
    decreases i,
{
    if i > 0 {
        let rest = map.skip(1);
        assert forall|k: int| 0 <= k < i - 1 implies (#[trigger] rest[k]).0 != control by {
            assert(map[k + 1].0 != control);
        }
        mapped_at(rest, control, i - 1);
    }
}

/// The property under which a field map carries `control`.
pub fn mapped_field<'a>(map: &'a Vec<FieldMapping>, control: &str) -> (r: Option<&'a str>)
    ensures
        match r {
            Some(name) => mapped(map_view(map@), control@) == Some(name@),
            None => mapped(map_view(map@), control@) is None,
        },
{
    let ghost view = map_view(map@);
    let mut i: usize = 0;
    while i < map.len()
        invariant
            i <= map@.len(),
            view == map_view(map@),
            forall|k: int| 0 <= k < i ==> (#[trigger] view[k]).0 != control@,
        decreases map@.len() - i,
    {
        assert(view[i as int] == (map@[i as int].canonical@, map@[i as int].field@));
        if same_text(map[i].canonical.as_str(), control) {
            proof {
                mapped_at(view, control@, i as int);
            }
            return Some(map[i].field.as_str());
        }
        i = i + 1;
    }
    proof {
        mapped_at(view, control@, view.len() as int);
    }
    None
}

/// Whether a schema lets a value be the string `value`.
pub open spec fn accepts_string(schema: JsonView, value: Seq<char>) -> bool
    decreases schema,
{
    proof {
        crate::schema::array_field_is_part(schema, "allOf"@);
    }
    ||| (crate::json::array_field(schema, "enum"@) matches Some(items) && exists|i: int|
        0 <= i < items.len() && #[trigger] items[i] == JsonView::Text(value))
    ||| (match crate::json::field(schema, "type"@) {
        Some(JsonView::Text(name)) => name == "string"@,
        Some(JsonView::Array(names)) => exists|i: int|
            0 <= i < names.len() && #[trigger] names[i] == JsonView::Text("string"@),
        _ => false,
    })
    ||| (crate::json::array_field(schema, "allOf"@) matches Some(branches) && exists|i: int|
        0 <= i < branches.len() && accepts_string(#[trigger] branches[i], value))
}

fn lists_text(items: &Vec<Json>, value: &str) -> (b: bool)
    ensures
        b == exists|i: int|
            0 <= i < items@.len() && #[trigger] crate::json::items_view(items@)[i] == JsonView::Text(value@),
{
    let ghost view = crate::json::items_view(items@);
    let mut i: usize = 0;
    while i < items.len()
        invariant
            i <= items@.len(),
            view == crate::json::items_view(items@),
            forall|k: int| 0 <= k < i ==> #[trigger] view[k] != JsonView::Text(value@),
        decreases items@.len() - i,
    {
        assert(view[i as int] == items@[i as int]@);
        if let Some(text) = items[i].as_str() {
            if same_text(text, value) {
                assert(view[i as int] == JsonView::Text(value@));
                return true;
            }
        }
        i = i + 1;
    }
    false
}

/// Whether a schema lets a value be the string `value`.
pub fn schema_accepts_string(schema: &Json, value: &str) -> (b: bool)
    ensures
        b == accepts_string(schema@, value@),
    decreases schema@,
{
    broadcast use crate::json::array_view;

    proof {
        crate::schema::array_field_is_part(schema@, "allOf"@);
    }
    if let Some(items) = schema.get_array("enum") {
        if lists_text(items, value) {
            return true;
        }
    }
    match schema.get("type") {
        Some(Json::Text(name)) => {
            if same_text(name.as_str(), "string") {
                return true;
            }
        },
        Some(Json::Array(names)) => {
            if lists_text(names, "string") {
                return true;
            }
        },
        _ => {},
    }
    if let Some(branches) = schema.get_array("allOf") {
        let ghost view = crate::json::items_view(branches@);
        let mut i: usize = 0;
        while i < branches.len()
            invariant
                i <= branches@.len(),
                view == crate::json::items_view(branches@),
                decreases_to!(schema@ => view),
                crate::json::array_field(schema@, "allOf"@) == Some(view),
                forall|k: int| 0 <= k < i ==> !accepts_string(#[trigger] view[k], value@),
            decreases branches@.len() - i,
        {
            assert(decreases_to!(view => view[i as int]));
            assert(view[i as int] == branches@[i as int]@);
            if schema_accepts_string(&branches[i], value) {
                proof {
                    let listed = crate::json::array_field(schema@, "allOf"@)->0;
                    assert(accepts_string(listed[i as int], value@));
                }
                return true;
            }
            i = i + 1;
        }
    }
    false
}

/// A duration in the form that the model's schema takes.
pub open spec fn duration_value(model: VideoModel, seconds: u32) -> JsonView {
    let text = crate::text::numeral(seconds as nat);
    let as_text = match (model.input_schema, mapped(map_view(model.field_map@), "duration"@)) {
        (Some(schema), Some(name)) => match crate::json::lookup(properties_of(schema@), name) {
            Some(property) => accepts_string(property, text),
            None => false,
        },
        _ => false,
    };
    if as_text {
        JsonView::Text(text)
    } else {
        JsonView::Number(crate::outside::number_of(seconds as i64))
    }
}

/// A duration in the form that the model's schema takes: a string where it takes one, else a
/// number.
pub fn fal_duration_value(model: &VideoModel, duration: u32) -> (json: Json)
    ensures
        json@ == duration_value(*model, duration),
{
    let text = decimal(duration as u64);
    if let Some(schema) = &model.input_schema {
        if let Some(name) = mapped_field(&model.field_map, "duration") {
            let properties = schema_properties(schema);
            if let Some(i) = crate::json::member_index(&properties, name) {
                if schema_accepts_string(&properties[i].value, text.as_str()) {
                    return Json::Text(text);
                }
            }
        }
    }
    Json::Number(integer(duration as i64))
}

/// A request's own options.
pub open spec fn option_members(options: Option<Json>) -> Seq<(Seq<char>, JsonView)> {
    match options {
        Some(json) => match json@ {
            JsonView::Object(members) => members,
            _ => Seq::empty(),
        },
        None => Seq::empty(),
    }
}

/// Whether a field map carries some control under `name`.
pub open spec fn is_carrier(map: Seq<(Seq<char>, Seq<char>)>, name: Seq<char>) -> bool {
    exists|i: int| 0 <= i < map.len() && (#[trigger] map[i]).1 == name
}

/// The first of the options' keys that a common control is carried under.
pub open spec fn overridden(
    members: Seq<(Seq<char>, JsonView)>,
    map: Seq<(Seq<char>, Seq<char>)>,
) -> Option<Seq<char>>
    decreases members.len(),
{
    if members.len() == 0 {
        None
    } else if is_carrier(map, members[0].0) {
        Some(members[0].0)
    } else {
        overridden(members.skip(1), map)
    }
}

/// Input so far, or the complaint that ended it.
pub type Partial = Result<Seq<(Seq<char>, JsonView)>, Seq<char>>;

/// The input with one more control, which the model must have where it is given.
pub open spec fn with_control(
    input: Partial,
    map: Seq<(Seq<char>, Seq<char>)>,
    control: Seq<char>,
    value: Option<JsonView>,
) -> Partial {
    match (input, value) {
        (Ok(members), Some(v)) => match mapped(map, control) {
            Some(name) => Ok(crate::json::inserted(members, name, v)),
            None => Err(
                "This fal model does not support the requested "@ + control + " control"@,
            ),
        },
        _ => input,
    }
}

/// The name of the control that a frame image fills.
pub open spec fn frame_control(frame: FrameType) -> Seq<char> {
    match frame {
        FrameType::FirstFrame => "first_frame"@,
        FrameType::LastFrame => "last_frame"@,
    }
}

/// The input with the frame images.
pub open spec fn with_frames(
    input: Partial,
    map: Seq<(Seq<char>, Seq<char>)>,
    frames: Seq<FrameImage>,
) -> Partial
    decreases frames.len(),
{
    if frames.len() == 0 {
        input
    } else {
        with_control(
            with_frames(input, map, frames.drop_last()),
            map,
            frame_control(frames.last().frame_type),
            Some(JsonView::Text(frames.last().url@)),
        )
    }
}

/// An optional text as an optional document.
pub open spec fn opt_json_text(text: Option<String>) -> Option<JsonView> {
    match text {
        Some(t) => Some(JsonView::Text(t@)),
        None => None,
    }
}

/// The references' URLs as a document.
pub open spec fn reference_urls(references: Seq<InputReference>) -> JsonView {
    JsonView::Array(Seq::new(references.len(), |i: int| JsonView::Text(references[i].url@)))
}

/// The input that a request amounts to for a model, before the model's schema is consulted.
pub open spec fn assembled(request: VideoRequest, model: VideoModel) -> Partial {
    let map = map_view(model.field_map@);
    let options = option_members(request.adapter_options);
    match overridden(options, map) {
        Some(name) => Err("Advanced JSON cannot override the common field "@ + name),
        None => {
            let start = match mapped(map, "prompt"@) {
                Some(name) => crate::json::inserted(options, name, JsonView::Text(crate::text::trimmed(request.prompt@))),
                None => options,
            };
            let timed = with_control(
                Ok(start),
                map,
                "duration"@,
                match request.duration {
                    Some(seconds) => Some(duration_value(model, seconds)),
                    None => None,
                },
            );
            let shaped = with_control(
                with_control(
                    with_control(timed, map, "resolution"@, opt_json_text(request.resolution)),
                    map,
                    "aspect_ratio"@,
                    opt_json_text(request.aspect_ratio),
                ),
                map,
                "size"@,
                opt_json_text(request.size),
            );
            let sounded = with_control(
                shaped,
                map,
                "generate_audio"@,
                match request.generate_audio {
                    Some(on) => Some(JsonView::Bool(on)),
                    None => None,
                },
            );
            let seeded = with_control(
                sounded,
                map,
                "seed"@,
                match request.seed {
                    Some(seed) => Some(JsonView::Number(crate::outside::number_of(seed))),
                    None => None,
                },
            );
            with_control(
                with_frames(seeded, map, request.frame_images@),
                map,
                "references"@,
                if request.input_references@.len() > 0 {
                    Some(reference_urls(request.input_references@))
                } else {
                    None
                },
            )
        },
    }
}

/// The complaint about a request, or the input that it amounts to. `domain_problem` is what is
/// wrong with the request in itself.
pub open spec fn input_or_complaint(
    request: VideoRequest,
    model: VideoModel,
    domain_problem: Option<Seq<char>>,
) -> Result<JsonView, Seq<char>> {
    if request.provider_id@ != FAL_PROVIDER_ID@ || model.provider_id@ != FAL_PROVIDER_ID@ {
        Err("The request and model must belong to fal"@)
    } else if let Some(problem) = domain_problem {
        Err(problem)
    } else {
        match assembled(request, model) {
            Err(message) => Err(message),
            Ok(members) => match model.input_schema {
                Some(schema) => match crate::schema::schema_error(schema@, JsonView::Object(members), "$input"@) {
                    Some(message) => Err(message),
                    None => Ok(JsonView::Object(members)),
                },
                None => Ok(JsonView::Object(members)),
            },
        }
    }
}

/// Input that is built for a model with a schema conforms to that schema.
pub proof fn built_input_conforms(
    request: VideoRequest,
    model: VideoModel,
    domain_problem: Option<Seq<char>>,
)
    requires
        model.input_schema is Some,
    ensures
        input_or_complaint(request, model, domain_problem) matches Ok(input) ==> crate::schema::conforms(
            model.input_schema->0@,
            input,
        ),
{
    if let Ok(members) = assembled(request, model) {
        crate::schema::no_error_means_conforms(
            model.input_schema->0@,
            JsonView::Object(members),
            "$input"@,
        );
    }
}

fn find_overridden(members: &Vec<Member>, map: &Vec<FieldMapping>) -> (r: Option<String>)
    ensures
        match r {
            Some(name) => overridden(crate::json::members_view(members@), map_view(map@)) == Some(name@),
            None => overridden(crate::json::members_view(members@), map_view(map@)) is None,
        },
{
    let ghost view = crate::json::members_view(members@);
    let ghost carriers = map_view(map@);
    let mut i: usize = 0;
    assert(view.skip(0) =~= view);
    while i < members.len()
        invariant
            i <= members@.len(),
            view == crate::json::members_view(members@),
            carriers == map_view(map@),
            overridden(view, carriers) == overridden(view.skip(i as int), carriers),
        decreases members@.len() - i,
    {
        let ghost rest = view.skip(i as int);
        assert(rest[0] == (members@[i as int].key@, members@[i as int].value@));
        assert(rest.skip(1) =~= view.skip(i + 1));
        let mut j: usize = 0;
        while j < map.len()
            invariant
                i < members@.len(),
                j <= map@.len(),
                carriers == map_view(map@),
                view == crate::json::members_view(members@),
                rest == view.skip(i as int),
                rest[0] == (members@[i as int].key@, members@[i as int].value@),
                overridden(view, carriers) == overridden(rest, carriers),
                forall|k: int|
                    0 <= k < j ==> (#[trigger] carriers[k]).1 != members@[i as int].key@,
            decreases map@.len() - j,
        {
            assert(carriers[j as int] == (map@[j as int].canonical@, map@[j as int].field@));
            if map[j].field == members[i].key {
                assert(is_carrier(carriers, rest[0].0));
                return Some(members[i].key.clone());
            }
            j = j + 1;
        }
        assert(!is_carrier(carriers, rest[0].0));
        i = i + 1;
    }
    None
}

fn insert_optional(
    input: &mut Vec<Member>,
    map: &Vec<FieldMapping>,
    control: &str,
    value: Option<Json>,
) -> (r: Result<(), String>)
    ensures
        match r {
            Ok(_) => with_control(
                Ok(crate::json::members_view(old(input)@)),
                map_view(map@),
                control@,
                opt_json(value),
            ) == Ok::<Seq<(Seq<char>, JsonView)>, Seq<char>>(crate::json::members_view(final(input)@)),
            Err(message) => with_control(
                Ok(crate::json::members_view(old(input)@)),
                map_view(map@),
                control@,
                opt_json(value),
            ) == Err::<Seq<(Seq<char>, JsonView)>, Seq<char>>(message@),
        },
{
    if let Some(value) = value {
        match mapped_field(map, control) {
            Some(name) => {
                insert_member(input, name.to_owned(), value);
            },
            None => {
                return Err(
                    concat3("This fal model does not support the requested ", control, " control"),
                );
            },
        }
    }
    Ok(())
}

/// The value of an optional document.
pub open spec fn opt_json(json: Option<Json>) -> Option<JsonView> {
    match json {
        Some(j) => Some(j@),
        None => None,
    }
}

fn text_option(text: &Option<String>) -> (json: Option<Json>)
    ensures
        opt_json(json) == opt_json_text(*text),
{
    match text {
        Some(t) => Some(Json::Text(t.clone())),
        None => None,
    }
}

fn insert_frames(
    input: &mut Vec<Member>,
    map: &Vec<FieldMapping>,
    frames: &Vec<FrameImage>,
) -> (r: Result<(), String>)
    ensures
        match r {
            Ok(_) => with_frames(Ok(crate::json::members_view(old(input)@)), map_view(map@), frames@) == Ok::<
                Seq<(Seq<char>, JsonView)>,
                Seq<char>,
            >(crate::json::members_view(final(input)@)),
            Err(message) => with_frames(Ok(crate::json::members_view(old(input)@)), map_view(map@), frames@)
                == Err::<Seq<(Seq<char>, JsonView)>, Seq<char>>(message@),
        },
{
    let ghost start: Partial = Ok(crate::json::members_view(input@));
    let ghost carriers = map_view(map@);
    let mut i: usize = 0;
    assert(frames@.take(0) =~= Seq::<FrameImage>::empty());
    while i < frames.len()
        invariant
            i <= frames@.len(),
            carriers == map_view(map@),
            start == Ok::<Seq<(Seq<char>, JsonView)>, Seq<char>>(crate::json::members_view(old(input)@)),
            with_frames(start, carriers, frames@.take(i as int)) == Ok::<
                Seq<(Seq<char>, JsonView)>,
                Seq<char>,
            >(crate::json::members_view(input@)),
        decreases frames@.len() - i,
    {
        assert(frames@.take(i + 1).drop_last() =~= frames@.take(i as int));
        let control = match frames[i].frame_type {
            FrameType::FirstFrame => "first_frame",
            FrameType::LastFrame => "last_frame",
        };
        match insert_optional(input, map, control, Some(Json::Text(frames[i].url.clone()))) {
            Ok(_) => {},
            Err(message) => {
                proof {
                    frames_error_prefix(start, carriers, frames@, i + 1);
                }
                return Err(message);
            },
        }
        i = i + 1;
    }
    assert(frames@.take(frames@.len() as int) =~= frames@);
    Ok(())
}

proof fn frames_error_prefix(
    input: Partial,
    map: Seq<(Seq<char>, Seq<char>)>,
    frames: Seq<FrameImage>,
    n: int,
)
    requires
        0 <= n <= frames.len(),
        with_frames(input, map, frames.take(n)) is Err,
    ensures
        with_frames(input, map, frames) == with_frames(input, map, frames.take(n)),
    decreases frames.len() - n,
{
    if n < frames.len() {
        assert(frames.take(n + 1).drop_last() =~= frames.take(n));
        frames_error_prefix(input, map, frames, n + 1);
    } else {
        assert(frames.take(n) =~= frames);
    }
}

pub proof fn frames_keep_error(
    input: Partial,
    map: Seq<(Seq<char>, Seq<char>)>,
    frames: Seq<FrameImage>,
)
    requires
        input is Err,
    ensures
        with_frames(input, map, frames) == input,
    decreases frames.len(),
{
    if frames.len() > 0 {
        frames_keep_error(input, map, frames.drop_last());
    }
}

fn urls_json(references: &Vec<InputReference>) -> (json: Json)
    ensures
        json@ == reference_urls(references@),
{
    broadcast use crate::json::array_view;

    let mut urls: Vec<Json> = Vec::new();
    let mut i: usize = 0;
    while i < references.len()
        invariant
            i <= references@.len(),
            urls@.len() == i,
            forall|k: int|
                0 <= k < i ==> (#[trigger] urls@[k])@ == JsonView::Text(references@[k].url@),
        decreases references@.len() - i,
    {
        urls.push(Json::Text(references[i].url.clone()));
        i = i + 1;
    }
    let json = Json::Array(urls);
    assert(json@->Array_0 =~= reference_urls(references@)->Array_0);
    json
}

fn assemble(request: &VideoRequest, model: &VideoModel) -> (r: Result<Vec<Member>, String>)
    ensures
        match r {
            Ok(members) => assembled(*request, *model) == Ok::<
                Seq<(Seq<char>, JsonView)>,
                Seq<char>,
            >(crate::json::members_view(members@)),
            Err(message) => assembled(*request, *model) == Err::<
                Seq<(Seq<char>, JsonView)>,
                Seq<char>,
            >(message@),
        },
{
    broadcast use crate::json::object_view;

    let map = &model.field_map;
    let mut input: Vec<Member> = Vec::new();
    assert(crate::json::members_view(input@) =~= Seq::<(Seq<char>, JsonView)>::empty());
    if let Some(Json::Object(options)) = &request.adapter_options {
        let mut i: usize = 0;
        while i < options.len()
            invariant
                i <= options@.len(),
                crate::json::members_view(input@) == crate::json::members_view(options@).take(i as int),
                input@.len() == i,
            decreases options@.len() - i,
        {
            input.push(
                Member { key: options[i].key.clone(), value: copy_json(&options[i].value) },
            );
            i = i + 1;
            assert(crate::json::members_view(input@) =~= crate::json::members_view(options@).take(i as int));
        }
        assert(crate::json::members_view(options@).take(options@.len() as int) =~= crate::json::members_view(options@));
    }
    assert(crate::json::members_view(input@) == option_members(request.adapter_options));
    assert forall|input: Partial| input is Err implies #[trigger] with_frames(
        input,
        map_view(map@),
        request.frame_images@,
    ) == input by {
        frames_keep_error(input, map_view(map@), request.frame_images@);
    }
    if let Some(name) = find_overridden(&input, map) {
        return Err(concat("Advanced JSON cannot override the common field ", name.as_str()));
    }
    if let Some(name) = mapped_field(map, "prompt") {
        let prompt = trim_text(request.prompt.as_str()).to_owned();
        insert_member(&mut input, name.to_owned(), Json::Text(prompt));
    }
    let duration = match request.duration {
        Some(seconds) => Some(fal_duration_value(model, seconds)),
        None => None,
    };
    insert_optional(&mut input, map, "duration", duration)?;
    insert_optional(&mut input, map, "resolution", text_option(&request.resolution))?;
    insert_optional(&mut input, map, "aspect_ratio", text_option(&request.aspect_ratio))?;
    insert_optional(&mut input, map, "size", text_option(&request.size))?;
    let audio = match request.generate_audio {
        Some(on) => Some(Json::Bool(on)),
        None => None,
    };
    insert_optional(&mut input, map, "generate_audio", audio)?;
    let seed = match request.seed {
        Some(seed) => Some(Json::Number(integer(seed))),
        None => None,
    };
    insert_optional(&mut input, map, "seed", seed)?;
    insert_frames(&mut input, map, &request.frame_images)?;
    if request.input_references.len() > 0 {
        insert_optional(&mut input, map, "references", Some(urls_json(&request.input_references)))?;
    }
    Ok(input)
}

/// Builds the input that a request amounts to for a model and checks it against the model's
/// schema. `domain_problem` is what is wrong with the request in itself.
pub fn fal_input(request: &VideoRequest, model: &VideoModel, domain_problem: Option<String>) -> (r:
    Result<Json, ProviderError>)
    ensures
        match r {
            Ok(input) => input_or_complaint(
                *request,
                *model,
                crate::domain::opt_view(domain_problem),
            ) == Ok::<JsonView, Seq<char>>(input@),
            Err(e) => input_or_complaint(
                *request,
                *model,
                crate::domain::opt_view(domain_problem),
            ) matches Err(message) && e@ == fal_failure(ProviderErrorKind::Validation, message),
        },
{
    broadcast use crate::json::object_view;

    if !request.provider_id.is(FAL_PROVIDER_ID) || !model.provider_id.is(FAL_PROVIDER_ID) {
        return Err(validation("The request and model must belong to fal"));
    }
    if let Some(problem) = domain_problem {
        return Err(failure(ProviderErrorKind::Validation, problem));
    }
    let members = match assemble(request, model) {
        Ok(members) => members,
        Err(message) => {
            return Err(failure(ProviderErrorKind::Validation, message));
        },
    };
    let value = Json::Object(members);
    if let Some(schema) = &model.input_schema {
        match check_schema(schema, &value, "$input") {
            Ok(_) => {},
            Err(message) => {
                return Err(failure(ProviderErrorKind::Validation, message));
            },
        }
    }
    Ok(value)
}

} // verus!
