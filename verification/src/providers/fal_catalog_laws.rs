//! What the reading of fal.ai's catalog promises: which entries become models, and what a model is
//! said to offer.

use crate::json::JsonView;
use vstd::prelude::*;

verus! {

/// The property of that name that a model's input has.
pub open spec fn declared(input: JsonView, name: Seq<char>) -> Option<JsonView> {
    crate::json::lookup(crate::providers::fal::properties_of(input), name)
}

/// The first of some names that a model's input has a property of.
pub open spec fn first_declared(input: JsonView, names: Seq<Seq<char>>) -> Option<Seq<char>>
    decreases names.len(),
{
    if names.len() == 0 {
        None
    } else if declared(input, names[0]) is Some {
        Some(names[0])
    } else {
        first_declared(input, names.skip(1))
    }
}

/// The values that the first of some properties admits, where it lists them.
pub open spec fn admitted(input: JsonView, names: Seq<Seq<char>>) -> Seq<JsonView> {
    match first_declared(input, names) {
        Some(name) => match crate::json::field(declared(input, name)->0, "enum"@) {
            Some(JsonView::Array(items)) => items,
            _ => Seq::empty(),
        },
        None => Seq::empty(),
    }
}

/// The names that models give to a control.
pub open spec fn names_of(control: Seq<char>) -> Seq<Seq<char>> {
    if control == "prompt"@ {
        seq!["prompt"@, "text"@]
    } else if control == "duration"@ {
        seq!["duration"@, "duration_seconds"@, "video_length"@, "num_seconds"@]
    } else if control == "resolution"@ {
        seq!["resolution"@, "video_resolution"@]
    } else if control == "aspect_ratio"@ {
        seq!["aspect_ratio"@]
    } else if control == "size"@ {
        seq!["size"@, "video_size"@]
    } else if control == "generate_audio"@ {
        seq!["generate_audio"@, "enable_audio"@, "audio"@]
    } else if control == "seed"@ {
        seq!["seed"@]
    } else if control == "first_frame"@ {
        seq!["image_url"@, "start_image_url"@, "first_frame_url"@]
    } else if control == "last_frame"@ {
        seq!["end_image_url"@, "last_frame_url"@]
    } else if control == "references"@ {
        seq!["reference_image_urls"@, "image_urls"@, "reference_images"@]
    } else {
        Seq::empty()
    }
}

proof fn control_names_are_distinct()
    ensures
        crate::providers::fal::controls().no_duplicates(),
{
    reveal_strlit("aspect_ratio");
    reveal_strlit("duration");
    reveal_strlit("first_frame");
    reveal_strlit("generate_audio");
    reveal_strlit("last_frame");
    reveal_strlit("prompt");
    reveal_strlit("references");
    reveal_strlit("resolution");
    reveal_strlit("seed");
    reveal_strlit("size");
    assert("aspect_ratio"@.len() == 12 && "duration"@.len() == 8 && "first_frame"@.len() == 11);
    assert("generate_audio"@.len() == 14 && "last_frame"@.len() == 10 && "prompt"@.len() == 6);
    assert("references"@.len() == 10 && "resolution"@.len() == 10 && "seed"@.len() == 4);
    assert("size"@.len() == 4);
    assert("last_frame"@[0] != "references"@[0] && "last_frame"@[0] != "resolution"@[0]);
    assert("references"@[2] != "resolution"@[2]);
    assert("seed"@[1] != "size"@[1]);
}

proof fn mapped_behind(
    map: Seq<(Seq<char>, Seq<char>)>,
    last: (Seq<char>, Seq<char>),
    control: Seq<char>,
)
    ensures
        crate::providers::fal::mapped(map.push(last), control) == (
        if crate::providers::fal::mapped(map, control) is Some {
            crate::providers::fal::mapped(map, control)
        } else if last.0 == control {
            Some(last.1)
        } else {
            None
        }),
    decreases map.len(),
{
    let all = map.push(last);
    if map.len() > 0 {
        assert(all.skip(1) =~= map.skip(1).push(last));
        assert(all[0] == map[0]);
        mapped_behind(map.skip(1), last, control);
    } else {
        assert(all[0] == last);
        assert(crate::providers::fal::mapped(all.skip(1), control) is None);
    }
}

proof fn carried_is_mapped(
    properties: Seq<(Seq<char>, JsonView)>,
    names: Seq<Seq<char>>,
    control: Seq<char>,
)
    requires
        names.no_duplicates(),
    ensures
        crate::providers::fal::mapped(crate::providers::fal::carried(properties, names), control)
            == (if names.contains(control) {
            crate::providers::fal::carrier(properties, control)
        } else {
            None
        }),
    decreases names.len(),
{
    if names.len() > 0 {
        let rest = names.drop_last();
        carried_is_mapped(properties, rest, control);
        assert(names[names.len() - 1] == names.last());
        if rest.contains(control) {
            let i = rest.index_of(control);
            assert(names[i] == control);
        }
        if names.contains(control) && control != names.last() {
            let i = names.index_of(control);
            assert(rest[i] == control);
        }
        if rest.contains(names.last()) {
            let i = rest.index_of(names.last());
            assert(names[i] == names[names.len() - 1]);
        }
        if let Some(name) = crate::providers::fal::carrier(properties, names.last()) {
            mapped_behind(
                crate::providers::fal::carried(properties, rest),
                (names.last(), name),
                control,
            );
        }
    }
}

proof fn carrier_is_first(input: JsonView, control: Seq<char>)
    ensures
        crate::providers::fal::carrier(crate::providers::fal::properties_of(input), control)
            == first_declared(input, names_of(control)),
{
    reveal_with_fuel(first_declared, 5);
    let names = names_of(control);
    if names.len() > 1 {
        assert(names.skip(1)[0] == names[1]);
    }
    if names.len() > 2 {
        assert(names.skip(1).skip(1)[0] == names[2]);
    }
    if names.len() > 3 {
        assert(names.skip(1).skip(1).skip(1)[0] == names[3]);
    }
}

/// The common controls of a model.
pub open spec fn is_control(control: Seq<char>) -> bool {
    control == "aspect_ratio"@ || control == "duration"@ || control == "first_frame"@ || control
        == "generate_audio"@ || control == "last_frame"@ || control == "prompt"@ || control
        == "references"@ || control == "resolution"@ || control == "seed"@ || control == "size"@
}

proof fn controls_are_listed(control: Seq<char>)
    ensures
        crate::providers::fal::controls().contains(control) <==> is_control(control),
{
    let all = crate::providers::fal::controls();
    assert(all[0] == "aspect_ratio"@ && all[1] == "duration"@ && all[2] == "first_frame"@);
    assert(all[3] == "generate_audio"@ && all[4] == "last_frame"@ && all[5] == "prompt"@);
    assert(all[6] == "references"@ && all[7] == "resolution"@ && all[8] == "seed"@);
    assert(all[9] == "size"@);
}

/// A control of a model is carried by the first of its own names that the model's input has a
/// property of; a control without such a property is not carried, and nothing but the common
/// controls is.
pub proof fn controls_are_carried_by_their_names(input: JsonView, control: Seq<char>)
    ensures
        ({
            let map = crate::providers::fal::carried(
                crate::providers::fal::properties_of(input),
                crate::providers::fal::controls(),
            );
            &&& is_control(control) ==> crate::providers::fal::mapped(map, control)
                == first_declared(input, names_of(control))
            &&& !is_control(control) ==> crate::providers::fal::mapped(map, control) is None
        }),
{
    control_names_are_distinct();
    controls_are_listed(control);
    carried_is_mapped(
        crate::providers::fal::properties_of(input),
        crate::providers::fal::controls(),
        control,
    );
    carrier_is_first(input, control);
}

proof fn texts_are_filtered(items: Seq<JsonView>)
    ensures
        crate::providers::fal_catalog::text_array(crate::schema::texts_of(items))
            == JsonView::Array(items.filter(|v: JsonView| v is Text)),
    decreases items.len(),
{
    reveal(Seq::filter);
    let keep = |v: JsonView| v is Text;
    if items.len() > 0 {
        let rest = items.drop_last();
        texts_are_filtered(rest);
        let before = crate::providers::fal_catalog::text_array(crate::schema::texts_of(rest));
        if let JsonView::Text(s) = items.last() {
            assert(crate::providers::fal_catalog::text_array(
                crate::schema::texts_of(items),
            )->Array_0 =~= before->Array_0.push(items.last()));
        }
    } else {
        assert(crate::providers::fal_catalog::text_array(
            crate::schema::texts_of(items),
        )->Array_0 =~= items.filter(keep));
    }
}

proof fn listed_are_admitted(input: JsonView, control: Seq<char>)
    requires
        is_control(control),
    ensures
        crate::providers::fal_catalog::listed_values(input, control) == admitted(
            input,
            names_of(control),
        ),
{
    controls_are_carried_by_their_names(input, control);
    first_is_declared(input, names_of(control));
}

proof fn first_is_declared(input: JsonView, names: Seq<Seq<char>>)
    ensures
        first_declared(input, names) matches Some(name) ==> declared(input, name) is Some
            && names.contains(name),
    decreases names.len(),
{
    if names.len() > 0 {
        let rest = names.skip(1);
        first_is_declared(input, rest);
        assert(names[0] == names[0]);
        if let Some(name) = first_declared(input, rest) {
            assert(names[rest.index_of(name) + 1] == name);
        }
    }
}

#[verifier::rlimit(40)]
proof fn document_members(raw: JsonView, input: JsonView)
    ensures
        ({
            let model = crate::providers::fal_catalog::model_document(raw, input);
            let members = model->Object_0;
            &&& model is Object && members.len() == 14
            &&& forall|i: int, j: int|
                0 <= i < j < 14 ==> (#[trigger] members[i]).0 != (#[trigger] members[j]).0
            &&& members[0].0 == "allowed_passthrough_parameters"@
            &&& members[1].0 == "description"@
            &&& members[2].0 == "fal_metadata"@
            &&& members[3].0 == "field_map"@
            &&& members[4].0 == "generate_audio"@
            &&& members[5].0 == "id"@
            &&& members[6].0 == "input_schema"@
            &&& members[7].0 == "name"@
            &&& members[8].0 == "seed"@
            &&& members[9].0 == "supported_aspect_ratios"@
            &&& members[10].0 == "supported_durations"@
            &&& members[11].0 == "supported_frame_images"@
            &&& members[12].0 == "supported_resolutions"@
            &&& members[13].0 == "supported_sizes"@
        }),
{
    reveal_strlit("allowed_passthrough_parameters");
    reveal_strlit("description");
    reveal_strlit("fal_metadata");
    reveal_strlit("field_map");
    reveal_strlit("generate_audio");
    reveal_strlit("id");
    reveal_strlit("input_schema");
    reveal_strlit("name");
    reveal_strlit("seed");
    reveal_strlit("supported_aspect_ratios");
    reveal_strlit("supported_durations");
    reveal_strlit("supported_frame_images");
    reveal_strlit("supported_resolutions");
    reveal_strlit("supported_sizes");
    assert("allowed_passthrough_parameters"@.len() == 30 && "description"@.len() == 11);
    assert("fal_metadata"@.len() == 12 && "field_map"@.len() == 9 && "id"@.len() == 2);
    assert("generate_audio"@.len() == 14 && "input_schema"@.len() == 12 && "name"@.len() == 4);
    assert("seed"@.len() == 4 && "supported_aspect_ratios"@.len() == 23);
    assert("supported_durations"@.len() == 19 && "supported_frame_images"@.len() == 22);
    assert("supported_resolutions"@.len() == 21 && "supported_sizes"@.len() == 15);
    assert("fal_metadata"@[0] != "input_schema"@[0]);
    assert("name"@[0] != "seed"@[0]);
}

proof fn document_member(raw: JsonView, input: JsonView, i: int)
    requires
        0 <= i < 14,
    ensures
        ({
            let model = crate::providers::fal_catalog::model_document(raw, input);
            crate::json::field(model, model->Object_0[i].0) == Some(model->Object_0[i].1)
        }),
{
    document_members(raw, input);
    let members = crate::providers::fal_catalog::model_document(raw, input)->Object_0;
    assert forall|k: int| 0 <= k < i implies (#[trigger] members[k]).0 != members[i].0 by {
        assert(members[i].0 == members[i].0);
    }
    crate::json::lookup_at(members, members[i].0, i);
}

proof fn model_input(raw: JsonView, model: JsonView) -> (input: JsonView)
    requires
        crate::providers::fal_catalog::normalized(raw) == Ok::<Option<JsonView>, Seq<char>>(
            Some(model),
        ),
    ensures
        crate::json::field(model, "input_schema"@) == Some(input),
        model == crate::providers::fal_catalog::model_document(raw, input),
        crate::providers::fal_catalog::offered_video_entry(raw),
        first_declared(input, names_of("prompt"@)) is Some,
{
    let openapi = crate::json::field(raw, "openapi"@)->0;
    let input = crate::providers::fal_catalog::resolved(
        crate::providers::fal_catalog::document_schema(openapi, false)->0,
        openapi,
        0,
    )->Ok_0;
    document_members(raw, input);
    document_member(raw, input, 6);
    controls_are_carried_by_their_names(input, "prompt"@);
    input
}

/// The aspect ratios, resolutions and sizes that a model is said to support are the texts that the
/// model's own input lists for that property, all of them, in their order, and no others.
pub proof fn models_support_what_their_input_lists(raw: JsonView, model: JsonView, input: JsonView)
    requires
        crate::providers::fal_catalog::normalized(raw) == Ok::<Option<JsonView>, Seq<char>>(
            Some(model),
        ),
        crate::json::field(model, "input_schema"@) == Some(input),
    ensures
        crate::json::field(model, "supported_aspect_ratios"@) == Some(
            JsonView::Array(
                admitted(input, seq!["aspect_ratio"@]).filter(|v: JsonView| v is Text),
            ),
        ),
        crate::json::field(model, "supported_resolutions"@) == Some(
            JsonView::Array(
                admitted(input, seq!["resolution"@, "video_resolution"@]).filter(
                    |v: JsonView| v is Text,
                ),
            ),
        ),
        crate::json::field(model, "supported_sizes"@) == Some(
            JsonView::Array(
                admitted(input, seq!["size"@, "video_size"@]).filter(|v: JsonView| v is Text),
            ),
        ),
{
    control_names_are_distinct();
    let own = model_input(raw, model);
    document_members(raw, own);
    document_member(raw, own, 9);
    document_member(raw, own, 12);
    document_member(raw, own, 13);
    listed_are_admitted(own, "aspect_ratio"@);
    listed_are_admitted(own, "resolution"@);
    listed_are_admitted(own, "size"@);
    texts_are_filtered(admitted(own, names_of("aspect_ratio"@)));
    texts_are_filtered(admitted(own, names_of("resolution"@)));
    texts_are_filtered(admitted(own, names_of("size"@)));
    names_are_told_apart();
}

proof fn names_are_told_apart()
    ensures
        names_of("aspect_ratio"@) == seq!["aspect_ratio"@],
        names_of("resolution"@) == seq!["resolution"@, "video_resolution"@],
        names_of("size"@) == seq!["size"@, "video_size"@],
        names_of("prompt"@) == seq!["prompt"@, "text"@],
        names_of("duration"@) == seq![
            "duration"@,
            "duration_seconds"@,
            "video_length"@,
            "num_seconds"@,
        ],
        names_of("generate_audio"@) == seq!["generate_audio"@, "enable_audio"@, "audio"@],
        names_of("seed"@) == seq!["seed"@],
        names_of("first_frame"@) == seq!["image_url"@, "start_image_url"@, "first_frame_url"@],
        names_of("last_frame"@) == seq!["end_image_url"@, "last_frame_url"@],
        names_of("references"@) == seq![
            "reference_image_urls"@,
            "image_urls"@,
            "reference_images"@,
        ],
{
    control_names_are_distinct();
    let all = crate::providers::fal::controls();
    assert(all[0] == "aspect_ratio"@ && all[1] == "duration"@ && all[2] == "first_frame"@);
    assert(all[3] == "generate_audio"@ && all[4] == "last_frame"@ && all[5] == "prompt"@);
    assert(all[6] == "references"@ && all[7] == "resolution"@ && all[8] == "seed"@);
    assert(all[9] == "size"@);
}

/// Every value that a model is said to support stands in the list of the property it is for.
pub proof fn supported_values_stand_in_their_lists(
    raw: JsonView,
    model: JsonView,
    input: JsonView,
    value: JsonView,
)
    requires
        crate::providers::fal_catalog::normalized(raw) == Ok::<Option<JsonView>, Seq<char>>(
            Some(model),
        ),
        crate::json::field(model, "input_schema"@) == Some(input),
    ensures
        crate::json::field(model, "supported_aspect_ratios"@) matches Some(JsonView::Array(list))
            && (list.contains(value) <==> value is Text && admitted(
            input,
            seq!["aspect_ratio"@],
        ).contains(value)),
        crate::json::field(model, "supported_resolutions"@) matches Some(JsonView::Array(list))
            && (list.contains(value) <==> value is Text && admitted(
            input,
            seq!["resolution"@, "video_resolution"@],
        ).contains(value)),
        crate::json::field(model, "supported_sizes"@) matches Some(JsonView::Array(list)) && (
        list.contains(value) <==> value is Text && admitted(
            input,
            seq!["size"@, "video_size"@],
        ).contains(value)),
{
    models_support_what_their_input_lists(raw, model, input);
    filtered_holds(admitted(input, seq!["aspect_ratio"@]), value);
    filtered_holds(admitted(input, seq!["resolution"@, "video_resolution"@]), value);
    filtered_holds(admitted(input, seq!["size"@, "video_size"@]), value);
}

proof fn filtered_holds(items: Seq<JsonView>, value: JsonView)
    ensures
        items.filter(|v: JsonView| v is Text).contains(value) <==> value is Text && items.contains(
            value,
        ),
    decreases items.len(),
{
    reveal(Seq::filter);
    let keep = |v: JsonView| v is Text;
    let kept = items.filter(keep);
    if items.len() > 0 {
        let rest = items.drop_last();
        filtered_holds(rest, value);
        let before = rest.filter(keep);
        assert(items[items.len() - 1] == items.last());
        if items.contains(value) && value != items.last() {
            assert(rest[items.index_of(value)] == value);
        }
        if rest.contains(value) {
            assert(items[rest.index_of(value)] == value);
        }
        if items.last() is Text {
            assert(kept == before.push(items.last()));
            assert(kept[before.len() as int] == items.last());
            if before.contains(value) {
                assert(kept[before.index_of(value)] == value);
            }
            if kept.contains(value) && value != items.last() {
                assert(before[kept.index_of(value)] == value);
            }
        }
    }
}

/// The number of seconds that a listed value says: a number, or a text of digits.
pub open spec fn says_seconds(value: JsonView, seconds: u32) -> bool {
    (value matches JsonView::Number(n) && n.unsigned == Some(seconds as u64)) || (
    value matches JsonView::Text(text) && crate::text::parsed_unsigned(text, u64::MAX as nat)
        == Some(seconds as nat))
}

/// Whether a listed duration stands for a value of a list.
pub open spec fn stands_for(values: Seq<JsonView>, duration: JsonView) -> bool {
    exists|i: int, seconds: u32|
        0 <= i < values.len() && #[trigger] says_seconds(values[i], seconds) && duration
            == JsonView::Number(crate::outside::number_of(seconds as i64))
}

proof fn durations_hold(values: Seq<JsonView>)
    ensures
        ({
            let made = crate::providers::fal_catalog::durations_of(values);
            &&& forall|k: int| 0 <= k < made.len() ==> stands_for(values, #[trigger] made[k])
            &&& forall|duration: JsonView|
                #[trigger] stands_for(values, duration) ==> made.contains(duration)
        }),
    decreases values.len(),
{
    if values.len() > 0 {
        let rest = values.drop_last();
        durations_hold(rest);
        let before = crate::providers::fal_catalog::durations_of(rest);
        let made = crate::providers::fal_catalog::durations_of(values);
        assert(values[values.len() - 1] == values.last());
        assert forall|k: int| 0 <= k < made.len() implies stands_for(
            values,
            #[trigger] made[k],
        ) by {
            if k < before.len() {
                assert(made[k] == before[k]);
                assert(stands_for(rest, before[k]));
                let (i, seconds) = choose|i: int, seconds: u32|
                    0 <= i < rest.len() && #[trigger] says_seconds(rest[i], seconds) && before[k]
                        == JsonView::Number(crate::outside::number_of(seconds as i64));
                assert(rest[i] == values[i]);
                assert(says_seconds(values[i], seconds));
            } else {
                let seconds = crate::providers::fal_catalog::seconds_of(values.last())->0 as u32;
                assert(says_seconds(values[values.len() - 1], seconds));
            }
        }
        assert forall|duration: JsonView| #[trigger] stands_for(
            values,
            duration,
        ) implies made.contains(duration) by {
            let (i, seconds) = choose|i: int, seconds: u32|
                0 <= i < values.len() && #[trigger] says_seconds(values[i], seconds) && duration
                    == JsonView::Number(crate::outside::number_of(seconds as i64));
            if i < rest.len() {
                assert(rest[i] == values[i]);
                assert(says_seconds(rest[i], seconds));
                assert(stands_for(rest, duration));
                assert(before.contains(duration));
                assert(made[before.index_of(duration)] == duration);
            } else {
                assert(crate::providers::fal_catalog::seconds_of(values.last()) == Some(
                    seconds as nat,
                ));
                assert(made == before.push(duration));
                assert(made[before.len() as int] == duration);
            }
        }
    }
}

/// The durations that a model is said to support are the whole seconds that its input lists, all of
/// them and no others.
pub proof fn durations_are_listed_seconds(
    raw: JsonView,
    model: JsonView,
    input: JsonView,
    duration: JsonView,
)
    requires
        crate::providers::fal_catalog::normalized(raw) == Ok::<Option<JsonView>, Seq<char>>(
            Some(model),
        ),
        crate::json::field(model, "input_schema"@) == Some(input),
    ensures
        crate::json::field(model, "supported_durations"@) matches Some(JsonView::Array(list)) && (
        list.contains(duration) <==> stands_for(
            admitted(
                input,
                seq!["duration"@, "duration_seconds"@, "video_length"@, "num_seconds"@],
            ),
            duration,
        )),
{
    let own = model_input(raw, model);
    document_members(raw, own);
    document_member(raw, own, 10);
    listed_are_admitted(own, "duration"@);
    names_are_told_apart();
    let values = admitted(own, names_of("duration"@));
    durations_hold(values);
    let list = crate::providers::fal_catalog::durations_of(values);
    if list.contains(duration) {
        assert(stands_for(values, list[list.index_of(duration)]));
    }
}

/// A model is said to make sound, to take a seed, a first frame or a last frame if and only if its
/// input has a property for it.
pub proof fn models_offer_what_their_input_has(raw: JsonView, model: JsonView, input: JsonView)
    requires
        crate::providers::fal_catalog::normalized(raw) == Ok::<Option<JsonView>, Seq<char>>(
            Some(model),
        ),
        crate::json::field(model, "input_schema"@) == Some(input),
    ensures
        crate::json::field(model, "generate_audio"@) == Some(
            JsonView::Bool(
                declared(input, "generate_audio"@) is Some || declared(input, "enable_audio"@)
                    is Some || declared(input, "audio"@) is Some,
            ),
        ),
        crate::json::field(model, "seed"@) == Some(
            JsonView::Bool(declared(input, "seed"@) is Some),
        ),
        crate::json::field(model, "supported_frame_images"@) == Some(
            JsonView::Array(
                (if declared(input, "image_url"@) is Some || declared(input, "start_image_url"@)
                    is Some || declared(input, "first_frame_url"@) is Some {
                    seq![JsonView::Text("first_frame"@)]
                } else {
                    Seq::empty()
                }) + (if declared(input, "end_image_url"@) is Some || declared(
                    input,
                    "last_frame_url"@,
                ) is Some {
                    seq![JsonView::Text("last_frame"@)]
                } else {
                    Seq::empty()
                }),
            ),
        ),
        declared(input, "prompt"@) is Some || declared(input, "text"@) is Some,
{
    let own = model_input(raw, model);
    document_members(raw, own);
    document_member(raw, own, 4);
    document_member(raw, own, 8);
    document_member(raw, own, 11);
    names_are_told_apart();
    controls_are_carried_by_their_names(own, "generate_audio"@);
    controls_are_carried_by_their_names(own, "seed"@);
    controls_are_carried_by_their_names(own, "first_frame"@);
    controls_are_carried_by_their_names(own, "last_frame"@);
    first_of_three(own, "generate_audio"@, "enable_audio"@, "audio"@);
    first_of_three(own, "image_url"@, "start_image_url"@, "first_frame_url"@);
    first_of_two(own, "end_image_url"@, "last_frame_url"@);
    first_of_two(own, "prompt"@, "text"@);
    reveal_with_fuel(first_declared, 2);
    let map = crate::providers::fal::carried(
        crate::providers::fal::properties_of(own),
        crate::providers::fal::controls(),
    );
    let frames = crate::providers::fal_catalog::frame_names(map);
    assert(crate::providers::fal_catalog::text_array(frames)->Array_0 =~= (if declared(
        own,
        "image_url"@,
    ) is Some || declared(own, "start_image_url"@) is Some || declared(own, "first_frame_url"@)
        is Some {
        seq![JsonView::Text("first_frame"@)]
    } else {
        Seq::empty()
    }) + (if declared(own, "end_image_url"@) is Some || declared(own, "last_frame_url"@) is Some {
        seq![JsonView::Text("last_frame"@)]
    } else {
        Seq::empty()
    }));
}

proof fn first_of_two(input: JsonView, a: Seq<char>, b: Seq<char>)
    ensures
        first_declared(input, seq![a, b]) is Some <==> declared(input, a) is Some || declared(
            input,
            b,
        ) is Some,
{
    reveal_with_fuel(first_declared, 3);
    assert(seq![a, b].skip(1)[0] == b);
}

proof fn first_of_three(input: JsonView, a: Seq<char>, b: Seq<char>, c: Seq<char>)
    ensures
        first_declared(input, seq![a, b, c]) is Some <==> declared(input, a) is Some || declared(
            input,
            b,
        ) is Some || declared(input, c) is Some,
{
    reveal_with_fuel(first_declared, 4);
    assert(seq![a, b, c].skip(1)[0] == b);
    assert(seq![a, b, c].skip(1).skip(1)[0] == c);
}

/// A model carries its entry's identifier, its name, or the identifier where it has none, and its
/// description; the entry is kept with it, and the map of its fields names for every control the
/// property that carries it.
pub proof fn models_repeat_their_entry(
    raw: JsonView,
    model: JsonView,
    input: JsonView,
    control: Seq<char>,
)
    requires
        crate::providers::fal_catalog::normalized(raw) == Ok::<Option<JsonView>, Seq<char>>(
            Some(model),
        ),
        crate::json::field(model, "input_schema"@) == Some(input),
    ensures
        crate::json::field(model, "id"@) == crate::json::field(raw, "endpoint_id"@),
        crate::json::field(model, "fal_metadata"@) == Some(raw),
        crate::json::field(raw, "metadata"@) matches Some(meta) && ({
            &&& match crate::json::field(meta, "display_name"@) {
                Some(JsonView::Text(name)) => crate::json::field(model, "name"@) == Some(
                    JsonView::Text(name),
                ),
                _ => crate::json::field(model, "name"@) == crate::json::field(model, "id"@),
            }
            &&& match crate::json::field(meta, "description"@) {
                Some(JsonView::Text(text)) => crate::json::field(model, "description"@) == Some(
                    JsonView::Text(text),
                ),
                _ => crate::json::field(model, "description"@) == Some(
                    JsonView::Text(Seq::empty()),
                ),
            }
            &&& crate::json::field(meta, "category"@) == Some(JsonView::Text("text-to-video"@))
                || crate::json::field(meta, "category"@) == Some(JsonView::Text("image-to-video"@))
            &&& crate::json::field(meta, "status"@) matches Some(JsonView::Text(status)) ==> status
                == "active"@
        }),
        crate::json::field(model, "id"@) matches Some(JsonView::Text(id)) && id.len() > 0,
        crate::json::field(model, "field_map"@) matches Some(JsonView::Object(map)) && (
        is_control(control) ==> crate::json::lookup(map, control) == (match first_declared(
            input,
            names_of(control),
        ) {
            Some(name) => Some(JsonView::Text(name)),
            None => None,
        })),
        crate::json::field(model, "allowed_passthrough_parameters"@) matches Some(
            JsonView::Array(list),
        ) && list.len() == crate::providers::fal::properties_of(input).len() && forall|i: int|
            0 <= i < list.len() ==> #[trigger] list[i] == JsonView::Text(
                crate::providers::fal::properties_of(input)[i].0,
            ),
{
    let own = model_input(raw, model);
    document_members(raw, own);
    document_member(raw, own, 0);
    document_member(raw, own, 1);
    document_member(raw, own, 2);
    document_member(raw, own, 3);
    document_member(raw, own, 5);
    document_member(raw, own, 7);
    categories_have_letters();
    controls_are_carried_by_their_names(own, control);
    let map = crate::providers::fal::carried(
        crate::providers::fal::properties_of(own),
        crate::providers::fal::controls(),
    );
    written_map(map, control);
}

proof fn categories_have_letters()
    ensures
        "text-to-video"@.len() > 0,
        "image-to-video"@.len() > 0,
{
    reveal_strlit("text-to-video");
    reveal_strlit("image-to-video");
}

proof fn written_map(map: Seq<(Seq<char>, Seq<char>)>, control: Seq<char>)
    ensures
        crate::json::lookup(
            Seq::new(map.len(), |i: int| (map[i].0, JsonView::Text(map[i].1))),
            control,
        ) == (match crate::providers::fal::mapped(map, control) {
            Some(name) => Some(JsonView::Text(name)),
            None => None,
        }),
    decreases map.len(),
{
    let written = Seq::new(map.len(), |i: int| (map[i].0, JsonView::Text(map[i].1)));
    if map.len() > 0 {
        let rest = map.skip(1);
        written_map(rest, control);
        assert(written.skip(1) =~= Seq::new(
            rest.len(),
            |i: int| (rest[i].0, JsonView::Text(rest[i].1)),
        ));
    }
}

/// An entry becomes no model where it has no identifier, is not filed under the making of videos, is
/// no longer active, or has no schemas.
pub proof fn other_entries_are_left_out(raw: JsonView)
    requires
        ({
            ||| crate::json::field(raw, "openapi"@) is None
            ||| crate::json::field(raw, "endpoint_id"@) is None
            ||| crate::json::field(raw, "endpoint_id"@) == Some(JsonView::Text(Seq::empty()))
            ||| crate::json::field(raw, "metadata"@) is None
            ||| crate::json::field(raw, "metadata"@) matches Some(meta) && (crate::json::field(
                meta,
                "category"@,
            ) matches Some(JsonView::Text(category)) ==> category != "text-to-video"@ && category
                != "image-to-video"@)
            ||| crate::json::field(raw, "metadata"@) matches Some(meta) && (crate::json::field(
                meta,
                "status"@,
            ) matches Some(JsonView::Text(status)) && status != "active"@)
        }),
    ensures
        crate::providers::fal_catalog::normalized(raw) == Ok::<Option<JsonView>, Seq<char>>(None),
{
    categories_have_letters();
}

/// Whether a document has no references and is nested no deeper than `depth`.
pub open spec fn plain(value: JsonView, depth: nat) -> bool
    decreases value,
{
    match value {
        JsonView::Object(members) => depth > 0 && !(crate::json::field(
            value,
            "$ref"@,
        ) matches Some(JsonView::Text(_))) && forall|i: int|
            0 <= i < members.len() ==> plain((#[trigger] members[i]).1, (depth - 1) as nat),
        JsonView::Array(items) => depth > 0 && forall|i: int|
            0 <= i < items.len() ==> plain(#[trigger] items[i], (depth - 1) as nat),
        _ => true,
    }
}

proof fn plain_resolves(value: JsonView, root: JsonView, depth: nat)
    requires
        depth <= 64,
        plain(value, (64 - depth) as nat),
    ensures
        crate::providers::fal_catalog::resolved(value, root, depth) == Ok::<JsonView, Seq<char>>(
            value,
        ),
    decreases value, 1nat,
{
    match value {
        JsonView::Object(members) => {
            plain_members(members, root, depth + 1);
        },
        JsonView::Array(items) => {
            plain_items(items, root, depth + 1);
        },
        _ => {},
    }
}

proof fn plain_members(members: Seq<(Seq<char>, JsonView)>, root: JsonView, depth: nat)
    requires
        depth <= 64,
        forall|i: int|
            0 <= i < members.len() ==> plain((#[trigger] members[i]).1, (64 - depth) as nat),
    ensures
        crate::providers::fal_catalog::resolved_members(members, root, depth) == Ok::<
            Seq<(Seq<char>, JsonView)>,
            Seq<char>,
        >(members),
    decreases members, 0nat,
{
    if members.len() > 0 {
        let rest = members.drop_last();
        assert forall|i: int| 0 <= i < rest.len() implies plain(
            (#[trigger] rest[i]).1,
            (64 - depth) as nat,
        ) by {
            assert(rest[i] == members[i]);
        }
        plain_members(rest, root, depth);
        assert(members[members.len() - 1] == members.last());
        assert(decreases_to!(members => members.last()));
        assert(decreases_to!(members.last() => members.last().1));
        plain_resolves(members.last().1, root, depth);
        assert(rest.push((members.last().0, members.last().1)) =~= members);
    } else {
        assert(members =~= Seq::<(Seq<char>, JsonView)>::empty());
    }
}

proof fn plain_items(items: Seq<JsonView>, root: JsonView, depth: nat)
    requires
        depth <= 64,
        forall|i: int| 0 <= i < items.len() ==> plain(#[trigger] items[i], (64 - depth) as nat),
    ensures
        crate::providers::fal_catalog::resolved_items(items, root, depth) == Ok::<
            Seq<JsonView>,
            Seq<char>,
        >(items),
    decreases items, 0nat,
{
    if items.len() > 0 {
        let rest = items.drop_last();
        assert forall|i: int| 0 <= i < rest.len() implies plain(
            #[trigger] rest[i],
            (64 - depth) as nat,
        ) by {
            assert(rest[i] == items[i]);
        }
        plain_items(rest, root, depth);
        assert(items[items.len() - 1] == items.last());
        plain_resolves(items.last(), root, depth);
        assert(rest.push(items.last()) =~= items);
    } else {
        assert(items =~= Seq::<JsonView>::empty());
    }
}

/// A document without references is resolved as it stands; a reference into the same document is
/// resolved to what it points to, and any other reference is refused.
pub proof fn references_are_resolved(value: JsonView, root: JsonView, reference: Seq<char>)
    ensures
        plain(value, 64) ==> crate::providers::fal_catalog::resolved(value, root, 0) == Ok::<
            JsonView,
            Seq<char>,
        >(value),
        crate::json::field(value, "$ref"@) == Some(JsonView::Text("#"@ + reference)) ==> (match crate::json::pointed(
            root,
            reference,
        ) {
            Some(target) => plain(target, 63) ==> crate::providers::fal_catalog::resolved(
                value,
                root,
                0,
            ) == Ok::<JsonView, Seq<char>>(target),
            None => crate::providers::fal_catalog::resolved(value, root, 0) is Err,
        }),
        crate::json::field(value, "$ref"@) matches Some(JsonView::Text(text)) ==> (text.len() == 0
            || text[0] != '#' ==> crate::providers::fal_catalog::resolved(value, root, 0) is Err),
{
    reveal_strlit("#");
    if let Some(JsonView::Text(text)) = crate::json::field(value, "$ref"@) {
        if "#"@.is_prefix_of(text) {
            assert(text.subrange(0, 1)[0] == '#');
        }
    }
    if plain(value, 64) {
        plain_resolves(value, root, 0);
    }
    if crate::json::field(value, "$ref"@) == Some(JsonView::Text("#"@ + reference)) {
        let text = "#"@ + reference;
        assert(text.skip(1) =~= reference);
        assert("#"@.is_prefix_of(text)) by {
            assert(text.take(1) =~= "#"@);
        }
        if let Some(target) = crate::json::pointed(root, reference) {
            if plain(target, 63) {
                plain_resolves(target, root, 1);
            }
        }
    }
}

/// What a document has behind some keys, one inside the other.
pub open spec fn behind(json: JsonView, keys: Seq<Seq<char>>) -> Option<JsonView>
    decreases keys.len(),
{
    if keys.len() == 0 {
        Some(json)
    } else {
        match crate::json::field(json, keys[0]) {
            Some(inner) => behind(inner, keys.skip(1)),
            None => None,
        }
    }
}

proof fn five_keys(
    json: JsonView,
    a: Seq<char>,
    b: Seq<char>,
    c: Seq<char>,
    d: Seq<char>,
    e: Seq<char>,
)
    ensures
        behind(json, seq![a, b, c, d, e]) == (match crate::json::field(json, a) {
            Some(one) => match crate::json::field(one, b) {
                Some(two) => match crate::json::field(two, c) {
                    Some(three) => match crate::json::field(three, d) {
                        Some(four) => crate::json::field(four, e),
                        None => None,
                    },
                    None => None,
                },
                None => None,
            },
            None => None,
        }),
{
    reveal_with_fuel(behind, 6);
    let all = seq![a, b, c, d, e];
    assert(all.skip(1) =~= seq![b, c, d, e]);
    assert(all.skip(1).skip(1) =~= seq![c, d, e]);
    assert(all.skip(1).skip(1).skip(1) =~= seq![d, e]);
    assert(all.skip(1).skip(1).skip(1).skip(1) =~= seq![e]);
    assert(all.skip(1).skip(1).skip(1).skip(1).skip(1) =~= Seq::<Seq<char>>::empty());
}

/// A model takes what the first path that says so posts as JSON; where no path says, the schema
/// called `Input` is meant.
pub proof fn input_schemas_stand_in_paths(
    openapi: JsonView,
    paths: Seq<(Seq<char>, JsonView)>,
    at: int,
)
    requires
        crate::json::field(openapi, "paths"@) == Some(JsonView::Object(paths)),
        0 <= at <= paths.len(),
        forall|i: int|
            0 <= i < at ==> behind(
                (#[trigger] paths[i]).1,
                seq!["post"@, "requestBody"@, "content"@, "application/json"@, "schema"@],
            ) is None,
    ensures
        at < paths.len() ==> (behind(
            paths[at].1,
            seq!["post"@, "requestBody"@, "content"@, "application/json"@, "schema"@],
        ) matches Some(schema) ==> crate::providers::fal_catalog::document_schema(openapi, false)
            == Some(schema)),
        at == paths.len() ==> crate::providers::fal_catalog::document_schema(openapi, false)
            == crate::json::pointed(openapi, "/components/schemas/Input"@),
{
    first_input(paths, at);
}

proof fn first_input(paths: Seq<(Seq<char>, JsonView)>, at: int)
    requires
        0 <= at <= paths.len(),
        forall|i: int|
            0 <= i < at ==> behind(
                (#[trigger] paths[i]).1,
                seq!["post"@, "requestBody"@, "content"@, "application/json"@, "schema"@],
            ) is None,
    ensures
        at < paths.len() ==> (behind(
            paths[at].1,
            seq!["post"@, "requestBody"@, "content"@, "application/json"@, "schema"@],
        ) matches Some(schema) ==> crate::providers::fal_catalog::first_schema(paths, false)
            == Some(schema)),
        at == paths.len() ==> crate::providers::fal_catalog::first_schema(paths, false) is None,
    decreases paths.len(),
{
    if paths.len() > 0 {
        five_keys(
            paths[0].1,
            "post"@,
            "requestBody"@,
            "content"@,
            "application/json"@,
            "schema"@,
        );
        if at > 0 {
            let rest = paths.skip(1);
            assert forall|i: int| 0 <= i < at - 1 implies behind(
                (#[trigger] rest[i]).1,
                seq!["post"@, "requestBody"@, "content"@, "application/json"@, "schema"@],
            ) is None by {
                assert(rest[i] == paths[i + 1]);
            }
            assert(paths[0].1 == paths[0].1);
            first_input(rest, at - 1);
        }
    }
}

/// A model gives what the first path that says so answers as JSON, with the code for success, else
/// with the code for creation; where no path says, the schema called `Output` is meant.
pub proof fn output_schemas_stand_in_paths(
    openapi: JsonView,
    paths: Seq<(Seq<char>, JsonView)>,
    responses: JsonView,
    answer: JsonView,
    schema: JsonView,
)
    requires
        crate::json::field(openapi, "paths"@) == Some(JsonView::Object(paths)),
        paths.len() > 0,
        crate::json::field(paths[0].1, "post"@) matches Some(post) && crate::json::field(
            post,
            "responses"@,
        ) == Some(responses),
        crate::json::field(responses, "200"@) == Some(answer) || (crate::json::field(
            responses,
            "200"@,
        ) is None && crate::json::field(responses, "201"@) == Some(answer)),
        crate::json::field(answer, "content"@) matches Some(content) && crate::json::field(
            content,
            "application/json"@,
        ) matches Some(media) && crate::json::field(media, "schema"@) == Some(schema),
    ensures
        crate::providers::fal_catalog::document_schema(openapi, true) == Some(schema),
{
}

/// Whether a document has a key that speaks of a video, or says of something that it is one.
pub open spec fn mentions_video(value: JsonView) -> bool
    decreases value,
{
    match value {
        JsonView::Object(members) => (crate::json::field(
            value,
            "contentMediaType"@,
        ) matches Some(JsonView::Text(media)) && "video/"@.is_prefix_of(media)) || exists|i: int|
            0 <= i < members.len() && (crate::text::occurs(
                crate::text::lower_text((#[trigger] members[i]).0),
                "video"@,
            ) || crate::text::occurs(members[i].0, "video"@) || mentions_video(members[i].1)),
        JsonView::Array(items) => exists|i: int|
            0 <= i < items.len() && mentions_video(#[trigger] items[i]),
        _ => false,
    }
}

proof fn unmentioned_is_not_shown(value: JsonView, key: Option<Seq<char>>)
    requires
        !mentions_video(value),
        key matches Some(k) ==> !crate::text::occurs(k, "video"@),
    ensures
        !crate::providers::fal_catalog::shows_video(value, key, false),
    decreases value,
{
    match value {
        JsonView::Object(members) => {
            assert forall|i: int| 0 <= i < members.len() implies ({
                let name = (#[trigger] members[i]).0;
                !crate::text::occurs(crate::text::lower_text(name), "video"@)
                    && !crate::providers::fal_catalog::shows_video(
                    members[i].1,
                    Some(name),
                    false,
                )
            }) by {
                assert(decreases_to!(members => members[i]));
                assert(decreases_to!(members[i] => members[i].1));
                unmentioned_is_not_shown(members[i].1, Some(members[i].0));
            }
        },
        JsonView::Array(items) => {
            assert forall|i: int| 0 <= i < items.len() implies !crate::providers::fal_catalog::shows_video(
                #[trigger] items[i],
                key,
                false,
            ) by {
                unmentioned_is_not_shown(items[i], key);
            }
        },
        _ => {},
    }
}

/// An output that speaks of no video is none; one whose property for a video has a URL, given as a
/// text, is one.
pub proof fn video_outputs_are_recognised(
    value: JsonView,
    key: Seq<char>,
    property: JsonView,
    inner: JsonView,
    url: JsonView,
)
    ensures
        !mentions_video(value) ==> !crate::providers::fal_catalog::shows_video(value, None, false),
        crate::json::field(value, key) == Some(property) && crate::text::occurs(
            crate::text::lower_text(key),
            "video"@,
        ) && crate::json::field(property, "properties"@) == Some(inner) && crate::json::field(
            inner,
            "url"@,
        ) == Some(url) && crate::json::field(url, "type"@) == Some(JsonView::Text("string"@))
            ==> crate::providers::fal_catalog::shows_video(value, None, false),
{
    if !mentions_video(value) {
        unmentioned_is_not_shown(value, None);
    }
    if crate::json::field(value, key) == Some(property) && crate::text::occurs(
        crate::text::lower_text(key),
        "video"@,
    ) && crate::json::field(property, "properties"@) == Some(inner) && crate::json::field(
        inner,
        "url"@,
    ) == Some(url) && crate::json::field(url, "type"@) == Some(JsonView::Text("string"@)) {
        let a = crate::json::lookup_position(value->Object_0, key);
        let b = crate::json::lookup_position(property->Object_0, "properties"@);
        let c = crate::json::lookup_position(inner->Object_0, "url"@);
        assert(inner->Object_0[c].0 == "url"@ && inner->Object_0[c].1 == url);
        assert(crate::providers::fal_catalog::shows_video(inner, Some("properties"@), true));
        assert(property->Object_0[b].1 == inner);
        assert(crate::providers::fal_catalog::shows_video(property, Some(key), true));
        assert(value->Object_0[a].1 == property);
    }
}

proof fn extended_lookup(
    members: Seq<(Seq<char>, JsonView)>,
    more: Seq<(Seq<char>, JsonView)>,
    key: Seq<char>,
)
    requires
        crate::json::sorted_keys(members),
        forall|i: int, j: int|
            0 <= i < j < more.len() ==> (#[trigger] more[i]).0 != (#[trigger] more[j]).0,
    ensures
        crate::json::sorted_keys(crate::json::extended(members, more)),
        crate::json::lookup(crate::json::extended(members, more), key) == (
        if crate::json::lookup(more, key) is Some {
            crate::json::lookup(more, key)
        } else {
            crate::json::lookup(members, key)
        }),
    decreases more.len(),
{
    if more.len() > 0 {
        let rest = more.drop_last();
        assert forall|i: int, j: int| 0 <= i < j < rest.len() implies (#[trigger] rest[i]).0 != (
        #[trigger] rest[j]).0 by {
            assert(rest[i] == more[i] && rest[j] == more[j]);
        }
        extended_lookup(members, rest, key);
        let before = crate::json::extended(members, rest);
        crate::json::inserted_sorted(before, more.last().0, more.last().1);
        crate::json::inserted_lookup(before, more.last().0, more.last().1, key);
        let i = crate::json::lookup_position(more, key);
        let j = crate::json::lookup_position(rest, key);
        if crate::json::lookup(rest, key) is Some {
            assert(more[j] == rest[j]);
        }
        if crate::json::lookup(more, key) is Some && i < rest.len() {
            assert(rest[i] == more[i]);
            if j < i {
                assert(more[j].0 != more[i].0);
            }
            if i < j {
                assert(rest[i].0 != rest[j].0);
            }
        }
        assert(more[more.len() - 1] == more.last());
    }
}

/// A schema's own properties are its properties; what its parts under `allOf` declare comes behind
/// them, the later parts before the earlier ones.
pub proof fn own_properties_come_first(
    schema: JsonView,
    own: Seq<(Seq<char>, JsonView)>,
    name: Seq<char>,
)
    requires
        crate::json::field(schema, "properties"@) == Some(JsonView::Object(own)),
        crate::json::sorted_keys(own),
    ensures
        crate::json::lookup(own, name) is Some && crate::json::field(schema, "allOf"@) is None
            ==> declared(schema, name) == crate::json::lookup(own, name),
        crate::json::field(schema, "allOf"@) is None ==> declared(schema, name)
            == crate::json::lookup(own, name),
        crate::json::field(schema, "allOf"@) matches Some(JsonView::Array(parts)) ==> (parts.len()
            == 1 && parts[0] is Object && crate::json::field(parts[0], "allOf"@) is None ==> (
        crate::json::field(parts[0], "properties"@) matches Some(JsonView::Object(inherited)) ==> (
        crate::json::sorted_keys(inherited) ==> declared(schema, name) == (
        if crate::json::lookup(own, name) is Some {
            crate::json::lookup(own, name)
        } else {
            crate::json::lookup(inherited, name)
        })))),
{
    let none = Seq::<(Seq<char>, JsonView)>::empty();
    assert forall|i: int, j: int| 0 <= i < j < own.len() implies (#[trigger] own[i]).0 != (
    #[trigger] own[j]).0 by {
        crate::text::precedes_orders(own[i].0, own[j].0);
    }
    extended_lookup(none, own, name);
    if let Some(JsonView::Array(parts)) = crate::json::field(schema, "allOf"@) {
        if parts.len() == 1 && parts[0] is Object && crate::json::field(parts[0], "allOf"@) is None {
            if let Some(JsonView::Object(inherited)) = crate::json::field(
                parts[0],
                "properties"@,
            ) {
                if crate::json::sorted_keys(inherited) {
                    assert forall|i: int, j: int| 0 <= i < j < inherited.len() implies (
                    #[trigger] inherited[i]).0 != (#[trigger] inherited[j]).0 by {
                        crate::text::precedes_orders(inherited[i].0, inherited[j].0);
                    }
                    extended_lookup(none, inherited, name);
                    let first = crate::json::extended(none, inherited);
                    assert(crate::providers::fal::properties_of(parts[0]) == first);
                    reveal_with_fuel(crate::providers::fal::branch_properties, 2);
                    assert(parts.drop_last().len() == 0);
                    let joined = crate::json::extended(none, first);
                    assert(crate::providers::fal::branch_properties(parts) == joined);
                    assert forall|i: int, j: int| 0 <= i < j < first.len() implies (
                    #[trigger] first[i]).0 != (#[trigger] first[j]).0 by {
                        crate::text::precedes_orders(first[i].0, first[j].0);
                    }
                    extended_lookup(none, first, name);
                    extended_lookup(joined, own, name);
                }
            }
        }
    }
}

/// Of the entries with one identifier that the pages have, the last is kept; an entry without an
/// identifier is not, and entries with other identifiers stay.
pub proof fn last_entries_are_kept(
    found: Seq<(Seq<char>, JsonView)>,
    models: Seq<JsonView>,
    id: Seq<char>,
    at: int,
)
    requires
        crate::json::sorted_keys(found),
        -1 <= at < models.len(),
        forall|i: int|
            at < i < models.len() ==> crate::json::field(#[trigger] models[i], "endpoint_id"@)
                != Some(JsonView::Text(id)),
        at >= 0 ==> crate::json::field(models[at], "endpoint_id"@) == Some(JsonView::Text(id)),
    ensures
        crate::json::sorted_keys(crate::providers::fal_catalog::collected(found, models)),
        crate::json::lookup(crate::providers::fal_catalog::collected(found, models), id) == (if at
            >= 0 {
            Some(models[at])
        } else {
            crate::json::lookup(found, id)
        }),
    decreases models.len(),
{
    if models.len() > 0 {
        let rest = models.drop_last();
        let before = crate::providers::fal_catalog::collected(found, rest);
        collected_sorted(found, rest);
        if at < rest.len() {
            assert forall|i: int| at < i < rest.len() implies crate::json::field(
                #[trigger] rest[i],
                "endpoint_id"@,
            ) != Some(JsonView::Text(id)) by {
                assert(rest[i] == models[i]);
            }
            last_entries_are_kept(found, rest, id, at);
            assert(models[models.len() - 1] == models.last());
        }
        if let Some(other) = crate::json::text_field(models.last(), "endpoint_id"@) {
            crate::json::inserted_sorted(before, other, models.last());
            crate::json::inserted_lookup(before, other, models.last(), id);
        }
    }
}

proof fn collected_sorted(found: Seq<(Seq<char>, JsonView)>, models: Seq<JsonView>)
    requires
        crate::json::sorted_keys(found),
    ensures
        crate::json::sorted_keys(crate::providers::fal_catalog::collected(found, models)),
    decreases models.len(),
{
    if models.len() > 0 {
        collected_sorted(found, models.drop_last());
        if let Some(id) = crate::json::text_field(models.last(), "endpoint_id"@) {
            crate::json::inserted_sorted(
                crate::providers::fal_catalog::collected(found, models.drop_last()),
                id,
                models.last(),
            );
        }
    }
}

/// There is another page if and only if the page says that there is more and where.
pub proof fn pages_follow_where_there_is_more(payload: JsonView)
    ensures
        crate::providers::fal_catalog::following(payload) matches Some(cursor)
            ==> crate::json::field(payload, "next_cursor"@) == Some(JsonView::Text(cursor))
            && crate::json::field(payload, "has_more"@) == Some(JsonView::Bool(true)),
        crate::json::field(payload, "has_more"@) == Some(JsonView::Bool(true)) ==> (
        crate::json::field(payload, "next_cursor"@) matches Some(JsonView::Text(cursor))
            ==> crate::providers::fal_catalog::following(payload) == Some(cursor)),
{
}

/// An entry is found by its identifier: the first that has it, and none only where none does.
pub proof fn entries_are_found_by_identifier(models: Seq<JsonView>, id: Seq<char>, at: int)
    requires
        0 <= at <= models.len(),
        forall|i: int|
            0 <= i < at ==> crate::json::field(#[trigger] models[i], "endpoint_id"@) != Some(
                JsonView::Text(id),
            ),
    ensures
        at == models.len() ==> crate::providers::fal_catalog::entry_of(models, id) is None,
        at < models.len() && crate::json::field(models[at], "endpoint_id"@) == Some(
            JsonView::Text(id),
        ) ==> crate::providers::fal_catalog::entry_of(models, id) == Some(models[at]),
    decreases models.len(),
{
    if at > 0 {
        let rest = models.skip(1);
        assert forall|i: int| 0 <= i < at - 1 implies crate::json::field(
            #[trigger] rest[i],
            "endpoint_id"@,
        ) != Some(JsonView::Text(id)) by {
            assert(rest[i] == models[i + 1]);
        }
        assert(crate::json::field(models[0], "endpoint_id"@) != Some(JsonView::Text(id)));
        entries_are_found_by_identifier(rest, id, at - 1);
    }
}

/// Models are listed by their names, and those of one name by their identifiers.
pub proof fn models_are_ordered_by_name(
    a: JsonView,
    b: JsonView,
    a_name: Seq<char>,
    b_name: Seq<char>,
    a_id: Seq<char>,
    b_id: Seq<char>,
)
    requires
        crate::json::field(a, "name"@) == Some(JsonView::Text(a_name)),
        crate::json::field(b, "name"@) == Some(JsonView::Text(b_name)),
        crate::json::field(a, "id"@) == Some(JsonView::Text(a_id)),
        crate::json::field(b, "id"@) == Some(JsonView::Text(b_id)),
    ensures
        a_name != b_name ==> crate::providers::fal_catalog::model_before(a, b)
            == crate::text::precedes(a_name, b_name),
        a_name == b_name ==> crate::providers::fal_catalog::model_before(a, b)
            == crate::text::precedes(a_id, b_id),
{
    crate::text::precedes_orders(a_name, b_name);
}

} // verus!
