//! What holds of the input that is built for a fal.ai model.

use crate::domain::{FieldMapping, FrameImage, FrameType, VideoModel, VideoRequest};
use crate::json::JsonView;
use crate::providers::fal::Partial;
use vstd::prelude::*;

verus! {

/// Whether a field map gives `field`, and it alone, to `control`, and to no other control.
pub open spec fn carries(map: Seq<FieldMapping>, control: Seq<char>, field: Seq<char>) -> bool {
    &&& exists|i: int|
        0 <= i < map.len() && (#[trigger] map[i]).canonical@ == control && map[i].field@ == field
    &&& forall|i: int|
        0 <= i < map.len() ==> ((#[trigger] map[i]).canonical@ == control <==> map[i].field@
            == field)
}

/// Whether a field map has nothing for `control`.
pub open spec fn lacks(map: Seq<FieldMapping>, control: Seq<char>) -> bool {
    forall|i: int| 0 <= i < map.len() ==> (#[trigger] map[i]).canonical@ != control
}

/// Whether a request's own options are sound: sorted by key, and none under a field that the model
/// has for a control.
pub open spec fn sound_options(request: VideoRequest, model: VideoModel) -> bool {
    request.adapter_options matches Some(options) ==> match options@ {
        JsonView::Object(members) => crate::json::sorted_keys(members) && forall|k: int, i: int|
            0 <= k < members.len() && 0 <= i < model.field_map@.len() ==> (#[trigger] members[k]).0
                != (#[trigger] model.field_map@[i]).field@,
        _ => true,
    }
}

proof fn control_names_differ()
    ensures
        "prompt"@.len() == 6,
        "duration"@.len() == 8,
        "resolution"@.len() == 10 && "resolution"@[0] == 'r' && "resolution"@[2] == 's',
        "aspect_ratio"@.len() == 12,
        "size"@.len() == 4 && "size"@[1] == 'i',
        "seed"@.len() == 4 && "seed"@[1] == 'e',
        "generate_audio"@.len() == 14,
        "first_frame"@.len() == 11,
        "last_frame"@.len() == 10 && "last_frame"@[0] == 'l',
        "references"@.len() == 10 && "references"@[0] == 'r' && "references"@[2] == 'f',
{
    reveal_strlit("prompt");
    reveal_strlit("duration");
    reveal_strlit("resolution");
    reveal_strlit("aspect_ratio");
    reveal_strlit("size");
    reveal_strlit("seed");
    reveal_strlit("generate_audio");
    reveal_strlit("first_frame");
    reveal_strlit("last_frame");
    reveal_strlit("references");
}

proof fn carried_is_mapped(map: Seq<FieldMapping>, control: Seq<char>, field: Seq<char>)
    requires
        carries(map, control, field),
    ensures
        crate::providers::fal::mapped(crate::providers::fal::map_view(map), control) == Some(field),
        forall|other: Seq<char>|
            other != control ==> #[trigger] crate::providers::fal::mapped(
                crate::providers::fal::map_view(map),
                other,
            ) != Some(field),
    decreases map.len(),
{
    let view = crate::providers::fal::map_view(map);
    if map.len() > 0 {
        let rest = map.skip(1);
        assert(crate::providers::fal::map_view(rest) =~= view.skip(1));
        assert(view[0] == (map[0].canonical@, map[0].field@));
        let i = choose|i: int|
            0 <= i < map.len() && (#[trigger] map[i]).canonical@ == control && map[i].field@
                == field;
        if map[0].canonical@ != control {
            assert(rest[i - 1] == map[i]);
            assert forall|k: int| 0 <= k < rest.len() implies ((#[trigger] rest[k]).canonical@
                == control <==> rest[k].field@ == field) by {
                assert(rest[k] == map[k + 1]);
            }
            carried_is_mapped(rest, control, field);
        }
        assert forall|other: Seq<char>| other != control implies #[trigger] crate::providers::fal::mapped(
            view,
            other,
        ) != Some(field) by {
            others_are_elsewhere(map, control, field, other);
        }
    }
}

proof fn others_are_elsewhere(
    map: Seq<FieldMapping>,
    control: Seq<char>,
    field: Seq<char>,
    other: Seq<char>,
)
    requires
        forall|i: int|
            0 <= i < map.len() ==> ((#[trigger] map[i]).canonical@ == control <==> map[i].field@
                == field),
        other != control,
    ensures
        crate::providers::fal::mapped(crate::providers::fal::map_view(map), other) != Some(field),
    decreases map.len(),
{
    let view = crate::providers::fal::map_view(map);
    if map.len() > 0 {
        let rest = map.skip(1);
        assert(crate::providers::fal::map_view(rest) =~= view.skip(1));
        assert(view[0] == (map[0].canonical@, map[0].field@));
        assert forall|k: int| 0 <= k < rest.len() implies ((#[trigger] rest[k]).canonical@
            == control <==> rest[k].field@ == field) by {
            assert(rest[k] == map[k + 1]);
        }
        others_are_elsewhere(rest, control, field, other);
    }
}

proof fn lacking_is_unmapped(map: Seq<FieldMapping>, control: Seq<char>)
    ensures
        lacks(map, control) <==> crate::providers::fal::mapped(
            crate::providers::fal::map_view(map),
            control,
        ) is None,
    decreases map.len(),
{
    let view = crate::providers::fal::map_view(map);
    if map.len() > 0 {
        let rest = map.skip(1);
        assert(crate::providers::fal::map_view(rest) =~= view.skip(1));
        assert(view[0] == (map[0].canonical@, map[0].field@));
        lacking_is_unmapped(rest, control);
        if map[0].canonical@ != control && lacks(rest, control) {
            assert forall|i: int| 0 <= i < map.len() implies (#[trigger] map[i]).canonical@
                != control by {
                if i > 0 {
                    assert(rest[i - 1] == map[i]);
                }
            }
        }
        if lacks(map, control) {
            assert forall|i: int| 0 <= i < rest.len() implies (#[trigger] rest[i]).canonical@
                != control by {
                assert(rest[i] == map[i + 1]);
            }
        }
    }
}

/// What one control does to the value under a field.
proof fn control_step(
    input: Partial,
    map: Seq<FieldMapping>,
    control: Seq<char>,
    value: Option<JsonView>,
    own: Seq<char>,
    field: Seq<char>,
)
    requires
        carries(map, own, field),
        crate::providers::fal::with_control(
            input,
            crate::providers::fal::map_view(map),
            control,
            value,
        ) is Ok,
        input is Ok ==> crate::json::sorted_keys(input->Ok_0),
    ensures
        input is Ok,
        ({
            let after = crate::providers::fal::with_control(
                input,
                crate::providers::fal::map_view(map),
                control,
                value,
            )->Ok_0;
            &&& crate::json::sorted_keys(after)
            &&& crate::json::lookup(after, field) == (if control == own && value is Some {
                value
            } else {
                crate::json::lookup(input->Ok_0, field)
            })
        }),
{
    carried_is_mapped(map, own, field);
    let view = crate::providers::fal::map_view(map);
    if let (Ok(members), Some(v)) = (input, value) {
        let name = crate::providers::fal::mapped(view, control)->0;
        crate::json::inserted_sorted(members, name, v);
        crate::json::inserted_lookup(members, name, v, field);
    }
}

/// Whether a frame image is the one of its kind that counts: none of its kind comes after it.
pub open spec fn counts(frames: Seq<FrameImage>, i: int) -> bool {
    &&& 0 <= i < frames.len()
    &&& forall|j: int|
        i < j < frames.len() ==> (#[trigger] frames[j]).frame_type != frames[i].frame_type
}

proof fn frames_step(
    input: Partial,
    map: Seq<FieldMapping>,
    frames: Seq<FrameImage>,
    own: Seq<char>,
    field: Seq<char>,
)
    requires
        carries(map, own, field),
        crate::providers::fal::with_frames(input, crate::providers::fal::map_view(map), frames) is Ok,
        input is Ok ==> crate::json::sorted_keys(input->Ok_0),
    ensures
        input is Ok,
        ({
            let after = crate::providers::fal::with_frames(
                input,
                crate::providers::fal::map_view(map),
                frames,
            )->Ok_0;
            let found = crate::json::lookup(after, field);
            &&& crate::json::sorted_keys(after)
            &&& own == "first_frame"@ ==> forall|i: int|
                #[trigger] counts(frames, i) && frames[i].frame_type == FrameType::FirstFrame
                    ==> found == Some(JsonView::Text(frames[i].url@))
            &&& own == "last_frame"@ ==> forall|i: int|
                #[trigger] counts(frames, i) && frames[i].frame_type == FrameType::LastFrame
                    ==> found == Some(JsonView::Text(frames[i].url@))
            &&& own == "first_frame"@ && (forall|i: int|
                0 <= i < frames.len() ==> (#[trigger] frames[i]).frame_type
                    != FrameType::FirstFrame) ==> found == crate::json::lookup(
                input->Ok_0,
                field,
            )
            &&& own == "last_frame"@ && (forall|i: int|
                0 <= i < frames.len() ==> (#[trigger] frames[i]).frame_type
                    != FrameType::LastFrame) ==> found == crate::json::lookup(input->Ok_0, field)
            &&& own != "first_frame"@ && own != "last_frame"@ ==> found == crate::json::lookup(
                input->Ok_0,
                field,
            )
        }),
    decreases frames.len(),
{
    control_names_differ();
    let view = crate::providers::fal::map_view(map);
    if frames.len() > 0 {
        let rest = frames.drop_last();
        let before = crate::providers::fal::with_frames(input, view, rest);
        let control = crate::providers::fal::frame_control(frames.last().frame_type);
        let value = Some(JsonView::Text(frames.last().url@));
        assert(before is Ok);
        frames_step(input, map, rest, own, field);
        control_step(before, map, control, value, own, field);
        assert forall|i: int| #[trigger] counts(frames, i) && i < frames.len() - 1 implies counts(
            rest,
            i,
        ) && frames[i].frame_type != frames.last().frame_type by {
            assert(frames[frames.len() - 1].frame_type != frames[i].frame_type);
            assert forall|j: int| i < j < rest.len() implies (#[trigger] rest[j]).frame_type
                != rest[i].frame_type by {
                assert(frames[j].frame_type != frames[i].frame_type);
            }
        }
        assert forall|i: int| 0 <= i < rest.len() implies #[trigger] rest[i] == frames[i] by {}
        assert(frames.last() == frames[frames.len() - 1]);
    }
}

proof fn options_are_untouched(
    members: Seq<(Seq<char>, JsonView)>,
    map: Seq<FieldMapping>,
    field: Seq<char>,
)
    requires
        crate::providers::fal::overridden(members, crate::providers::fal::map_view(map)) is None,
        exists|i: int| 0 <= i < map.len() && (#[trigger] map[i]).field@ == field,
    ensures
        crate::json::lookup(members, field) is None,
    decreases members.len(),
{
    let view = crate::providers::fal::map_view(map);
    if members.len() > 0 {
        let i = choose|i: int| 0 <= i < map.len() && (#[trigger] map[i]).field@ == field;
        assert(view[i].1 == field);
        options_are_untouched(members.skip(1), map, field);
    }
}

/// What stands under the field of a control in the input that is built.
proof fn built_value(request: VideoRequest, model: VideoModel, own: Seq<char>, field: Seq<char>)
    requires
        crate::providers::fal::assembled(request, model) is Ok,
        carries(model.field_map@, own, field),
        crate::json::sorted_keys(crate::providers::fal::option_members(request.adapter_options)),
    ensures
        ({
            let found = crate::json::lookup(
                crate::providers::fal::assembled(request, model)->Ok_0,
                field,
            );
            let frames = request.frame_images@;
            &&& crate::json::sorted_keys(crate::providers::fal::assembled(request, model)->Ok_0)
            &&& own == "prompt"@ ==> found == Some(
                JsonView::Text(crate::text::trimmed(request.prompt@)),
            )
            &&& own == "duration"@ ==> found == (match request.duration {
                Some(seconds) => Some(crate::providers::fal::duration_value(model, seconds)),
                None => None,
            })
            &&& own == "resolution"@ ==> found == crate::providers::fal::opt_json_text(
                request.resolution,
            )
            &&& own == "aspect_ratio"@ ==> found == crate::providers::fal::opt_json_text(
                request.aspect_ratio,
            )
            &&& own == "size"@ ==> found == crate::providers::fal::opt_json_text(request.size)
            &&& own == "generate_audio"@ ==> found == (match request.generate_audio {
                Some(on) => Some(JsonView::Bool(on)),
                None => None,
            })
            &&& own == "seed"@ ==> found == (match request.seed {
                Some(seed) => Some(JsonView::Number(crate::outside::number_of(seed))),
                None => None,
            })
            &&& own == "first_frame"@ ==> forall|i: int|
                #[trigger] counts(frames, i) && frames[i].frame_type == FrameType::FirstFrame
                    ==> found == Some(JsonView::Text(frames[i].url@))
            &&& own == "last_frame"@ ==> forall|i: int|
                #[trigger] counts(frames, i) && frames[i].frame_type == FrameType::LastFrame
                    ==> found == Some(JsonView::Text(frames[i].url@))
            &&& own == "first_frame"@ && (forall|i: int|
                0 <= i < frames.len() ==> (#[trigger] frames[i]).frame_type
                    != FrameType::FirstFrame) ==> found is None
            &&& own == "last_frame"@ && (forall|i: int|
                0 <= i < frames.len() ==> (#[trigger] frames[i]).frame_type
                    != FrameType::LastFrame) ==> found is None
            &&& own == "references"@ ==> found == (if request.input_references@.len() > 0 {
                Some(crate::providers::fal::reference_urls(request.input_references@))
            } else {
                None
            })
        }),
{
    control_names_differ();
    let m = model.field_map@;
    let map = crate::providers::fal::map_view(m);
    let options = crate::providers::fal::option_members(request.adapter_options);
    carried_is_mapped(m, own, field);
    options_are_untouched(options, m, field);
    let start = match crate::providers::fal::mapped(map, "prompt"@) {
        Some(name) => crate::json::inserted(
            options,
            name,
            JsonView::Text(crate::text::trimmed(request.prompt@)),
        ),
        None => options,
    };
    if let Some(name) = crate::providers::fal::mapped(map, "prompt"@) {
        let prompt = JsonView::Text(crate::text::trimmed(request.prompt@));
        crate::json::inserted_sorted(options, name, prompt);
        crate::json::inserted_lookup(options, name, prompt, field);
    }
    let duration = match request.duration {
        Some(seconds) => Some(crate::providers::fal::duration_value(model, seconds)),
        None => None,
    };
    let timed = crate::providers::fal::with_control(Ok(start), map, "duration"@, duration);
    let resolution = crate::providers::fal::opt_json_text(request.resolution);
    let sharp = crate::providers::fal::with_control(timed, map, "resolution"@, resolution);
    let aspect = crate::providers::fal::opt_json_text(request.aspect_ratio);
    let framed = crate::providers::fal::with_control(sharp, map, "aspect_ratio"@, aspect);
    let size = crate::providers::fal::opt_json_text(request.size);
    let shaped = crate::providers::fal::with_control(framed, map, "size"@, size);
    let audio = match request.generate_audio {
        Some(on) => Some(JsonView::Bool(on)),
        None => None,
    };
    let sounded = crate::providers::fal::with_control(shaped, map, "generate_audio"@, audio);
    let seed = match request.seed {
        Some(seed) => Some(JsonView::Number(crate::outside::number_of(seed))),
        None => None,
    };
    let seeded = crate::providers::fal::with_control(sounded, map, "seed"@, seed);
    let shown = crate::providers::fal::with_frames(seeded, map, request.frame_images@);
    let urls = if request.input_references@.len() > 0 {
        Some(crate::providers::fal::reference_urls(request.input_references@))
    } else {
        None
    };
    assert(crate::providers::fal::assembled(request, model)
        == crate::providers::fal::with_control(shown, map, "references"@, urls));
    assert(shown is Ok);
    if seeded is Err {
        crate::providers::fal::frames_keep_error(seeded, map, request.frame_images@);
    }
    control_step(Ok(start), m, "duration"@, duration, own, field);
    control_step(timed, m, "resolution"@, resolution, own, field);
    control_step(sharp, m, "aspect_ratio"@, aspect, own, field);
    control_step(framed, m, "size"@, size, own, field);
    control_step(shaped, m, "generate_audio"@, audio, own, field);
    control_step(sounded, m, "seed"@, seed, own, field);
    frames_step(seeded, m, request.frame_images@, own, field);
    control_step(shown, m, "references"@, urls, own, field);
}

/// What a request asks for goes, exactly, to the field that the model has for it, and nothing goes
/// to the field of a control that the request leaves alone.
pub proof fn requested_controls_reach_their_fields(
    request: VideoRequest,
    model: VideoModel,
    problem: Option<Seq<char>>,
    input: JsonView,
)
    requires
        crate::providers::fal::input_or_complaint(request, model, problem) == Ok::<
            JsonView,
            Seq<char>,
        >(input),
        sound_options(request, model),
    ensures
        forall|field: Seq<char>|
            #[trigger] carries(model.field_map@, "prompt"@, field) ==> crate::json::field(
                input,
                field,
            ) == Some(JsonView::Text(crate::text::trimmed(request.prompt@))),
        forall|field: Seq<char>|
            #[trigger] carries(model.field_map@, "resolution"@, field) ==> (request.resolution matches Some(text) ==> crate::json::field(input, field) == Some(
                JsonView::Text(text@),
            )),
        forall|field: Seq<char>|
            #[trigger] carries(model.field_map@, "resolution"@, field) && request.resolution is None
                ==> crate::json::field(input, field) is None,
        forall|field: Seq<char>|
            #[trigger] carries(model.field_map@, "aspect_ratio"@, field) ==> (request.aspect_ratio matches Some(text) ==> crate::json::field(input, field) == Some(
                JsonView::Text(text@),
            )),
        forall|field: Seq<char>|
            #[trigger] carries(model.field_map@, "aspect_ratio"@, field) && request.aspect_ratio is None
                ==> crate::json::field(input, field) is None,
        forall|field: Seq<char>|
            #[trigger] carries(model.field_map@, "size"@, field) ==> (request.size matches Some(text) ==> crate::json::field(input, field) == Some(
                JsonView::Text(text@),
            )),
        forall|field: Seq<char>|
            #[trigger] carries(model.field_map@, "size"@, field) && request.size is None
                ==> crate::json::field(input, field) is None,
        forall|field: Seq<char>|
            #[trigger] carries(model.field_map@, "generate_audio"@, field) ==> (request.generate_audio matches Some(on) ==> crate::json::field(input, field) == Some(
                JsonView::Bool(on),
            )),
        forall|field: Seq<char>|
            #[trigger] carries(model.field_map@, "generate_audio"@, field) && request.generate_audio is None
                ==> crate::json::field(input, field) is None,
        forall|field: Seq<char>|
            #[trigger] carries(model.field_map@, "seed"@, field) ==> (request.seed matches Some(
                seed,
            ) ==> crate::json::field(input, field) == Some(
                JsonView::Number(crate::outside::number_of(seed)),
            )),
        forall|field: Seq<char>|
            #[trigger] carries(model.field_map@, "seed"@, field) && request.seed is None
                ==> crate::json::field(input, field) is None,
        forall|field: Seq<char>|
            #[trigger] carries(model.field_map@, "duration"@, field) ==> (
            request.duration matches Some(seconds) ==> (crate::json::field(input, field) == Some(
                JsonView::Text(crate::text::numeral(seconds as nat)),
            ) || crate::json::field(input, field) == Some(
                JsonView::Number(crate::outside::number_of(seconds as i64)),
            ))),
        forall|field: Seq<char>|
            #[trigger] carries(model.field_map@, "duration"@, field) && request.duration is None
                ==> crate::json::field(input, field) is None,
        input is Object,
{
    let options = crate::providers::fal::option_members(request.adapter_options);
    assert(crate::json::sorted_keys(options));
    let names = seq![
        "prompt"@,
        "resolution"@,
        "aspect_ratio"@,
        "size"@,
        "generate_audio"@,
        "seed"@,
        "duration"@,
    ];
    assert forall|k: int, field: Seq<char>|
        0 <= k < names.len() && #[trigger] carries(model.field_map@, names[k], field) implies ({
        let found = crate::json::field(input, field);
        &&& k == 0 ==> found == Some(JsonView::Text(crate::text::trimmed(request.prompt@)))
        &&& k == 1 ==> found == crate::providers::fal::opt_json_text(request.resolution)
        &&& k == 2 ==> found == crate::providers::fal::opt_json_text(request.aspect_ratio)
        &&& k == 3 ==> found == crate::providers::fal::opt_json_text(request.size)
        &&& k == 4 ==> found == (match request.generate_audio {
            Some(on) => Some(JsonView::Bool(on)),
            None => None,
        })
        &&& k == 5 ==> found == (match request.seed {
            Some(seed) => Some(JsonView::Number(crate::outside::number_of(seed))),
            None => None,
        })
        &&& k == 6 ==> found == (match request.duration {
            Some(seconds) => Some(crate::providers::fal::duration_value(model, seconds)),
            None => None,
        })
    }) by {
        built_value(request, model, names[k], field);
    }
    assert(names[0] == "prompt"@ && names[1] == "resolution"@ && names[2] == "aspect_ratio"@
        && names[3] == "size"@ && names[4] == "generate_audio"@ && names[5] == "seed"@ && names[6]
        == "duration"@);
}

/// Frame images go to the fields that the model has for them: the last one given of each kind to
/// the field of its own kind, the first frame to the start of the video and the last to its end.
/// Reference media go to the field for references, all of them and in their order.
pub proof fn media_reach_their_fields(
    request: VideoRequest,
    model: VideoModel,
    problem: Option<Seq<char>>,
    input: JsonView,
)
    requires
        crate::providers::fal::input_or_complaint(request, model, problem) == Ok::<
            JsonView,
            Seq<char>,
        >(input),
        sound_options(request, model),
    ensures
        forall|field: Seq<char>, i: int|
            #[trigger] carries(model.field_map@, "first_frame"@, field) && #[trigger] counts(
                request.frame_images@,
                i,
            ) && request.frame_images@[i].frame_type == FrameType::FirstFrame ==> crate::json::field(
                input,
                field,
            ) == Some(JsonView::Text(request.frame_images@[i].url@)),
        forall|field: Seq<char>, i: int|
            #[trigger] carries(model.field_map@, "last_frame"@, field) && #[trigger] counts(
                request.frame_images@,
                i,
            ) && request.frame_images@[i].frame_type == FrameType::LastFrame ==> crate::json::field(
                input,
                field,
            ) == Some(JsonView::Text(request.frame_images@[i].url@)),
        forall|field: Seq<char>|
            #[trigger] carries(model.field_map@, "first_frame"@, field) && (forall|i: int|
                0 <= i < request.frame_images@.len() ==> (
                #[trigger] request.frame_images@[i]).frame_type != FrameType::FirstFrame)
                ==> crate::json::field(input, field) is None,
        forall|field: Seq<char>|
            #[trigger] carries(model.field_map@, "last_frame"@, field) && (forall|i: int|
                0 <= i < request.frame_images@.len() ==> (
                #[trigger] request.frame_images@[i]).frame_type != FrameType::LastFrame)
                ==> crate::json::field(input, field) is None,
        forall|field: Seq<char>|
            #[trigger] carries(model.field_map@, "references"@, field)
                && request.input_references@.len() > 0 ==> (crate::json::field(
                input,
                field,
            ) matches Some(JsonView::Array(urls)) && urls.len() == request.input_references@.len()
                && forall|i: int|
                0 <= i < urls.len() ==> #[trigger] urls[i] == JsonView::Text(
                    request.input_references@[i].url@,
                )),
        forall|field: Seq<char>|
            #[trigger] carries(model.field_map@, "references"@, field)
                && request.input_references@.len() == 0 ==> crate::json::field(
                input,
                field,
            ) is None,
{
    let options = crate::providers::fal::option_members(request.adapter_options);
    assert(crate::json::sorted_keys(options));
    assert forall|field: Seq<char>|
        #[trigger] carries(model.field_map@, "first_frame"@, field) implies ((forall|i: int|
        #[trigger] counts(request.frame_images@, i) && request.frame_images@[i].frame_type
            == FrameType::FirstFrame ==> crate::json::field(input, field) == Some(
            JsonView::Text(request.frame_images@[i].url@),
        )) && ((forall|i: int|
        0 <= i < request.frame_images@.len() ==> (#[trigger] request.frame_images@[i]).frame_type
            != FrameType::FirstFrame) ==> crate::json::field(input, field) is None)) by {
        built_value(request, model, "first_frame"@, field);
    }
    assert forall|field: Seq<char>|
        #[trigger] carries(model.field_map@, "last_frame"@, field) implies ((forall|i: int|
        #[trigger] counts(request.frame_images@, i) && request.frame_images@[i].frame_type
            == FrameType::LastFrame ==> crate::json::field(input, field) == Some(
            JsonView::Text(request.frame_images@[i].url@),
        )) && ((forall|i: int|
        0 <= i < request.frame_images@.len() ==> (#[trigger] request.frame_images@[i]).frame_type
            != FrameType::LastFrame) ==> crate::json::field(input, field) is None)) by {
        built_value(request, model, "last_frame"@, field);
    }
    assert forall|field: Seq<char>|
        #[trigger] carries(model.field_map@, "references"@, field) implies crate::json::field(
        input,
        field,
    ) == (if request.input_references@.len() > 0 {
        Some(crate::providers::fal::reference_urls(request.input_references@))
    } else {
        None
    }) by {
        built_value(request, model, "references"@, field);
    }
}

/// Whether no control of a field map has this field.
pub open spec fn free(map: Seq<FieldMapping>, field: Seq<char>) -> bool {
    forall|i: int| 0 <= i < map.len() ==> (#[trigger] map[i]).field@ != field
}

proof fn free_is_unmapped(map: Seq<FieldMapping>, field: Seq<char>, control: Seq<char>)
    requires
        free(map, field),
    ensures
        crate::providers::fal::mapped(crate::providers::fal::map_view(map), control) != Some(field),
    decreases map.len(),
{
    let view = crate::providers::fal::map_view(map);
    if map.len() > 0 {
        let rest = map.skip(1);
        assert(crate::providers::fal::map_view(rest) =~= view.skip(1));
        assert(view[0] == (map[0].canonical@, map[0].field@));
        assert forall|k: int| 0 <= k < rest.len() implies (#[trigger] rest[k]).field@ != field by {
            assert(rest[k] == map[k + 1]);
        }
        free_is_unmapped(rest, field, control);
    }
}

proof fn free_step(
    input: Partial,
    map: Seq<FieldMapping>,
    control: Seq<char>,
    value: Option<JsonView>,
    field: Seq<char>,
)
    requires
        free(map, field),
        crate::providers::fal::with_control(
            input,
            crate::providers::fal::map_view(map),
            control,
            value,
        ) is Ok,
        input is Ok ==> crate::json::sorted_keys(input->Ok_0),
    ensures
        input is Ok,
        ({
            let after = crate::providers::fal::with_control(
                input,
                crate::providers::fal::map_view(map),
                control,
                value,
            )->Ok_0;
            &&& crate::json::sorted_keys(after)
            &&& crate::json::lookup(after, field) == crate::json::lookup(input->Ok_0, field)
        }),
{
    free_is_unmapped(map, field, control);
    let view = crate::providers::fal::map_view(map);
    if let (Ok(members), Some(v)) = (input, value) {
        let name = crate::providers::fal::mapped(view, control)->0;
        crate::json::inserted_sorted(members, name, v);
        crate::json::inserted_lookup(members, name, v, field);
    }
}

proof fn free_frames(
    input: Partial,
    map: Seq<FieldMapping>,
    frames: Seq<FrameImage>,
    field: Seq<char>,
)
    requires
        free(map, field),
        crate::providers::fal::with_frames(input, crate::providers::fal::map_view(map), frames) is Ok,
        input is Ok ==> crate::json::sorted_keys(input->Ok_0),
    ensures
        input is Ok,
        ({
            let after = crate::providers::fal::with_frames(
                input,
                crate::providers::fal::map_view(map),
                frames,
            )->Ok_0;
            &&& crate::json::sorted_keys(after)
            &&& crate::json::lookup(after, field) == crate::json::lookup(input->Ok_0, field)
        }),
    decreases frames.len(),
{
    let view = crate::providers::fal::map_view(map);
    if frames.len() > 0 {
        let before = crate::providers::fal::with_frames(input, view, frames.drop_last());
        assert(before is Ok);
        free_frames(input, map, frames.drop_last(), field);
        free_step(
            before,
            map,
            crate::providers::fal::frame_control(frames.last().frame_type),
            Some(JsonView::Text(frames.last().url@)),
            field,
        );
    }
}

/// Beside the fields of its controls the input holds a request's own options, unchanged, and
/// nothing else.
pub proof fn options_are_sent_unchanged(
    request: VideoRequest,
    model: VideoModel,
    problem: Option<Seq<char>>,
    input: JsonView,
    field: Seq<char>,
)
    requires
        crate::providers::fal::input_or_complaint(request, model, problem) == Ok::<
            JsonView,
            Seq<char>,
        >(input),
        sound_options(request, model),
        free(model.field_map@, field),
    ensures
        crate::json::field(input, field) == (match request.adapter_options {
            Some(options) => crate::json::field(options@, field),
            None => None,
        }),
{
    let m = model.field_map@;
    let map = crate::providers::fal::map_view(model.field_map@);
    let options = crate::providers::fal::option_members(request.adapter_options);
    let start = match crate::providers::fal::mapped(map, "prompt"@) {
        Some(name) => crate::json::inserted(
            options,
            name,
            JsonView::Text(crate::text::trimmed(request.prompt@)),
        ),
        None => options,
    };
    let duration = match request.duration {
        Some(seconds) => Some(crate::providers::fal::duration_value(model, seconds)),
        None => None,
    };
    let timed = crate::providers::fal::with_control(Ok(start), map, "duration"@, duration);
    let resolution = crate::providers::fal::opt_json_text(request.resolution);
    let sharp = crate::providers::fal::with_control(timed, map, "resolution"@, resolution);
    let aspect = crate::providers::fal::opt_json_text(request.aspect_ratio);
    let framed = crate::providers::fal::with_control(sharp, map, "aspect_ratio"@, aspect);
    let size = crate::providers::fal::opt_json_text(request.size);
    let shaped = crate::providers::fal::with_control(framed, map, "size"@, size);
    let audio = match request.generate_audio {
        Some(on) => Some(JsonView::Bool(on)),
        None => None,
    };
    let sounded = crate::providers::fal::with_control(shaped, map, "generate_audio"@, audio);
    let seed = match request.seed {
        Some(seed) => Some(JsonView::Number(crate::outside::number_of(seed))),
        None => None,
    };
    let seeded = crate::providers::fal::with_control(sounded, map, "seed"@, seed);
    let shown = crate::providers::fal::with_frames(seeded, map, request.frame_images@);
    let urls = if request.input_references@.len() > 0 {
        Some(crate::providers::fal::reference_urls(request.input_references@))
    } else {
        None
    };
    assert(crate::json::sorted_keys(options));
    free_is_unmapped(m, field, "prompt"@);
    if let Some(name) = crate::providers::fal::mapped(map, "prompt"@) {
        let prompt = JsonView::Text(crate::text::trimmed(request.prompt@));
        crate::json::inserted_sorted(options, name, prompt);
        crate::json::inserted_lookup(options, name, prompt, field);
    }
    assert(crate::providers::fal::assembled(request, model)
        == crate::providers::fal::with_control(shown, map, "references"@, urls));
    assert(shown is Ok);
    if seeded is Err {
        crate::providers::fal::frames_keep_error(seeded, map, request.frame_images@);
    }
    free_step(Ok(start), m, "duration"@, duration, field);
    free_step(timed, m, "resolution"@, resolution, field);
    free_step(sharp, m, "aspect_ratio"@, aspect, field);
    free_step(framed, m, "size"@, size, field);
    free_step(shaped, m, "generate_audio"@, audio, field);
    free_step(sounded, m, "seed"@, seed, field);
    free_frames(seeded, m, request.frame_images@, field);
    free_step(shown, m, "references"@, urls, field);
}

/// Whether a model has everything that a request asks for.
pub open spec fn has_all(map: Seq<FieldMapping>, request: VideoRequest) -> bool {
    &&& request.duration is Some ==> !lacks(map, "duration"@)
    &&& request.resolution is Some ==> !lacks(map, "resolution"@)
    &&& request.aspect_ratio is Some ==> !lacks(map, "aspect_ratio"@)
    &&& request.size is Some ==> !lacks(map, "size"@)
    &&& request.generate_audio is Some ==> !lacks(map, "generate_audio"@)
    &&& request.seed is Some ==> !lacks(map, "seed"@)
    &&& request.input_references@.len() > 0 ==> !lacks(map, "references"@)
    &&& forall|i: int|
        0 <= i < request.frame_images@.len() ==> match (
        #[trigger] request.frame_images@[i]).frame_type {
            FrameType::FirstFrame => !lacks(map, "first_frame"@),
            FrameType::LastFrame => !lacks(map, "last_frame"@),
        }
}

proof fn frames_need_controls(input: Partial, map: Seq<FieldMapping>, frames: Seq<FrameImage>)
    requires
        input is Ok,
    ensures
        crate::providers::fal::with_frames(
            input,
            crate::providers::fal::map_view(map),
            frames,
        ) is Ok <==> forall|i: int|
            0 <= i < frames.len() ==> match (#[trigger] frames[i]).frame_type {
                FrameType::FirstFrame => !lacks(map, "first_frame"@),
                FrameType::LastFrame => !lacks(map, "last_frame"@),
            },
    decreases frames.len(),
{
    let view = crate::providers::fal::map_view(map);
    lacking_is_unmapped(map, "first_frame"@);
    lacking_is_unmapped(map, "last_frame"@);
    if frames.len() > 0 {
        let rest = frames.drop_last();
        frames_need_controls(input, map, rest);
        let all = forall|i: int|
            0 <= i < frames.len() ==> match (#[trigger] frames[i]).frame_type {
                FrameType::FirstFrame => !lacks(map, "first_frame"@),
                FrameType::LastFrame => !lacks(map, "last_frame"@),
            };
        if all {
            assert forall|i: int| 0 <= i < rest.len() implies match (
            #[trigger] rest[i]).frame_type {
                FrameType::FirstFrame => !lacks(map, "first_frame"@),
                FrameType::LastFrame => !lacks(map, "last_frame"@),
            } by {
                assert(frames[i] == rest[i]);
            }
            assert(frames[frames.len() - 1] == frames.last());
        }
        if crate::providers::fal::with_frames(input, view, frames) is Ok {
            assert forall|i: int| 0 <= i < frames.len() implies match (
            #[trigger] frames[i]).frame_type {
                FrameType::FirstFrame => !lacks(map, "first_frame"@),
                FrameType::LastFrame => !lacks(map, "last_frame"@),
            } by {
                if i < rest.len() {
                    assert(frames[i] == rest[i]);
                }
            }
        }
    }
}

proof fn sound_options_override_nothing(
    members: Seq<(Seq<char>, JsonView)>,
    map: Seq<FieldMapping>,
)
    ensures
        crate::providers::fal::overridden(members, crate::providers::fal::map_view(map)) is None
            <==> forall|k: int, i: int|
            0 <= k < members.len() && 0 <= i < map.len() ==> (#[trigger] members[k]).0 != (
            #[trigger] map[i]).field@,
    decreases members.len(),
{
    let view = crate::providers::fal::map_view(map);
    if members.len() > 0 {
        let rest = members.skip(1);
        sound_options_override_nothing(rest, map);
        let none = forall|k: int, i: int|
            0 <= k < members.len() && 0 <= i < map.len() ==> (#[trigger] members[k]).0 != (
            #[trigger] map[i]).field@;
        if none {
            assert forall|i: int| 0 <= i < view.len() implies (#[trigger] view[i]).1
                != members[0].0 by {
                assert(members[0].0 != map[i].field@);
            }
            assert forall|k: int, i: int| 0 <= k < rest.len() && 0 <= i < map.len() implies (
            #[trigger] rest[k]).0 != (#[trigger] map[i]).field@ by {
                assert(members[k + 1].0 != map[i].field@);
            }
        }
        if crate::providers::fal::overridden(members, view) is None {
            assert forall|k: int, i: int| 0 <= k < members.len() && 0 <= i < map.len() implies (
            #[trigger] members[k]).0 != (#[trigger] map[i]).field@ by {
                if k == 0 {
                    assert(view[i].1 == map[i].field@);
                } else {
                    assert(rest[k - 1] == members[k]);
                }
            }
        }
    }
}

/// Input is built for exactly those requests that are sound in themselves, that belong to fal.ai
/// like their model, that ask for nothing that the model lacks, and whose options keep clear of the
/// fields of the controls; where the model has a schema, the input must conform to it besides.
pub proof fn input_is_built_where_it_can_be(
    request: VideoRequest,
    model: VideoModel,
    problem: Option<Seq<char>>,
)
    requires
        request.adapter_options matches Some(options) ==> (options@ matches JsonView::Object(
            members,
        ) ==> crate::json::sorted_keys(members)),
    ensures
        crate::providers::fal::input_or_complaint(request, model, problem) is Ok
            ==> request.provider_id@ == "fal"@ && model.provider_id@ == "fal"@ && problem is None
            && sound_options(request, model) && has_all(model.field_map@, request),
        model.input_schema is None && request.provider_id@ == "fal"@ && model.provider_id@
            == "fal"@ && problem is None && sound_options(request, model) && has_all(
            model.field_map@,
            request,
        ) ==> crate::providers::fal::input_or_complaint(request, model, problem) is Ok,
        problem is Some && request.provider_id@ == "fal"@ && model.provider_id@ == "fal"@
            ==> crate::providers::fal::input_or_complaint(request, model, problem) == Err::<
            JsonView,
            Seq<char>,
        >(problem->0),
{
    let m = model.field_map@;
    let map = crate::providers::fal::map_view(model.field_map@);
    let options = crate::providers::fal::option_members(request.adapter_options);
    let start = match crate::providers::fal::mapped(map, "prompt"@) {
        Some(name) => crate::json::inserted(
            options,
            name,
            JsonView::Text(crate::text::trimmed(request.prompt@)),
        ),
        None => options,
    };
    let duration = match request.duration {
        Some(seconds) => Some(crate::providers::fal::duration_value(model, seconds)),
        None => None,
    };
    let timed = crate::providers::fal::with_control(Ok(start), map, "duration"@, duration);
    let resolution = crate::providers::fal::opt_json_text(request.resolution);
    let sharp = crate::providers::fal::with_control(timed, map, "resolution"@, resolution);
    let aspect = crate::providers::fal::opt_json_text(request.aspect_ratio);
    let framed = crate::providers::fal::with_control(sharp, map, "aspect_ratio"@, aspect);
    let size = crate::providers::fal::opt_json_text(request.size);
    let shaped = crate::providers::fal::with_control(framed, map, "size"@, size);
    let audio = match request.generate_audio {
        Some(on) => Some(JsonView::Bool(on)),
        None => None,
    };
    let sounded = crate::providers::fal::with_control(shaped, map, "generate_audio"@, audio);
    let seed = match request.seed {
        Some(seed) => Some(JsonView::Number(crate::outside::number_of(seed))),
        None => None,
    };
    let seeded = crate::providers::fal::with_control(sounded, map, "seed"@, seed);
    let shown = crate::providers::fal::with_frames(seeded, map, request.frame_images@);
    let urls = if request.input_references@.len() > 0 {
        Some(crate::providers::fal::reference_urls(request.input_references@))
    } else {
        None
    };
    sound_options_override_nothing(options, m);
    lacking_is_unmapped(m, "duration"@);
    lacking_is_unmapped(m, "resolution"@);
    lacking_is_unmapped(m, "aspect_ratio"@);
    lacking_is_unmapped(m, "size"@);
    lacking_is_unmapped(m, "generate_audio"@);
    lacking_is_unmapped(m, "seed"@);
    lacking_is_unmapped(m, "references"@);
    if crate::providers::fal::overridden(options, map) is None {
        assert(crate::providers::fal::assembled(request, model)
            == crate::providers::fal::with_control(shown, map, "references"@, urls));
        if seeded is Err {
            crate::providers::fal::frames_keep_error(seeded, map, request.frame_images@);
        } else {
            frames_need_controls(seeded, m, request.frame_images@);
        }
    }
}

/// A duration is sent as a text where the model's schema takes it as one, and as a number
/// elsewhere.
pub proof fn durations_are_sent_in_the_form_taken(
    model: VideoModel,
    seconds: u32,
    schema: JsonView,
    field: Seq<char>,
    property: JsonView,
)
    requires
        carries(model.field_map@, "duration"@, field),
        model.input_schema matches Some(own) && own@ == schema,
        crate::json::lookup(crate::providers::fal::properties_of(schema), field) == Some(property),
    ensures
        crate::json::field(property, "type"@) == Some(JsonView::Text("string"@))
            ==> crate::providers::fal::duration_value(model, seconds) == JsonView::Text(
            crate::text::numeral(seconds as nat),
        ),
        (crate::json::field(property, "enum"@) matches Some(JsonView::Array(items))
            && items.contains(JsonView::Text(crate::text::numeral(seconds as nat))))
            ==> crate::providers::fal::duration_value(model, seconds) == JsonView::Text(
            crate::text::numeral(seconds as nat),
        ),
        crate::json::field(property, "type"@) == Some(JsonView::Text("integer"@))
            && crate::json::field(property, "enum"@) is None && crate::json::field(
            property,
            "allOf"@,
        ) is None ==> crate::providers::fal::duration_value(model, seconds) == JsonView::Number(
            crate::outside::number_of(seconds as i64),
        ),
{
    carried_is_mapped(model.field_map@, "duration"@, field);
    reveal_strlit("string");
    reveal_strlit("integer");
    assert("string"@.len() == 6 && "integer"@.len() == 7);
    let text = crate::text::numeral(seconds as nat);
    if let Some(JsonView::Array(items)) = crate::json::field(property, "enum"@) {
        if items.contains(JsonView::Text(text)) {
            let i = items.index_of(JsonView::Text(text));
            assert(items[i] == JsonView::Text(text));
        }
    }
}

} // verus!
