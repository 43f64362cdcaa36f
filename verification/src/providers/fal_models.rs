//! Models of the fal.ai catalog, read from the documents to which its entries are normalized.

use crate::domain::{FieldMapping, ProviderId, VideoModel};
use crate::json::{copy_json, Json, JsonView, Member};
use vstd::prelude::*;

verus! {

/// The text of a member; an empty one where there is none.
pub open spec fn text_or_empty(json: JsonView, key: Seq<char>) -> Seq<char> {
    match crate::json::text_field(json, key) {
        Some(text) => text,
        None => Seq::empty(),
    }
}

fn read_text(json: &Json, key: &str) -> (s: String)
    ensures
        s@ == text_or_empty(json@, key@),
{
    match json.get_str(key) {
        Some(text) => text.to_owned(),
        None => {
            let empty = String::new();
            assert(empty@ =~= Seq::<char>::empty());
            empty
        },
    }
}

/// The truth value of a member, where it has one.
pub open spec fn flag_of(json: JsonView, key: Seq<char>) -> Option<bool> {
    match crate::json::field(json, key) {
        Some(JsonView::Bool(value)) => Some(value),
        _ => None,
    }
}

fn read_flag(json: &Json, key: &str) -> (r: Option<bool>)
    ensures
        r == flag_of(json@, key@),
{
    match json.get(key) {
        Some(Json::Bool(value)) => Some(*value),
        _ => None,
    }
}

/// The texts among some documents.
pub open spec fn texts_among(items: Seq<JsonView>) -> Seq<Seq<char>>
    decreases items.len(),
{
    if items.len() == 0 {
        Seq::empty()
    } else {
        let before = texts_among(items.drop_last());
        match items.last() {
            JsonView::Text(text) => before.push(text),
            _ => before,
        }
    }
}

/// The texts that a member lists.
pub open spec fn texts_of(json: JsonView, key: Seq<char>) -> Seq<Seq<char>> {
    match crate::json::array_field(json, key) {
        Some(items) => texts_among(items),
        None => Seq::empty(),
    }
}

fn read_texts(json: &Json, key: &str) -> (list: Vec<String>)
    ensures
        crate::text::texts(list@) == texts_of(json@, key@),
{
    let mut list: Vec<String> = Vec::new();
    assert(crate::text::texts(list@) =~= Seq::empty());
    if let Some(items) = json.get_array(key) {
        let ghost view = crate::json::items_view(items@);
        let mut i: usize = 0;
        assert(view.take(0) =~= Seq::empty());
        while i < items.len()
            invariant
                i <= items@.len(),
                view == crate::json::items_view(items@),
                crate::text::texts(list@) == texts_among(view.take(i as int)),
            decreases items@.len() - i,
        {
            let ghost before = crate::text::texts(list@);
            assert(view.take(i + 1).drop_last() =~= view.take(i as int));
            assert(view.take(i + 1).last() == items@[i as int]@);
            if let Json::Text(text) = &items[i] {
                list.push(text.clone());
                assert(crate::text::texts(list@) =~= before.push(text@));
            }
            i = i + 1;
        }
        assert(view.take(view.len() as int) =~= view);
    }
    list
}

/// The natural numbers of 32 bits among some documents.
pub open spec fn numbers_among(items: Seq<JsonView>) -> Seq<u32>
    decreases items.len(),
{
    if items.len() == 0 {
        Seq::empty()
    } else {
        let before = numbers_among(items.drop_last());
        match items.last() {
            JsonView::Number(n) => match n.unsigned {
                Some(value) if value <= u32::MAX => before.push(value as u32),
                _ => before,
            },
            _ => before,
        }
    }
}

/// The natural numbers of 32 bits that a member lists.
pub open spec fn numbers_of(json: JsonView, key: Seq<char>) -> Seq<u32> {
    match crate::json::array_field(json, key) {
        Some(items) => numbers_among(items),
        None => Seq::empty(),
    }
}

fn read_numbers(json: &Json, key: &str) -> (list: Vec<u32>)
    ensures
        list@ == numbers_of(json@, key@),
{
    let mut list: Vec<u32> = Vec::new();
    if let Some(items) = json.get_array(key) {
        let ghost view = crate::json::items_view(items@);
        let mut i: usize = 0;
        assert(view.take(0) =~= Seq::empty());
        while i < items.len()
            invariant
                i <= items@.len(),
                view == crate::json::items_view(items@),
                list@ == numbers_among(view.take(i as int)),
            decreases items@.len() - i,
        {
            assert(view.take(i + 1).drop_last() =~= view.take(i as int));
            assert(view.take(i + 1).last() == items@[i as int]@);
            if let Some(value) = items[i].as_u64() {
                if value <= u32::MAX as u64 {
                    list.push(value as u32);
                }
            }
            i = i + 1;
        }
        assert(view.take(view.len() as int) =~= view);
    }
    list
}

/// The members with a text among some members.
pub open spec fn pairs_among(members: Seq<(Seq<char>, JsonView)>) -> Seq<(Seq<char>, Seq<char>)>
    decreases members.len(),
{
    if members.len() == 0 {
        Seq::empty()
    } else {
        let before = pairs_among(members.drop_last());
        match members.last().1 {
            JsonView::Text(text) => before.push((members.last().0, text)),
            _ => before,
        }
    }
}

/// The names of controls and fields in a map of them.
pub open spec fn mappings_view(list: Seq<FieldMapping>) -> Seq<(Seq<char>, Seq<char>)> {
    Seq::new(list.len(), |i: int| (list[i].canonical@, list[i].field@))
}

/// The names of controls and fields that a member maps.
pub open spec fn pairs_of(json: JsonView, key: Seq<char>) -> Seq<(Seq<char>, Seq<char>)> {
    match crate::json::object_field(json, key) {
        Some(members) => pairs_among(members),
        None => Seq::empty(),
    }
}

fn read_pairs(members: &Vec<Member>) -> (list: Vec<FieldMapping>)
    ensures
        mappings_view(list@) == pairs_among(crate::json::members_view(members@)),
{
    let mut list: Vec<FieldMapping> = Vec::new();
    let ghost view = crate::json::members_view(members@);
    let mut i: usize = 0;
    assert(view.take(0) =~= Seq::empty());
    assert(mappings_view(list@) =~= Seq::empty());
    while i < members.len()
        invariant
            i <= members@.len(),
            view == crate::json::members_view(members@),
            mappings_view(list@) == pairs_among(view.take(i as int)),
        decreases members@.len() - i,
    {
        let ghost before = mappings_view(list@);
        assert(view.take(i + 1).drop_last() =~= view.take(i as int));
        assert(view.take(i + 1).last() == (members@[i as int].key@, members@[i as int].value@));
        if let Json::Text(field) = &members[i].value {
            list.push(FieldMapping { canonical: members[i].key.clone(), field: field.clone() });
            assert(mappings_view(list@) =~= before.push((members@[i as int].key@, field@)));
        }
        i = i + 1;
    }
    assert(view.take(view.len() as int) =~= view);
    list
}

/// Reads a model from its normalized document. fal.ai does not list what a model's media fields
/// take or what it costs; both are found out later.
pub fn read_model(json: &Json) -> (model: VideoModel)
    ensures
        model.provider_id@ == crate::domain::FAL_PROVIDER_ID@,
        model.id@ == text_or_empty(json@, "id"@),
        model.name@ == text_or_empty(json@, "name"@),
        model.description@ == text_or_empty(json@, "description"@),
        model.supported_durations@ == numbers_of(json@, "supported_durations"@),
        crate::text::texts(model.supported_resolutions@) == texts_of(
            json@,
            "supported_resolutions"@,
        ),
        crate::text::texts(model.supported_aspect_ratios@) == texts_of(
            json@,
            "supported_aspect_ratios"@,
        ),
        crate::text::texts(model.supported_sizes@) == texts_of(json@, "supported_sizes"@),
        crate::text::texts(model.supported_frame_images@) == texts_of(
            json@,
            "supported_frame_images"@,
        ),
        model.generate_audio == flag_of(json@, "generate_audio"@),
        model.generated_audio_supported == (flag_of(json@, "generate_audio"@) == Some(true)),
        model.generated_audio_default is None,
        model.seed == flag_of(json@, "seed"@),
        model.input_modalities is None,
        model.media_bindings@.len() == 0,
        crate::json::json_option(model.input_schema) == crate::json::field(
            json@,
            "input_schema"@,
        ),
        mappings_view(model.field_map@) == pairs_of(json@, "field_map"@),
        model.pricing_skus@.len() == 0,
{
    let audio = read_flag(json, "generate_audio");
    let field_map = match json.get_object("field_map") {
        Some(members) => read_pairs(members),
        None => Vec::new(),
    };
    assert(crate::json::object_field(json@, "field_map"@) is None ==> mappings_view(field_map@)
        =~= Seq::empty());
    VideoModel {
        provider_id: ProviderId::fal(),
        id: read_text(json, "id"),
        name: read_text(json, "name"),
        description: read_text(json, "description"),
        supported_durations: read_numbers(json, "supported_durations"),
        supported_resolutions: read_texts(json, "supported_resolutions"),
        supported_aspect_ratios: read_texts(json, "supported_aspect_ratios"),
        supported_sizes: read_texts(json, "supported_sizes"),
        supported_frame_images: read_texts(json, "supported_frame_images"),
        generate_audio: audio,
        generated_audio_supported: match audio {
            Some(supported) => supported,
            None => false,
        },
        generated_audio_default: None,
        seed: read_flag(json, "seed"),
        input_modalities: None,
        media_bindings: Vec::new(),
        input_schema: match json.get("input_schema") {
            Some(schema) => Some(copy_json(schema)),
            None => None,
        },
        field_map,
        pricing_skus: Vec::new(),
    }
}

} // verus!
