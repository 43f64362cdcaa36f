//! Drafts as rows of the state database: what is written of one, and what is read back.

use crate::domain::ProviderId;
use crate::gui_state::{
    read_draft_settings, read_revision, stored_revision, validate_draft, written_draft_settings,
    DraftEditorState, GuiStateError, SchemaText, StateProblem, StoredDraft, StoredDraftMedia,
    StoredMediaSource,
};
use crate::json::{member, Json, JsonView, Member};
use crate::outside::{read_document, render};
use crate::text::same_text;
use vstd::prelude::*;

verus! {

/// The mathematical value of the editor's text.
pub struct EditorTextView {
    pub seed_text: Seq<char>,
    pub advanced_json_text: Seq<char>,
    pub schema_text: Seq<(Seq<char>, Seq<char>)>,
}

/// The names and texts of schema editor fields.
pub open spec fn schema_texts_view(entries: Seq<SchemaText>) -> Seq<(Seq<char>, Seq<char>)> {
    Seq::new(entries.len(), |i: int| (entries[i].name@, entries[i].value@))
}

impl View for DraftEditorState {
    type V = EditorTextView;

    open spec fn view(&self) -> EditorTextView {
        EditorTextView {
            seed_text: self.seed_text@,
            advanced_json_text: self.advanced_json_text@,
            schema_text: schema_texts_view(self.schema_text@),
        }
    }
}

/// The mathematical value of a kept media item's place.
pub enum SourceView {
    LocalFile(Seq<char>),
    RemoteUrl(Seq<char>),
}

impl View for StoredMediaSource {
    type V = SourceView;

    open spec fn view(&self) -> SourceView {
        match *self {
            StoredMediaSource::LocalFile(path) => SourceView::LocalFile(path@),
            StoredMediaSource::RemoteUrl(url) => SourceView::RemoteUrl(url@),
        }
    }
}

/// The mathematical value of a kept media item.
pub struct ItemView {
    pub id: Seq<char>,
    pub role: Seq<char>,
    pub source: SourceView,
}

impl View for StoredDraftMedia {
    type V = ItemView;

    open spec fn view(&self) -> ItemView {
        ItemView { id: self.id@, role: self.role@, source: self.source@ }
    }
}

/// The values of kept media items.
pub open spec fn items_view(media: Seq<StoredDraftMedia>) -> Seq<ItemView> {
    Seq::new(media.len(), |i: int| media[i]@)
}

/// The mathematical value of a draft.
pub struct DraftView {
    pub revision: u64,
    pub provider_id: Seq<char>,
    pub model_id: Seq<char>,
    pub prompt: Seq<char>,
    pub settings: JsonView,
    pub editor_state: Option<EditorTextView>,
    pub media: Seq<ItemView>,
}

/// The value of the editor's text, where there is one.
pub open spec fn editor_view(editor: Option<DraftEditorState>) -> Option<EditorTextView> {
    match editor {
        Some(state) => Some(state@),
        None => None,
    }
}

impl View for StoredDraft {
    type V = DraftView;

    open spec fn view(&self) -> DraftView {
        DraftView {
            revision: self.revision,
            provider_id: self.provider_id@,
            model_id: self.model_id@,
            prompt: self.prompt@,
            settings: self.settings@,
            editor_state: editor_view(self.editor_state),
            media: items_view(self.media@),
        }
    }
}

/// The part of a record that has this name, or stands at this place in a list of its parts.
pub open spec fn part_of(json: JsonView, name: Seq<char>, place: int) -> Option<JsonView> {
    match json {
        JsonView::Object(members) => crate::json::lookup(members, name),
        JsonView::Array(items) => if place < items.len() {
            Some(items[place])
        } else {
            None
        },
        _ => None,
    }
}

/// Whether a document is a record with so many parts: an object, or a list of no more.
pub open spec fn is_record(json: JsonView, parts: int) -> bool {
    match json {
        JsonView::Object(_) => true,
        JsonView::Array(items) => items.len() <= parts,
        _ => false,
    }
}

fn part<'a>(json: &'a Json, name: &str, place: usize) -> (r: Option<&'a Json>)
    ensures
        match r {
            Some(value) => part_of(json@, name@, place as int) == Some(value@),
            None => part_of(json@, name@, place as int) is None,
        },
{
    broadcast use crate::json::array_view, crate::json::object_view;

    match json {
        Json::Array(items) => if place < items.len() {
            assert(crate::json::items_view(items@)[place as int] == items@[place as int]@);
            Some(&items[place])
        } else {
            None
        },
        _ => json.get(name),
    }
}

fn record(json: &Json, parts: usize) -> (b: bool)
    ensures
        b == is_record(json@, parts as int),
{
    broadcast use crate::json::array_view, crate::json::object_view;

    match json {
        Json::Object(_) => true,
        Json::Array(items) => items.len() <= parts,
        _ => false,
    }
}

/// The text that a part of a record is, if it is one.
pub open spec fn text_part(json: JsonView, name: Seq<char>, place: int) -> Option<Seq<char>> {
    match part_of(json, name, place) {
        Some(JsonView::Text(text)) => Some(text),
        _ => None,
    }
}

fn read_text(json: &Json, name: &str, place: usize) -> (r: Option<String>)
    ensures
        crate::domain::opt_view(r) == text_part(json@, name@, place as int),
{
    match part(json, name, place) {
        Some(Json::Text(text)) => Some(text.clone()),
        _ => None,
    }
}

/// The text that a part of a record is; an absent part is an empty text.
pub open spec fn text_or_empty(json: JsonView, name: Seq<char>, place: int) -> Option<Seq<char>> {
    if part_of(json, name, place) is None {
        Some(Seq::empty())
    } else {
        text_part(json, name, place)
    }
}

fn read_text_or_empty(json: &Json, name: &str, place: usize) -> (r: Option<String>)
    ensures
        crate::domain::opt_view(r) == text_or_empty(json@, name@, place as int),
{
    match part(json, name, place) {
        Some(Json::Text(text)) => Some(text.clone()),
        Some(_) => None,
        None => {
            let empty = String::new();
            assert(empty@ =~= Seq::<char>::empty());
            Some(empty)
        },
    }
}

/// The fields' texts that a part of a record holds; an absent part holds none.
pub open spec fn schema_part(part: Option<JsonView>) -> Option<Seq<(Seq<char>, Seq<char>)>> {
    match part {
        None => Some(Seq::empty()),
        Some(JsonView::Object(members)) => if forall|i: int|
            0 <= i < members.len() ==> (#[trigger] members[i]).1 is Text {
            Some(Seq::new(members.len(), |i: int| (members[i].0, members[i].1->Text_0)))
        } else {
            None
        },
        Some(_) => None,
    }
}

fn read_schema_texts(json: &Json) -> (r: Option<Vec<SchemaText>>)
    ensures
        match r {
            Some(list) => schema_part(part_of(json@, "schema_text"@, 2)) == Some(
                schema_texts_view(list@),
            ),
            None => schema_part(part_of(json@, "schema_text"@, 2)) is None,
        },
{
    broadcast use crate::json::object_view;

    let mut list: Vec<SchemaText> = Vec::new();
    match part(json, "schema_text", 2) {
        None => {
            assert(schema_texts_view(list@) =~= Seq::empty());
            Some(list)
        },
        Some(Json::Object(members)) => {
            let ghost view = crate::json::members_view(members@);
            let mut i: usize = 0;
            while i < members.len()
                invariant
                    i <= members@.len(),
                    view == crate::json::members_view(members@),
                    part_of(json@, "schema_text"@, 2) == Some(JsonView::Object(view)),
                    list@.len() == i,
                    forall|k: int| 0 <= k < i ==> (#[trigger] view[k]).1 is Text,
                    forall|k: int|
                        0 <= k < i ==> (#[trigger] list@[k]).name@ == view[k].0 && list@[k].value@
                            == view[k].1->Text_0,
                decreases members@.len() - i,
            {
                assert(view[i as int] == (members@[i as int].key@, members@[i as int].value@));
                match &members[i].value {
                    Json::Text(text) => {
                        list.push(SchemaText { name: members[i].key.clone(), value: text.clone() });
                    },
                    _ => {
                        assert(!(view[i as int].1 is Text));
                        return None;
                    },
                }
                i = i + 1;
            }
            assert(schema_texts_view(list@) =~= Seq::new(
                view.len(),
                |i: int| (view[i].0, view[i].1->Text_0),
            ));
            Some(list)
        },
        Some(_) => None,
    }
}

/// The editor's text that a document holds, if it is of that form.
pub open spec fn editor_in(json: JsonView) -> Option<EditorTextView> {
    let seed = text_or_empty(json, "seed_text"@, 0);
    let advanced = text_or_empty(json, "advanced_json_text"@, 1);
    let schema = schema_part(part_of(json, "schema_text"@, 2));
    if is_record(json, 3) && seed is Some && advanced is Some && schema is Some {
        Some(
            EditorTextView {
                seed_text: seed->0,
                advanced_json_text: advanced->0,
                schema_text: schema->0,
            },
        )
    } else {
        None
    }
}

/// Reads the editor's text from its document.
pub fn read_editor(json: &Json) -> (r: Option<DraftEditorState>)
    ensures
        editor_view(r) == editor_in(json@),
{
    if !record(json, 3) {
        return None;
    }
    let seed_text = read_text_or_empty(json, "seed_text", 0)?;
    let advanced_json_text = read_text_or_empty(json, "advanced_json_text", 1)?;
    let schema_text = read_schema_texts(json)?;
    Some(DraftEditorState { seed_text, advanced_json_text, schema_text })
}

/// The document of a media item's place.
pub open spec fn source_document(source: SourceView) -> JsonView {
    let (kind, value) = match source {
        SourceView::LocalFile(path) => ("local_file"@, path),
        SourceView::RemoteUrl(url) => ("remote_url"@, url),
    };
    JsonView::Object(
        seq![("type"@, JsonView::Text(kind)), ("value"@, JsonView::Text(value))],
    )
}

/// The document of a media item.
pub open spec fn item_document(item: ItemView) -> JsonView {
    JsonView::Object(
        seq![
            ("id"@, JsonView::Text(item.id)),
            ("role"@, JsonView::Text(item.role)),
            ("source"@, source_document(item.source)),
        ],
    )
}

/// The document of a draft's media.
pub open spec fn media_document(media: Seq<ItemView>) -> JsonView {
    JsonView::Array(Seq::new(media.len(), |i: int| item_document(media[i])))
}

fn source_json(source: &StoredMediaSource) -> (json: Json)
    ensures
        json@ == source_document(source@),
{
    broadcast use crate::json::object_view;

    let (kind, value) = match source {
        StoredMediaSource::LocalFile(path) => ("local_file", path),
        StoredMediaSource::RemoteUrl(url) => ("remote_url", url),
    };
    let mut members: Vec<Member> = Vec::new();
    members.push(member("type", Json::Text(kind.to_owned())));
    members.push(member("value", Json::Text(value.clone())));
    let json = Json::Object(members);
    assert(json@->Object_0 =~= source_document(source@)->Object_0);
    json
}

fn item_json(item: &StoredDraftMedia) -> (json: Json)
    ensures
        json@ == item_document(item@),
{
    broadcast use crate::json::object_view;

    let mut members: Vec<Member> = Vec::new();
    members.push(member("id", Json::Text(item.id.clone())));
    members.push(member("role", Json::Text(item.role.clone())));
    members.push(member("source", source_json(&item.source)));
    let json = Json::Object(members);
    assert(json@->Object_0 =~= item_document(item@)->Object_0);
    json
}

fn media_json(media: &Vec<StoredDraftMedia>) -> (json: Json)
    ensures
        json@ == media_document(items_view(media@)),
{
    broadcast use crate::json::array_view;

    let mut items: Vec<Json> = Vec::new();
    let mut i: usize = 0;
    while i < media.len()
        invariant
            i <= media@.len(),
            items@.len() == i,
            forall|k: int| 0 <= k < i ==> (#[trigger] items@[k])@ == item_document(media@[k]@),
        decreases media@.len() - i,
    {
        items.push(item_json(&media[i]));
        i = i + 1;
    }
    let json = Json::Array(items);
    assert(json@->Array_0 =~= media_document(items_view(media@))->Array_0);
    json
}

/// The place that a document names, if it is of that form.
pub open spec fn source_in(json: JsonView) -> Option<SourceView> {
    if !is_record(json, 2) {
        None
    } else {
        match (text_part(json, "type"@, 0), text_part(json, "value"@, 1)) {
            (Some(kind), Some(value)) => if kind == "local_file"@ {
                Some(SourceView::LocalFile(value))
            } else if kind == "remote_url"@ {
                Some(SourceView::RemoteUrl(value))
            } else {
                None
            },
            _ => None,
        }
    }
}

fn read_source(json: &Json) -> (r: Option<StoredMediaSource>)
    ensures
        match r {
            Some(source) => source_in(json@) == Some(source@),
            None => source_in(json@) is None,
        },
{
    if !record(json, 2) {
        return None;
    }
    let kind = read_text(json, "type", 0)?;
    let value = read_text(json, "value", 1)?;
    if same_text(kind.as_str(), "local_file") {
        Some(StoredMediaSource::LocalFile(value))
    } else if same_text(kind.as_str(), "remote_url") {
        Some(StoredMediaSource::RemoteUrl(value))
    } else {
        None
    }
}

/// The text under which a media item's place is kept. It is read back as that place.
pub fn written_source(source: &StoredMediaSource) -> (text: String)
    ensures
        text@ == crate::outside::rendering_of(source_document(source@)),
        kept_source(text@) == Ok::<SourceView, StateProblem>(source@),
{
    let json = source_json(source);
    proof {
        sources_are_read_back(source@);
        deeper_is_readable(json@, 1, crate::json::MAX_DEPTH as nat);
    }
    render(&json)
}

/// The place that a kept text names.
pub open spec fn kept_source(text: Seq<char>) -> Result<SourceView, StateProblem> {
    match crate::outside::document_of(text) {
        Ok(document) => match source_in(document) {
            Some(source) => Ok(source),
            None => Err(StateProblem::Json("the place of a media item is not of its form"@)),
        },
        Err(message) => Err(StateProblem::Json(message)),
    }
}

/// Reads a media item's place from the text under which it was kept.
pub fn read_kept_source(text: &str) -> (r: Result<StoredMediaSource, GuiStateError>)
    ensures
        match r {
            Ok(source) => kept_source(text@) == Ok::<SourceView, StateProblem>(source@),
            Err(e) => kept_source(text@) == Err::<SourceView, StateProblem>(e@),
        },
{
    match read_document(text) {
        Ok(document) => match read_source(&document) {
            Some(source) => Ok(source),
            None => Err(
                GuiStateError::Json("the place of a media item is not of its form".to_owned()),
            ),
        },
        Err(message) => Err(GuiStateError::Json(message)),
    }
}

/// The place that a part of a record names.
pub open spec fn source_part(part: Option<JsonView>) -> Option<SourceView> {
    match part {
        Some(json) => source_in(json),
        None => None,
    }
}

/// The media item that a document is, if it is of that form.
pub open spec fn item_in(json: JsonView) -> Option<ItemView> {
    if !is_record(json, 3) {
        None
    } else {
        match (
            text_part(json, "id"@, 0),
            text_part(json, "role"@, 1),
            source_part(part_of(json, "source"@, 2)),
        ) {
            (Some(id), Some(role), Some(source)) => Some(ItemView { id, role, source }),
            _ => None,
        }
    }
}

fn read_item(json: &Json) -> (r: Option<StoredDraftMedia>)
    ensures
        match r {
            Some(item) => item_in(json@) == Some(item@),
            None => item_in(json@) is None,
        },
{
    if !record(json, 3) {
        return None;
    }
    let id = read_text(json, "id", 0)?;
    let role = read_text(json, "role", 1)?;
    let place = part(json, "source", 2)?;
    let source = read_source(place)?;
    Some(StoredDraftMedia { id, role, source })
}

/// The media that a document lists, if it is of that form.
pub open spec fn media_in(json: JsonView) -> Option<Seq<ItemView>> {
    match json {
        JsonView::Array(items) => if forall|i: int|
            0 <= i < items.len() ==> item_in(#[trigger] items[i]) is Some {
            Some(Seq::new(items.len(), |i: int| item_in(items[i])->0))
        } else {
            None
        },
        _ => None,
    }
}

/// Reads a draft's media from their document.
pub fn read_media(json: &Json) -> (r: Option<Vec<StoredDraftMedia>>)
    ensures
        match r {
            Some(media) => media_in(json@) == Some(items_view(media@)),
            None => media_in(json@) is None,
        },
{
    broadcast use crate::json::array_view;

    match json {
        Json::Array(items) => {
            let ghost view = crate::json::items_view(items@);
            let mut media: Vec<StoredDraftMedia> = Vec::new();
            let mut i: usize = 0;
            while i < items.len()
                invariant
                    i <= items@.len(),
                    view == crate::json::items_view(items@),
                    json@ == JsonView::Array(view),
                    media@.len() == i,
                    forall|k: int|
                        0 <= k < i ==> item_in(#[trigger] view[k]) == Some(media@[k]@),
                decreases items@.len() - i,
            {
                assert(view[i as int] == items@[i as int]@);
                match read_item(&items[i]) {
                    Some(item) => media.push(item),
                    None => {
                        return None;
                    },
                }
                i = i + 1;
            }
            assert(items_view(media@) =~= Seq::new(view.len(), |i: int| item_in(view[i])->0)) by {
                assert forall|k: int| 0 <= k < view.len() implies item_in(view[k])->0
                    == items_view(media@)[k] by {
                    assert(item_in(view[k]) == Some(media@[k]@));
                }
            }
            Some(media)
        },
        _ => None,
    }
}

/// The media that a kept text lists.
pub open spec fn kept_media(text: Seq<char>) -> Result<Seq<ItemView>, StateProblem> {
    match crate::outside::document_of(text) {
        Ok(document) => match media_in(document) {
            Some(media) => Ok(media),
            None => Err(StateProblem::Json("the media of a draft are not of their form"@)),
        },
        Err(message) => Err(StateProblem::Json(message)),
    }
}

/// Reads a draft's media from the text under which they were kept.
pub fn read_kept_media(text: &str) -> (r: Result<Vec<StoredDraftMedia>, GuiStateError>)
    ensures
        match r {
            Ok(media) => kept_media(text@) == Ok::<Seq<ItemView>, StateProblem>(items_view(media@)),
            Err(e) => kept_media(text@) == Err::<Seq<ItemView>, StateProblem>(e@),
        },
{
    match read_document(text) {
        Ok(document) => match read_media(&document) {
            Some(media) => Ok(media),
            None => Err(
                GuiStateError::Json("the media of a draft are not of their form".to_owned()),
            ),
        },
        Err(message) => Err(GuiStateError::Json(message)),
    }
}

/// A draft as it is kept, but for its provider.
#[derive(Debug)]
pub struct DraftRow {
    pub revision: i64,
    pub model_id: String,
    pub prompt: String,
    pub settings_json: String,
    pub media_json: String,
}

/// The draft that a row holds, or the first complaint about the row.
pub open spec fn draft_in(provider_id: Seq<char>, row: DraftRow) -> Result<DraftView, StateProblem> {
    match crate::gui_state::settings_in(crate::outside::document_of(row.settings_json@)) {
        Err(problem) => Err(problem),
        Ok((settings, editor)) => if editor is Some && editor_in(editor->0) is None {
            Err(StateProblem::Json("the editor's text of a draft is not of its form"@))
        } else if row.revision < 0 {
            Err(StateProblem::InvalidValue("negative draft revision"@))
        } else {
            match kept_media(row.media_json@) {
                Err(problem) => Err(problem),
                Ok(media) => Ok(
                    DraftView {
                        revision: row.revision as u64,
                        provider_id,
                        model_id: row.model_id@,
                        prompt: row.prompt@,
                        settings,
                        editor_state: match editor {
                            Some(document) => editor_in(document),
                            None => None,
                        },
                        media,
                    },
                ),
            }
        },
    }
}

/// Reads a draft from its row.
pub fn read_draft(provider_id: ProviderId, row: DraftRow) -> (r: Result<StoredDraft, GuiStateError>)
    ensures
        match r {
            Ok(draft) => draft_in(provider_id@, row) == Ok::<DraftView, StateProblem>(draft@),
            Err(e) => draft_in(provider_id@, row) == Err::<DraftView, StateProblem>(e@),
        },
{
    let (settings, editor) = read_draft_settings(row.settings_json.as_str())?;
    let editor_state = match &editor {
        Some(document) => match read_editor(document) {
            Some(state) => Some(state),
            None => {
                return Err(
                    GuiStateError::Json(
                        "the editor's text of a draft is not of its form".to_owned(),
                    ),
                );
            },
        },
        None => None,
    };
    let revision = read_revision(row.revision)?;
    let media = read_kept_media(row.media_json.as_str())?;
    Ok(
        StoredDraft {
            revision,
            provider_id,
            model_id: row.model_id,
            prompt: row.prompt,
            settings,
            editor_state,
            media,
        },
    )
}

/// Whether the schema fields are in the order of their names, each name once.
pub open spec fn in_order(entries: Seq<SchemaText>) -> bool {
    forall|i: int, j: int|
        0 <= i < j < entries.len() ==> crate::text::precedes(
            (#[trigger] entries[i]).name@,
            (#[trigger] entries[j]).name@,
        )
}

/// Whether what is kept of a draft can be read back: its settings' numbers are integers, the keys
/// and the schema fields are in order, and the settings are not nested too deeply.
pub open spec fn restorable(draft: StoredDraft) -> bool {
    &&& crate::json::readable(draft.settings@, crate::json::MAX_DEPTH as nat)
    &&& draft.editor_state matches Some(state) ==> in_order(state.schema_text@)
}

proof fn editor_documents_are_read_back(state: DraftEditorState)
    requires
        in_order(state.schema_text@),
    ensures
        editor_in(crate::gui_state::editor_document(state)) == Some(state@),
        crate::json::readable(crate::gui_state::editor_document(state), 2),
{
    let document = crate::gui_state::editor_document(state);
    let members = document->Object_0;
    let fields = members[1].1->Object_0;
    reveal_strlit("advanced_json_text");
    reveal_strlit("schema_text");
    reveal_strlit("seed_text");
    assert("advanced_json_text"@[0] == 'a' && "schema_text"@[0] == 's' && "seed_text"@[0] == 's');
    assert("schema_text"@.skip(1)[0] == 'c' && "seed_text"@.skip(1)[0] == 'e');
    reveal_with_fuel(crate::text::precedes, 3);
    crate::json::lookup_at(members, "advanced_json_text"@, 0);
    crate::json::lookup_at(members, "schema_text"@, 1);
    crate::json::lookup_at(members, "seed_text"@, 2);
    assert(crate::json::sorted_keys(members));
    assert forall|i: int, j: int| 0 <= i < j < fields.len() implies crate::text::precedes(
        (#[trigger] fields[i]).0,
        (#[trigger] fields[j]).0,
    ) by {
        assert(fields[i].0 == state.schema_text@[i].name@);
        assert(fields[j].0 == state.schema_text@[j].name@);
    }
    assert(forall|i: int| 0 <= i < fields.len() ==> (#[trigger] fields[i]).1 is Text);
    assert(Seq::new(fields.len(), |i: int| (fields[i].0, fields[i].1->Text_0))
        =~= schema_texts_view(state.schema_text@));
    reveal_with_fuel(crate::json::readable, 3);
    assert(crate::json::readable(members[1].1, 1));
}

proof fn sources_are_read_back(source: SourceView)
    ensures
        source_in(source_document(source)) == Some(source),
        crate::json::readable(source_document(source), 1),
{
    let place = source_document(source);
    let own = place->Object_0;
    reveal_strlit("type");
    reveal_strlit("value");
    reveal_strlit("local_file");
    reveal_strlit("remote_url");
    assert("type"@[0] == 't' && "value"@[0] == 'v');
    assert("local_file"@[0] == 'l' && "remote_url"@[0] == 'r');
    crate::json::lookup_at(own, "type"@, 0);
    crate::json::lookup_at(own, "value"@, 1);
    assert(crate::json::sorted_keys(own));
    reveal_with_fuel(crate::json::readable, 2);
}

proof fn items_are_read_back(item: ItemView)
    ensures
        item_in(item_document(item)) == Some(item),
        crate::json::readable(item_document(item), 2),
{
    sources_are_read_back(item.source);
    let members = item_document(item)->Object_0;
    reveal_strlit("id");
    reveal_strlit("role");
    reveal_strlit("source");
    assert("id"@[0] == 'i' && "role"@[0] == 'r' && "source"@[0] == 's');
    crate::json::lookup_at(members, "id"@, 0);
    crate::json::lookup_at(members, "role"@, 1);
    crate::json::lookup_at(members, "source"@, 2);
    assert(crate::json::sorted_keys(members));
    reveal_with_fuel(crate::json::readable, 2);
    assert(crate::json::readable(members[2].1, 1));
}

proof fn media_documents_are_read_back(media: Seq<ItemView>)
    ensures
        media_in(media_document(media)) == Some(media),
        crate::json::readable(media_document(media), 3),
{
    let items = media_document(media)->Array_0;
    assert forall|i: int| 0 <= i < items.len() implies item_in(#[trigger] items[i]) == Some(
        media[i],
    ) && crate::json::readable(items[i], 2) by {
        items_are_read_back(media[i]);
    }
    assert(Seq::new(items.len(), |i: int| item_in(items[i])->0) =~= media);
}

proof fn deeper_is_readable(json: JsonView, depth: nat, more: nat)
    requires
        crate::json::readable(json, depth),
        depth <= more,
    ensures
        crate::json::readable(json, more),
    decreases json,
{
    match json {
        JsonView::Array(items) => {
            assert forall|i: int| 0 <= i < items.len() implies crate::json::readable(
                #[trigger] items[i],
                (more - 1) as nat,
            ) by {
                deeper_is_readable(items[i], (depth - 1) as nat, (more - 1) as nat);
            }
        },
        JsonView::Object(members) => {
            assert forall|i: int| 0 <= i < members.len() implies crate::json::readable(
                (#[trigger] members[i]).1,
                (more - 1) as nat,
            ) by {
                assert(decreases_to!(members => members[i]));
                deeper_is_readable(members[i].1, (depth - 1) as nat, (more - 1) as nat);
            }
        },
        _ => {},
    }
}

proof fn encoded_settings_are_readable(draft: StoredDraft)
    requires
        restorable(draft),
    ensures
        crate::json::readable(
            crate::gui_state::encoded_document(draft.settings@, draft.editor_state),
            crate::json::MAX_DEPTH as nat,
        ),
{
    let depth = crate::json::MAX_DEPTH as nat;
    if let JsonView::Object(members) = draft.settings@ {
        if let Some(state) = draft.editor_state {
            let key = crate::gui_state::DRAFT_EDITOR_STATE_KEY@;
            let document = crate::gui_state::editor_document(state);
            editor_documents_are_read_back(state);
            deeper_is_readable(document, 2, (depth - 1) as nat);
            crate::json::inserted_sorted(members, key, document);
            crate::json::inserted_holds(members, key, document);
            let after = crate::json::inserted(members, key, document);
            assert forall|i: int| 0 <= i < after.len() implies crate::json::readable(
                (#[trigger] after[i]).1,
                (depth - 1) as nat,
            ) by {
                if after[i] != (key, document) {
                    let j = members.index_of(after[i]);
                    assert(members[j] == after[i]);
                }
            }
        }
    }
}

/// Whether a row is what is kept of a draft. What can be read back is read back.
pub open spec fn keeps(row: DraftRow, draft: StoredDraft) -> bool {
    &&& row.revision == draft.revision
    &&& row.model_id@ == draft.model_id@
    &&& row.prompt@ == draft.prompt@
    &&& row.settings_json@ == crate::outside::rendering_of(
        crate::gui_state::encoded_document(draft.settings@, draft.editor_state),
    )
    &&& row.media_json@ == crate::outside::rendering_of(media_document(items_view(draft.media@)))
    &&& restorable(draft) ==> draft_in(draft.provider_id@, row) == Ok::<DraftView, StateProblem>(
        draft@,
    )
}

/// The row of a draft. A draft with a credential or an empty name in it is not kept.
pub fn draft_row(draft: &StoredDraft) -> (r: Result<DraftRow, GuiStateError>)
    ensures
        match r {
            Ok(row) => crate::gui_state::draft_problem(*draft) is None && draft.revision
                <= i64::MAX && keeps(row, *draft),
            Err(e) => match crate::gui_state::draft_problem(*draft) {
                Some(problem) => e@ == problem,
                None => draft.revision > i64::MAX && e@ == StateProblem::InvalidValue(
                    "draft revision is too large"@,
                ),
            },
        },
{
    validate_draft(draft)?;
    let settings_json = written_draft_settings(draft)?;
    let media = media_json(&draft.media);
    let media_json = render(&media);
    let revision = stored_revision(draft.revision)?;
    let row = DraftRow {
        revision,
        model_id: draft.model_id.clone(),
        prompt: draft.prompt.clone(),
        settings_json,
        media_json,
    };
    proof {
        let items = items_view(draft.media@);
        media_documents_are_read_back(items);
        deeper_is_readable(media_document(items), 3, crate::json::MAX_DEPTH as nat);
        if restorable(*draft) {
            encoded_settings_are_readable(*draft);
            let members = draft.settings@->Object_0;
            crate::gui_state::draft_settings_round_trip(members, draft.editor_state);
            if draft.editor_state is Some {
                editor_documents_are_read_back(draft.editor_state->0);
            }
        }
    }
    Ok(row)
}

/// Reads a draft from its row and checks it as it was checked before it was kept.
pub fn load_draft(provider_id: ProviderId, row: DraftRow) -> (r: Result<StoredDraft, GuiStateError>)
    ensures
        loaded(provider_id@, row, r),
{
    let draft = read_draft(provider_id, row)?;
    validate_draft(&draft)?;
    Ok(draft)
}

/// Whether a row is read as this draft, or refused with this error.
pub open spec fn loaded(
    provider_id: Seq<char>,
    row: DraftRow,
    r: Result<StoredDraft, GuiStateError>,
) -> bool {
    match (draft_in(provider_id, row), r) {
        (Ok(value), Ok(draft)) => draft@ == value && crate::gui_state::draft_problem(draft) is None,
        (Ok(value), Err(e)) => exists|draft: StoredDraft|
            #[trigger] draft@ == value && crate::gui_state::draft_problem(draft) == Some(e@),
        (Err(problem), Err(e)) => e@ == problem,
        (Err(_), Ok(_)) => false,
    }
}

proof fn equal_fields_equal_problems(a: Seq<SchemaText>, b: Seq<SchemaText>)
    requires
        schema_texts_view(a) == schema_texts_view(b),
    ensures
        crate::gui_state::schema_texts_problem(a) == crate::gui_state::schema_texts_problem(b),
    decreases a.len(),
{
    assert(schema_texts_view(a).len() == a.len() && schema_texts_view(b).len() == b.len());
    if a.len() > 0 {
        assert(schema_texts_view(a.drop_last()) =~= schema_texts_view(a).drop_last());
        assert(schema_texts_view(b.drop_last()) =~= schema_texts_view(b).drop_last());
        equal_fields_equal_problems(a.drop_last(), b.drop_last());
        assert(schema_texts_view(a).last() == (a.last().name@, a.last().value@));
        assert(schema_texts_view(b).last() == (b.last().name@, b.last().value@));
    }
}

/// Whether a draft is refused, and why, depends on its value alone.
pub proof fn equal_drafts_have_equal_problems(a: StoredDraft, b: StoredDraft)
    requires
        a@ == b@,
    ensures
        crate::gui_state::draft_problem(a) == crate::gui_state::draft_problem(b),
{
    if let (Some(x), Some(y)) = (a.editor_state, b.editor_state) {
        assert(x@ == y@);
        equal_fields_equal_problems(x.schema_text@, y.schema_text@);
        assert(x@.schema_text.len() == x.schema_text@.len());
        assert(y@.schema_text.len() == y.schema_text@.len());
    }
    assert(a@.media.len() == a.media@.len() && b@.media.len() == b.media@.len());
    assert forall|i: int| 0 <= i < a.media@.len() implies crate::gui_state::nameless(
        #[trigger] a.media@[i],
    ) == crate::gui_state::nameless(b.media@[i]) by {
        assert(a@.media[i] == a.media@[i]@ && b@.media[i] == b.media@[i]@);
    }
    if exists|i: int|
        0 <= i < b.media@.len() && crate::gui_state::nameless(#[trigger] b.media@[i]) {
        let i = choose|i: int|
            0 <= i < b.media@.len() && crate::gui_state::nameless(#[trigger] b.media@[i]);
        assert(crate::gui_state::nameless(a.media@[i]));
    }
}

/// A draft that was kept comes back as it was: revision, provider, model, prompt, settings, the
/// editor's text, and the media in their order.
pub proof fn kept_drafts_come_back(
    draft: StoredDraft,
    row: DraftRow,
    r: Result<StoredDraft, GuiStateError>,
)
    requires
        crate::gui_state::draft_problem(draft) is None,
        restorable(draft),
        keeps(row, draft),
        loaded(draft.provider_id@, row, r),
    ensures
        r matches Ok(back) && back@ == draft@,
{
    if let Err(e) = r {
        let other = choose|other: StoredDraft|
            #[trigger] other@ == draft@ && crate::gui_state::draft_problem(other) == Some(e@);
        equal_drafts_have_equal_problems(draft, other);
    }
}

} // verus!
