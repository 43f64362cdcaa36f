//! Putting saved values back into the composer's controls.

use crate::domain::{copy_text, DraftMedia, GenerationDraft};
use crate::gui::composer::{ComposerFields, NamedControl, SchemaControl};
use crate::gui::media_list::index_for_provider;
use crate::gui::model_controls::{duration_place, find_choice, text_place};
use crate::gui_state::{DraftEditorState, SchemaText};
use crate::json::{copy_json, json_eq, Json, JsonView};
use crate::outside::render;
use crate::text::same_text;
use vstd::prelude::*;

verus! {

/// What is done to a control.
pub enum ControlUpdate {
    Select { name: String, place: usize },
    Write { name: String, text: String },
}

/// The mathematical value of an update.
pub enum UpdateView {
    Select { name: Seq<char>, place: int },
    Write { name: Seq<char>, text: Seq<char> },
}

impl View for ControlUpdate {
    type V = UpdateView;

    open spec fn view(&self) -> UpdateView {
        match *self {
            ControlUpdate::Select { name, place } => UpdateView::Select {
                name: name@,
                place: place as int,
            },
            ControlUpdate::Write { name, text } => UpdateView::Write { name: name@, text: text@ },
        }
    }
}

/// The values of a list of updates.
pub open spec fn updates_view(updates: Seq<ControlUpdate>) -> Seq<UpdateView> {
    Seq::new(updates.len(), |i: int| updates[i]@)
}

/// The text that an editor state holds for a field.
pub open spec fn kept_text(entries: Seq<SchemaText>, name: Seq<char>) -> Option<Seq<char>>
    decreases entries.len(),
{
    if entries.len() == 0 {
        None
    } else if entries[0].name@ == name {
        Some(entries[0].value@)
    } else {
        kept_text(entries.skip(1), name)
    }
}

fn find_kept_text<'a>(entries: &'a Vec<SchemaText>, name: &str) -> (r: Option<&'a str>)
    ensures
        crate::gui::composer_state::opt_str(r) == kept_text(entries@, name@),
{
    let mut i: usize = 0;
    assert(entries@.skip(0) =~= entries@);
    while i < entries.len()
        invariant
            i <= entries@.len(),
            kept_text(entries@, name@) == kept_text(entries@.skip(i as int), name@),
        decreases entries@.len() - i,
    {
        proof {
            assert(entries@.skip(i as int)[0] == entries@[i as int]);
            assert(entries@.skip(i as int).skip(1) =~= entries@.skip(i as int + 1));
        }
        if same_text(entries[i].name.as_str(), name) {
            return Some(entries[i].value.as_str());
        }
        i = i + 1;
    }
    assert(entries@.skip(i as int) =~= Seq::empty());
    None
}

/// What a saved value and the exact text that was typed do to a control. The text that was typed
/// comes before the value that it stood for; a list keeps its place where the value is not on it.
pub open spec fn update_says(
    named: NamedControl,
    value: Option<JsonView>,
    typed: Option<Seq<char>>,
) -> Option<UpdateView> {
    match named.control {
        SchemaControl::Choice { values, .. } => match value {
            Some(json) => match crate::gui::model_controls::choice_place(
                crate::gui::composer::choices_view(values@),
                json,
            ) {
                Some(place) => Some(UpdateView::Select { name: named.name@, place }),
                None => None,
            },
            None => None,
        },
        SchemaControl::Text { .. } => match typed {
            Some(text) => Some(UpdateView::Write { name: named.name@, text }),
            None => match value {
                Some(json) => Some(
                    UpdateView::Write {
                        name: named.name@,
                        text: crate::gui::model_controls::plain(json),
                    },
                ),
                None => None,
            },
        },
        SchemaControl::Integer { .. } | SchemaControl::Number { .. } => match typed {
            Some(text) => Some(UpdateView::Write { name: named.name@, text }),
            None => match value {
                Some(json) => Some(
                    UpdateView::Write {
                        name: named.name@,
                        text: crate::outside::rendering_of(json),
                    },
                ),
                None => None,
            },
        },
    }
}

/// What the saved values and texts do to a list of controls.
pub open spec fn updates_say(
    controls: Seq<NamedControl>,
    saved: Option<JsonView>,
    entries: Seq<SchemaText>,
) -> Seq<UpdateView>
    decreases controls.len(),
{
    if controls.len() == 0 {
        Seq::empty()
    } else {
        let rest = updates_say(controls.drop_last(), saved, entries);
        let last = controls.last();
        let value = match saved {
            Some(json) => crate::json::field(json, last.name@),
            None => None,
        };
        match update_says(last, value, kept_text(entries, last.name@)) {
            Some(update) => rest.push(update),
            None => rest,
        }
    }
}

fn write(name: &str, text: &str) -> (update: ControlUpdate)
    ensures
        update@ == (UpdateView::Write { name: name@, text: text@ }),
{
    ControlUpdate::Write { name: name.to_owned(), text: text.to_owned() }
}

fn update_control(named: &NamedControl, value: Option<&Json>, typed: Option<&str>) -> (r: Option<
    ControlUpdate,
>)
    ensures
        match r {
            Some(update) => update_says(
                *named,
                match value {
                    Some(json) => Some(json@),
                    None => None,
                },
                crate::gui::composer_state::opt_str(typed),
            ) == Some(update@),
            None => update_says(
                *named,
                match value {
                    Some(json) => Some(json@),
                    None => None,
                },
                crate::gui::composer_state::opt_str(typed),
            ) is None,
        },
{
    let name = named.name.as_str();
    match &named.control {
        SchemaControl::Choice { values, .. } => match value {
            Some(json) => match find_choice(values, json) {
                Some(place) => Some(ControlUpdate::Select { name: name.to_owned(), place }),
                None => None,
            },
            None => None,
        },
        SchemaControl::Text { .. } => match typed {
            Some(text) => Some(write(name, text)),
            None => match value {
                Some(json) => match json.as_str() {
                    Some(text) => Some(write(name, text)),
                    None => {
                        let text = render(json);
                        Some(write(name, text.as_str()))
                    },
                },
                None => None,
            },
        },
        SchemaControl::Integer { .. } | SchemaControl::Number { .. } => match typed {
            Some(text) => Some(write(name, text)),
            None => match value {
                Some(json) => {
                    let text = render(json);
                    Some(write(name, text.as_str()))
                },
                None => None,
            },
        },
    }
}

/// What the saved values and texts do to a list of controls.
pub fn update_controls(
    controls: &Vec<NamedControl>,
    saved: &Option<Json>,
    entries: &Vec<SchemaText>,
) -> (updates: Vec<ControlUpdate>)
    ensures
        updates_view(updates@) == updates_say(
            controls@,
            crate::gui::composer::optional_view(*saved),
            entries@,
        ),
{
    let ghost saved_view = crate::gui::composer::optional_view(*saved);
    let mut updates: Vec<ControlUpdate> = Vec::new();
    let mut i: usize = 0;
    assert(updates_view(updates@) =~= Seq::empty());
    while i < controls.len()
        invariant
            i <= controls@.len(),
            saved_view == crate::gui::composer::optional_view(*saved),
            updates_view(updates@) == updates_say(controls@.take(i as int), saved_view, entries@),
        decreases controls@.len() - i,
    {
        proof {
            assert(controls@.take(i as int + 1).drop_last() =~= controls@.take(i as int));
        }
        let name = controls[i].name.as_str();
        let value = match saved {
            Some(json) => json.get(name),
            None => None,
        };
        let typed = find_kept_text(entries, name);
        if let Some(update) = update_control(&controls[i], value, typed) {
            let ghost before = updates_view(updates@);
            updates.push(update);
            assert(updates_view(updates@) =~= before.push(update@));
        }
        i = i + 1;
    }
    assert(controls@.take(i as int) =~= controls@);
    updates
}

/// What the composer shows for a saved draft.
pub struct DraftRestore {
    pub provider: u32,
    /// The place of the model, where the catalog lists it.
    pub model: Option<usize>,
    pub prompt: String,
    pub duration: usize,
    pub resolution: usize,
    pub aspect: usize,
    pub size: usize,
    pub audio: bool,
    pub seed: String,
    pub advanced: String,
    pub updates: Vec<ControlUpdate>,
    pub media: Vec<DraftMedia>,
}

/// Whether a list of identifiers holds one.
pub open spec fn lists(ids: Seq<String>, id: Seq<char>) -> bool {
    crate::text::texts(ids).contains(id)
}

fn find_id(ids: &Vec<String>, id: &str) -> (r: Option<usize>)
    ensures
        match r {
            Some(i) => i < ids@.len() && ids@[i as int]@ == id@ && forall|k: int|
                0 <= k < i ==> (#[trigger] ids@[k])@ != id@,
            None => !lists(ids@, id@),
        },
{
    let mut i: usize = 0;
    while i < ids.len()
        invariant
            i <= ids@.len(),
            forall|k: int| 0 <= k < i ==> (#[trigger] ids@[k])@ != id@,
        decreases ids@.len() - i,
    {
        if same_text(ids[i].as_str(), id) {
            return Some(i);
        }
        i = i + 1;
    }
    proof {
        if lists(ids@, id@) {
            let views = crate::text::texts(ids@);
            let k = choose|k: int| 0 <= k < views.len() && views[k] == id@;
            assert(ids@[k]@ == id@);
        }
    }
    None
}

/// Works out what the composer shows for a saved draft and its exact editor text, given what the
/// controls offer for the draft's provider and model.
pub fn apply_draft(fields: &ComposerFields, draft: GenerationDraft, editor: DraftEditorState) -> (
restore: DraftRestore)
    ensures
        restore.provider == crate::gui::media_list::place_of_provider(draft.provider_id@),
        match restore.model {
            Some(i) => i < fields.model_ids@.len() && fields.model_ids@[i as int]@ == draft.model@
                && forall|k: int| 0 <= k < i ==> (#[trigger] fields.model_ids@[k])@ != draft.model@,
            None => !lists(fields.model_ids@, draft.model@),
        },
        restore.prompt == draft.prompt,
        restore.duration == crate::gui::model_controls::place_in(
            fields.durations@,
            draft.duration,
        ),
        restore.resolution == crate::gui::model_controls::place_in(
            crate::gui::composer::optional_texts(fields.resolutions@),
            crate::domain::opt_view(draft.resolution),
        ),
        restore.aspect == crate::gui::model_controls::place_in(
            crate::gui::composer::optional_texts(fields.aspects@),
            crate::domain::opt_view(draft.aspect_ratio),
        ),
        restore.size == crate::gui::model_controls::place_in(
            crate::gui::composer::optional_texts(fields.sizes@),
            crate::domain::opt_view(draft.size),
        ),
        restore.audio == (fields.audio_available && draft.generate_audio == Some(true)),
        restore.seed == editor.seed_text,
        restore.advanced == editor.advanced_json_text,
        updates_view(restore.updates@) == updates_say(
            fields.controls@,
            crate::gui::composer::optional_view(draft.adapter_options),
            editor.schema_text@,
        ),
        restore.media == draft.media,
{
    let provider = index_for_provider(&draft.provider_id);
    let model = find_id(&fields.model_ids, draft.model.as_str());
    let updates = update_controls(
        &fields.controls,
        &draft.adapter_options,
        &editor.schema_text,
    );
    let wants_audio = match draft.generate_audio {
        Some(audio) => audio,
        None => false,
    };
    DraftRestore {
        provider,
        model,
        prompt: draft.prompt,
        duration: duration_place(&fields.durations, draft.duration),
        resolution: text_place(&fields.resolutions, &draft.resolution),
        aspect: text_place(&fields.aspects, &draft.aspect_ratio),
        size: text_place(&fields.sizes, &draft.size),
        audio: fields.audio_available && wants_audio,
        seed: editor.seed_text,
        advanced: editor.advanced_json_text,
        updates,
        media: draft.media,
    }
}

/// A control's value while the catalog is read anew.
pub enum SchemaUiValue {
    Choice(Option<Json>),
    Text(String),
}

/// A control's value under its name.
pub struct NamedValue {
    pub name: String,
    pub value: SchemaUiValue,
}

/// The mathematical value of a control's value.
pub enum UiValueView {
    Choice(Option<JsonView>),
    Text(Seq<char>),
}

impl View for SchemaUiValue {
    type V = UiValueView;

    open spec fn view(&self) -> UiValueView {
        match *self {
            SchemaUiValue::Choice(value) => UiValueView::Choice(
                crate::gui::composer::optional_view(value),
            ),
            SchemaUiValue::Text(text) => UiValueView::Text(text@),
        }
    }
}

/// The names and values of a list of controls' values.
pub open spec fn named_view(values: Seq<NamedValue>) -> Seq<(Seq<char>, UiValueView)> {
    Seq::new(values.len(), |i: int| (values[i].name@, values[i].value@))
}

/// What a control holds.
pub open spec fn held(control: SchemaControl) -> UiValueView {
    match control {
        SchemaControl::Choice { values, selected } => UiValueView::Choice(
            crate::gui::composer::picked(
                crate::gui::composer::choices_view(values@),
                selected,
            ),
        ),
        SchemaControl::Text { text } => UiValueView::Text(text@),
        SchemaControl::Integer { text } => UiValueView::Text(text@),
        SchemaControl::Number { text, .. } => UiValueView::Text(text@),
    }
}

/// What the controls hold while the catalog is read anew.
pub struct ModelOptionsSnapshot {
    pub duration: Option<u32>,
    pub resolution: Option<String>,
    pub aspect_ratio: Option<String>,
    pub size: Option<String>,
    pub audio: bool,
    pub seed: String,
    pub schema: Vec<NamedValue>,
}

fn held_value(control: &SchemaControl) -> (value: SchemaUiValue)
    ensures
        value@ == held(*control),
{
    match control {
        SchemaControl::Choice { values, selected } => {
            let place: usize = *selected as usize;
            if place < values.len() {
                match &values[place] {
                    Some(json) => SchemaUiValue::Choice(Some(copy_json(json))),
                    None => SchemaUiValue::Choice(None),
                }
            } else {
                SchemaUiValue::Choice(None)
            }
        },
        SchemaControl::Text { text } => SchemaUiValue::Text(text.clone()),
        SchemaControl::Integer { text } => SchemaUiValue::Text(text.clone()),
        SchemaControl::Number { text, .. } => SchemaUiValue::Text(text.clone()),
    }
}

fn picked_text(values: &Vec<Option<String>>, index: u32) -> (r: Option<String>)
    ensures
        crate::domain::opt_view(r) == crate::gui::composer::picked(
            crate::gui::composer::optional_texts(values@),
            index,
        ),
{
    let place: usize = index as usize;
    if place < values.len() {
        copy_text(&values[place])
    } else {
        None
    }
}

/// Takes down what the controls hold.
pub fn snapshot_model_options(fields: &ComposerFields) -> (snapshot: ModelOptionsSnapshot)
    ensures
        snapshot.duration == crate::gui::composer::picked(fields.durations@, fields.duration),
        crate::domain::opt_view(snapshot.resolution) == crate::gui::composer::picked(
            crate::gui::composer::optional_texts(fields.resolutions@),
            fields.resolution,
        ),
        crate::domain::opt_view(snapshot.aspect_ratio) == crate::gui::composer::picked(
            crate::gui::composer::optional_texts(fields.aspects@),
            fields.aspect,
        ),
        crate::domain::opt_view(snapshot.size) == crate::gui::composer::picked(
            crate::gui::composer::optional_texts(fields.sizes@),
            fields.size,
        ),
        snapshot.audio == fields.audio,
        snapshot.seed == fields.seed,
        named_view(snapshot.schema@) == Seq::new(
            fields.controls@.len(),
            |i: int| (fields.controls@[i].name@, held(fields.controls@[i].control)),
        ),
{
    let mut schema: Vec<NamedValue> = Vec::new();
    let mut i: usize = 0;
    while i < fields.controls.len()
        invariant
            i <= fields.controls@.len(),
            schema@.len() == i,
            forall|k: int|
                0 <= k < i ==> (#[trigger] schema@[k]).name@ == fields.controls@[k].name@
                    && schema@[k].value@ == held(fields.controls@[k].control),
        decreases fields.controls@.len() - i,
    {
        schema.push(
            NamedValue {
                name: fields.controls[i].name.clone(),
                value: held_value(&fields.controls[i].control),
            },
        );
        i = i + 1;
    }
    assert(named_view(schema@) =~= Seq::new(
        fields.controls@.len(),
        |i: int| (fields.controls@[i].name@, held(fields.controls@[i].control)),
    ));
    let place: usize = fields.duration as usize;
    ModelOptionsSnapshot {
        duration: if place < fields.durations.len() {
            fields.durations[place]
        } else {
            None
        },
        resolution: picked_text(&fields.resolutions, fields.resolution),
        aspect_ratio: picked_text(&fields.aspects, fields.aspect),
        size: picked_text(&fields.sizes, fields.size),
        audio: fields.audio,
        seed: fields.seed.clone(),
        schema,
    }
}

/// The first place of a choice in a list of choices.
pub open spec fn option_place(choices: Seq<Option<JsonView>>, choice: Option<JsonView>) -> Option<
    int,
>
    decreases choices.len(),
{
    if choices.len() == 0 {
        None
    } else if same_choice(choices[0], choice) {
        Some(0)
    } else {
        match option_place(choices.skip(1), choice) {
            Some(i) => Some(i + 1),
            None => None,
        }
    }
}

/// Whether two choices are the same.
pub open spec fn same_choice(a: Option<JsonView>, b: Option<JsonView>) -> bool {
    match (a, b) {
        (None, None) => true,
        (Some(x), Some(y)) => crate::json::same_json(x, y),
        _ => false,
    }
}

fn find_option(choices: &Vec<Option<Json>>, choice: &Option<Json>) -> (r: Option<usize>)
    ensures
        match r {
            Some(i) => option_place(
                crate::gui::composer::choices_view(choices@),
                crate::gui::composer::optional_view(*choice),
            ) == Some(i as int),
            None => option_place(
                crate::gui::composer::choices_view(choices@),
                crate::gui::composer::optional_view(*choice),
            ) is None,
        },
{
    let ghost views = crate::gui::composer::choices_view(choices@);
    let ghost wanted = crate::gui::composer::optional_view(*choice);
    let mut i: usize = 0;
    assert(views.skip(0) =~= views);
    while i < choices.len()
        invariant
            i <= choices@.len(),
            views == crate::gui::composer::choices_view(choices@),
            wanted == crate::gui::composer::optional_view(*choice),
            option_place(views, wanted) == match option_place(views.skip(i as int), wanted) {
                Some(k) => Some(k + i),
                None => None,
            },
        decreases choices@.len() - i,
    {
        proof {
            assert(views.skip(i as int)[0] == crate::gui::composer::optional_view(
                choices@[i as int],
            ));
            assert(views.skip(i as int).skip(1) =~= views.skip(i as int + 1));
        }
        let same = match (&choices[i], choice) {
            (None, None) => true,
            (Some(a), Some(b)) => json_eq(a, b),
            _ => false,
        };
        if same {
            return Some(i);
        }
        i = i + 1;
    }
    assert(views.skip(i as int) =~= Seq::empty());
    None
}

/// What a control's earlier value does to the control that now has its name.
pub open spec fn carried_update(control: NamedControl, value: UiValueView) -> Option<UpdateView> {
    match (control.control, value) {
        (SchemaControl::Choice { values, .. }, UiValueView::Choice(choice)) => match option_place(
            crate::gui::composer::choices_view(values@),
            choice,
        ) {
            Some(place) => Some(UpdateView::Select { name: control.name@, place }),
            None => None,
        },
        (SchemaControl::Choice { .. }, UiValueView::Text(_)) => None,
        (_, UiValueView::Choice(_)) => None,
        (_, UiValueView::Text(text)) => Some(UpdateView::Write { name: control.name@, text }),
    }
}

/// The place of the control with a name.
pub open spec fn control_place(controls: Seq<NamedControl>, name: Seq<char>) -> Option<int>
    decreases controls.len(),
{
    if controls.len() == 0 {
        None
    } else if controls[0].name@ == name {
        Some(0)
    } else {
        match control_place(controls.skip(1), name) {
            Some(i) => Some(i + 1),
            None => None,
        }
    }
}

fn find_control(controls: &Vec<NamedControl>, name: &str) -> (r: Option<usize>)
    ensures
        match r {
            Some(i) => i < controls@.len() && control_place(controls@, name@) == Some(i as int),
            None => control_place(controls@, name@) is None,
        },
{
    let mut i: usize = 0;
    assert(controls@.skip(0) =~= controls@);
    while i < controls.len()
        invariant
            i <= controls@.len(),
            control_place(controls@, name@) == match control_place(
                controls@.skip(i as int),
                name@,
            ) {
                Some(k) => Some(k + i),
                None => None,
            },
        decreases controls@.len() - i,
    {
        proof {
            assert(controls@.skip(i as int)[0] == controls@[i as int]);
            assert(controls@.skip(i as int).skip(1) =~= controls@.skip(i as int + 1));
        }
        if same_text(controls[i].name.as_str(), name) {
            return Some(i);
        }
        i = i + 1;
    }
    assert(controls@.skip(i as int) =~= Seq::empty());
    None
}

/// What the earlier values do to the controls that there are now.
pub open spec fn carried_updates(
    controls: Seq<NamedControl>,
    values: Seq<(Seq<char>, UiValueView)>,
) -> Seq<UpdateView>
    decreases values.len(),
{
    if values.len() == 0 {
        Seq::empty()
    } else {
        let rest = carried_updates(controls, values.drop_last());
        match control_place(controls, values.last().0) {
            Some(i) => match carried_update(controls[i], values.last().1) {
                Some(update) => rest.push(update),
                None => rest,
            },
            None => rest,
        }
    }
}

fn carry_value(control: &NamedControl, value: &SchemaUiValue) -> (r: Option<ControlUpdate>)
    ensures
        match r {
            Some(update) => carried_update(*control, value@) == Some(update@),
            None => carried_update(*control, value@) is None,
        },
{
    match (&control.control, value) {
        (SchemaControl::Choice { values, .. }, SchemaUiValue::Choice(choice)) => match find_option(
            values,
            choice,
        ) {
            Some(place) => Some(ControlUpdate::Select { name: control.name.clone(), place }),
            None => None,
        },
        (SchemaControl::Choice { .. }, SchemaUiValue::Text(_)) => None,
        (_, SchemaUiValue::Choice(_)) => None,
        (_, SchemaUiValue::Text(text)) => Some(
            ControlUpdate::Write { name: control.name.clone(), text: text.clone() },
        ),
    }
}

/// What the composer shows after the catalog was read anew and the model is still there.
pub struct OptionsRestore {
    pub duration: usize,
    pub resolution: usize,
    pub aspect: usize,
    pub size: usize,
    /// Set only where the model takes sound.
    pub audio: Option<bool>,
    /// Set only where the model takes a seed.
    pub seed: Option<String>,
    pub updates: Vec<ControlUpdate>,
}

/// Works out how the controls show again what they held, given what they now offer.
pub fn restore_model_options(fields: &ComposerFields, snapshot: ModelOptionsSnapshot) -> (restore:
    OptionsRestore)
    ensures
        restore.duration == crate::gui::model_controls::place_in(
            fields.durations@,
            snapshot.duration,
        ),
        restore.resolution == crate::gui::model_controls::place_in(
            crate::gui::composer::optional_texts(fields.resolutions@),
            crate::domain::opt_view(snapshot.resolution),
        ),
        restore.aspect == crate::gui::model_controls::place_in(
            crate::gui::composer::optional_texts(fields.aspects@),
            crate::domain::opt_view(snapshot.aspect_ratio),
        ),
        restore.size == crate::gui::model_controls::place_in(
            crate::gui::composer::optional_texts(fields.sizes@),
            crate::domain::opt_view(snapshot.size),
        ),
        restore.audio == (if fields.audio_available {
            Some(snapshot.audio)
        } else {
            None
        }),
        restore.seed == (if fields.seed_available {
            Some(snapshot.seed)
        } else {
            None
        }),
        updates_view(restore.updates@) == carried_updates(
            fields.controls@,
            named_view(snapshot.schema@),
        ),
{
    let ghost views = named_view(snapshot.schema@);
    let mut updates: Vec<ControlUpdate> = Vec::new();
    let mut i: usize = 0;
    assert(updates_view(updates@) =~= Seq::empty());
    while i < snapshot.schema.len()
        invariant
            i <= snapshot.schema@.len(),
            views == named_view(snapshot.schema@),
            updates_view(updates@) == carried_updates(fields.controls@, views.take(i as int)),
        decreases snapshot.schema@.len() - i,
    {
        proof {
            assert(views.take(i as int + 1).drop_last() =~= views.take(i as int));
            assert(views[i as int] == (
                snapshot.schema@[i as int].name@,
                snapshot.schema@[i as int].value@,
            ));
        }
        if let Some(place) = find_control(&fields.controls, snapshot.schema[i].name.as_str()) {
            if let Some(update) = carry_value(&fields.controls[place], &snapshot.schema[i].value) {
                let ghost before = updates_view(updates@);
                updates.push(update);
                assert(updates_view(updates@) =~= before.push(update@));
            }
        }
        i = i + 1;
    }
    assert(views.take(i as int) =~= views);
    OptionsRestore {
        duration: duration_place(&fields.durations, snapshot.duration),
        resolution: text_place(&fields.resolutions, &snapshot.resolution),
        aspect: text_place(&fields.aspects, &snapshot.aspect_ratio),
        size: text_place(&fields.sizes, &snapshot.size),
        audio: if fields.audio_available {
            Some(snapshot.audio)
        } else {
            None
        },
        seed: if fields.seed_available {
            Some(snapshot.seed)
        } else {
            None
        },
        updates,
    }
}

/// A setting that was chosen from a list is chosen again from the same list.
pub proof fn choices_survive_a_refresh<T>(values: Seq<Option<T>>, index: u32)
    requires
        index < values.len(),
    ensures
        ({
            let chosen = crate::gui::composer::picked(values, index);
            let place = crate::gui::model_controls::place_in(values, chosen);
            0 <= place <= index && values[place] == chosen
        }),
{
    let chosen = values[index as int];
    assert(values.contains(chosen));
    crate::gui::model_controls::offered_choices_are_found(values, chosen);
}

} // verus!
