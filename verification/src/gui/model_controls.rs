//! What the composer offers for the chosen model: its description, its settings and a control for
//! each further field of its schema.

use crate::domain::{MediaBinding, MediaKind, VideoCatalog, VideoModel};
use crate::gui::media_list::{media_kind_label, media_kind_plural};
use crate::json::{copy_json, json_eq, Json, JsonView, Member};
use crate::outside::render;
use crate::text::{concat, concat3, decimal, list_texts, replace_text, same_text, trim_text};
use vstd::prelude::*;

verus! {

/// What kinds of media a model says it takes.
pub open spec fn modalities_says(modalities: Option<Vec<MediaKind>>) -> Seq<char> {
    match modalities {
        None => " • media capabilities not advertised"@,
        Some(kinds) => if kinds@.len() == 0 {
            " • no reference-media inputs advertised"@
        } else {
            " • accepts "@ + crate::text::listed(
                Seq::new(kinds@.len(), |i: int| crate::gui::media_list::kind_plural(kinds@[i])),
                ", "@,
            )
        },
    }
}

/// What an input field is for.
pub open spec fn binding_says(binding: MediaBinding) -> Seq<char> {
    crate::gui::media_list::kind_title(binding.kind) + " — "@ + match binding.title {
        Some(title) => title@,
        None => match binding.description {
            Some(description) => description@,
            None => binding.property_name@,
        },
    }
}

/// What the input fields for media are for.
pub open spec fn bindings_says(bindings: Seq<MediaBinding>) -> Seq<char> {
    if bindings.len() == 0 {
        ""@
    } else {
        " • media fields: "@ + crate::text::listed(
            Seq::new(bindings.len(), |i: int| binding_says(bindings[i])),
            "; "@,
        )
    }
}

/// What is said of a model, given whether its catalog is a cached copy.
pub open spec fn description_says(model: VideoModel, stale: bool) -> Seq<char> {
    let text = crate::text::trimmed(model.description@);
    (if text.len() == 0 {
        model.id@
    } else {
        text
    }) + (if model.pricing_skus@.len() == 0 {
        ""@
    } else {
        " • pricing available at Review"@
    }) + modalities_says(model.input_modalities) + bindings_says(model.media_bindings@) + (
    if stale {
        " • cached catalog"@
    } else {
        ""@
    })
}

fn modalities_text(modalities: &Option<Vec<MediaKind>>) -> (s: String)
    ensures
        s@ == modalities_says(*modalities),
{
    match modalities {
        None => " • media capabilities not advertised".to_owned(),
        Some(kinds) => {
            if kinds.len() == 0 {
                return " • no reference-media inputs advertised".to_owned();
            }
            let mut names: Vec<String> = Vec::new();
            let mut i: usize = 0;
            while i < kinds.len()
                invariant
                    i <= kinds@.len(),
                    names@.len() == i,
                    forall|k: int|
                        0 <= k < i ==> (#[trigger] names@[k])@ == crate::gui::media_list::kind_plural(
                            kinds@[k],
                        ),
                decreases kinds@.len() - i,
            {
                names.push(media_kind_plural(kinds[i]).to_owned());
                i = i + 1;
            }
            assert(crate::text::texts(names@) =~= Seq::new(
                kinds@.len(),
                |i: int| crate::gui::media_list::kind_plural(kinds@[i]),
            ));
            let list = list_texts(&names, ", ");
            concat(" • accepts ", list.as_str())
        },
    }
}

fn binding_text(binding: &MediaBinding) -> (s: String)
    ensures
        s@ == binding_says(*binding),
{
    let purpose = match &binding.title {
        Some(title) => title.as_str(),
        None => match &binding.description {
            Some(description) => description.as_str(),
            None => binding.property_name.as_str(),
        },
    };
    concat3(media_kind_label(binding.kind), " — ", purpose)
}

fn bindings_text(bindings: &Vec<MediaBinding>) -> (s: String)
    ensures
        s@ == bindings_says(bindings@),
{
    if bindings.len() == 0 {
        return "".to_owned();
    }
    let mut parts: Vec<String> = Vec::new();
    let mut i: usize = 0;
    while i < bindings.len()
        invariant
            i <= bindings@.len(),
            parts@.len() == i,
            forall|k: int| 0 <= k < i ==> (#[trigger] parts@[k])@ == binding_says(bindings@[k]),
        decreases bindings@.len() - i,
    {
        parts.push(binding_text(&bindings[i]));
        i = i + 1;
    }
    assert(crate::text::texts(parts@) =~= Seq::new(
        bindings@.len(),
        |i: int| binding_says(bindings@[i]),
    ));
    let list = list_texts(&parts, "; ");
    concat(" • media fields: ", list.as_str())
}

/// What is said of a model, given whether its catalog is a cached copy.
pub fn model_description(model: &VideoModel, stale: bool) -> (s: String)
    ensures
        s@ == description_says(*model, stale),
{
    let text = trim_text(model.description.as_str());
    let base = if text.unicode_len() == 0 {
        model.id.as_str()
    } else {
        text
    };
    let pricing = if model.pricing_skus.len() == 0 {
        ""
    } else {
        " • pricing available at Review"
    };
    let modalities = modalities_text(&model.input_modalities);
    let bindings = bindings_text(&model.media_bindings);
    let head = concat3(base, pricing, modalities.as_str());
    concat3(
        head.as_str(),
        bindings.as_str(),
        if stale {
            " • cached catalog"
        } else {
            ""
        },
    )
}

/// The choices for a setting: none, and each of the values.
pub open spec fn offered<T>(values: Seq<T>) -> Seq<Option<T>> {
    Seq::new(
        values.len() + 1,
        |i: int|
            if i == 0 {
                None
            } else {
                Some(values[i - 1])
            },
    )
}

/// The choices for the duration: none, and each duration that the model takes.
pub fn duration_choices(durations: &Vec<u32>) -> (choices: Vec<Option<u32>>)
    ensures
        choices@ == offered(durations@),
{
    let mut choices: Vec<Option<u32>> = Vec::new();
    choices.push(None);
    let mut i: usize = 0;
    while i < durations.len()
        invariant
            i <= durations@.len(),
            choices@ == offered(durations@.take(i as int)),
        decreases durations@.len() - i,
    {
        choices.push(Some(durations[i]));
        assert(choices@ =~= offered(durations@.take(i as int + 1)));
        i = i + 1;
    }
    assert(durations@.take(i as int) =~= durations@);
    choices
}

/// How a duration is offered.
pub open spec fn duration_label_says(choice: Option<u32>) -> Seq<char> {
    match choice {
        None => "Provider default"@,
        Some(seconds) => crate::text::numeral(seconds as nat) + " seconds"@,
    }
}

/// How a duration is offered.
pub fn duration_label(choice: Option<u32>) -> (s: String)
    ensures
        s@ == duration_label_says(choice),
{
    match choice {
        None => "Provider default".to_owned(),
        Some(seconds) => {
            let numeral = decimal(seconds as u64);
            concat(numeral.as_str(), " seconds")
        },
    }
}

/// The choices for a setting that is a text: none, and each of the values.
pub fn text_choices(values: &Vec<String>) -> (choices: Vec<Option<String>>)
    ensures
        choices@ == offered(values@),
{
    let mut choices: Vec<Option<String>> = Vec::new();
    choices.push(None);
    let mut i: usize = 0;
    while i < values.len()
        invariant
            i <= values@.len(),
            choices@ == offered(values@.take(i as int)),
        decreases values@.len() - i,
    {
        choices.push(Some(values[i].clone()));
        assert(choices@ =~= offered(values@.take(i as int + 1)));
        i = i + 1;
    }
    assert(values@.take(i as int) =~= values@);
    choices
}

/// How a setting that is a text is offered.
pub fn text_label(choice: &Option<String>) -> (s: String)
    ensures
        s@ == match *choice {
            None => "Provider default"@,
            Some(value) => value@,
        },
{
    match choice {
        None => "Provider default".to_owned(),
        Some(value) => value.clone(),
    }
}

/// The first place of a value, or the first place of all where it does not occur.
pub open spec fn place_in<T>(values: Seq<T>, value: T) -> int
    decreases values.len(),
{
    if values.len() == 0 || values[0] == value || !values.contains(value) {
        0
    } else {
        1 + place_in(values.skip(1), value)
    }
}

proof fn place_found<T>(values: Seq<T>, value: T, i: int)
    requires
        0 <= i < values.len(),
        values[i] == value,
        forall|k: int| 0 <= k < i ==> values[k] != value,
    ensures
        place_in(values, value) == i,
    decreases values.len(),
{
    if i > 0 {
        assert(values.contains(value));
        assert(values.skip(1)[i - 1] == value);
        assert forall|k: int| 0 <= k < i - 1 implies values.skip(1)[k] != value by {
            assert(values.skip(1)[k] == values[k + 1]);
        }
        place_found(values.skip(1), value, i - 1);
    }
}

/// A choice that is offered is found again, at the place where it stands first.
pub proof fn offered_choices_are_found<T>(values: Seq<T>, value: T)
    requires
        values.contains(value),
    ensures
        0 <= place_in(values, value) < values.len(),
        values[place_in(values, value)] == value,
        forall|k: int| 0 <= k < place_in(values, value) ==> values[k] != value,
    decreases values.len(),
{
    if values[0] != value {
        let i = choose|i: int| 0 <= i < values.len() && values[i] == value;
        assert(values.skip(1)[i - 1] == value);
        let rest = values.skip(1);
        offered_choices_are_found(rest, value);
        assert forall|k: int| 0 <= k < place_in(values, value) implies values[k] != value by {
            if k > 0 {
                assert(rest[k - 1] == values[k]);
            }
        }
    }
}

/// The place at which a duration is selected.
pub fn duration_place(choices: &Vec<Option<u32>>, selected: Option<u32>) -> (place: usize)
    ensures
        place == place_in(choices@, selected),
{
    let mut i: usize = 0;
    while i < choices.len()
        invariant
            i <= choices@.len(),
            forall|k: int| 0 <= k < i ==> choices@[k] != selected,
        decreases choices@.len() - i,
    {
        let same = match (choices[i], selected) {
            (None, None) => true,
            (Some(a), Some(b)) => a == b,
            _ => false,
        };
        if same {
            proof {
                place_found(choices@, selected, i as int);
            }
            return i;
        }
        i = i + 1;
    }
    0
}

/// The place at which a text is selected.
pub fn text_place(choices: &Vec<Option<String>>, selected: &Option<String>) -> (place: usize)
    ensures
        place == place_in(
            crate::gui::composer::optional_texts(choices@),
            crate::domain::opt_view(*selected),
        ),
{
    let ghost views = crate::gui::composer::optional_texts(choices@);
    let ghost wanted = crate::domain::opt_view(*selected);
    let mut i: usize = 0;
    while i < choices.len()
        invariant
            i <= choices@.len(),
            views == crate::gui::composer::optional_texts(choices@),
            wanted == crate::domain::opt_view(*selected),
            forall|k: int| 0 <= k < i ==> views[k] != wanted,
        decreases choices@.len() - i,
    {
        let same = match (&choices[i], selected) {
            (None, None) => true,
            (Some(a), Some(b)) => same_text(a.as_str(), b.as_str()),
            _ => false,
        };
        assert(views[i as int] == crate::domain::opt_view(choices@[i as int]));
        if same {
            proof {
                place_found(views, wanted, i as int);
            }
            return i;
        }
        i = i + 1;
    }
    0
}

/// The model that is shown after a catalog came in: the one that was chosen before, where the
/// catalog still lists it, else the preferred one, else the first.
pub open spec fn shown_model(catalog: VideoCatalog, previous: Option<Seq<char>>) -> (int, bool) {
    let ids = Seq::new(catalog.models@.len(), |i: int| catalog.models@[i].id@);
    if previous is Some && crate::domain::catalog_has(catalog, previous->0) {
        (place_in(ids, previous->0), true)
    } else if catalog.preferred is Some {
        (place_in(ids, catalog.preferred->0@), false)
    } else {
        (0, false)
    }
}

fn model_place(catalog: &VideoCatalog, id: &str) -> (place: Option<usize>)
    ensures
        place is Some == crate::domain::catalog_has(*catalog, id@),
        place matches Some(i) ==> i == place_in(
            Seq::new(catalog.models@.len(), |i: int| catalog.models@[i].id@),
            id@,
        ),
{
    match catalog.find(id) {
        Some(i) => {
            proof {
                let ids = Seq::new(catalog.models@.len(), |i: int| catalog.models@[i].id@);
                assert forall|k: int| 0 <= k < i implies ids[k] != id@ by {
                    assert(ids[k] == catalog.models@[k].id@);
                }
                place_found(ids, id@, i as int);
            }
            Some(i)
        },
        None => None,
    }
}

/// The place of the model that is shown after a catalog came in, and whether it is the one that
/// was chosen before.
pub fn refreshed_model(catalog: &VideoCatalog, previous: &Option<String>) -> (r: (usize, bool))
    ensures
        (r.0 as int, r.1) == shown_model(*catalog, crate::domain::opt_view(*previous)),
{
    if let Some(id) = previous {
        if let Some(i) = model_place(catalog, id.as_str()) {
            return (i, true);
        }
    }
    if let Some(id) = &catalog.preferred {
        if let Some(i) = model_place(catalog, id.as_str()) {
            return (i, false);
        }
        proof {
            let ids = Seq::new(catalog.models@.len(), |i: int| catalog.models@[i].id@);
            if ids.contains(id@) {
                let i = choose|i: int| 0 <= i < ids.len() && ids[i] == id@;
                assert(catalog.models@[i].id@ == id@);
            }
        }
    }
    (0, false)
}

/// The first text of a list that is not "null".
pub open spec fn first_type(items: Seq<JsonView>) -> Option<Seq<char>>
    decreases items.len(),
{
    if items.len() == 0 {
        None
    } else {
        match items[0] {
            JsonView::Text(name) if name != "null"@ => Some(name),
            _ => first_type(items.skip(1)),
        }
    }
}

/// The type that a schema names, without the mark that null is allowed too.
pub open spec fn declared_type(schema: JsonView) -> Option<Seq<char>> {
    match crate::json::field(schema, "type"@) {
        Some(JsonView::Text(name)) => Some(name),
        Some(JsonView::Array(items)) => first_type(items),
        _ => None,
    }
}

fn find_type(items: &Vec<Json>) -> (r: Option<&str>)
    ensures
        crate::gui::composer_state::opt_str(r) == first_type(crate::json::items_view(items@)),
{
    let ghost views = crate::json::items_view(items@);
    assert(views.skip(0) =~= views);
    let mut i: usize = 0;
    while i < items.len()
        invariant
            i <= items@.len(),
            views == crate::json::items_view(items@),
            first_type(views) == first_type(views.skip(i as int)),
        decreases items@.len() - i,
    {
        proof {
            assert(views.skip(i as int)[0] == items@[i as int]@);
            assert(views.skip(i as int).skip(1) =~= views.skip(i as int + 1));
        }
        if let Some(name) = items[i].as_str() {
            if !same_text(name, "null") {
                return Some(name);
            }
        }
        i = i + 1;
    }
    assert(views.skip(i as int) =~= Seq::empty());
    None
}

/// The type that a schema names, without the mark that null is allowed too.
pub fn schema_type(schema: &Json) -> (r: Option<&str>)
    ensures
        crate::gui::composer_state::opt_str(r) == declared_type(schema@),
{
    broadcast use crate::json::array_view, crate::json::object_view;

    match schema.get("type") {
        Some(value) => match value {
            Json::Text(name) => Some(name.as_str()),
            Json::Array(items) => find_type(items),
            Json::Null | Json::Bool(_) | Json::Number(_) | Json::Object(_) => None,
        },
        None => None,
    }
}

/// What a text control holds.
#[derive(Debug, Clone, Copy, PartialEq, Eq, Structural)]
pub enum SchemaTextKind {
    Plain,
    Integer,
    Number,
}

/// A control that is to be made.
#[derive(Debug)]
pub enum ControlPlan {
    /// A list of values with the labels they are offered under.
    Choice { values: Vec<Option<Json>>, labels: Vec<String>, selected: usize },
    /// A line of text.
    Entry { kind: SchemaTextKind, text: String },
}

/// The mathematical value of a plan.
pub enum PlanView {
    Choice { values: Seq<Option<JsonView>>, labels: Seq<Seq<char>>, selected: int },
    Entry { kind: SchemaTextKind, text: Seq<char> },
}

impl View for ControlPlan {
    type V = PlanView;

    open spec fn view(&self) -> PlanView {
        match *self {
            ControlPlan::Choice { values, labels, selected } => PlanView::Choice {
                values: crate::gui::composer::choices_view(values@),
                labels: crate::text::texts(labels@),
                selected: selected as int,
            },
            ControlPlan::Entry { kind, text } => PlanView::Entry { kind, text: text@ },
        }
    }
}

/// How a value is written in a control: a text as it is, anything else as JSON.
pub open spec fn plain(value: JsonView) -> Seq<char> {
    match value {
        JsonView::Text(text) => text,
        _ => crate::outside::rendering_of(value),
    }
}

fn plain_text_of(value: &Json) -> (s: String)
    ensures
        s@ == plain(value@),
{
    match value.as_str() {
        Some(text) => text.to_owned(),
        None => render(value),
    }
}

/// How a choice is offered.
pub open spec fn choice_says(choice: Option<JsonView>) -> Seq<char> {
    match choice {
        None => "Provider default"@,
        Some(value) => plain(value),
    }
}

/// The first place at which a list of choices holds a value.
pub open spec fn choice_place(choices: Seq<Option<JsonView>>, value: JsonView) -> Option<int>
    decreases choices.len(),
{
    if choices.len() == 0 {
        None
    } else if choices[0] is Some && crate::json::same_json(choices[0]->0, value) {
        Some(0)
    } else {
        match choice_place(choices.skip(1), value) {
            Some(i) => Some(i + 1),
            None => None,
        }
    }
}

proof fn choice_found(choices: Seq<Option<JsonView>>, value: JsonView, n: int)
    requires
        0 <= n <= choices.len(),
        forall|k: int|
            0 <= k < n ==> !((#[trigger] choices[k]) is Some && crate::json::same_json(
                choices[k]->0,
                value,
            )),
    ensures
        n == choices.len() ==> choice_place(choices, value) is None,
        n < choices.len() && choices[n] is Some && crate::json::same_json(choices[n]->0, value)
            ==> choice_place(choices, value) == Some(n),
    decreases n,
{
    if n > 0 {
        assert(!(choices[0] is Some && crate::json::same_json(choices[0]->0, value)));
        assert forall|k: int| 0 <= k < n - 1 implies !((#[trigger] choices.skip(1)[k]) is Some
            && crate::json::same_json(choices.skip(1)[k]->0, value)) by {
            assert(choices.skip(1)[k] == choices[k + 1]);
        }
        choice_found(choices.skip(1), value, n - 1);
        if n < choices.len() {
            assert(choices.skip(1)[n - 1] == choices[n]);
        }
    }
}

/// The first place at which a list of choices holds a value.
pub fn find_choice(choices: &Vec<Option<Json>>, value: &Json) -> (r: Option<usize>)
    ensures
        match r {
            Some(i) => choice_place(crate::gui::composer::choices_view(choices@), value@) == Some(
                i as int,
            ),
            None => choice_place(crate::gui::composer::choices_view(choices@), value@) is None,
        },
{
    let ghost views = crate::gui::composer::choices_view(choices@);
    let mut i: usize = 0;
    while i < choices.len()
        invariant
            i <= choices@.len(),
            views == crate::gui::composer::choices_view(choices@),
            forall|k: int|
                0 <= k < i ==> !((#[trigger] views[k]) is Some && crate::json::same_json(
                    views[k]->0,
                    value@,
                )),
        decreases choices@.len() - i,
    {
        assert(views[i as int] == crate::gui::composer::optional_view(choices@[i as int]));
        if let Some(json) = &choices[i] {
            if json_eq(json, value) {
                proof {
                    choice_found(views, value@, i as int);
                }
                return Some(i);
            }
        }
        i = i + 1;
    }
    proof {
        choice_found(views, value@, i as int);
    }
    None
}

/// The place that a schema's default has among the choices, or the first.
pub open spec fn default_place(schema: JsonView, choices: Seq<Option<JsonView>>) -> int {
    match crate::json::field(schema, "default"@) {
        Some(value) => match choice_place(choices, value) {
            Some(i) => i,
            None => 0,
        },
        None => 0,
    }
}

/// The control for a field with a list of values.
pub open spec fn choice_plan(schema: JsonView, items: Seq<JsonView>) -> PlanView {
    let values = offered(items);
    PlanView::Choice {
        values,
        labels: Seq::new(values.len(), |i: int| choice_says(values[i])),
        selected: default_place(schema, values),
    }
}

/// The control for a field that is true or false.
pub open spec fn boolean_plan(schema: JsonView) -> PlanView {
    PlanView::Choice {
        values: seq![None, Some(JsonView::Bool(true)), Some(JsonView::Bool(false))],
        labels: seq!["Provider default"@, "True"@, "False"@],
        selected: match crate::json::field(schema, "default"@) {
            Some(JsonView::Bool(true)) => 1,
            Some(JsonView::Bool(false)) => 2,
            _ => 0,
        },
    }
}

/// The text that a text control starts with.
pub open spec fn default_text(schema: JsonView) -> Seq<char> {
    match crate::json::field(schema, "default"@) {
        Some(value) => plain(value),
        None => ""@,
    }
}

/// The control for a field of a schema; none for a field that is nested.
pub open spec fn plan_says(schema: JsonView) -> Option<PlanView> {
    match crate::json::array_field(schema, "enum"@) {
        Some(items) => Some(choice_plan(schema, items)),
        None => match declared_type(schema) {
            None => None,
            Some(name) => if name == "boolean"@ {
                Some(boolean_plan(schema))
            } else if name == "integer"@ {
                Some(
                    PlanView::Entry { kind: SchemaTextKind::Integer, text: default_text(schema) },
                )
            } else if name == "number"@ {
                Some(PlanView::Entry { kind: SchemaTextKind::Number, text: default_text(schema) })
            } else if name == "string"@ {
                Some(PlanView::Entry { kind: SchemaTextKind::Plain, text: default_text(schema) })
            } else {
                None
            },
        },
    }
}

fn offer_items(items: &Vec<Json>) -> (r: (Vec<Option<Json>>, Vec<String>))
    ensures
        crate::gui::composer::choices_view(r.0@) == offered(crate::json::items_view(items@)),
        crate::text::texts(r.1@) == Seq::new(
            items@.len() + 1,
            |i: int| choice_says(offered(crate::json::items_view(items@))[i]),
        ),
{
    let ghost wanted = offered(crate::json::items_view(items@));
    let mut values: Vec<Option<Json>> = Vec::new();
    let mut labels: Vec<String> = Vec::new();
    values.push(None);
    labels.push("Provider default".to_owned());
    let mut i: usize = 0;
    while i < items.len()
        invariant
            i <= items@.len(),
            wanted == offered(crate::json::items_view(items@)),
            values@.len() == i + 1,
            labels@.len() == i + 1,
            forall|k: int|
                0 <= k <= i ==> crate::gui::composer::optional_view(#[trigger] values@[k])
                    == wanted[k],
            forall|k: int| 0 <= k <= i ==> (#[trigger] labels@[k])@ == choice_says(wanted[k]),
        decreases items@.len() - i,
    {
        assert(wanted[i as int + 1] == Some(items@[i as int]@));
        values.push(Some(copy_json(&items[i])));
        labels.push(plain_text_of(&items[i]));
        i = i + 1;
    }
    assert(crate::gui::composer::choices_view(values@) =~= wanted);
    assert(crate::text::texts(labels@) =~= Seq::new(
        items@.len() + 1,
        |i: int| choice_says(wanted[i]),
    ));
    (values, labels)
}

fn plan_choice(schema: &Json, items: &Vec<Json>) -> (plan: ControlPlan)
    ensures
        plan@ == choice_plan(schema@, crate::json::items_view(items@)),
{
    let (values, labels) = offer_items(items);
    let selected: usize = match schema.get("default") {
        Some(value) => match find_choice(&values, value) {
            Some(i) => i,
            None => 0,
        },
        None => 0,
    };
    let plan = ControlPlan::Choice { values, labels, selected };
    assert(plan@->labels =~= choice_plan(schema@, crate::json::items_view(items@))->labels);
    plan
}

fn plan_boolean(schema: &Json) -> (plan: ControlPlan)
    ensures
        plan@ == boolean_plan(schema@),
{
    let mut values: Vec<Option<Json>> = Vec::new();
    values.push(None);
    values.push(Some(Json::Bool(true)));
    values.push(Some(Json::Bool(false)));
    let mut labels: Vec<String> = Vec::new();
    labels.push("Provider default".to_owned());
    labels.push("True".to_owned());
    labels.push("False".to_owned());
    let selected: usize = match schema.get("default") {
        Some(value) => match value {
            Json::Bool(b) => if *b {
                1
            } else {
                2
            },
            Json::Null | Json::Number(_) | Json::Text(_) | Json::Array(_) | Json::Object(_) => 0,
        },
        None => 0,
    };
    let plan = ControlPlan::Choice { values, labels, selected };
    assert(plan@->values =~= boolean_plan(schema@)->values);
    assert(plan@->labels =~= boolean_plan(schema@)->labels);
    plan
}

fn start_text(schema: &Json) -> (s: String)
    ensures
        s@ == default_text(schema@),
{
    match schema.get("default") {
        Some(value) => plain_text_of(value),
        None => "".to_owned(),
    }
}

/// Plans the control for a field of a schema; none for a field that is nested.
pub fn plan_control(schema: &Json) -> (r: Option<ControlPlan>)
    ensures
        match r {
            Some(plan) => plan_says(schema@) == Some(plan@),
            None => plan_says(schema@) is None,
        },
{
    if let Some(items) = schema.get_array("enum") {
        return Some(plan_choice(schema, items));
    }
    match schema_type(schema) {
        None => None,
        Some(name) => if same_text(name, "boolean") {
            Some(plan_boolean(schema))
        } else if same_text(name, "integer") {
            Some(ControlPlan::Entry { kind: SchemaTextKind::Integer, text: start_text(schema) })
        } else if same_text(name, "number") {
            Some(ControlPlan::Entry { kind: SchemaTextKind::Number, text: start_text(schema) })
        } else if same_text(name, "string") {
            Some(ControlPlan::Entry { kind: SchemaTextKind::Plain, text: start_text(schema) })
        } else {
            None
        },
    }
}

/// Whether a name is one that the common controls stand for.
pub open spec fn common_name(name: Seq<char>) -> bool {
    ||| name == "prompt"@
    ||| name == "duration"@
    ||| name == "resolution"@
    ||| name == "aspect_ratio"@
    ||| name == "size"@
    ||| name == "generate_audio"@
    ||| name == "seed"@
    ||| name == "image_url"@
    ||| name == "start_image_url"@
    ||| name == "end_image_url"@
    ||| name == "input_references"@
    ||| name == "frame_images"@
    ||| name == "video_url"@
    ||| name == "audio_url"@
}

fn is_common_name(name: &str) -> (b: bool)
    ensures
        b == common_name(name@),
{
    same_text(name, "prompt") || same_text(name, "duration") || same_text(name, "resolution")
        || same_text(name, "aspect_ratio") || same_text(name, "size") || same_text(
        name,
        "generate_audio",
    ) || same_text(name, "seed") || same_text(name, "image_url") || same_text(
        name,
        "start_image_url",
    ) || same_text(name, "end_image_url") || same_text(name, "input_references") || same_text(
        name,
        "frame_images",
    ) || same_text(name, "video_url") || same_text(name, "audio_url")
}

/// Whether a field of a model's schema needs no control of its own: a common control or the media
/// list stands for it.
pub open spec fn covered(model: VideoModel, name: Seq<char>) -> bool {
    ||| common_name(name)
    ||| exists|i: int|
        0 <= i < model.field_map@.len() && (#[trigger] model.field_map@[i]).field@ == name
    ||| exists|i: int|
        0 <= i < model.media_bindings@.len() && (#[trigger] model.media_bindings@[i]).property_name@
            == name
}

fn is_covered(model: &VideoModel, name: &str) -> (b: bool)
    ensures
        b == covered(*model, name@),
{
    if is_common_name(name) {
        return true;
    }
    let mut i: usize = 0;
    while i < model.field_map.len()
        invariant
            i <= model.field_map@.len(),
            forall|k: int| 0 <= k < i ==> (#[trigger] model.field_map@[k]).field@ != name@,
        decreases model.field_map@.len() - i,
    {
        if same_text(model.field_map[i].field.as_str(), name) {
            return true;
        }
        i = i + 1;
    }
    let mut j: usize = 0;
    while j < model.media_bindings.len()
        invariant
            j <= model.media_bindings@.len(),
            forall|k: int|
                0 <= k < j ==> (#[trigger] model.media_bindings@[k]).property_name@ != name@,
        decreases model.media_bindings@.len() - j,
    {
        if same_text(model.media_bindings[j].property_name.as_str(), name) {
            return true;
        }
        j = j + 1;
    }
    false
}

/// A row for one field of a schema.
#[derive(Debug)]
pub struct SchemaRow {
    pub name: String,
    pub label: String,
    pub tooltip: Option<String>,
    pub plan: ControlPlan,
}

/// The mathematical value of a row.
pub struct SchemaRowView {
    pub name: Seq<char>,
    pub label: Seq<char>,
    pub tooltip: Option<Seq<char>>,
    pub plan: PlanView,
}

impl View for SchemaRow {
    type V = SchemaRowView;

    open spec fn view(&self) -> SchemaRowView {
        SchemaRowView {
            name: self.name@,
            label: self.label@,
            tooltip: crate::domain::opt_view(self.tooltip),
            plan: self.plan@,
        }
    }
}

/// How a field is labelled: by its title or else by its name, with blanks for underscores.
pub open spec fn field_label_says(name: Seq<char>, schema: JsonView) -> Seq<char> {
    crate::text::replaced(
        match crate::json::text_field(schema, "title"@) {
            Some(title) => title,
            None => name,
        },
        "_"@,
        " "@,
    )
}

/// The rows for the fields of a schema that are not covered, and the names of those fields that
/// get none, both in the order of the schema.
pub open spec fn schema_rows_say(
    model: VideoModel,
    properties: Seq<(Seq<char>, JsonView)>,
) -> (Seq<SchemaRowView>, Seq<Seq<char>>)
    decreases properties.len(),
{
    if properties.len() == 0 {
        (Seq::empty(), Seq::empty())
    } else {
        let (rows, nested) = schema_rows_say(model, properties.drop_last());
        let (name, schema) = properties.last();
        if covered(model, name) {
            (rows, nested)
        } else {
            match plan_says(schema) {
                Some(plan) => (
                    rows.push(
                        SchemaRowView {
                            name,
                            label: field_label_says(name, schema),
                            tooltip: crate::json::text_field(schema, "description"@),
                            plan,
                        },
                    ),
                    nested,
                ),
                None => (rows, nested.push(name)),
            }
        }
    }
}

/// The values of a list of rows.
pub open spec fn rows_view(rows: Seq<SchemaRow>) -> Seq<SchemaRowView> {
    Seq::new(rows.len(), |i: int| rows[i]@)
}

/// What stands below the common controls: rows and remarks.
#[derive(Debug)]
pub struct SchemaPanel {
    pub rows: Vec<SchemaRow>,
    pub remarks: Vec<String>,
}

/// The properties of a model's schema, if it publishes one.
pub open spec fn published(model: VideoModel) -> Option<Seq<(Seq<char>, JsonView)>> {
    match model.input_schema {
        Some(schema) => crate::json::object_field(schema@, "properties"@),
        None => None,
    }
}

/// The remarks below the rows.
pub open spec fn remarks_say(rows: nat, nested: Seq<Seq<char>>) -> Seq<Seq<char>> {
    (if rows == 0 {
        seq!["Common controls above cover this model's published schema."@]
    } else {
        Seq::empty()
    }) + (if nested.len() == 0 {
        Seq::empty()
    } else {
        seq!["Nested schema fields use the JSON fallback: "@ + crate::text::listed(nested, ", "@)]
    })
}

fn schema_row(name: &str, schema: &Json, plan: ControlPlan) -> (row: SchemaRow)
    ensures
        row@ == (SchemaRowView {
            name: name@,
            label: field_label_says(name@, schema@),
            tooltip: crate::json::text_field(schema@, "description"@),
            plan: plan@,
        }),
{
    proof {
        reveal_strlit("_");
    }
    let title = match schema.get_str("title") {
        Some(title) => title,
        None => name,
    };
    SchemaRow {
        name: name.to_owned(),
        label: replace_text(title, "_", " "),
        tooltip: match schema.get_str("description") {
            Some(text) => Some(text.to_owned()),
            None => None,
        },
        plan,
    }
}

fn plan_rows(model: &VideoModel, properties: &Vec<Member>) -> (r: (Vec<SchemaRow>, Vec<String>))
    ensures
        (rows_view(r.0@), crate::text::texts(r.1@)) == schema_rows_say(
            *model,
            crate::json::members_view(properties@),
        ),
{
    let ghost views = crate::json::members_view(properties@);
    let mut rows: Vec<SchemaRow> = Vec::new();
    let mut nested: Vec<String> = Vec::new();
    let mut i: usize = 0;
    proof {
        assert(rows_view(rows@) =~= Seq::empty());
        assert(crate::text::texts(nested@) =~= Seq::empty());
    }
    while i < properties.len()
        invariant
            i <= properties@.len(),
            views == crate::json::members_view(properties@),
            (rows_view(rows@), crate::text::texts(nested@)) == schema_rows_say(
                *model,
                views.take(i as int),
            ),
        decreases properties@.len() - i,
    {
        proof {
            assert(views.take(i as int + 1).drop_last() =~= views.take(i as int));
            assert(views[i as int] == (properties@[i as int].key@, properties@[i as int].value@));
        }
        let name = properties[i].key.as_str();
        if !is_covered(model, name) {
            match plan_control(&properties[i].value) {
                Some(plan) => {
                    let ghost before = rows_view(rows@);
                    let row = schema_row(name, &properties[i].value, plan);
                    rows.push(row);
                    assert(rows_view(rows@) =~= before.push(row@));
                },
                None => {
                    let ghost before = crate::text::texts(nested@);
                    nested.push(name.to_owned());
                    assert(crate::text::texts(nested@) =~= before.push(name@));
                },
            }
        }
        i = i + 1;
    }
    assert(views.take(i as int) =~= views);
    (rows, nested)
}

/// Plans what stands below the common controls for a model.
pub fn schema_panel(model: &VideoModel) -> (panel: SchemaPanel)
    ensures
        match published(*model) {
            None => panel.rows@.len() == 0 && crate::text::texts(panel.remarks@) == seq![
                "This catalog does not publish an input schema. Use advanced JSON for provider-specific fields."@,
            ],
            Some(properties) => {
                let (rows, nested) = schema_rows_say(*model, properties);
                rows_view(panel.rows@) == rows && crate::text::texts(panel.remarks@)
                    == remarks_say(rows.len(), nested)
            },
        },
{
    let properties = match &model.input_schema {
        Some(schema) => schema.get_object("properties"),
        None => None,
    };
    let mut remarks: Vec<String> = Vec::new();
    match properties {
        None => {
            remarks.push(
                "This catalog does not publish an input schema. Use advanced JSON for provider-specific fields.".to_owned(),
            );
            let panel = SchemaPanel { rows: Vec::new(), remarks };
            assert(crate::text::texts(panel.remarks@) =~= seq![
                "This catalog does not publish an input schema. Use advanced JSON for provider-specific fields."@,
            ]);
            panel
        },
        Some(properties) => {
            let (rows, nested) = plan_rows(model, properties);
            let ghost names = crate::text::texts(nested@);
            let ghost count = rows_view(rows@).len();
            if rows.len() == 0 {
                remarks.push(
                    "Common controls above cover this model's published schema.".to_owned(),
                );
            }
            if nested.len() > 0 {
                let list = list_texts(&nested, ", ");
                remarks.push(
                    concat("Nested schema fields use the JSON fallback: ", list.as_str()),
                );
            }
            assert(crate::text::texts(remarks@) =~= remarks_say(count, names));
            SchemaPanel { rows, remarks }
        },
    }
}

/// Every field of a published schema has its place: a common control or the media list stands for
/// it, it has a row of its own, or it is named as one that only the JSON can set.
pub proof fn every_field_has_a_place(
    model: VideoModel,
    properties: Seq<(Seq<char>, JsonView)>,
    i: int,
)
    requires
        0 <= i < properties.len(),
    ensures
        ({
            let (rows, nested) = schema_rows_say(model, properties);
            let name = properties[i].0;
            covered(model, name) || nested.contains(name) || exists|k: int|
                0 <= k < rows.len() && (#[trigger] rows[k]).name == name
        }),
    decreases properties.len(),
{
    let (before_rows, before_nested) = schema_rows_say(model, properties.drop_last());
    let (rows, nested) = schema_rows_say(model, properties);
    let name = properties[i].0;
    if i + 1 < properties.len() {
        every_field_has_a_place(model, properties.drop_last(), i);
        if before_nested.contains(name) {
            let k = choose|k: int| 0 <= k < before_nested.len() && before_nested[k] == name;
            assert(nested[k] == name);
        } else if !covered(model, name) {
            let k = choose|k: int|
                0 <= k < before_rows.len() && (#[trigger] before_rows[k]).name == name;
            assert(rows[k].name == name);
        }
    } else if !covered(model, name) {
        if plan_says(properties[i].1) is Some {
            assert(rows[rows.len() - 1].name == name);
        } else {
            assert(nested[nested.len() - 1] == name);
        }
    }
}

} // verus!
