//! From the composer's controls to a draft, and whether the chosen model can take it.

use crate::domain::{
    DraftMedia, GenerationDraft, MediaBinding, MediaCardinality, MediaKind, MediaRole, VideoModel,
    FAL_PROVIDER_ID, OPENROUTER_PROVIDER_ID,
};
use crate::gui::media_list::{count_items, has_local, media_kind_plural, provider_id_for_index};
use crate::gui_state::{DraftEditorState, SchemaText};
use crate::json::{copy_json, insert_member, Json, JsonView, Member};
use crate::outside::{integer, read_document};
use crate::text::{concat, concat3, decimal, parse_signed, same_text, trim_text};
use vstd::prelude::*;

verus! {

/// Whether the model's list of frame images names a frame.
pub open spec fn takes_frame(model: VideoModel, frame: Seq<char>) -> bool {
    exists|i: int|
        0 <= i < model.supported_frame_images@.len() && (
        #[trigger] model.supported_frame_images@[i])@ == frame
}

/// The complaint about one kind of media: the model does not take it, or does not say so.
pub open spec fn kind_problem(draft: GenerationDraft, model: VideoModel, kind: MediaKind) -> Option<
    Seq<char>,
> {
    if crate::gui::media_list::count_of(draft.media@, kind) == 0 {
        None
    } else {
        match model.input_modalities {
            Some(kinds) => if kinds@.contains(kind) {
                None
            } else {
                Some(
                    model.name@ + " does not support "@ + (crate::gui::media_list::kind_plural(kind)
                        + " references. Choose another model or remove the incompatible media."@),
                )
            },
            None => if kind == MediaKind::Image {
                None
            } else {
                Some(
                    model.name@ + " does not publish confirmed "@ + (
                    crate::gui::media_list::kind_plural(kind)
                        + " input support. Refresh the catalog or choose a model that explicitly supports it."@),
                )
            },
        }
    }
}

/// How many of the items have a role.
pub open spec fn role_count(items: Seq<DraftMedia>, role: MediaRole) -> nat
    decreases items.len(),
{
    if items.len() == 0 {
        0
    } else {
        role_count(items.drop_last(), role) + (if items.last().role == role {
            1nat
        } else {
            0nat
        })
    }
}

/// How many items an input field takes.
pub open spec fn binding_room(binding: MediaBinding) -> nat {
    match binding.cardinality {
        MediaCardinality::Scalar => 1,
        MediaCardinality::List => match binding.max_items {
            Some(most) => most as nat,
            None => usize::MAX as nat,
        },
    }
}

/// How many items of a kind the input fields take together.
pub open spec fn room(bindings: Seq<MediaBinding>, kind: MediaKind) -> nat
    decreases bindings.len(),
{
    if bindings.len() == 0 {
        0
    } else {
        room(bindings.drop_last(), kind) + (if bindings.last().kind == kind {
            binding_room(bindings.last())
        } else {
            0
        })
    }
}

/// Whether some input field takes a kind.
pub open spec fn binds(bindings: Seq<MediaBinding>, kind: MediaKind) -> bool {
    exists|i: int| 0 <= i < bindings.len() && (#[trigger] bindings[i]).kind == kind
}

/// The complaint about the media in one role: no input field takes them, or too few do.
pub open spec fn role_problem(
    draft: GenerationDraft,
    model: VideoModel,
    role: MediaRole,
) -> Option<Seq<char>> {
    let kind = role.kind();
    let count = role_count(draft.media@, role);
    let total = room(model.media_bindings@, kind);
    let capacity = if total > usize::MAX {
        usize::MAX as nat
    } else {
        total
    };
    if count == 0 {
        None
    } else if !binds(model.media_bindings@, kind) {
        Some(
            model.name@ + " cannot bind "@ + (crate::gui::media_list::kind_plural(kind)
                + " references to a fal.ai input field. Choose another model or remove them."@),
        )
    } else if count > capacity {
        Some(
            model.name@ + " accepts at most "@ + (crate::text::numeral(capacity) + " "@
                + kind.name()) + (" reference(s); this draft has "@ + crate::text::numeral(count)
                + "."@),
        )
    } else {
        None
    }
}

/// The frame that a role fixes.
pub open spec fn frame_of(role: MediaRole) -> Option<Seq<char>> {
    match role {
        MediaRole::StartFrame => Some("first_frame"@),
        MediaRole::EndFrame => Some("last_frame"@),
        _ => None,
    }
}

/// The complaint about the first item that fixes a frame which the model does not take.
pub open spec fn frame_problem(items: Seq<DraftMedia>, model: VideoModel) -> Option<Seq<char>>
    decreases items.len(),
{
    if items.len() == 0 {
        None
    } else {
        match frame_problem(items.drop_last(), model) {
            Some(problem) => Some(problem),
            None => match frame_of(items.last().role) {
                Some(frame) => if takes_frame(model, frame) {
                    None
                } else {
                    Some(model.name@ + " does not support a "@ + (frame + " input"@))
                },
                None => None,
            },
        }
    }
}

/// The first of two complaints.
pub open spec fn either(first: Option<Seq<char>>, second: Option<Seq<char>>) -> Option<Seq<char>> {
    match first {
        Some(problem) => Some(problem),
        None => second,
    }
}

/// The complaint about a draft's media, given the chosen model and whether its catalog is a
/// cached copy.
pub open spec fn media_problem(
    draft: GenerationDraft,
    model: Option<VideoModel>,
    stale: bool,
) -> Option<Seq<char>> {
    match model {
        None => Some("The selected model is not in the provider catalog"@),
        Some(model) => if stale && (crate::gui::media_list::count_of(draft.media@, MediaKind::Video)
            > 0 || crate::gui::media_list::count_of(draft.media@, MediaKind::Audio) > 0) {
            Some(
                "Refresh this provider's model catalog before reviewing video or audio references. Cached capabilities may be out of date."@,
            )
        } else {
            either(
                either(
                    kind_problem(draft, model, MediaKind::Image),
                    either(
                        kind_problem(draft, model, MediaKind::Video),
                        kind_problem(draft, model, MediaKind::Audio),
                    ),
                ),
                either(
                    if draft.provider_id@ == FAL_PROVIDER_ID@ {
                        either(
                            role_problem(draft, model, MediaRole::Reference),
                            either(
                                role_problem(draft, model, MediaRole::VideoInput),
                                role_problem(draft, model, MediaRole::AudioInput),
                            ),
                        )
                    } else {
                        None
                    },
                    frame_problem(draft.media@, model),
                ),
            )
        },
    }
}

fn lists_kind(kinds: &Vec<MediaKind>, kind: MediaKind) -> (b: bool)
    ensures
        b == kinds@.contains(kind),
{
    let mut i: usize = 0;
    while i < kinds.len()
        invariant
            i <= kinds@.len(),
            forall|k: int| 0 <= k < i ==> kinds@[k] != kind,
        decreases kinds@.len() - i,
    {
        if kinds[i] == kind {
            assert(kinds@[i as int] == kind);
            return true;
        }
        i = i + 1;
    }
    false
}

fn check_kind(draft: &GenerationDraft, model: &VideoModel, kind: MediaKind) -> (r: Option<String>)
    ensures
        crate::domain::opt_view(r) == kind_problem(*draft, *model, kind),
{
    let n: usize = count_items(&draft.media, draft.media.len(), kind);
    assert(draft.media@.take(draft.media@.len() as int) =~= draft.media@);
    if n == 0 {
        return None;
    }
    let (middle, end) = match &model.input_modalities {
        Some(kinds) => {
            if lists_kind(kinds, kind) {
                return None;
            }
            (
                " does not support ",
                " references. Choose another model or remove the incompatible media.",
            )
        },
        None => {
            if kind == MediaKind::Image {
                return None;
            }
            (
                " does not publish confirmed ",
                " input support. Refresh the catalog or choose a model that explicitly supports it.",
            )
        },
    };
    let tail = concat(media_kind_plural(kind), end);
    Some(concat3(model.name.as_str(), middle, tail.as_str()))
}

fn count_role(items: &Vec<DraftMedia>, role: MediaRole) -> (n: usize)
    ensures
        n == role_count(items@, role),
{
    let mut n: usize = 0;
    let mut i: usize = 0;
    while i < items.len()
        invariant
            i <= items@.len(),
            n <= i,
            n == role_count(items@.take(i as int), role),
        decreases items@.len() - i,
    {
        proof {
            assert(items@.take(i as int + 1).drop_last() =~= items@.take(i as int));
        }
        if items[i].role == role {
            n = n + 1;
        }
        i = i + 1;
    }
    assert(items@.take(i as int) =~= items@);
    n
}

/// How many items of a kind the input fields take together, as far as a machine word counts, and
/// whether there is such a field.
fn count_room(bindings: &Vec<MediaBinding>, kind: MediaKind) -> (r: (usize, bool))
    ensures
        r.0 == (if room(bindings@, kind) > usize::MAX {
            usize::MAX as nat
        } else {
            room(bindings@, kind)
        }),
        r.1 == binds(bindings@, kind),
{
    let mut total: usize = 0;
    let mut found = false;
    let mut i: usize = 0;
    while i < bindings.len()
        invariant
            i <= bindings@.len(),
            total == (if room(bindings@.take(i as int), kind) > usize::MAX {
                usize::MAX as nat
            } else {
                room(bindings@.take(i as int), kind)
            }),
            found == exists|k: int| 0 <= k < i && (#[trigger] bindings@[k]).kind == kind,
        decreases bindings@.len() - i,
    {
        proof {
            assert(bindings@.take(i as int + 1).drop_last() =~= bindings@.take(i as int));
        }
        if bindings[i].kind == kind {
            let space: usize = match bindings[i].cardinality {
                MediaCardinality::Scalar => 1,
                MediaCardinality::List => match bindings[i].max_items {
                    Some(most) => most,
                    None => usize::MAX,
                },
            };
            total = total.saturating_add(space);
            found = true;
            assert(bindings@[i as int].kind == kind);
        }
        i = i + 1;
    }
    assert(bindings@.take(i as int) =~= bindings@);
    (total, found)
}

fn check_role(draft: &GenerationDraft, model: &VideoModel, role: MediaRole) -> (r: Option<String>)
    ensures
        crate::domain::opt_view(r) == role_problem(*draft, *model, role),
{
    let kind = role.kind();
    let count: usize = count_role(&draft.media, role);
    if count == 0 {
        return None;
    }
    let (capacity, bound) = count_room(&model.media_bindings, kind);
    if !bound {
        let tail = concat(
            media_kind_plural(kind),
            " references to a fal.ai input field. Choose another model or remove them.",
        );
        return Some(concat3(model.name.as_str(), " cannot bind ", tail.as_str()));
    }
    if count > capacity {
        let most = decimal(capacity as u64);
        let has = decimal(count as u64);
        let middle = concat3(most.as_str(), " ", kind.as_str());
        let tail = concat3(" reference(s); this draft has ", has.as_str(), ".");
        let head = concat3(model.name.as_str(), " accepts at most ", middle.as_str());
        return Some(concat(head.as_str(), tail.as_str()));
    }
    None
}

fn names_frame(model: &VideoModel, frame: &str) -> (b: bool)
    ensures
        b == takes_frame(*model, frame@),
{
    let mut i: usize = 0;
    while i < model.supported_frame_images.len()
        invariant
            i <= model.supported_frame_images@.len(),
            forall|k: int| 0 <= k < i ==> (#[trigger] model.supported_frame_images@[k])@ != frame@,
        decreases model.supported_frame_images@.len() - i,
    {
        if same_text(model.supported_frame_images[i].as_str(), frame) {
            return true;
        }
        i = i + 1;
    }
    false
}

proof fn frame_problem_stays(items: Seq<DraftMedia>, model: VideoModel, n: int)
    requires
        0 <= n <= items.len(),
        frame_problem(items.take(n), model) is Some,
    ensures
        frame_problem(items, model) == frame_problem(items.take(n), model),
    decreases items.len() - n,
{
    if n < items.len() {
        assert(items.take(n + 1).drop_last() =~= items.take(n));
        frame_problem_stays(items, model, n + 1);
    } else {
        assert(items.take(n) =~= items);
    }
}

fn check_frames(items: &Vec<DraftMedia>, model: &VideoModel) -> (r: Option<String>)
    ensures
        crate::domain::opt_view(r) == frame_problem(items@, *model),
{
    let mut i: usize = 0;
    while i < items.len()
        invariant
            i <= items@.len(),
            frame_problem(items@.take(i as int), *model) is None,
        decreases items@.len() - i,
    {
        proof {
            assert(items@.take(i as int + 1).drop_last() =~= items@.take(i as int));
        }
        let frame = match items[i].role {
            MediaRole::StartFrame => Some("first_frame"),
            MediaRole::EndFrame => Some("last_frame"),
            MediaRole::Reference | MediaRole::VideoInput | MediaRole::AudioInput => None,
        };
        if let Some(frame) = frame {
            if !names_frame(model, frame) {
                let tail = concat(frame, " input");
                let problem = concat3(model.name.as_str(), " does not support a ", tail.as_str());
                proof {
                    frame_problem_stays(items@, *model, i as int + 1);
                }
                return Some(problem);
            }
        }
        i = i + 1;
    }
    assert(items@.take(i as int) =~= items@);
    None
}

fn check_kinds(draft: &GenerationDraft, model: &VideoModel) -> (r: Option<String>)
    ensures
        crate::domain::opt_view(r) == either(
            kind_problem(*draft, *model, MediaKind::Image),
            either(
                kind_problem(*draft, *model, MediaKind::Video),
                kind_problem(*draft, *model, MediaKind::Audio),
            ),
        ),
{
    let problem = check_kind(draft, model, MediaKind::Image);
    if problem.is_some() {
        return problem;
    }
    let problem = check_kind(draft, model, MediaKind::Video);
    if problem.is_some() {
        return problem;
    }
    check_kind(draft, model, MediaKind::Audio)
}

fn check_roles(draft: &GenerationDraft, model: &VideoModel) -> (r: Option<String>)
    ensures
        crate::domain::opt_view(r) == either(
            role_problem(*draft, *model, MediaRole::Reference),
            either(
                role_problem(*draft, *model, MediaRole::VideoInput),
                role_problem(*draft, *model, MediaRole::AudioInput),
            ),
        ),
{
    let problem = check_role(draft, model, MediaRole::Reference);
    if problem.is_some() {
        return problem;
    }
    let problem = check_role(draft, model, MediaRole::VideoInput);
    if problem.is_some() {
        return problem;
    }
    check_role(draft, model, MediaRole::AudioInput)
}

/// Refuses a draft whose media the chosen model cannot take.
pub fn validate_model_media(
    draft: &GenerationDraft,
    model: Option<&VideoModel>,
    stale: bool,
) -> (r: Result<(), String>)
    ensures
        match r {
            Ok(_) => media_problem(
                *draft,
                match model {
                    Some(model) => Some(*model),
                    None => None,
                },
                stale,
            ) is None,
            Err(message) => media_problem(
                *draft,
                match model {
                    Some(model) => Some(*model),
                    None => None,
                },
                stale,
            ) == Some(message@),
        },
{
    let model = match model {
        Some(model) => model,
        None => {
            return Err("The selected model is not in the provider catalog".to_owned());
        },
    };
    let videos: usize = count_items(&draft.media, draft.media.len(), MediaKind::Video);
    let sounds: usize = count_items(&draft.media, draft.media.len(), MediaKind::Audio);
    assert(draft.media@.take(draft.media@.len() as int) =~= draft.media@);
    if stale && (videos > 0 || sounds > 0) {
        return Err(
            "Refresh this provider's model catalog before reviewing video or audio references. Cached capabilities may be out of date.".to_owned(),
        );
    }
    if let Some(problem) = check_kinds(draft, model) {
        return Err(problem);
    }
    if draft.provider_id.is(FAL_PROVIDER_ID) {
        if let Some(problem) = check_roles(draft, model) {
            return Err(problem);
        }
    }
    if let Some(problem) = check_frames(&draft.media, model) {
        return Err(problem);
    }
    Ok(())
}

proof fn no_frame_problem(items: Seq<DraftMedia>, model: VideoModel, i: int)
    requires
        frame_problem(items, model) is None,
        0 <= i < items.len(),
    ensures
        frame_of(items[i].role) matches Some(frame) ==> takes_frame(model, frame),
    decreases items.len(),
{
    if i + 1 < items.len() {
        no_frame_problem(items.drop_last(), model, i);
    }
}

proof fn counted(items: Seq<DraftMedia>, i: int)
    requires
        0 <= i < items.len(),
    ensures
        crate::gui::media_list::count_of(items, items[i].role.kind()) > 0,
    decreases items.len(),
{
    if i + 1 < items.len() {
        counted(items.drop_last(), i);
    }
}

/// Every item of a draft that is not refused is one that the model takes: its kind is among those
/// that the model lists, or it is an image and the model lists none, and a frame that it fixes is
/// one that the model takes. On fal.ai the items in a role have room in the model's input fields.
pub proof fn accepted_media_fit_the_model(
    draft: GenerationDraft,
    model: VideoModel,
    stale: bool,
    i: int,
    role: MediaRole,
)
    requires
        media_problem(draft, Some(model), stale) is None,
        0 <= i < draft.media@.len(),
    ensures
        match model.input_modalities {
            Some(kinds) => kinds@.contains(draft.media@[i].role.kind()),
            None => draft.media@[i].role.kind() == MediaKind::Image,
        },
        frame_of(draft.media@[i].role) matches Some(frame) ==> takes_frame(model, frame),
        draft.provider_id@ == FAL_PROVIDER_ID@ && (role == MediaRole::Reference || role
            == MediaRole::VideoInput || role == MediaRole::AudioInput) ==> role_count(
            draft.media@,
            role,
        ) <= room(model.media_bindings@, role.kind()),
{
    counted(draft.media@, i);
    no_frame_problem(draft.media@, model, i);
    assert(kind_problem(draft, model, draft.media@[i].role.kind()) is None);
    if draft.provider_id@ == FAL_PROVIDER_ID@ {
        assert(role_problem(draft, model, MediaRole::Reference) is None);
        assert(role_problem(draft, model, MediaRole::VideoInput) is None);
        assert(role_problem(draft, model, MediaRole::AudioInput) is None);
    }
}

/// A control for one field of a model's schema.
pub enum SchemaControl {
    /// A list of values, the first of which may be no value.
    Choice { values: Vec<Option<Json>>, selected: u32 },
    /// A free text.
    Text { text: String },
    /// A text that writes a whole number.
    Integer { text: String },
    /// A text that writes a number, and the finite number that it writes, if it does.
    Number { text: String, value: Option<Json> },
}

/// A control under the name of its field.
pub struct NamedControl {
    pub name: String,
    pub control: SchemaControl,
}

/// The values of a list of optional documents.
pub open spec fn choices_view(values: Seq<Option<Json>>) -> Seq<Option<JsonView>> {
    Seq::new(values.len(), |i: int| optional_view(values[i]))
}

/// The value of an optional document.
pub open spec fn optional_view(value: Option<Json>) -> Option<JsonView> {
    match value {
        Some(json) => Some(json@),
        None => None,
    }
}

/// The value of a list at a place, if there is one.
pub open spec fn picked<T>(values: Seq<Option<T>>, index: u32) -> Option<T> {
    if index < values.len() {
        values[index as int]
    } else {
        None
    }
}

/// What a control says: a value, nothing, or a complaint.
pub open spec fn control_says(control: SchemaControl) -> Result<Option<JsonView>, Seq<char>> {
    match control {
        SchemaControl::Choice { values, selected } => Ok(picked(choices_view(values@), selected)),
        SchemaControl::Text { text } => if crate::text::trimmed(text@).len() == 0 {
            Ok(None)
        } else {
            Ok(Some(JsonView::Text(text@)))
        },
        SchemaControl::Integer { text } => if crate::text::trimmed(text@).len() == 0 {
            Ok(None)
        } else {
            match crate::text::parsed_signed(crate::text::trimmed(text@)) {
                Some(n) => Ok(Some(JsonView::Number(crate::outside::number_of(n as i64)))),
                None => Err("must be a whole number"@),
            }
        },
        SchemaControl::Number { text, value } => if crate::text::trimmed(text@).len() == 0 {
            Ok(None)
        } else {
            match value {
                Some(json) => Ok(Some(json@)),
                None => Err("must be a finite number"@),
            }
        },
    }
}

fn copy_choice(values: &Vec<Option<Json>>, index: u32) -> (r: Option<Json>)
    ensures
        optional_view(r) == picked(choices_view(values@), index),
{
    let place: usize = index as usize;
    if place < values.len() {
        match &values[place] {
            Some(json) => Some(copy_json(json)),
            None => None,
        }
    } else {
        None
    }
}

/// What a control says: a value, nothing, or a complaint.
pub fn schema_control_value(control: &SchemaControl) -> (r: Result<Option<Json>, String>)
    ensures
        match r {
            Ok(value) => control_says(*control) == Ok::<Option<JsonView>, Seq<char>>(
                optional_view(value),
            ),
            Err(message) => control_says(*control) == Err::<Option<JsonView>, Seq<char>>(message@),
        },
{
    match control {
        SchemaControl::Choice { values, selected } => Ok(copy_choice(values, *selected)),
        SchemaControl::Text { text } => {
            if trim_text(text.as_str()).unicode_len() == 0 {
                Ok(None)
            } else {
                Ok(Some(Json::Text(text.clone())))
            }
        },
        SchemaControl::Integer { text } => {
            let value = trim_text(text.as_str());
            if value.unicode_len() == 0 {
                return Ok(None);
            }
            match parse_signed(value) {
                Some(n) => Ok(Some(Json::Number(integer(n)))),
                None => Err("must be a whole number".to_owned()),
            }
        },
        SchemaControl::Number { text, value } => {
            if trim_text(text.as_str()).unicode_len() == 0 {
                return Ok(None);
            }
            match value {
                Some(json) => Ok(Some(copy_json(json))),
                None => Err("must be a finite number".to_owned()),
            }
        },
    }
}

/// Everything that the composer's controls hold.
pub struct ComposerFields {
    pub provider: u32,
    pub model_ids: Vec<String>,
    pub model: u32,
    pub prompt: String,
    pub durations: Vec<Option<u32>>,
    pub duration: u32,
    pub resolutions: Vec<Option<String>>,
    pub resolution: u32,
    pub aspects: Vec<Option<String>>,
    pub aspect: u32,
    pub sizes: Vec<Option<String>>,
    pub size: u32,
    pub audio_available: bool,
    pub audio: bool,
    pub seed_available: bool,
    pub seed: String,
    pub advanced: String,
    /// Sorted by name, each name once.
    pub controls: Vec<NamedControl>,
    pub media: Vec<DraftMedia>,
}

/// The texts of a list of optional strings.
pub open spec fn optional_texts(values: Seq<Option<String>>) -> Seq<Option<Seq<char>>> {
    Seq::new(values.len(), |i: int| crate::domain::opt_view(values[i]))
}

/// The chosen model's identifier, if a model is chosen.
pub open spec fn chosen_model(fields: ComposerFields) -> Option<Seq<char>> {
    if fields.model < fields.model_ids@.len() {
        Some(fields.model_ids@[fields.model as int]@)
    } else {
        None
    }
}

/// The chosen model's identifier, if a model is chosen.
pub fn selected_model_id(fields: &ComposerFields) -> (r: Option<String>)
    ensures
        crate::domain::opt_view(r) == chosen_model(*fields),
{
    let place: usize = fields.model as usize;
    if place < fields.model_ids.len() {
        Some(fields.model_ids[place].clone())
    } else {
        None
    }
}

/// The seed that the text writes: none where the model takes none or the text is blank, and a
/// complaint where it writes no whole number.
pub open spec fn seed_says(available: bool, text: Seq<char>) -> Result<Option<i64>, Seq<char>> {
    if !available || crate::text::trimmed(text).len() == 0 {
        Ok(None)
    } else {
        match crate::text::parsed_signed(crate::text::trimmed(text)) {
            Some(n) => Ok(Some(n as i64)),
            None => Err("Seed must be a whole number"@),
        }
    }
}

fn read_seed(available: bool, text: &str) -> (r: Result<Option<i64>, String>)
    ensures
        match r {
            Ok(seed) => seed_says(available, text@) == Ok::<Option<i64>, Seq<char>>(seed),
            Err(message) => seed_says(available, text@) == Err::<Option<i64>, Seq<char>>(message@),
        },
{
    let value = trim_text(text);
    if !available || value.unicode_len() == 0 {
        return Ok(None);
    }
    match parse_signed(value) {
        Some(n) => Ok(Some(n)),
        None => Err("Seed must be a whole number".to_owned()),
    }
}

/// The members of the advanced JSON, given what JSON makes of the text; a complaint where the text
/// is neither blank nor an object.
pub open spec fn advanced_says(text: Seq<char>, parsed: Result<JsonView, Seq<char>>) -> Result<
    Seq<(Seq<char>, JsonView)>,
    Seq<char>,
> {
    if crate::text::trimmed(text).len() == 0 {
        Ok(Seq::empty())
    } else {
        match parsed {
            Ok(JsonView::Object(members)) => Ok(members),
            Ok(_) => Err("Advanced provider JSON must be an object"@),
            Err(message) => Err("Advanced provider JSON is invalid: "@ + message),
        }
    }
}

/// The value of what JSON makes of a text.
pub open spec fn parsed_view(parsed: Result<Json, String>) -> Result<JsonView, Seq<char>> {
    match parsed {
        Ok(json) => Ok(json@),
        Err(message) => Err(message@),
    }
}

/// The members of the advanced JSON, given what JSON makes of the text.
pub fn advanced_members(text: &str, parsed: Result<Json, String>) -> (r: Result<
    Vec<Member>,
    String,
>)
    ensures
        match r {
            Ok(members) => advanced_says(text@, parsed_view(parsed)) == Ok::<
                Seq<(Seq<char>, JsonView)>,
                Seq<char>,
            >(crate::json::members_view(members@)),
            Err(message) => advanced_says(text@, parsed_view(parsed)) == Err::<
                Seq<(Seq<char>, JsonView)>,
                Seq<char>,
            >(message@),
        },
{
    broadcast use crate::json::object_view;

    if trim_text(text).unicode_len() == 0 {
        let members: Vec<Member> = Vec::new();
        assert(crate::json::members_view(members@) =~= Seq::empty());
        return Ok(members);
    }
    match parsed {
        Ok(json) => match json {
            Json::Object(members) => Ok(members),
            Json::Null | Json::Bool(_) | Json::Number(_) | Json::Text(_) | Json::Array(_) => Err(
                "Advanced provider JSON must be an object".to_owned(),
            ),
        },
        Err(message) => Err(concat("Advanced provider JSON is invalid: ", message.as_str())),
    }
}

/// The members with the first `n` controls' values put in, or the first complaint. Where faults
/// are let pass, a faulty control changes nothing.
pub open spec fn with_controls(
    base: Seq<(Seq<char>, JsonView)>,
    controls: Seq<NamedControl>,
    n: nat,
    strict: bool,
) -> Result<Seq<(Seq<char>, JsonView)>, Seq<char>>
    decreases n,
{
    if n == 0 {
        Ok(base)
    } else {
        match with_controls(base, controls, (n - 1) as nat, strict) {
            Err(message) => Err(message),
            Ok(members) => {
                let last = controls[n - 1];
                match control_says(last.control) {
                    Ok(Some(value)) => Ok(crate::json::inserted(members, last.name@, value)),
                    Ok(None) => Ok(members),
                    Err(message) => if strict {
                        Err(last.name@ + ": "@ + message)
                    } else {
                        Ok(members)
                    },
                }
            },
        }
    }
}

proof fn control_complaint_stays(
    base: Seq<(Seq<char>, JsonView)>,
    controls: Seq<NamedControl>,
    i: nat,
    n: nat,
    strict: bool,
)
    requires
        i <= n,
        with_controls(base, controls, i, strict) is Err,
    ensures
        with_controls(base, controls, n, strict) == with_controls(base, controls, i, strict),
    decreases n,
{
    if i < n {
        control_complaint_stays(base, controls, i, (n - 1) as nat, strict);
    }
}

fn put_controls(members: &mut Vec<Member>, controls: &Vec<NamedControl>, strict: bool) -> (r:
    Option<String>)
    ensures
        match r {
            None => with_controls(
                crate::json::members_view(old(members)@),
                controls@,
                controls@.len(),
                strict,
            ) == Ok::<Seq<(Seq<char>, JsonView)>, Seq<char>>(
                crate::json::members_view(final(members)@),
            ),
            Some(message) => with_controls(
                crate::json::members_view(old(members)@),
                controls@,
                controls@.len(),
                strict,
            ) == Err::<Seq<(Seq<char>, JsonView)>, Seq<char>>(message@),
        },
{
    let ghost base = crate::json::members_view(members@);
    let mut i: usize = 0;
    while i < controls.len()
        invariant
            i <= controls@.len(),
            base == crate::json::members_view(old(members)@),
            with_controls(base, controls@, i as nat, strict) == Ok::<
                Seq<(Seq<char>, JsonView)>,
                Seq<char>,
            >(crate::json::members_view(members@)),
        decreases controls@.len() - i,
    {
        match schema_control_value(&controls[i].control) {
            Ok(value) => {
                if let Some(json) = value {
                    insert_member(members, controls[i].name.clone(), json);
                }
            },
            Err(message) => {
                if strict {
                    proof {
                        control_complaint_stays(
                            base,
                            controls@,
                            i as nat + 1,
                            controls@.len(),
                            strict,
                        );
                    }
                    return Some(concat3(controls[i].name.as_str(), ": ", message.as_str()));
                }
            },
        }
        i = i + 1;
    }
    None
}

fn pick_text(values: &Vec<Option<String>>, index: u32) -> (r: Option<String>)
    ensures
        crate::domain::opt_view(r) == picked(optional_texts(values@), index),
{
    let place: usize = index as usize;
    if place < values.len() {
        crate::domain::copy_text(&values[place])
    } else {
        None
    }
}

fn copy_media(items: &Vec<DraftMedia>) -> (r: Vec<DraftMedia>)
    ensures
        r@ == items@,
{
    let mut r: Vec<DraftMedia> = Vec::new();
    let mut i: usize = 0;
    while i < items.len()
        invariant
            i <= items@.len(),
            r@ == items@.take(i as int),
        decreases items@.len() - i,
    {
        r.push(items[i].copy());
        assert(r@ =~= items@.take(i as int + 1));
        i = i + 1;
    }
    assert(r@ =~= items@);
    r
}

/// The members of the advanced JSON and the controls together, or the first complaint. Where
/// faults are let pass, faulty advanced JSON counts as empty.
pub open spec fn adapter_says(
    fields: ComposerFields,
    strict: bool,
    parsed: Result<JsonView, Seq<char>>,
) -> Result<Seq<(Seq<char>, JsonView)>, Seq<char>> {
    match advanced_says(fields.advanced@, parsed) {
        Ok(base) => with_controls(base, fields.controls@, fields.controls@.len(), strict),
        Err(message) => if strict {
            Err(message)
        } else {
            with_controls(Seq::empty(), fields.controls@, fields.controls@.len(), strict)
        },
    }
}

/// Why the controls make no draft: no model is chosen, the provider, model or prompt are faulty
/// (`basics`), or the seed, the advanced JSON or a control is. Where faults are let pass, only
/// `basics` counts.
pub open spec fn composing_problem(
    fields: ComposerFields,
    strict: bool,
    basics: Option<Seq<char>>,
    parsed: Result<JsonView, Seq<char>>,
) -> Option<Seq<char>> {
    if strict && chosen_model(fields) is None {
        Some("Choose a model"@)
    } else if basics is Some {
        basics
    } else {
        match seed_says(fields.seed_available, fields.seed@) {
            Err(message) if strict => Some(message),
            _ => match adapter_says(fields, strict, parsed) {
                Err(message) => Some(message),
                Ok(_) => None,
            },
        }
    }
}

/// Whether a draft is the one that the controls stand for.
pub open spec fn composed(
    fields: ComposerFields,
    strict: bool,
    parsed: Result<JsonView, Seq<char>>,
    draft: GenerationDraft,
) -> bool {
    &&& draft.provider_id@ == crate::gui::media_list::provider_at(fields.provider)
    &&& draft.model@ == match chosen_model(fields) {
        Some(model) => model,
        None => ""@,
    }
    &&& draft.prompt@ == fields.prompt@
    &&& draft.duration == picked(fields.durations@, fields.duration)
    &&& crate::domain::opt_view(draft.resolution) == picked(
        optional_texts(fields.resolutions@),
        fields.resolution,
    )
    &&& crate::domain::opt_view(draft.aspect_ratio) == picked(
        optional_texts(fields.aspects@),
        fields.aspect,
    )
    &&& crate::domain::opt_view(draft.size) == picked(optional_texts(fields.sizes@), fields.size)
    &&& draft.generate_audio == (if fields.audio_available {
        Some(fields.audio)
    } else {
        None
    })
    &&& draft.seed == match seed_says(fields.seed_available, fields.seed@) {
        Ok(seed) => seed,
        Err(_) => None,
    }
    &&& match adapter_says(fields, strict, parsed) {
        Ok(members) => optional_view(draft.adapter_options) == (if members.len() == 0 {
            None
        } else {
            Some(JsonView::Object(members))
        }),
        Err(_) => false,
    }
    &&& draft.media@ == fields.media@
}

fn read_adapter(fields: &ComposerFields, strict: bool, parsed: Result<Json, String>) -> (r: Result<
    Vec<Member>,
    String,
>)
    ensures
        match r {
            Ok(members) => adapter_says(*fields, strict, parsed_view(parsed)) == Ok::<
                Seq<(Seq<char>, JsonView)>,
                Seq<char>,
            >(crate::json::members_view(members@)),
            Err(message) => adapter_says(*fields, strict, parsed_view(parsed)) == Err::<
                Seq<(Seq<char>, JsonView)>,
                Seq<char>,
            >(message@),
        },
{
    let mut members = match advanced_members(fields.advanced.as_str(), parsed) {
        Ok(members) => members,
        Err(message) => {
            if strict {
                return Err(message);
            }
            let none: Vec<Member> = Vec::new();
            assert(crate::json::members_view(none@) =~= Seq::empty());
            none
        },
    };
    match put_controls(&mut members, &fields.controls, strict) {
        Some(message) => Err(message),
        None => Ok(members),
    }
}

/// Makes the draft that the controls stand for, given what JSON makes of the advanced text and the
/// complaint about the provider, model and prompt, if there is one.
pub fn draft_from(
    fields: &ComposerFields,
    strict: bool,
    basics: Option<String>,
    parsed: Result<Json, String>,
) -> (r: Result<GenerationDraft, String>)
    ensures
        match r {
            Ok(draft) => composing_problem(
                *fields,
                strict,
                crate::domain::opt_view(basics),
                parsed_view(parsed),
            ) is None && composed(*fields, strict, parsed_view(parsed), draft),
            Err(message) => composing_problem(
                *fields,
                strict,
                crate::domain::opt_view(basics),
                parsed_view(parsed),
            ) == Some(message@),
        },
{
    broadcast use crate::json::object_view;

    let model = match selected_model_id(fields) {
        Some(model) => model,
        None => {
            if strict {
                return Err("Choose a model".to_owned());
            }
            "".to_owned()
        },
    };
    if let Some(problem) = basics {
        return Err(problem);
    }
    let seed = match read_seed(fields.seed_available, fields.seed.as_str()) {
        Ok(seed) => seed,
        Err(message) => {
            if strict {
                return Err(message);
            }
            None
        },
    };
    let members = match read_adapter(fields, strict, parsed) {
        Ok(members) => members,
        Err(message) => {
            return Err(message);
        },
    };
    let adapter_options = if members.len() == 0 {
        None
    } else {
        Some(Json::Object(members))
    };
    let place: usize = fields.duration as usize;
    let duration = if place < fields.durations.len() {
        fields.durations[place]
    } else {
        None
    };
    Ok(
        GenerationDraft {
            provider_id: provider_id_for_index(fields.provider),
            model,
            prompt: fields.prompt.clone(),
            duration,
            resolution: pick_text(&fields.resolutions, fields.resolution),
            aspect_ratio: pick_text(&fields.aspects, fields.aspect),
            size: pick_text(&fields.sizes, fields.size),
            generate_audio: if fields.audio_available {
                Some(fields.audio)
            } else {
                None
            },
            seed,
            adapter_options,
            media: copy_media(&fields.media),
        },
    )
}

/// Makes the draft that the controls stand for, given the complaint about the provider, model and
/// prompt, if there is one.
pub fn build_draft(fields: &ComposerFields, strict: bool, basics: Option<String>) -> (r: Result<
    GenerationDraft,
    String,
>)
    ensures
        match r {
            Ok(draft) => composing_problem(
                *fields,
                strict,
                crate::domain::opt_view(basics),
                crate::outside::document_of(fields.advanced@),
            ) is None && composed(
                *fields,
                strict,
                crate::outside::document_of(fields.advanced@),
                draft,
            ),
            Err(message) => composing_problem(
                *fields,
                strict,
                crate::domain::opt_view(basics),
                crate::outside::document_of(fields.advanced@),
            ) == Some(message@),
        },
{
    let parsed = read_document(fields.advanced.as_str());
    draft_from(fields, strict, basics, parsed)
}

proof fn faultless_controls(
    base: Seq<(Seq<char>, JsonView)>,
    controls: Seq<NamedControl>,
    n: nat,
)
    requires
        with_controls(base, controls, n, true) is Ok,
    ensures
        with_controls(base, controls, n, false) == with_controls(base, controls, n, true),
    decreases n,
{
    if n > 0 {
        faultless_controls(base, controls, (n - 1) as nat);
    }
}

/// Controls that make a draft for review make the same draft for saving.
pub proof fn reviewed_drafts_are_saved_alike(
    fields: ComposerFields,
    basics: Option<Seq<char>>,
    parsed: Result<JsonView, Seq<char>>,
    draft: GenerationDraft,
)
    requires
        composing_problem(fields, true, basics, parsed) is None,
        composed(fields, true, parsed, draft),
    ensures
        composing_problem(fields, false, basics, parsed) is None,
        composed(fields, false, parsed, draft),
{
    let base = advanced_says(fields.advanced@, parsed)->Ok_0;
    faultless_controls(base, fields.controls@, fields.controls@.len());
}

/// Why a draft cannot be reviewed: it is faulty in itself (`problem`), it would send a file of
/// this machine to OpenRouter, or the model cannot take its media.
pub open spec fn review_problem(
    draft: GenerationDraft,
    problem: Option<Seq<char>>,
    model: Option<VideoModel>,
    stale: bool,
) -> Option<Seq<char>> {
    if problem is Some {
        problem
    } else if draft.provider_id@ == OPENROUTER_PROVIDER_ID@ && crate::gui::media_list::any_local(
        draft.media@,
    ) {
        Some(
            "OpenRouter reference media must use public HTTPS URLs. Local rows are kept in your draft, but cannot be reviewed with OpenRouter; switch to fal.ai or replace them with URLs."@,
        )
    } else {
        media_problem(draft, model, stale)
    }
}

/// Refuses a draft that cannot be reviewed.
pub fn check_draft(
    draft: &GenerationDraft,
    problem: Option<String>,
    model: Option<&VideoModel>,
    stale: bool,
) -> (r: Result<(), String>)
    ensures
        match r {
            Ok(_) => review_problem(
                *draft,
                crate::domain::opt_view(problem),
                match model {
                    Some(model) => Some(*model),
                    None => None,
                },
                stale,
            ) is None,
            Err(message) => review_problem(
                *draft,
                crate::domain::opt_view(problem),
                match model {
                    Some(model) => Some(*model),
                    None => None,
                },
                stale,
            ) == Some(message@),
        },
{
    if let Some(message) = problem {
        return Err(message);
    }
    if draft.provider_id.is(OPENROUTER_PROVIDER_ID) && has_local(&draft.media) {
        return Err(
            "OpenRouter reference media must use public HTTPS URLs. Local rows are kept in your draft, but cannot be reviewed with OpenRouter; switch to fal.ai or replace them with URLs.".to_owned(),
        );
    }
    validate_model_media(draft, model, stale)
}

/// The text controls' texts, by name.
pub open spec fn shown_texts(controls: Seq<NamedControl>) -> Seq<(Seq<char>, Seq<char>)>
    decreases controls.len(),
{
    if controls.len() == 0 {
        Seq::empty()
    } else {
        let rest = shown_texts(controls.drop_last());
        let last = controls.last();
        match last.control {
            SchemaControl::Choice { .. } => rest,
            SchemaControl::Text { text } => rest.push((last.name@, text@)),
            SchemaControl::Integer { text } => rest.push((last.name@, text@)),
            SchemaControl::Number { text, .. } => rest.push((last.name@, text@)),
        }
    }
}

/// The names and texts of a list of editor fields.
pub open spec fn entries_view(entries: Seq<SchemaText>) -> Seq<(Seq<char>, Seq<char>)> {
    Seq::new(entries.len(), |i: int| (entries[i].name@, entries[i].value@))
}

/// The exact text that the controls hold, for the next session.
pub fn draft_editor_state(fields: &ComposerFields) -> (state: DraftEditorState)
    ensures
        state.seed_text@ == fields.seed@,
        state.advanced_json_text@ == fields.advanced@,
        entries_view(state.schema_text@) == shown_texts(fields.controls@),
{
    let mut schema_text: Vec<SchemaText> = Vec::new();
    let mut i: usize = 0;
    assert(entries_view(schema_text@) =~= shown_texts(fields.controls@.take(0)));
    while i < fields.controls.len()
        invariant
            i <= fields.controls@.len(),
            entries_view(schema_text@) == shown_texts(fields.controls@.take(i as int)),
        decreases fields.controls@.len() - i,
    {
        proof {
            assert(fields.controls@.take(i as int + 1).drop_last() =~= fields.controls@.take(
                i as int,
            ));
        }
        let text = match &fields.controls[i].control {
            SchemaControl::Choice { .. } => None,
            SchemaControl::Text { text } => Some(text),
            SchemaControl::Integer { text } => Some(text),
            SchemaControl::Number { text, .. } => Some(text),
        };
        if let Some(text) = text {
            schema_text.push(
                SchemaText { name: fields.controls[i].name.clone(), value: text.clone() },
            );
            assert(entries_view(schema_text@) =~= shown_texts(fields.controls@.take(i as int + 1)));
        }
        i = i + 1;
    }
    assert(fields.controls@.take(i as int) =~= fields.controls@);
    DraftEditorState {
        seed_text: fields.seed.clone(),
        advanced_json_text: fields.advanced.clone(),
        schema_text,
    }
}

} // verus!
