//! What the window's parts promise: how a job's card changes, what media rows and controls show,
//! what is composed from the fields, and what a review shows.

use crate::domain::{
    CostQuote, DraftMedia, GenerationDraft, MediaKind, MediaRole, MediaSource, VideoJob,
    VideoModel, VideoRequest,
};
use crate::gui::composer::{ComposerFields, NamedControl, SchemaControl};
use crate::gui::composer_state::{FingerprintView, KeyView, SelectionView, SettingsSource};
use crate::gui::job_cards::{CardView, Progress};
use crate::gui::media_list::{EntryStepView, FoundFile};
use crate::gui::model_controls::{PlanView, SchemaTextKind};
use crate::gui::restore::{UiValueView, UpdateView};
use crate::history::JobRecord;
use crate::json::JsonView;
use vstd::prelude::*;

verus! {

/// A card follows its job: while the job goes on it is active and can be paused, and once it ends it
/// can be neither; a completed job fills the bar, and one that failed empties it.
pub proof fn cards_follow_their_jobs(card: CardView, job: VideoJob)
    ensures
        ({
            let going_on = !(job.status is Completed) && !(job.status is Failed) && !(job.status
                is Cancelled) && !(job.status is Expired);
            let taken = card.accepted(job);
            let told = card.updated(job);
            &&& taken.active == going_on && taken.can_pause == going_on && !taken.can_resume
            &&& told.active == going_on && told.can_pause == going_on
            &&& told.can_resume == card.can_resume
            &&& taken.status == job.status@.name() && told.status == job.status@.name()
            &&& going_on ==> told.progress == card.progress && told.animation == card.animation
            &&& job.status is Completed ==> told.progress == Progress::Full
            &&& !going_on && !(job.status is Completed) ==> told.progress == Progress::Empty
            &&& taken.title == card.title && told.title == card.title
            &&& taken.video == card.video && told.video == card.video
            &&& job.status is Failed ==> (job.error matches Some(message) ==> told.detail
                == message@)
        }),
{
    reveal_strlit("completed");
    reveal_strlit("failed");
    reveal_strlit("pending");
    reveal_strlit("in_progress");
    assert("pending"@.len() == 7 && "in_progress"@.len() == 11 && "completed"@.len() == 9);
    assert("failed"@.len() == 6);
}

/// A card of a saved video shows where it is and is done; one whose job was lost can only be read;
/// one that is paused can be resumed, and one that needs attention where the trouble can pass.
pub proof fn cards_end_as_they_should(
    card: CardView,
    path: Seq<char>,
    message: Seq<char>,
    recoverable: bool,
    remote_continues: bool,
    paused: bool,
)
    ensures
        ({
            let done = card.stored(path);
            &&& done.video == Some(path) && done.progress == Progress::Full && !done.active
            &&& !done.can_pause && !done.can_resume && done.title == card.title
            &&& done.detail == "Saved to "@ + path
        }),
        !card.lost().active && !card.lost().can_pause && !card.lost().can_resume
            && card.lost().video == card.video && card.lost().title == card.title,
        !card.paused().active && !card.paused().can_pause && card.paused().can_resume
            && card.paused().video == card.video && card.paused().detail == card.detail,
        card.resuming().active && card.resuming().can_pause && !card.resuming().can_resume
            && card.resuming().video == card.video,
        ({
            let faulty = card.faulty(message, recoverable);
            &&& faulty.detail == message && faulty.can_resume == recoverable && !faulty.active
            &&& !faulty.can_pause && faulty.video == card.video && faulty.title == card.title
        }),
        !card.stopped(remote_continues).active && card.stopped(remote_continues).video
            == card.video && card.stopped(remote_continues).can_resume == card.can_resume,
        card.left_over(paused).can_resume && card.left_over(paused).active == card.active
            && card.left_over(paused).video == card.video,
        ({
            let fresh = CardView::fresh(message);
            &&& fresh.title == message && fresh.video is None && !fresh.active
            &&& fresh.can_resume && !fresh.can_pause && fresh.progress == Progress::Empty
        }),
        crate::text::trimmed(message).len() == 0 ==> card.titled(message) == card,
        crate::text::trimmed(message).len() > 0 ==> card.titled(message).title == message
            && card.titled(message).status == card.status && card.titled(message).active
            == card.active,
{
}

/// A card that waits or downloads is active; a download shows how much of the whole is there, where
/// the whole is known.
pub proof fn cards_show_progress(
    card: CardView,
    attempt: usize,
    seconds: u64,
    written: u64,
    total: Option<u64>,
    written_text: Seq<char>,
    total_text: Option<Seq<char>>,
)
    ensures
        card.waiting(attempt, seconds).active && card.waiting(attempt, seconds).progress
            == card.progress && card.waiting(attempt, seconds).video == card.video,
        ({
            let now = card.downloading(written, total, written_text, total_text);
            &&& now.active && now.video == card.video && now.can_pause == card.can_pause
            &&& total is None ==> now.progress == card.progress
            &&& total matches Some(all) ==> (all > 0 ==> now.progress == (Progress::Part {
                written,
                total: all,
            }))
            &&& total_text is None ==> now.detail == "Saving video… "@ + written_text
        }),
{
}

/// A card of a saved job shows its video where the file is there; otherwise it can be resumed if and
/// only if the job did not end.
pub proof fn saved_jobs_are_shown(card: CardView, record: JobRecord, output_exists: bool)
    ensures
        ({
            let shown = card.restored(record, output_exists);
            let ended = record.status@ == "completed"@ || record.status@ == "failed"@
                || record.status@ == "cancelled"@ || record.status@ == "expired"@;
            &&& record.output_path matches Some(path) ==> (output_exists ==> shown.video == Some(
                path@,
            ) && shown.progress == Progress::Full && shown.can_resume == card.can_resume)
            &&& record.output_path is None || !output_exists ==> shown.video == card.video
                && shown.progress == card.progress
            &&& (record.output_path is None || !output_exists) && !ended ==> shown.can_resume
            &&& (record.output_path is None || !output_exists) && ended ==> shown.can_resume
                == card.can_resume
            &&& shown.active == card.active && shown.title == card.title
            &&& record.error matches Some(error) ==> shown.detail == error@
            &&& record.error is None ==> (record.output_path matches Some(path) ==> shown.detail
                == "Saved to "@ + path@)
        }),
{
}

/// Pictures, videos and sounds are told by the extensions of their files, in letters of either case.
pub proof fn media_are_told_by_extension(path: Seq<char>, extension: Seq<char>)
    requires
        crate::paths::extension_of(path) == Some(extension),
    ensures
        ({
            let small = crate::text::lower_text(extension);
            let kind = crate::gui::media_list::path_kind(path);
            &&& small == "png"@ || small == "jpg"@ || small == "jpeg"@ || small == "webp"@ || small
                == "gif"@ || small == "avif"@ || small == "bmp"@ || small == "tif"@ || small
                == "tiff"@ <==> kind == Some(MediaKind::Image)
            &&& small == "mp4"@ || small == "mov"@ ==> kind == Some(MediaKind::Video)
            &&& small == "mp3"@ || small == "wav"@ ==> kind == Some(MediaKind::Audio)
            &&& kind == Some(MediaKind::Video) ==> small == "mp4"@ || small == "mov"@
            &&& kind == Some(MediaKind::Audio) ==> small == "mp3"@ || small == "wav"@
        }),
{
    reveal_strlit("png");
    reveal_strlit("jpg");
    reveal_strlit("jpeg");
    reveal_strlit("webp");
    reveal_strlit("gif");
    reveal_strlit("avif");
    reveal_strlit("bmp");
    reveal_strlit("tif");
    reveal_strlit("tiff");
    reveal_strlit("mp4");
    reveal_strlit("mov");
    reveal_strlit("mp3");
    reveal_strlit("wav");
    assert("png"@[0] == 'p' && "jpg"@[0] == 'j' && "gif"@[0] == 'g' && "bmp"@[0] == 'b');
    assert("tif"@[0] == 't' && "mp4"@[0] == 'm' && "mov"@[0] == 'm' && "mp3"@[0] == 'm');
    assert("wav"@[0] == 'w' && "mp4"@[1] == 'p' && "mov"@[1] == 'o' && "mp3"@[1] == 'p');
    assert("mp4"@[2] == '4' && "mp3"@[2] == '3');
    assert("jpeg"@.len() == 4 && "webp"@.len() == 4 && "avif"@.len() == 4 && "tiff"@.len() == 4);
    assert("mp4"@.len() == 3 && "mov"@.len() == 3 && "mp3"@.len() == 3 && "wav"@.len() == 3);
}

/// The places of the two providers, and what they are called.
pub proof fn providers_have_their_places(index: u32, name: Seq<char>)
    ensures
        crate::gui::media_list::provider_at(0) == "openrouter"@,
        crate::gui::media_list::provider_at(1) == "fal"@,
        crate::gui::media_list::place_of_provider("fal"@) == 1,
        name != "fal"@ ==> crate::gui::media_list::place_of_provider(name) == 0,
        crate::gui::media_list::provider_title("fal"@) == "fal.ai"@,
        crate::gui::media_list::provider_title("openrouter"@) == "OpenRouter"@,
        name != "fal"@ && name != "openrouter"@ ==> crate::gui::media_list::provider_title(name)
            == "Video provider"@,
{
    reveal_strlit("fal");
    reveal_strlit("openrouter");
    assert("fal"@.len() == 3 && "openrouter"@.len() == 10);
}

/// A row shows its item: its name, its source, its role; a file of this machine can be previewed,
/// and OpenRouter does not take it; an item can be moved where there is one on that side.
pub proof fn rows_show_their_items(items: Seq<DraftMedia>, i: int, provider: Seq<char>)
    requires
        0 <= i < items.len(),
    ensures
        ({
            let row = crate::gui::media_list::row_says(items, i, provider);
            &&& row.can_preview <==> items[i].source is LocalFile
            &&& row.blocked <==> provider == "openrouter"@ && items[i].source is LocalFile
            &&& row.can_move_earlier <==> i != 0
            &&& row.can_move_later <==> i != items.len() - 1
            &&& items[i].source matches MediaSource::LocalFile { path } ==> row.source == path@
            &&& items[i].source matches MediaSource::RemoteUrl { url } ==> row.source == url@
            &&& items[i].role is StartFrame ==> row.role_choice == Some(1u32) && row.role
                == "Start frame"@
            &&& items[i].role is EndFrame ==> row.role_choice == Some(2u32) && row.role
                == "End frame"@
            &&& items[i].role is Reference ==> row.role_choice == Some(0u32) && row.role
                == "Reference"@
            &&& items[i].role is VideoInput || items[i].role is AudioInput ==> row.role_choice
                is None
        }),
{
}

/// How many items are of a kind.
pub proof fn items_are_counted_by_kind(items: Seq<DraftMedia>, kind: MediaKind)
    ensures
        crate::gui::media_list::count_of(items, kind) == items.filter(
            |m: DraftMedia| m.role.spec_kind() == kind,
        ).len(),
    decreases items.len(),
{
    reveal(Seq::filter);
    if items.len() > 0 {
        items_are_counted_by_kind(items.drop_last(), kind);
    }
}

/// How many items have a role.
pub proof fn items_are_counted_by_role(items: Seq<DraftMedia>, role: MediaRole)
    ensures
        crate::gui::composer::role_count(items, role) == items.filter(
            |m: DraftMedia| m.role == role,
        ).len(),
    decreases items.len(),
{
    reveal(Seq::filter);
    if items.len() > 0 {
        items_are_counted_by_role(items.drop_last(), role);
    }
}

/// What is pasted is taken without the white space around it: a file of this machine is resolved,
/// unless the provider takes none, and anything else is checked as a URL; nothing is added without a
/// kind or a text.
pub proof fn entries_are_read(value: Seq<char>, kind: MediaKind, provider: Seq<char>)
    ensures
        ({
            let text = crate::text::trimmed(value);
            let step = crate::gui::media_list::entry_step(value, Some(kind), provider);
            &&& text.len() == 0 ==> step is Refuse
            &&& text.len() > 0 && !crate::text::occurs_at(text, "file:"@, 0) ==> step == (
            EntryStepView::Check { url: text, kind })
            &&& text.len() > 0 && crate::text::occurs_at(text, "file:"@, 0) && provider
                != "openrouter"@ ==> step == (EntryStepView::Resolve { uri: text, kind })
            &&& text.len() > 0 && crate::text::occurs_at(text, "file:"@, 0) && provider
                == "openrouter"@ ==> step is Refuse
            &&& crate::gui::media_list::entry_step(value, None, provider) is Refuse
        }),
{
}

/// A long text is cut to so many characters and marked; a short one stays, without the white space
/// around it.
pub proof fn long_texts_are_cut(value: Seq<char>, max: nat)
    ensures
        ({
            let text = crate::text::trimmed(value);
            let shown = crate::gui::media_list::ellipsized(value, max);
            &&& text.len() <= max ==> shown == text
            &&& text.len() > max ==> shown.len() == max + 1 && shown.take(max as int) == text.take(
                max as int,
            ) && shown.last() == '…'
        }),
{
    reveal_strlit("…");
    let text = crate::text::trimmed(value);
    if text.len() > max {
        let shown = crate::gui::media_list::ellipsized(value, max);
        assert(shown.take(max as int) =~= text.take(max as int));
    }
}

/// Of the files that were found those of a known kind are added, each with the role of its kind.
pub proof fn found_files_are_added(files: Seq<FoundFile>, file: FoundFile)
    ensures
        file.kind is None ==> crate::gui::media_list::found_items(files.push(file))
            == crate::gui::media_list::found_items(files),
        file.kind matches Some(kind) ==> ({
            let made = crate::gui::media_list::found_items(files.push(file));
            &&& made.drop_last() == crate::gui::media_list::found_items(files)
            &&& made.len() == crate::gui::media_list::found_items(files).len() + 1
            &&& made.last().source == (MediaSource::LocalFile { path: file.path })
            &&& made.last().role.spec_kind() == kind
            &&& !(made.last().role is StartFrame) && !(made.last().role is EndFrame)
        }),
{
    assert(files.push(file).drop_last() =~= files);
    if let Some(kind) = file.kind {
        assert(crate::gui::media_list::found_items(files.push(file)).drop_last()
            =~= crate::gui::media_list::found_items(files));
    }
}

/// A list of choices starts with the provider's default, and then has every value in order.
pub proof fn choices_start_with_the_default<T>(values: Seq<T>, i: int)
    ensures
        crate::gui::model_controls::offered(values).len() == values.len() + 1,
        crate::gui::model_controls::offered(values)[0] is None,
        0 <= i < values.len() ==> crate::gui::model_controls::offered(values)[i + 1] == Some(
            values[i],
        ),
{
}

/// A field is planned by its schema: a list of values where it lists them, three choices for a truth
/// value, and a line of text for a number or a text; it starts with the schema's default. A field of
/// any other type has no control.
pub proof fn fields_are_planned_by_their_schemas(schema: JsonView, name: Seq<char>)
    requires
        crate::json::field(schema, "enum"@) is None,
        crate::json::field(schema, "type"@) == Some(JsonView::Text(name)),
    ensures
        ({
            let plan = crate::gui::model_controls::plan_says(schema);
            &&& name == "boolean"@ ==> (plan matches Some(
                PlanView::Choice { values, labels, selected },
            ) && values == seq![None, Some(JsonView::Bool(true)), Some(JsonView::Bool(false))]
                && labels == seq!["Provider default"@, "True"@, "False"@] && (match crate::json::field(
                schema,
                "default"@,
            ) {
                Some(JsonView::Bool(on)) => values[selected] == Some(JsonView::Bool(on)),
                _ => selected == 0,
            }))
            &&& name == "integer"@ <==> (plan matches Some(PlanView::Entry { kind, .. }) && kind
                is Integer)
            &&& name == "number"@ <==> (plan matches Some(PlanView::Entry { kind, .. }) && kind
                is Number)
            &&& name == "string"@ <==> (plan matches Some(PlanView::Entry { kind, .. }) && kind
                is Plain)
            &&& name == "object"@ || name == "array"@ ==> plan is None
            &&& plan matches Some(PlanView::Entry { text, .. }) ==> (match crate::json::field(
                schema,
                "default"@,
            ) {
                Some(JsonView::Text(own)) => text == own,
                Some(value) => text == crate::outside::rendering_of(value),
                None => text.len() == 0,
            })
        }),
{
    reveal_strlit("");
    reveal_strlit("boolean");
    reveal_strlit("integer");
    reveal_strlit("number");
    reveal_strlit("string");
    reveal_strlit("object");
    reveal_strlit("array");
    assert("boolean"@.len() == 7 && "integer"@.len() == 7 && "number"@.len() == 6);
    assert("string"@.len() == 6 && "object"@.len() == 6 && "array"@.len() == 5);
    assert("boolean"@[0] == 'b' && "integer"@[0] == 'i' && "number"@[0] == 'n');
    assert("string"@[0] == 's' && "object"@[0] == 'o');
}

/// A control says nothing where it is empty; a text says itself, a whole number says its number, and
/// a text that writes none is a mistake.
pub proof fn controls_say_what_they_hold(text: String, n: i64)
    ensures
        ({
            let blank = crate::text::trimmed(text@).len() == 0;
            let plain = crate::gui::composer::control_says(SchemaControl::Text { text });
            let whole = crate::gui::composer::control_says(SchemaControl::Integer { text });
            let number = crate::gui::composer::control_says(
                SchemaControl::Number { text, value: None },
            );
            &&& blank ==> plain == Ok::<Option<JsonView>, Seq<char>>(None) && whole == plain
                && number == plain
            &&& !blank ==> plain == Ok::<Option<JsonView>, Seq<char>>(
                Some(JsonView::Text(text@)),
            ) && number is Err
            &&& !blank && crate::text::parsed_signed(crate::text::trimmed(text@)) == Some(n as int)
                ==> whole == Ok::<Option<JsonView>, Seq<char>>(
                Some(JsonView::Number(crate::outside::number_of(n))),
            )
            &&& !blank && crate::text::parsed_signed(crate::text::trimmed(text@)) is None
                ==> whole is Err
        }),
{
}

/// A seed is the whole number that is written, where the model takes one and one is written.
pub proof fn seeds_are_whole_numbers(text: Seq<char>, n: i64)
    ensures
        crate::gui::composer::seed_says(false, text) == Ok::<Option<i64>, Seq<char>>(None),
        crate::text::trimmed(text).len() == 0 ==> crate::gui::composer::seed_says(true, text)
            == Ok::<Option<i64>, Seq<char>>(None),
        crate::text::trimmed(text).len() > 0 && crate::text::parsed_signed(
            crate::text::trimmed(text),
        ) == Some(n as int) ==> crate::gui::composer::seed_says(true, text) == Ok::<
            Option<i64>,
            Seq<char>,
        >(Some(n)),
        crate::text::trimmed(text).len() > 0 && crate::text::parsed_signed(
            crate::text::trimmed(text),
        ) is None ==> crate::gui::composer::seed_says(true, text) is Err,
{
}

/// What the choice at a place is, where there is one.
pub open spec fn choice_at(values: Seq<Option<String>>, index: u32) -> Option<Seq<char>> {
    if index < values.len() {
        match values[index as int] {
            Some(text) => Some(text@),
            None => None,
        }
    } else {
        None
    }
}

/// A draft holds what its fields show: each setting the choice of its own list, the sound and the
/// seed only where the model takes them, and the media as they stand.
pub proof fn drafts_hold_what_the_fields_show(
    fields: ComposerFields,
    strict: bool,
    parsed: Result<JsonView, Seq<char>>,
    draft: GenerationDraft,
)
    requires
        crate::gui::composer::composed(fields, strict, parsed, draft),
    ensures
        draft.prompt@ == fields.prompt@,
        fields.provider == 1 ==> draft.provider_id@ == "fal"@,
        fields.provider != 1 ==> draft.provider_id@ == "openrouter"@,
        fields.model < fields.model_ids@.len() ==> draft.model@
            == fields.model_ids@[fields.model as int]@,
        fields.duration < fields.durations@.len() ==> draft.duration
            == fields.durations@[fields.duration as int],
        fields.duration >= fields.durations@.len() ==> draft.duration is None,
        crate::domain::opt_view(draft.resolution) == choice_at(
            fields.resolutions@,
            fields.resolution,
        ),
        crate::domain::opt_view(draft.aspect_ratio) == choice_at(fields.aspects@, fields.aspect),
        crate::domain::opt_view(draft.size) == choice_at(fields.sizes@, fields.size),
        fields.audio_available ==> draft.generate_audio == Some(fields.audio),
        !fields.audio_available ==> draft.generate_audio is None,
        !fields.seed_available ==> draft.seed is None,
        draft.media@ == fields.media@,
        fields.controls@.len() == 0 && crate::text::trimmed(fields.advanced@).len() == 0
            ==> draft.adapter_options is None,
{
}

proof fn unnamed_controls_leave(
    base: Seq<(Seq<char>, JsonView)>,
    controls: Seq<NamedControl>,
    n: nat,
    strict: bool,
    key: Seq<char>,
)
    requires
        n <= controls.len(),
        crate::json::sorted_keys(base),
        crate::gui::composer::with_controls(base, controls, n, strict) is Ok,
    ensures
        ({
            let made = crate::gui::composer::with_controls(base, controls, n, strict)->Ok_0;
            &&& crate::json::sorted_keys(made)
            &&& (forall|i: int| 0 <= i < n ==> (#[trigger] controls[i]).name@ != key)
                ==> crate::json::lookup(made, key) == crate::json::lookup(base, key)
        }),
    decreases n,
{
    if n > 0 {
        let m = (n - 1) as nat;
        unnamed_controls_leave(base, controls, m, strict, key);
        let before = crate::gui::composer::with_controls(base, controls, m, strict)->Ok_0;
        let last = controls[n - 1];
        if let Ok(Some(value)) = crate::gui::composer::control_says(last.control) {
            crate::json::inserted_sorted(before, last.name@, value);
            crate::json::inserted_lookup(before, last.name@, value, key);
        }
    }
}

/// The options of a draft hold under each control's name what the control says, and beside the
/// controls what was written by hand.
pub proof fn options_hold_the_controls(
    base: Seq<(Seq<char>, JsonView)>,
    controls: Seq<NamedControl>,
    n: nat,
    strict: bool,
    at: int,
    key: Seq<char>,
)
    requires
        n <= controls.len(),
        crate::json::sorted_keys(base),
        crate::gui::composer::with_controls(base, controls, n, strict) is Ok,
        0 <= at < n,
        forall|i: int, j: int|
            0 <= i < j < controls.len() ==> (#[trigger] controls[i]).name@ != (
            #[trigger] controls[j]).name@,
    ensures
        ({
            let made = crate::gui::composer::with_controls(base, controls, n, strict)->Ok_0;
            &&& crate::gui::composer::control_says(controls[at].control) matches Ok(Some(value))
                ==> crate::json::lookup(made, controls[at].name@) == Some(value)
            &&& crate::gui::composer::control_says(controls[at].control) == Ok::<
                Option<JsonView>,
                Seq<char>,
            >(None) ==> crate::json::lookup(made, controls[at].name@) == crate::json::lookup(
                base,
                controls[at].name@,
            )
            &&& (forall|i: int| 0 <= i < n ==> (#[trigger] controls[i]).name@ != key)
                ==> crate::json::lookup(made, key) == crate::json::lookup(base, key)
        }),
    decreases n,
{
    let m = (n - 1) as nat;
    let own = controls[at].name@;
    unnamed_controls_leave(base, controls, n, strict, key);
    unnamed_controls_leave(base, controls, m, strict, own);
    let before = crate::gui::composer::with_controls(base, controls, m, strict)->Ok_0;
    let last = controls[n - 1];
    if at < m {
        options_hold_the_controls(base, controls, m, strict, at, key);
        assert(controls[at].name@ != controls[n - 1].name@);
    }
    if let Ok(Some(value)) = crate::gui::composer::control_says(last.control) {
        crate::json::inserted_sorted(before, last.name@, value);
        crate::json::inserted_lookup(before, last.name@, value, own);
    }
}

/// A kind of media is refused where the model does not take it, and, where the model does not say
/// what it takes, everything but pictures is.
pub proof fn models_take_some_kinds(draft: GenerationDraft, model: VideoModel, kind: MediaKind)
    requires
        exists|i: int|
            0 <= i < draft.media@.len() && (#[trigger] draft.media@[i]).role.spec_kind() == kind,
    ensures
        model.input_modalities matches Some(kinds) ==> (crate::gui::composer::kind_problem(
            draft,
            model,
            kind,
        ) is None <==> kinds@.contains(kind)),
        model.input_modalities is None ==> (crate::gui::composer::kind_problem(draft, model, kind)
            is None <==> kind is Image),
{
    let i = choose|i: int|
        0 <= i < draft.media@.len() && (#[trigger] draft.media@[i]).role.spec_kind() == kind;
    counted(draft.media@, i);
}

proof fn counted(items: Seq<DraftMedia>, i: int)
    requires
        0 <= i < items.len(),
    ensures
        crate::gui::media_list::count_of(items, items[i].role.spec_kind()) > 0,
    decreases items.len(),
{
    if i + 1 < items.len() {
        counted(items.drop_last(), i);
    }
}

/// A draft without media is never refused for its media where its model is known.
pub proof fn plain_drafts_fit_every_model(draft: GenerationDraft, model: VideoModel, stale: bool)
    requires
        draft.media@.len() == 0,
    ensures
        crate::gui::composer::media_problem(draft, Some(model), stale) is None,
        crate::gui::composer::media_problem(draft, None, stale) is Some,
        crate::gui::composer::review_problem(draft, None, Some(model), stale) is None,
{
}

/// A draft with a video or a sound is not reviewed against a cached catalog, and one with a file of
/// this machine not for OpenRouter; what is wrong with the draft itself comes first.
pub proof fn some_drafts_are_not_reviewed(
    draft: GenerationDraft,
    problem: Option<Seq<char>>,
    model: VideoModel,
    stale: bool,
    i: int,
)
    requires
        0 <= i < draft.media@.len(),
    ensures
        stale && (draft.media@[i].role is VideoInput || draft.media@[i].role is AudioInput)
            ==> crate::gui::composer::media_problem(draft, Some(model), stale) is Some,
        draft.provider_id@ == "openrouter"@ && draft.media@[i].source is LocalFile
            ==> crate::gui::composer::review_problem(draft, problem, Some(model), stale) is Some,
        problem is Some ==> crate::gui::composer::review_problem(
            draft,
            problem,
            Some(model),
            stale,
        ) == problem,
{
    counted(draft.media@, i);
}

/// A remembered setting gives way to the draft's own, and the provider's default to both.
pub proof fn settings_come_from_the_draft_first(exact: bool, remembered: bool)
    ensures
        exact ==> crate::gui::composer_state::setting_source(exact, remembered)
            == SettingsSource::ExactDraft,
        !exact && remembered ==> crate::gui::composer_state::setting_source(exact, remembered)
            == SettingsSource::Remembered,
        !exact && !remembered ==> crate::gui::composer_state::setting_source(exact, remembered)
            == SettingsSource::ProviderDefault,
{
}

/// Without a saved model the one that was shown stays where the catalog still lists it; the
/// preferred one is taken for a new draft only, and otherwise none is chosen.
pub proof fn models_are_chosen_with_care(
    catalog: crate::domain::VideoCatalog,
    previous: Seq<char>,
    brand_new: bool,
)
    ensures
        crate::domain::catalog_has(catalog, previous) ==> crate::gui::composer_state::selection(
            catalog,
            None,
            Some(previous),
            brand_new,
        ) == SelectionView::Available((catalog.provider_id@, previous)),
        !crate::domain::catalog_has(catalog, previous) ==> crate::gui::composer_state::selection(
            catalog,
            None,
            Some(previous),
            false,
        ) == SelectionView::Empty(catalog.provider_id@),
        catalog.preferred matches Some(id) ==> crate::gui::composer_state::selection(
            catalog,
            None,
            None,
            true,
        ) == SelectionView::Available((catalog.provider_id@, id@)),
        catalog.preferred is None ==> crate::gui::composer_state::selection(
            catalog,
            None,
            None,
            brand_new,
        ) == SelectionView::Empty(catalog.provider_id@),
{
}

/// A model that is gone from its catalog, or that offers something else, makes what was reviewed
/// out of date; a change in another provider's catalog does not.
pub proof fn changed_models_are_noticed(
    before: Seq<(Seq<char>, FingerprintView)>,
    after: Seq<(Seq<char>, FingerprintView)>,
    provider: Seq<char>,
    selected: KeyView,
    x: FingerprintView,
)
    requires
        crate::gui::composer_state::last_known(before, selected.1) == Some(x),
    ensures
        selected.0 == provider && crate::gui::composer_state::last_known(after, selected.1) is None
            ==> crate::gui::composer_state::invalidates(
            Some(before),
            after,
            provider,
            Some(selected),
        ),
        selected.0 == provider ==> (crate::gui::composer_state::last_known(
            after,
            selected.1,
        ) matches Some(y) ==> (x.durations != y.durations || x.resolutions != y.resolutions
            || x.aspect_ratios != y.aspect_ratios || x.sizes != y.sizes || x.seed != y.seed
            || x.frame_images != y.frame_images || x.generated_audio_supported
            != y.generated_audio_supported ==> crate::gui::composer_state::invalidates(
            Some(before),
            after,
            provider,
            Some(selected),
        ))),
        selected.0 != provider ==> !crate::gui::composer_state::invalidates(
            Some(before),
            after,
            provider,
            Some(selected),
        ),
        !crate::gui::composer_state::invalidates(Some(before), after, provider, None),
        !crate::gui::composer_state::invalidates(None, after, provider, Some(selected)),
{
}

/// What is remembered of a model is what the model offers.
pub proof fn capabilities_are_the_models_own(model: VideoModel)
    ensures
        ({
            let known = crate::gui::composer_state::capabilities(model);
            &&& known.durations == model.supported_durations@
            &&& known.resolutions == crate::text::texts(model.supported_resolutions@)
            &&& known.aspect_ratios == crate::text::texts(model.supported_aspect_ratios@)
            &&& known.sizes == crate::text::texts(model.supported_sizes@)
            &&& known.frame_images == crate::text::texts(model.supported_frame_images@)
            &&& known.generated_audio_supported == model.generated_audio_supported
            &&& known.generated_audio_default == model.generated_audio_default
            &&& known.seed == model.seed
        }),
{
}

/// A restored control shows the text that was typed, else the saved value; a list shows the saved
/// value where it offers it, and nothing is changed where nothing was saved.
pub proof fn controls_are_restored(
    named: NamedControl,
    value: Option<JsonView>,
    typed: Option<Seq<char>>,
)
    ensures
        ({
            let update = crate::gui::restore::update_says(named, value, typed);
            &&& update matches Some(UpdateView::Write { name, .. }) ==> name == named.name@
            &&& update matches Some(UpdateView::Select { name, .. }) ==> name == named.name@
            &&& !(named.control is Choice) ==> (typed matches Some(text) ==> update == Some(
                UpdateView::Write { name: named.name@, text },
            ))
            &&& named.control is Text && typed is None ==> (value matches Some(
                JsonView::Text(text),
            ) ==> update == Some(UpdateView::Write { name: named.name@, text }))
            &&& value is None && typed is None ==> update is None
            &&& named.control is Choice && value is None ==> update is None
            &&& named.control is Choice ==> !(update matches Some(UpdateView::Write { .. }))
        }),
{
}

/// A value is carried over to a control of the same manner alone: a text to a line of text, and a
/// choice to a list that offers it.
pub proof fn values_are_carried_over(control: NamedControl, text: Seq<char>, choice: Option<JsonView>)
    ensures
        !(control.control is Choice) ==> crate::gui::restore::carried_update(
            control,
            UiValueView::Text(text),
        ) == Some(UpdateView::Write { name: control.name@, text }),
        control.control is Choice ==> crate::gui::restore::carried_update(
            control,
            UiValueView::Text(text),
        ) is None,
        !(control.control is Choice) ==> crate::gui::restore::carried_update(
            control,
            UiValueView::Choice(choice),
        ) is None,
{
}

/// A review shows the provider, the model, the prompt, the media, the settings and last the price.
pub proof fn reviews_show_what_is_sent(
    provider_id: Seq<char>,
    request: VideoRequest,
    quote: CostQuote,
)
    ensures
        ({
            let rows = crate::gui::review::review_says(provider_id, request, quote);
            &&& rows.len() >= 6
            &&& rows[0] == ("Provider"@, crate::gui::media_list::provider_title(provider_id))
            &&& rows[1] == ("Model"@, request.model@)
            &&& rows[2].0 == "Prompt"@
            &&& crate::text::trimmed(request.prompt@).len() <= 180 ==> rows[2].1
                == crate::text::trimmed(request.prompt@)
            &&& rows[3].0 == "Reference media"@
            &&& rows.last().0 == "Fresh price"@
            &&& rows.last().1 == crate::gui::review::price_says(quote)
            &&& rows.contains(("Settings"@, crate::gui::review::settings_say(request)))
        }),
{
    let rows = crate::gui::review::review_says(provider_id, request, quote);
    let media = crate::gui::review::media_rows_say(request);
    assert(rows[4 + media.len() as int] == ("Settings"@, crate::gui::review::settings_say(request)));
}

/// A price is shown with its amount and its currency, and as exact only where it is; without an
/// amount it is said why.
pub proof fn prices_are_shown_as_they_are(quote: CostQuote)
    ensures
        ({
            let said = crate::gui::review::price_says(quote);
            &&& quote.amount matches Some(amount) ==> (quote.exact ==> said == "Exact"@ + " "@
                + amount@ + (" "@ + quote.currency@))
            &&& quote.amount matches Some(amount) ==> (!quote.exact ==> said == "Estimated"@ + " "@
                + amount@ + (" "@ + quote.currency@))
            &&& quote.amount is None ==> said == "Unavailable ("@ + quote.basis@ + ")"@
        }),
{
}

/// A setting that was left to the provider is shown so.
pub proof fn settings_are_shown_as_they_are(seconds: u32, text: Seq<char>, seed: i64)
    ensures
        crate::gui::review::or_default(None) == "provider default"@,
        crate::gui::review::or_default(Some(text)) == text,
        crate::gui::review::duration_says(None) == "provider default"@,
        crate::gui::review::duration_says(Some(seconds)) == crate::text::numeral(seconds as nat)
            + " seconds"@,
        crate::gui::review::audio_says(Some(true)) == "on"@,
        crate::gui::review::audio_says(Some(false)) == "off"@,
        crate::gui::review::audio_says(None) == "provider default"@,
        crate::gui::review::seed_says(None) == "provider default"@,
        crate::gui::review::seed_says(Some(seed)) == crate::text::signed_numeral(seed as int),
{
}

/// The position of a value in a list of choices is the first that offers it, and there is none only
/// where none does.
pub proof fn choices_are_found(choices: Seq<Option<JsonView>>, value: JsonView, n: int)
    requires
        0 <= n <= choices.len(),
        forall|k: int|
            0 <= k < n ==> !((#[trigger] choices[k]) matches Some(own) && crate::json::same_json(
                own,
                value,
            )),
    ensures
        n == choices.len() ==> crate::gui::model_controls::choice_place(choices, value) is None,
        n < choices.len() && (choices[n] matches Some(own) && crate::json::same_json(own, value))
            ==> crate::gui::model_controls::choice_place(choices, value) == Some(n),
    decreases n,
{
    if n > 0 {
        let rest = choices.skip(1);
        assert forall|k: int| 0 <= k < n - 1 implies !((#[trigger] rest[k]) matches Some(own)
            && crate::json::same_json(own, value)) by {
            assert(rest[k] == choices[k + 1]);
        }
        assert(choices[0] == choices[0]);
        choices_are_found(rest, value, n - 1);
    }
}

/// The text that was kept for a control is the first under its name.
pub proof fn kept_texts_are_found(
    entries: Seq<crate::gui_state::SchemaText>,
    name: Seq<char>,
    n: int,
)
    requires
        0 <= n <= entries.len(),
        forall|k: int| 0 <= k < n ==> (#[trigger] entries[k]).name@ != name,
    ensures
        n == entries.len() ==> crate::gui::restore::kept_text(entries, name) is None,
        n < entries.len() && entries[n].name@ == name ==> crate::gui::restore::kept_text(
            entries,
            name,
        ) == Some(entries[n].value@),
    decreases n,
{
    if n > 0 {
        let rest = entries.skip(1);
        assert forall|k: int| 0 <= k < n - 1 implies (#[trigger] rest[k]).name@ != name by {
            assert(rest[k] == entries[k + 1]);
        }
        assert(entries[0].name@ != name);
        kept_texts_are_found(rest, name, n - 1);
    }
}

/// A control is found by its name: the first that has it.
pub proof fn controls_are_found(controls: Seq<NamedControl>, name: Seq<char>, n: int)
    requires
        0 <= n <= controls.len(),
        forall|k: int| 0 <= k < n ==> (#[trigger] controls[k]).name@ != name,
    ensures
        n == controls.len() ==> crate::gui::restore::control_place(controls, name) is None,
        n < controls.len() && controls[n].name@ == name ==> crate::gui::restore::control_place(
            controls,
            name,
        ) == Some(n),
    decreases n,
{
    if n > 0 {
        let rest = controls.skip(1);
        assert forall|k: int| 0 <= k < n - 1 implies (#[trigger] rest[k]).name@ != name by {
            assert(rest[k] == controls[k + 1]);
        }
        assert(controls[0].name@ != name);
        controls_are_found(rest, name, n - 1);
    }
}

/// A control holds its own text, or the choice that is selected.
pub proof fn controls_hold_their_own(
    text: String,
    value: Option<crate::json::Json>,
    values: Vec<Option<crate::json::Json>>,
    selected: u32,
)
    ensures
        crate::gui::restore::held(SchemaControl::Text { text }) == UiValueView::Text(text@),
        crate::gui::restore::held(SchemaControl::Integer { text }) == UiValueView::Text(text@),
        crate::gui::restore::held(SchemaControl::Number { text, value }) == UiValueView::Text(
            text@,
        ),
        selected < values@.len() ==> crate::gui::restore::held(
            SchemaControl::Choice { values, selected },
        ) == UiValueView::Choice(crate::json::json_option(values@[selected as int])),
        selected >= values@.len() ==> crate::gui::restore::held(
            SchemaControl::Choice { values, selected },
        ) == UiValueView::Choice(None),
{
}

/// What the editor shows is kept for each line of text under its name, and for no list.
pub proof fn shown_texts_are_kept(controls: Seq<NamedControl>, last: NamedControl)
    ensures
        last.control is Choice ==> crate::gui::composer::shown_texts(controls.push(last))
            == crate::gui::composer::shown_texts(controls),
        last.control matches SchemaControl::Text { text } ==> crate::gui::composer::shown_texts(
            controls.push(last),
        ) == crate::gui::composer::shown_texts(controls).push((last.name@, text@)),
        last.control matches SchemaControl::Integer { text } ==> crate::gui::composer::shown_texts(
            controls.push(last),
        ) == crate::gui::composer::shown_texts(controls).push((last.name@, text@)),
        crate::gui::composer::shown_texts(Seq::empty()).len() == 0,
{
    assert(controls.push(last).drop_last() =~= controls);
}

/// A role's items are refused where the model has no field for their kind, or fewer places than
/// there are items; otherwise they are not.
pub proof fn roles_need_room(draft: GenerationDraft, model: VideoModel, role: MediaRole)
    ensures
        ({
            let count = draft.media@.filter(|m: DraftMedia| m.role == role).len();
            let places = crate::gui::composer::room(model.media_bindings@, role.spec_kind());
            let bound = exists|i: int|
                0 <= i < model.media_bindings@.len() && (#[trigger] model.media_bindings@[i]).kind
                    == role.spec_kind();
            &&& places <= usize::MAX ==> (crate::gui::composer::role_problem(draft, model, role)
                is None <==> count == 0 || (bound && count <= places))
        }),
{
    items_are_counted_by_role(draft.media@, role);
}

/// A field has one place where it takes one item, as many as it says where it takes a list, and any
/// number where it does not say.
pub proof fn fields_have_places(
    bindings: Seq<crate::domain::MediaBinding>,
    last: crate::domain::MediaBinding,
    kind: MediaKind,
)
    ensures
        crate::gui::composer::room(Seq::empty(), kind) == 0,
        last.kind != kind ==> crate::gui::composer::room(bindings.push(last), kind)
            == crate::gui::composer::room(bindings, kind),
        last.kind == kind && last.cardinality is Scalar ==> crate::gui::composer::room(
            bindings.push(last),
            kind,
        ) == crate::gui::composer::room(bindings, kind) + 1,
        last.kind == kind && last.cardinality is List ==> (last.max_items matches Some(most)
            ==> crate::gui::composer::room(bindings.push(last), kind) == crate::gui::composer::room(
            bindings,
            kind,
        ) + most),
        last.kind == kind && last.cardinality is List && last.max_items is None
            ==> crate::gui::composer::room(bindings.push(last), kind) >= usize::MAX,
{
    assert(bindings.push(last).drop_last() =~= bindings);
}

/// An item is named after its file, or after what stands last in its URL before the query.
pub proof fn items_are_named_after_their_source(path: String, url: String)
    ensures
        crate::paths::name_of(path@) matches Some(name) ==> crate::gui::media_list::name_shown(
            MediaSource::LocalFile { path },
        ) == name,
        crate::paths::name_of(path@) is None ==> crate::gui::media_list::name_shown(
            MediaSource::LocalFile { path },
        ) == "Reference media"@,
        crate::gui::media_list::name_shown(MediaSource::RemoteUrl { url }).len() > 0,
        crate::gui::media_list::url_name(url@).len() > 0 ==> crate::gui::media_list::name_shown(
            MediaSource::RemoteUrl { url },
        ) == crate::gui::media_list::url_name(url@),
{
    reveal_strlit("Remote reference");
}

/// The catalog shows the model that was shown, where it still lists it, else the preferred one, else
/// the first.
pub proof fn shown_models_stay(
    catalog: crate::domain::VideoCatalog,
    previous: Seq<char>,
    i: int,
)
    requires
        0 <= i < catalog.models@.len(),
        catalog.models@[i].id@ == previous,
        forall|k: int| 0 <= k < i ==> (#[trigger] catalog.models@[k]).id@ != previous,
    ensures
        crate::gui::model_controls::shown_model(catalog, Some(previous)) == (i, true),
        catalog.preferred is None ==> crate::gui::model_controls::shown_model(catalog, None) == (
            0int,
            false,
        ),
{
    let ids = Seq::new(catalog.models@.len(), |k: int| catalog.models@[k].id@);
    assert(ids[i] == previous);
    assert(ids.contains(previous));
    crate::gui::model_controls::offered_choices_are_found(ids, previous);
    let at = crate::gui::model_controls::place_in(ids, previous);
    if at < i {
        assert(catalog.models@[at].id@ == ids[at]);
    }
    if i < at {
        assert(ids[i] != previous);
    }
}

/// Two catalogs price a model alike where every item costs the same in both.
pub proof fn prices_are_compared_by_item(
    a: Seq<(Seq<char>, Seq<char>)>,
    sku: Seq<char>,
    amount: Seq<char>,
)
    ensures
        crate::gui::composer_state::price_of(seq![(sku, amount)] + a, sku) == Some(
            crate::gui::composer_state::amount_of(amount),
        ),
        crate::gui::composer_state::price_of(Seq::empty(), sku) is None,
        forall|other: Seq<char>|
            other != sku ==> #[trigger] crate::gui::composer_state::price_of(
                seq![(sku, amount)] + a,
                other,
            ) == crate::gui::composer_state::price_of(a, other),
{
    assert((seq![(sku, amount)] + a).skip(1) =~= a);
}

/// The fields that the common controls cover are not shown again.
pub proof fn common_fields_are_not_shown_twice(model: VideoModel, name: Seq<char>, i: int)
    ensures
        name == "prompt"@ || name == "duration"@ || name == "resolution"@ || name
            == "aspect_ratio"@ || name == "size"@ || name == "generate_audio"@ || name == "seed"@
            || name == "image_url"@ || name == "start_image_url"@ || name == "end_image_url"@
            || name == "video_url"@ || name == "audio_url"@
            ==> crate::gui::model_controls::covered(model, name),
        0 <= i < model.field_map@.len() && model.field_map@[i].field@ == name
            ==> crate::gui::model_controls::covered(model, name),
        0 <= i < model.media_bindings@.len() && model.media_bindings@[i].property_name@ == name
            ==> crate::gui::model_controls::covered(model, name),
{
}

/// A draft's frames are refused if and only if one of them is of a kind that the model does not list.
pub proof fn frames_need_a_model_that_lists_them(items: Seq<DraftMedia>, model: VideoModel)
    ensures
        crate::gui::composer::frame_problem(items, model) is None <==> forall|i: int|
            0 <= i < items.len() ==> ((#[trigger] items[i]).role is StartFrame
                ==> crate::text::texts(model.supported_frame_images@).contains("first_frame"@)) && (
            items[i].role is EndFrame ==> crate::text::texts(
                model.supported_frame_images@,
            ).contains("last_frame"@)),
    decreases items.len(),
{
    let names = crate::text::texts(model.supported_frame_images@);
    assert forall|frame: Seq<char>| #[trigger]
        names.contains(frame) == crate::gui::composer::takes_frame(model, frame) by {
        if names.contains(frame) {
            let k = names.index_of(frame);
            assert(model.supported_frame_images@[k]@ == frame);
        }
        if crate::gui::composer::takes_frame(model, frame) {
            let k = choose|k: int|
                0 <= k < model.supported_frame_images@.len() && (
                #[trigger] model.supported_frame_images@[k])@ == frame;
            assert(names[k] == frame);
        }
    }
    if items.len() > 0 {
        let rest = items.drop_last();
        frames_need_a_model_that_lists_them(rest, model);
        let fits = |m: DraftMedia|
            (m.role is StartFrame ==> names.contains("first_frame"@)) && (m.role is EndFrame
                ==> names.contains("last_frame"@));
        if crate::gui::composer::frame_problem(items, model) is None {
            assert forall|i: int| 0 <= i < items.len() implies fits(#[trigger] items[i]) by {
                if i < rest.len() {
                    assert(rest[i] == items[i]);
                }
            }
        } else if forall|i: int| 0 <= i < items.len() ==> fits(#[trigger] items[i]) {
            assert forall|i: int| 0 <= i < rest.len() implies fits(#[trigger] rest[i]) by {
                assert(rest[i] == items[i]);
            }
            assert(fits(items[items.len() - 1]));
        }
    }
}

proof fn kinds_are_counted(items: Seq<DraftMedia>, kind: MediaKind)
    ensures
        crate::gui::media_list::count_of(items, kind) == items.filter(
            |m: DraftMedia| m.role.spec_kind() == kind,
        ).len(),
    decreases items.len(),
{
    reveal(Seq::filter);
    if items.len() > 0 {
        kinds_are_counted(items.drop_last(), kind);
    }
}

/// An item is called by its kind and by how many of its kind stand up to it.
pub proof fn items_are_numbered_within_their_kind(items: Seq<DraftMedia>, target: int)
    requires
        0 <= target < items.len(),
    ensures
        ({
            let kind = items[target].role.spec_kind();
            let number = items.take(target + 1).filter(
                |m: DraftMedia| m.role.spec_kind() == kind,
            ).len();
            crate::gui::media_list::ordinal_says(items, target) == (match kind {
                MediaKind::Image => "Image"@,
                MediaKind::Video => "Video"@,
                MediaKind::Audio => "Audio"@,
            }) + " "@ + crate::text::numeral(number)
        }),
{
    kinds_are_counted(items.take(target + 1), items[target].role.spec_kind());
}

proof fn references_are_counted(request: VideoRequest, kind: MediaKind, n: nat)
    requires
        n <= request.input_references@.len(),
    ensures
        crate::gui::media_list::references_of(request, kind, n)
            == request.input_references@.take(n as int).filter(
            |r: crate::domain::InputReference| r.kind == kind,
        ).len(),
    decreases n,
{
    reveal(Seq::filter);
    if n > 0 {
        references_are_counted(request, kind, (n - 1) as nat);
        assert(request.input_references@.take(n as int).drop_last()
            =~= request.input_references@.take(n - 1));
    }
}

/// A request carries each reference under its kind, and its frames as images.
pub proof fn everything_carried_is_counted(request: VideoRequest, kind: MediaKind)
    ensures
        crate::gui::media_list::carried(request, kind) == request.input_references@.filter(
            |r: crate::domain::InputReference| r.kind == kind,
        ).len() + (if kind is Image {
            request.frame_images@.len()
        } else {
            0
        }),
{
    references_are_counted(request, kind, request.input_references@.len());
    assert(request.input_references@.take(request.input_references@.len() as int)
        =~= request.input_references@);
}

/// A reference's line shows its kind, its own URL, and a number that counts the frames first where it
/// is an image.
pub proof fn references_have_their_lines(request: VideoRequest, i: int)
    requires
        0 <= i < request.input_references@.len(),
    ensures
        ({
            let reference = request.input_references@[i];
            let before = request.input_references@.take(i + 1).filter(
                |r: crate::domain::InputReference| r.kind == reference.kind,
            ).len();
            &&& reference.kind is Image ==> crate::gui::media_list::reference_line(request, i)
                == "Image"@ + " "@ + crate::text::numeral(
                before + request.frame_images@.len(),
            ) + (" ("@ + "general reference"@ + "): "@ + reference.url@)
            &&& reference.kind is Video ==> crate::gui::media_list::reference_line(request, i)
                == "Video"@ + " "@ + crate::text::numeral(before) + (" ("@ + "video input"@ + "): "@
                + reference.url@)
            &&& reference.kind is Audio ==> crate::gui::media_list::reference_line(request, i)
                == "Audio"@ + " "@ + crate::text::numeral(before) + (" ("@ + "audio input"@ + "): "@
                + reference.url@)
        }),
{
    references_are_counted(request, request.input_references@[i].kind, (i + 1) as nat);
}

/// A schema that lists types is of the first that is not the null type.
pub proof fn the_first_other_type_counts(items: Seq<JsonView>, n: int)
    requires
        0 <= n <= items.len(),
        forall|k: int|
            0 <= k < n ==> !((#[trigger] items[k]) is Text) || items[k] == JsonView::Text("null"@),
    ensures
        n == items.len() ==> crate::gui::model_controls::first_type(items) is None,
        n < items.len() ==> (items[n] matches JsonView::Text(name) ==> (name != "null"@
            ==> crate::gui::model_controls::first_type(items) == Some(name))),
    decreases n,
{
    if n > 0 {
        let rest = items.skip(1);
        assert forall|k: int| 0 <= k < n - 1 implies !((#[trigger] rest[k]) is Text) || rest[k]
            == JsonView::Text("null"@) by {
            assert(rest[k] == items[k + 1]);
        }
        assert(!(items[0] is Text) || items[0] == JsonView::Text("null"@));
        the_first_other_type_counts(rest, n - 1);
    }
}

/// A list of choices starts with the provider's own and goes on with the schema's; it shows the
/// default where that is one of them.
pub proof fn lists_show_their_default(schema: JsonView, items: Seq<JsonView>, i: int)
    ensures
        crate::gui::model_controls::choice_plan(schema, items) matches PlanView::Choice {
            values,
            labels,
            selected,
        } && values.len() == items.len() + 1 && labels.len() == values.len() && values[0] is None
            && labels[0] == "Provider default"@ && (0 <= i < items.len() ==> values[i + 1] == Some(
            items[i],
        )) && (crate::json::field(schema, "default"@) is None ==> selected == 0),
        crate::gui::model_controls::boolean_plan(schema) matches PlanView::Choice {
            values,
            labels,
            selected,
        } && 0 <= selected < values.len() && values.len() == 3 && labels.len() == 3 && (
        crate::json::field(schema, "default"@) matches Some(JsonView::Bool(b)) ==> values[selected]
            == Some(JsonView::Bool(b)) && labels[selected] == if b {
            "True"@
        } else {
            "False"@
        }) && (!(crate::json::field(schema, "default"@) matches Some(JsonView::Bool(_)))
            ==> values[selected] is None && labels[selected] == "Provider default"@),
{
}

/// An offered choice is found where it stands first.
pub proof fn options_are_found(
    choices: Seq<Option<JsonView>>,
    choice: Option<JsonView>,
    n: int,
)
    requires
        0 <= n <= choices.len(),
        forall|k: int|
            0 <= k < n ==> !crate::gui::restore::same_choice(#[trigger] choices[k], choice),
    ensures
        n == choices.len() ==> crate::gui::restore::option_place(choices, choice) is None,
        n < choices.len() && (choices[n] is None && choice is None || choices[n] is Some && choice
            is Some && crate::json::same_json(choices[n]->0, choice->0))
            ==> crate::gui::restore::option_place(choices, choice) == Some(n),
    decreases n,
{
    if n > 0 {
        let rest = choices.skip(1);
        assert forall|k: int| 0 <= k < n - 1 implies !crate::gui::restore::same_choice(
            #[trigger] rest[k],
            choice,
        ) by {
            assert(rest[k] == choices[k + 1]);
        }
        assert(!crate::gui::restore::same_choice(choices[0], choice));
        options_are_found(rest, choice, n - 1);
    }
}

/// A text is carried over to a control of the same name that holds a text, and to none else.
pub proof fn texts_are_carried_over(
    controls: Seq<NamedControl>,
    values: Seq<(Seq<char>, UiValueView)>,
    name: Seq<char>,
    text: Seq<char>,
    n: int,
)
    requires
        0 <= n <= controls.len(),
        forall|k: int| 0 <= k < n ==> (#[trigger] controls[k]).name@ != name,
    ensures
        n == controls.len() ==> crate::gui::restore::carried_updates(
            controls,
            values.push((name, UiValueView::Text(text))),
        ) == crate::gui::restore::carried_updates(controls, values),
        n < controls.len() && controls[n].name@ == name && !(controls[n].control is Choice)
            ==> crate::gui::restore::carried_updates(
            controls,
            values.push((name, UiValueView::Text(text))),
        ) == crate::gui::restore::carried_updates(controls, values).push(
            UpdateView::Write { name, text },
        ),
        n < controls.len() && controls[n].name@ == name && controls[n].control is Choice
            ==> crate::gui::restore::carried_updates(
            controls,
            values.push((name, UiValueView::Text(text))),
        ) == crate::gui::restore::carried_updates(controls, values),
{
    controls_are_found(controls, name, n);
    assert(values.push((name, UiValueView::Text(text))).drop_last() =~= values);
}

/// What was typed into a control comes back before what was saved for it; a control for which neither
/// was kept is left alone.
pub proof fn typed_texts_come_back(
    controls: Seq<NamedControl>,
    last: NamedControl,
    saved: Option<JsonView>,
    entries: Seq<crate::gui_state::SchemaText>,
    n: int,
)
    requires
        0 <= n <= entries.len(),
        forall|k: int| 0 <= k < n ==> (#[trigger] entries[k]).name@ != last.name@,
    ensures
        n < entries.len() && entries[n].name@ == last.name@ && !(last.control is Choice)
            ==> crate::gui::restore::updates_say(controls.push(last), saved, entries)
            == crate::gui::restore::updates_say(controls, saved, entries).push(
            UpdateView::Write { name: last.name@, text: entries[n].value@ },
        ),
        n == entries.len() && saved is None ==> crate::gui::restore::updates_say(
            controls.push(last),
            saved,
            entries,
        ) == crate::gui::restore::updates_say(controls, saved, entries),
{
    kept_texts_are_found(entries, last.name@, n);
    assert(controls.push(last).drop_last() =~= controls);
}

} // verus!
