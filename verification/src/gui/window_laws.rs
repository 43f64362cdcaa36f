//! What the window promises: what it keeps and shows after each thing that happens, and what it asks
//! the service for.

use crate::domain::{CostQuote, ProviderId, Timestamp, VideoCatalog, VideoJob, VideoRequest};
use crate::gui::window::{
    DraftStateView, EffectView, HoldView, PendingDraft, PreparedView, RecoveryStore, RequestView,
    Shade, SubmitView, WindowView,
};
use crate::gui_state::UncertainSubmissionRecord;
use crate::workflow::ProviderConnection;
use vstd::prelude::*;

verus! {

/// A review that fits the draft is kept and shown; one of an older draft is neither.
pub proof fn current_reviews_are_shown(
    view: WindowView,
    review: PreparedView,
    provider_id: Seq<char>,
    request: VideoRequest,
    quote: CostQuote,
    expires_at: Timestamp,
)
    ensures
        ({
            let after = view.review_arrived(review, provider_id, request, quote, expires_at);
            &&& review.revision == view.revision ==> after.state.prepared == Some(review)
                && after.state.banner.enabled && after.effects == seq![
                EffectView::ShowReview { provider_id, request, quote, expires_at },
            ]
            &&& review.revision != view.revision ==> after.state.prepared == view.prepared
                && after.effects.len() == 1 && after.effects[0] is Toast
            &&& after.state.submit == view.submit && after.state.holds == view.holds
            &&& after.state.revision == view.revision && after.state.jobs == view.jobs
        }),
{
}

/// A review that still fits is paid for when that is asked, unless the window is closing or the
/// draft is held; the request is remembered until it is answered.
pub proof fn fitting_reviews_are_submitted(view: WindowView, provider_id: Seq<char>)
    requires
        view.prepared is Some,
        view.prepared->0.revision == view.revision,
        !view.closing.pausing && view.closing.saving is None && !view.closing.stopping,
        !view.holds.contains_key((provider_id, view.prepared->0.draft_fingerprint)),
    ensures
        ({
            let after = view.generate_pressed(provider_id);
            &&& after.effects == seq![
                EffectView::Ask(
                    RequestView::SubmitPrepared {
                        op_id: view.next_op,
                        prepared_id: view.prepared->0.id,
                    },
                ),
            ]
            &&& after.state.submit == Some(
                SubmitView { op_id: view.next_op, revision: view.revision, provider_id },
            )
            &&& after.state.prepared is None
            &&& view.next_op < u64::MAX ==> after.state.next_op == view.next_op + 1
            &&& after.state.holds == view.holds && after.state.jobs == view.jobs
        }),
{
}

/// A downloaded video is shown on its job's card and as the latest; the job is no longer watched,
/// and other cards stay as they are.
pub proof fn downloads_are_shown(
    view: WindowView,
    job: VideoJob,
    request: Option<VideoRequest>,
    path: Seq<char>,
    other: (Seq<char>, Seq<char>),
)
    requires
        other != (job.provider_id@, job.id@),
    ensures
        ({
            let after = view.job_downloaded(job, request, path).state;
            let key = (job.provider_id@, job.id@);
            &&& after.jobs.contains_key(key) && after.jobs[key].video == Some(path)
            &&& !after.jobs[key].active && !after.jobs[key].can_resume
            &&& after.latest_video == Some(path)
            &&& !after.active.contains(key)
            &&& after.active.contains(other) == view.active.contains(other)
            &&& after.jobs.contains_key(other) == view.jobs.contains_key(other)
            &&& view.jobs.contains_key(other) ==> after.jobs[other] == view.jobs[other]
            &&& after.submit == view.submit && after.holds == view.holds
        }),
{
}

/// An accepted or updated job gets a card, which tells its state, and is watched while it goes on;
/// other cards stay as they are. An accepted one is shown at once.
pub proof fn jobs_get_cards(
    view: WindowView,
    provider_id: Seq<char>,
    job: VideoJob,
    request: Option<VideoRequest>,
    other: (Seq<char>, Seq<char>),
)
    requires
        other != (job.provider_id@, job.id@),
    ensures
        ({
            let key = (job.provider_id@, job.id@);
            let going_on = !(job.status is Completed) && !(job.status is Failed) && !(job.status
                is Cancelled) && !(job.status is Expired);
            let taken = view.job_accepted(provider_id, job, request);
            let told = view.job_updated(job, request);
            &&& taken.state.jobs.contains_key(key) && told.jobs.contains_key(key)
            &&& taken.state.jobs[key].status == job.status@.name()
            &&& told.jobs[key].status == job.status@.name()
            &&& taken.state.jobs[key].active == going_on && told.jobs[key].active == going_on
            &&& taken.state.active.contains(key) == going_on
            &&& told.active.contains(key) == going_on
            &&& taken.state.active.contains(other) == view.active.contains(other)
            &&& told.active.contains(other) == view.active.contains(other)
            &&& view.jobs.contains_key(other) ==> taken.state.jobs[other] == view.jobs[other]
                && told.jobs[other] == view.jobs[other]
            &&& taken.effects.contains(EffectView::ShowJobs)
            &&& taken.state.submit == view.submit
        }),
{
    let taken = view.job_accepted(provider_id, job, request);
    assert(taken.effects[0] == EffectView::ShowJobs);
}

/// Whether a paid request is answered: what was waiting under that number waits no more.
pub open spec fn settled(before: WindowView, after: WindowView, op_id: u64) -> bool {
    &&& before.submit matches Some(pending) ==> (pending.op_id == op_id ==> after.submit is None)
    &&& before.submit matches Some(pending) ==> (pending.op_id != op_id ==> after.submit
        == before.submit)
    &&& before.submit is None ==> after.submit is None
}

/// A saved recovery record answers its paid request. One that could not be saved does too, with a
/// warning that names the job, which stays among those that closing would leave behind.
pub proof fn recoveries_answer_requests(
    view: WindowView,
    op_id: u64,
    key: (Seq<char>, Seq<char>),
    store: RecoveryStore,
    message: Seq<char>,
)
    ensures
        settled(view, view.recovery_saved(op_id, key, store).state, op_id),
        ({
            let after = view.recovery_failed(op_id, key, message);
            &&& settled(view, after.state, op_id)
            &&& after.effects == seq![
                EffectView::WarnRemoteJob { key, message },
            ]
            &&& after.state.active.contains(key)
            &&& view.jobs.contains_key(key) ==> !after.state.jobs[key].can_resume
                && !after.state.jobs[key].active
        }),
{
}

/// A paid request whose outcome is not known is held: by its draft's fingerprint where that is
/// known, and else by the revision that was sent. The review is used up, and the user is warned.
pub proof fn uncertain_requests_are_held(
    view: WindowView,
    op_id: u64,
    provider_id: Seq<char>,
    message: Seq<char>,
    fingerprint: Option<Seq<char>>,
    now: Timestamp,
    other: (Seq<char>, Seq<char>),
)
    requires
        view.holds.contains_key(other),
    ensures
        ({
            let after = view.submission_uncertain(
                op_id,
                provider_id,
                message,
                fingerprint,
                now,
            );
            &&& settled(view, after.state, op_id)
            &&& after.state.prepared is None
            &&& fingerprint matches Some(text) ==> after.state.holds.contains_key(
                (provider_id, text),
            )
            &&& fingerprint is None ==> (view.submit matches Some(pending) ==> (pending.op_id
                == op_id ==> after.state.uncertain_revision == Some(pending.revision)))
            &&& after.state.holds.contains_key(other) && after.state.holds[other]
                == view.holds[other]
            &&& after.effects == seq![
                EffectView::WarnUncertain { provider_id, message },
            ]
        }),
{
}

/// A request that was blocked, or a record that was saved, holds its draft; a hold that is cleared is
/// gone, and the others stay.
pub proof fn holds_come_and_go(
    view: WindowView,
    op_id: u64,
    hold: HoldView,
    key: (Seq<char>, Seq<char>),
    other: (Seq<char>, Seq<char>),
)
    ensures
        ({
            let own = (hold.provider_id, hold.draft_fingerprint);
            let blocked = view.submission_blocked(op_id, hold).state;
            let saved = view.holding(hold);
            let cleared = view.hold_cleared(op_id, key).state;
            &&& blocked.holds.contains_key(own) && saved.holds.contains_key(own)
            &&& settled(view, blocked, op_id) && blocked.prepared is None
            &&& saved.prepared == view.prepared && saved.submit == view.submit
            &&& !cleared.holds.contains_key(key)
            &&& !cleared.clears.contains_key(op_id)
            &&& other != key ==> cleared.holds.contains_key(other) == view.holds.contains_key(
                other,
            )
            &&& cleared.submit == view.submit
        }),
{
}

proof fn loaded_holds(records: Seq<UncertainSubmissionRecord>, key: (Seq<char>, Seq<char>))
    ensures
        crate::gui::window::holds_of(records).contains_key(key) <==> exists|i: int|
            0 <= i < records.len() && ((#[trigger] records[i]).provider_id@,
                records[i].draft_fingerprint@) == key,
    decreases records.len(),
{
    if records.len() > 0 {
        let rest = records.drop_last();
        loaded_holds(rest, key);
        assert(records[records.len() - 1] == records.last());
        if crate::gui::window::holds_of(rest).contains_key(key) {
            let i = choose|i: int|
                0 <= i < rest.len() && ((#[trigger] rest[i]).provider_id@,
                    rest[i].draft_fingerprint@) == key;
            assert(records[i] == rest[i]);
        }
        if exists|i: int|
            0 <= i < records.len() && ((#[trigger] records[i]).provider_id@,
                records[i].draft_fingerprint@) == key {
            let i = choose|i: int|
                0 <= i < records.len() && ((#[trigger] records[i]).provider_id@,
                    records[i].draft_fingerprint@) == key;
            if i < rest.len() {
                assert(rest[i] == records[i]);
            }
        }
    }
}

/// The holds that are loaded are those of the records, and no others; a review of a held draft is
/// used up.
pub proof fn loaded_holds_are_those_recorded(
    view: WindowView,
    records: Seq<UncertainSubmissionRecord>,
    key: (Seq<char>, Seq<char>),
)
    ensures
        ({
            let after = view.holds_loaded(records);
            &&& after.holds.contains_key(key) <==> exists|i: int|
                0 <= i < records.len() && ((#[trigger] records[i]).provider_id@,
                    records[i].draft_fingerprint@) == key
            &&& after.current_hold() is Some ==> after.prepared is None
            &&& after.current_hold() is None ==> after.prepared == view.prepared
        }),
{
    loaded_holds(records, key);
}

/// While the window closes, a saved draft that is the current one lets the service stop, and an
/// older one is saved again; a draft that could not be saved is told, and the window stays.
pub proof fn closing_saves_the_draft(
    view: WindowView,
    op_id: u64,
    revision: u64,
    message: Seq<char>,
    recoverable: bool,
)
    requires
        view.closing.saving == Some(op_id),
        !view.closing.stopping,
    ensures
        ({
            let saved = view.draft_saved(op_id, revision);
            let failed = view.failed(op_id, None, message, recoverable, None);
            &&& revision == view.revision ==> saved.state.closing.stopping && saved.effects == seq![
                EffectView::Ask(RequestView::Shutdown),
            ]
            &&& revision != view.revision ==> !saved.state.closing.stopping && saved.effects
                == seq![EffectView::SaveForClose]
            &&& failed.state.closing.saving is None && !failed.state.closing.stopping
            &&& failed.effects[0] == EffectView::WarnDraftUnsaved(message)
        }),
{
}

/// A failure is told; it answers its request, and the cards of its job, and of no other, show it.
pub proof fn failures_are_shown(
    view: WindowView,
    op_id: u64,
    provider_id: Option<Seq<char>>,
    message: Seq<char>,
    recoverable: bool,
    id: Seq<char>,
    key: (Seq<char>, Seq<char>),
)
    requires
        view.jobs.contains_key(key),
    ensures
        ({
            let after = view.failed(op_id, provider_id, message, recoverable, Some(id));
            let own = key.1 == id && (provider_id matches Some(p) ==> p == key.0);
            &&& settled(view, after.state, op_id)
            &&& after.effects.last() == EffectView::Toast(message)
            &&& after.state.jobs.contains_key(key)
            &&& own ==> after.state.jobs[key].detail == message
                && after.state.jobs[key].can_resume == recoverable && !after.state.jobs[key].active
            &&& !own ==> after.state.jobs[key] == view.jobs[key]
            &&& own && recoverable ==> after.state.active.contains(key)
            &&& !own || !recoverable ==> after.state.active.contains(key) == view.active.contains(
                key,
            )
        }),
{
}

/// A job that is paused or stopped is no longer watched, and other jobs are left alone.
pub proof fn watched_jobs_are_known(
    view: WindowView,
    key: (Seq<char>, Seq<char>),
    remote: bool,
    other: (Seq<char>, Seq<char>),
)
    requires
        other != key,
    ensures
        ({
            let paused = view.monitor_paused(key, remote);
            let stopped = view.monitor_stopped(key, remote);
            &&& !paused.active.contains(key) && !stopped.active.contains(key)
            &&& view.jobs.contains_key(key) ==> paused.jobs[key].can_resume
                && !paused.jobs[key].active && !stopped.jobs[key].active
            &&& paused.active.contains(other) == view.active.contains(other)
            &&& stopped.active.contains(other) == view.active.contains(other)
            &&& view.jobs.contains_key(other) ==> paused.jobs[other] == view.jobs[other]
                && stopped.jobs[other] == view.jobs[other]
        }),
{
}

/// Pausing all pauses every card that was active and leaves the others; nothing is left behind, and
/// a window that was waiting for that goes on closing.
pub proof fn all_jobs_are_paused(
    view: WindowView,
    count: usize,
    remote: bool,
    key: (Seq<char>, Seq<char>),
)
    requires
        view.jobs.contains_key(key),
    ensures
        ({
            let after = view.monitors_paused(count, remote);
            &&& after.state.active == Set::<(Seq<char>, Seq<char>)>::empty()
            &&& view.jobs[key].active ==> !after.state.jobs[key].active
                && after.state.jobs[key].can_resume
            &&& !view.jobs[key].active ==> after.state.jobs[key] == view.jobs[key]
            &&& !after.state.closing.pausing
            &&& view.closing.pausing && view.closing.saving is None && !view.closing.stopping
                ==> after.effects.last() == EffectView::SaveForClose
            &&& !view.closing.pausing ==> after.effects.len() == 1
        }),
{
}

/// When the service is ready, the window asks for the draft, for the history and for both catalogs,
/// and shows the default provider.
pub proof fn readiness_asks_for_everything(
    view: WindowView,
    providers: Seq<ProviderConnection>,
    default_provider: Seq<char>,
)
    requires
        view.next_op < u64::MAX - 4,
    ensures
        ({
            let after = view.made_ready(providers, default_provider);
            let op = view.next_op;
            &&& after.effects.contains(
                EffectView::SelectProvider(
                    if default_provider == "fal"@ {
                        1
                    } else {
                        0
                    },
                ),
            )
            &&& after.effects.contains(EffectView::Ask(RequestView::LoadDraft { op_id: op }))
            &&& after.effects.contains(
                EffectView::Ask(
                    RequestView::LoadHistory { op_id: (op + 1) as u64, limit: 200 },
                ),
            )
            &&& after.effects.contains(
                EffectView::Ask(
                    RequestView::RefreshCatalog {
                        op_id: (op + 2) as u64,
                        provider_id: "openrouter"@,
                    },
                ),
            )
            &&& after.effects.contains(
                EffectView::Ask(
                    RequestView::RefreshCatalog { op_id: (op + 3) as u64, provider_id: "fal"@ },
                ),
            )
            &&& after.state.next_op == op + 4
        }),
{
    let after = view.made_ready(providers, default_provider);
    let all = after.effects;
    assert(all[0] is SelectProvider);
    assert(all[2] == EffectView::Ask(RequestView::LoadDraft { op_id: view.next_op }));
    assert(all[3] is Ask && all[4] is Ask && all[5] is Ask);
}

/// A provider's card shows whether its key is there; only known providers have one.
pub proof fn keys_are_shown(
    view: WindowView,
    provider_id: Seq<char>,
    storage: Seq<char>,
    other: Seq<char>,
)
    requires
        view.providers.contains_key(provider_id),
        other != provider_id,
    ensures
        ({
            let kept = view.connected(provider_id, true, storage);
            let gone = view.connected(provider_id, false, storage);
            &&& kept.providers[provider_id].connected && !gone.providers[provider_id].connected
            &&& kept.providers[provider_id].storage == storage
            &&& gone.providers[provider_id].storage == storage
            &&& kept.providers.contains_key(other) == view.providers.contains_key(other)
            &&& view.providers.contains_key(other) ==> kept.providers[other]
                == view.providers[other] && gone.providers[other] == view.providers[other]
        }),
{
}

/// A catalog is stored and shown where its provider is; a saved draft that waited for it is put into
/// the controls, and one whose catalog is not there yet waits.
pub proof fn drafts_wait_for_their_catalog(
    view: WindowView,
    provider_id: Seq<char>,
    catalog: VideoCatalog,
    pending: PendingDraft,
    selected: Seq<char>,
)
    ensures
        ({
            let loaded = view.catalog_loaded(provider_id, catalog, selected);
            &&& loaded.effects[0] == EffectView::StoreCatalog(catalog)
            &&& loaded.state.catalogs.contains_key(provider_id)
            &&& selected == provider_id ==> loaded.effects[1]
                == EffectView::RefreshModels
            &&& view.pending_draft matches Some(waiting) ==> (waiting.draft.provider_id@
                == provider_id ==> loaded.state.pending_draft is None && loaded.state.revision
                == waiting.revision && loaded.effects.contains(
                EffectView::ApplyDraft {
                    draft: waiting.draft,
                    editor_state: waiting.editor_state,
                },
            ))
            &&& view.pending_draft matches Some(waiting) ==> (waiting.draft.provider_id@
                != provider_id ==> loaded.state.pending_draft == view.pending_draft)
        }),
        ({
            let read = view.draft_applied(pending);
            &&& view.catalogs.contains_key(pending.draft.provider_id@) ==> read.effects[0] == (
            EffectView::ApplyDraft { draft: pending.draft, editor_state: pending.editor_state })
                && read.state.revision == pending.revision
            &&& !view.catalogs.contains_key(pending.draft.provider_id@) ==> read.effects.len() == 0
                && read.state.pending_draft == Some(pending) && read.state.revision
                == view.revision
        }),
{
    let loaded = view.catalog_loaded(provider_id, catalog, selected);
    if let Some(waiting) = view.pending_draft {
        if waiting.draft.provider_id@ == provider_id {
            let apply = EffectView::ApplyDraft {
                draft: waiting.draft,
                editor_state: waiting.editor_state,
            };
            if selected == provider_id {
                assert(loaded.effects[2] == apply);
            } else {
                assert(loaded.effects[1] == apply);
            }
        }
    }
}

/// An edit makes a new revision, uses up the review, tells the service so, and is saved later.
pub proof fn edits_make_revisions(view: WindowView, draft: DraftStateView)
    requires
        view.revision < u64::MAX,
        view.next_op < u64::MAX,
    ensures
        ({
            let after = view.edited(draft);
            &&& after.state.revision == view.revision + 1
            &&& after.state.draft == draft
            &&& after.state.prepared is None
            &&& after.state.submit == view.submit && after.state.holds == view.holds
            &&& after.effects == seq![
                EffectView::Ask(
                    RequestView::InvalidatePrepared {
                        op_id: view.next_op,
                        revision: (view.revision + 1) as u64,
                    },
                ),
                EffectView::RestartSaveTimer,
            ]
        }),
{
}

/// A draft that is in order and not held is prepared when a review is asked for, with its revision.
pub proof fn ready_drafts_are_prepared(view: WindowView)
    requires
        view.draft is Ready,
        view.current_hold() is None,
        !view.closing.pausing && view.closing.saving is None && !view.closing.stopping,
    ensures
        ({
            let after = view.review_pressed();
            &&& after.effects == seq![
                EffectView::Prepare { op_id: view.next_op, revision: view.revision },
            ]
            &&& !after.state.banner.enabled
            &&& after.state.revision == view.revision && after.state.submit == view.submit
        }),
{
}

/// The window closes at once where that is allowed, asks where jobs would be left behind, and
/// otherwise saves the draft first.
pub proof fn closing_is_careful(view: WindowView)
    requires
        view.submit is None,
        !view.closing.pausing && view.closing.saving is None && !view.closing.stopping,
    ensures
        view.closing.allowed ==> view.close_pressed().effects.len() == 0,
        !view.closing.allowed && !(view.active =~= Set::<(Seq<char>, Seq<char>)>::empty())
            ==> view.close_pressed().effects == seq![EffectView::ConfirmQuit],
        !view.closing.allowed && view.active =~= Set::<(Seq<char>, Seq<char>)>::empty()
            ==> view.close_pressed().effects == seq![EffectView::SaveForClose],
        view.close_pressed().state == view,
{
}

/// A hold is cleared only where it is that of the draft that is shown and nothing else is going on.
pub proof fn holds_are_cleared_with_care(view: WindowView, key: (Seq<char>, Seq<char>))
    ensures
        ({
            let after = view.clearing_confirmed(key);
            let may = view.submit is None && !view.closing.pausing && view.closing.saving is None
                && !view.closing.stopping && view.current_hold() == Some(key);
            &&& may ==> after.effects == seq![
                EffectView::Ask(
                    RequestView::ClearUncertainSubmission { op_id: view.next_op, key },
                ),
            ] && after.state.clears.contains_key(view.next_op)
                && after.state.clears[view.next_op] == key
            &&& !may ==> after.state == view && after.effects.len() == 1 && after.effects[0]
                is Toast
            &&& after.state.holds == view.holds
        }),
{
}

/// A review can be asked for if and only if nothing is closing, stopped, submitted or held, the
/// outcome of this revision is known, and the draft is in order; or to resolve a hold that is not
/// being cleared yet.
pub proof fn the_button_says_what_can_be_done(view: WindowView)
    ensures
        ({
            let closing = view.closing.pausing || view.closing.saving is Some
                || view.closing.stopping;
            let said = view.verdict();
            let idle = !closing && !view.closing.disconnected && view.submit is None;
            &&& said.pages <==> !closing
            &&& said.enabled <==> idle && (match view.current_hold() {
                Some(key) => !view.clearing(key),
                None => view.uncertain_revision != Some(view.revision) && view.draft is Ready,
            })
            &&& said.shade == Shade::Good <==> idle && view.current_hold() is None
                && view.uncertain_revision != Some(view.revision) && view.draft is Ready
        }),
{
}

/// A draft is held by the first of its fingerprints that there is a hold for.
pub proof fn drafts_are_held_by_fingerprint(
    holds: Map<(Seq<char>, Seq<char>), HoldView>,
    provider_id: Seq<char>,
    fingerprints: Seq<Seq<char>>,
)
    ensures
        crate::gui::window::held_among(holds, provider_id, fingerprints) is Some <==> exists|
            i: int,
        |
            0 <= i < fingerprints.len() && holds.contains_key(
                (provider_id, #[trigger] fingerprints[i]),
            ),
        crate::gui::window::held_among(holds, provider_id, fingerprints) matches Some(key)
            ==> holds.contains_key(key) && key.0 == provider_id && fingerprints.contains(key.1),
    decreases fingerprints.len(),
{
    if fingerprints.len() > 0 {
        let rest = fingerprints.skip(1);
        drafts_are_held_by_fingerprint(holds, provider_id, rest);
        assert(fingerprints[0] == fingerprints[0]);
        if let Some(key) = crate::gui::window::held_among(holds, provider_id, rest) {
            assert(fingerprints[rest.index_of(key.1) + 1] == key.1);
        }
        if exists|i: int|
            0 <= i < fingerprints.len() && holds.contains_key(
                (provider_id, #[trigger] fingerprints[i]),
            ) {
            let i = choose|i: int|
                0 <= i < fingerprints.len() && holds.contains_key(
                    (provider_id, #[trigger] fingerprints[i]),
                );
            if i > 0 {
                assert(rest[i - 1] == fingerprints[i]);
            }
        }
        if exists|i: int|
            0 <= i < rest.len() && holds.contains_key((provider_id, #[trigger] rest[i])) {
            let i = choose|i: int|
                0 <= i < rest.len() && holds.contains_key((provider_id, #[trigger] rest[i]));
            assert(fingerprints[i + 1] == rest[i]);
        }
    }
}

/// An upload is shown in whole hundredths: none at the start, all at the end, and never more.
pub proof fn uploads_are_shown_in_hundredths(sent: u64, total: u64)
    requires
        sent <= total,
        total <= u64::MAX / 100,
    ensures
        crate::gui::window::percent(sent, total) <= 100,
        total > 0 ==> crate::gui::window::percent(total, total) == 100,
        crate::gui::window::percent(0, total) == 0,
        total > 0 ==> crate::gui::window::percent(sent, total) * total <= sent * 100 < (
        crate::gui::window::percent(sent, total) + 1) * total,
{
    if total > 0 {
        let t = total as int;
        let s = sent as int;
        assert((s * 100) / t <= 100 && ((s * 100) / t) * t <= s * 100 < ((s * 100) / t + 1) * t)
            by (nonlinear_arith)
            requires
                0 <= s <= t,
                t > 0,
        ;
        assert((t * 100) / t == 100) by (nonlinear_arith)
            requires
                t > 0,
        ;
        assert((0int * 100) / t == 0) by (nonlinear_arith)
            requires
                t > 0,
        ;
    }
}

/// A service that is gone lets the window close; a paid request that it had not answered is told as
/// uncertain.
pub proof fn a_lost_service_is_told(view: WindowView)
    requires
        !view.closing.disconnected,
    ensures
        ({
            let after = view.service_lost();
            &&& after.state.closing.disconnected && after.state.closing.allowed
            &&& after.state.submit is None && after.state.prepared is None
            &&& view.submit matches Some(pending) ==> after.state.uncertain_revision == Some(
                pending.revision,
            ) && (after.effects[0] matches EffectView::WarnUncertain { provider_id, .. }
                && provider_id == pending.provider_id)
            &&& view.submit is None ==> after.state.uncertain_revision == view.uncertain_revision
                && after.effects[0] is Toast
        }),
{
}

proof fn connections_keep_cards(
    cards: Map<Seq<char>, crate::gui::window::ProviderCardView>,
    connections: Seq<ProviderConnection>,
)
    ensures
        crate::gui::window::connections_applied(cards, connections).dom() =~= cards.dom(),
    decreases connections.len(),
{
    if connections.len() > 0 {
        connections_keep_cards(cards, connections.drop_last());
    }
}

/// A provider's card shows the last that was told of its connection; a card of which nothing was told
/// stays, and no card appears.
pub proof fn connections_are_shown(
    cards: Map<Seq<char>, crate::gui::window::ProviderCardView>,
    connections: Seq<ProviderConnection>,
    id: Seq<char>,
    n: int,
)
    requires
        -1 <= n < connections.len(),
        n >= 0 ==> connections[n].descriptor.id@ == id,
        forall|k: int|
            n < k < connections.len() ==> (#[trigger] connections[k]).descriptor.id@ != id,
        cards.contains_key(id),
    ensures
        crate::gui::window::connections_applied(cards, connections).dom() =~= cards.dom(),
        n < 0 ==> crate::gui::window::connections_applied(cards, connections)[id] == cards[id],
        n >= 0 ==> crate::gui::window::connections_applied(cards, connections)[id].connected
            == connections[n].connected,
        n >= 0 ==> crate::gui::window::connections_applied(cards, connections)[id].storage
            == connections[n].credential_status.message@,
    decreases connections.len(),
{
    connections_keep_cards(cards, connections);
    if connections.len() > 0 {
        let rest = connections.drop_last();
        connections_keep_cards(cards, rest);
        if n < connections.len() - 1 {
            assert(connections[connections.len() - 1].descriptor.id@ != id);
            assert forall|k: int| n < k < rest.len() implies (#[trigger] rest[k]).descriptor.id@
                != id by {
                assert(rest[k] == connections[k]);
            }
            if n >= 0 {
                assert(rest[n] == connections[n]);
            }
            connections_are_shown(cards, rest, id, n);
        }
    }
}

/// A saved record gets a card of its own and leaves the others alone; its video becomes the latest
/// only where it is there and no other is known.
pub proof fn records_get_cards(
    view: WindowView,
    record: crate::history::JobRecord,
    exists_there: bool,
    other: (Seq<char>, Seq<char>),
)
    ensures
        ({
            let key = (record.provider_id@, record.job_id@);
            let after = view.record_restored(record, exists_there);
            &&& after.jobs.dom() =~= view.jobs.dom().insert(key)
            &&& other != key && view.jobs.contains_key(other) ==> after.jobs[other]
                == view.jobs[other]
            &&& view.latest_video is Some ==> after.latest_video == view.latest_video
            &&& !exists_there ==> after.latest_video == view.latest_video
            &&& exists_there && view.latest_video is None ==> (record.output_path matches Some(path)
                ==> after.latest_video == Some(path@))
            &&& after.draft == view.draft && after.active == view.active && after.submit
                == view.submit
        }),
{
}

proof fn restored_so_far(
    view: WindowView,
    records: Seq<crate::gui::window::FoundRecord>,
    i: int,
)
    requires
        0 <= i < records.len(),
    ensures
        view.history_restored(records).jobs.contains_key(
            (records[i].record.provider_id@, records[i].record.job_id@),
        ),
    decreases records.len(),
{
    if i < records.len() - 1 {
        restored_so_far(view, records.drop_last(), i);
    }
}

/// Every saved record has its card once the history is shown.
pub proof fn the_history_is_shown(
    view: WindowView,
    records: Seq<crate::gui::window::FoundRecord>,
    i: int,
)
    requires
        0 <= i < records.len(),
    ensures
        view.history_restored(records).jobs.contains_key(
            (records[i].record.provider_id@, records[i].record.job_id@),
        ),
        view.history_restored(Seq::empty()) == view,
{
    restored_so_far(view, records, i);
}

/// Every job that was left running has its card.
pub proof fn left_jobs_are_shown(
    view: WindowView,
    jobs: Seq<crate::gui::window::LeftJob>,
    i: int,
)
    requires
        0 <= i < jobs.len(),
    ensures
        view.jobs_left(jobs).jobs.contains_key(jobs[i].key@),
        view.jobs_left(jobs).latest_video == view.latest_video,
        view.jobs_left(jobs).active == view.active,
    decreases jobs.len(),
{
    if i < jobs.len() - 1 {
        left_jobs_are_shown(view, jobs.drop_last(), i);
    } else if jobs.len() > 1 {
        left_jobs_are_shown(view, jobs.drop_last(), 0);
    } else {
        assert(jobs.drop_last().len() == 0);
    }
}

/// What is told of a job concerns the one card of that job and provider, or every card of that job
/// where no provider is told.
pub proof fn tidings_concern_their_job(
    key: (Seq<char>, Seq<char>),
    provider_id: Seq<char>,
    job_id: Seq<char>,
)
    ensures
        crate::gui::window::concerns(key, Some(provider_id), job_id) <==> key == (
            provider_id,
            job_id,
        ),
        crate::gui::window::concerns(key, None, job_id) <==> key.1 == job_id,
{
}

/// A detail is shown on its own card only, and no card is made for it.
pub proof fn details_are_shown_on_their_card(
    view: WindowView,
    key: (Seq<char>, Seq<char>),
    detail: Seq<char>,
    other: (Seq<char>, Seq<char>),
)
    ensures
        view.card_saying(key, detail).jobs.dom() =~= view.jobs.dom(),
        view.jobs.contains_key(key) ==> view.card_saying(key, detail).jobs[key].detail == detail
            && view.card_saying(key, detail).jobs[key].status == view.jobs[key].status
            && view.card_saying(key, detail).jobs[key].title == view.jobs[key].title,
        other != key && view.jobs.contains_key(other) ==> view.card_saying(key, detail).jobs[other]
            == view.jobs[other],
{
}

/// Only the answer to the pending submission ends it.
pub proof fn only_its_answer_ends_a_submission(view: WindowView, op_id: u64)
    ensures
        view.submit matches Some(pending) ==> (view.answered(op_id).submit is None <==> pending.op_id
            == op_id),
        view.submit is None ==> view.answered(op_id) == view,
        view.answered(op_id).jobs == view.jobs && view.answered(op_id).draft == view.draft,
{
}

} // verus!
