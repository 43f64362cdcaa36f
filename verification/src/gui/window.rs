//! The window's controller: what it knows, how it answers events of the service and the user, and
//! when it may close.

use crate::domain::{
    CostQuote, DraftMedia, GenerationDraft, ProviderId, ProviderJobKey, Timestamp, VideoCatalog,
    VideoJob, VideoRequest, FAL_PROVIDER_ID, OPENROUTER_PROVIDER_ID,
};
use crate::gui::job_cards::JobCard;
use crate::gui::media_list::{index_for_provider, job_title, provider_name, typed_media_ordinal};
use crate::gui_state::{DraftEditorState, UncertainSubmissionRecord};
use crate::history::JobRecord;
use crate::outside::{write_moment, MINUTE_PATTERN};
use crate::paths::file_name;
use crate::table::{Entry, Key, Table};
use crate::text::{concat, concat3, contains_text, decimal, same_text, trim_text};
use crate::workflow::ProviderConnection;
use vstd::prelude::*;

verus! {

/// How a message is coloured.
#[derive(Debug, Clone, Copy, PartialEq, Eq, Structural)]
pub enum Shade {
    Muted,
    Good,
    Warning,
    Error,
}

/// What the composer says below the controls, and its button.
#[derive(Debug)]
pub struct Banner {
    pub message: String,
    pub shade: Shade,
    pub label: String,
    pub enabled: bool,
    /// Whether the window's pages can be used.
    pub pages: bool,
}

/// The mathematical value of a banner.
pub struct BannerView {
    pub message: Seq<char>,
    pub shade: Shade,
    pub label: Seq<char>,
    pub enabled: bool,
    pub pages: bool,
}

impl View for Banner {
    type V = BannerView;

    open spec fn view(&self) -> BannerView {
        BannerView {
            message: self.message@,
            shade: self.shade,
            label: self.label@,
            enabled: self.enabled,
            pages: self.pages,
        }
    }
}

/// A draft of a provider, by its digest.
#[derive(Debug)]
pub struct HoldKey {
    pub provider_id: ProviderId,
    pub draft_fingerprint: String,
}

impl View for HoldKey {
    type V = (Seq<char>, Seq<char>);

    open spec fn view(&self) -> (Seq<char>, Seq<char>) {
        (self.provider_id@, self.draft_fingerprint@)
    }
}

impl Key for HoldKey {
    fn same_key(&self, other: &Self) -> (b: bool) {
        self.provider_id.same(&other.provider_id) && self.draft_fingerprint
            == other.draft_fingerprint
    }
}

impl HoldKey {
    /// The same key again.
    pub fn copy(&self) -> (key: HoldKey)
        ensures
            key@ == self@,
    {
        HoldKey {
            provider_id: self.provider_id.copy(),
            draft_fingerprint: self.draft_fingerprint.clone(),
        }
    }

    /// The draft that a record is about.
    pub fn of(record: &UncertainSubmissionRecord) -> (key: HoldKey)
        ensures
            key@ == hold_key(*record),
    {
        HoldKey {
            provider_id: record.provider_id.copy(),
            draft_fingerprint: record.draft_fingerprint.clone(),
        }
    }
}

/// The draft that a record is about.
pub open spec fn hold_key(record: UncertainSubmissionRecord) -> (Seq<char>, Seq<char>) {
    (record.provider_id@, record.draft_fingerprint@)
}

/// The mathematical value of a record.
pub struct HoldView {
    pub provider_id: Seq<char>,
    pub draft_fingerprint: Seq<char>,
    pub recorded_at: Timestamp,
    pub message: Seq<char>,
}

impl View for UncertainSubmissionRecord {
    type V = HoldView;

    open spec fn view(&self) -> HoldView {
        HoldView {
            provider_id: self.provider_id@,
            draft_fingerprint: self.draft_fingerprint@,
            recorded_at: self.recorded_at,
            message: self.message@,
        }
    }
}

/// A review that is ready to be paid for.
#[derive(Debug)]
pub struct PreparedReview {
    pub id: u64,
    pub revision: u64,
    pub draft_fingerprint: String,
}

/// The mathematical value of a prepared review.
pub struct PreparedView {
    pub id: u64,
    pub revision: u64,
    pub draft_fingerprint: Seq<char>,
}

/// The value of an optional prepared review.
pub open spec fn prepared_view(prepared: Option<PreparedReview>) -> Option<PreparedView> {
    match prepared {
        Some(review) => Some(
            PreparedView {
                id: review.id,
                revision: review.revision,
                draft_fingerprint: review.draft_fingerprint@,
            },
        ),
        None => None,
    }
}

/// A paid request that has not been answered.
#[derive(Debug)]
pub struct PendingSubmit {
    pub op_id: u64,
    pub revision: u64,
    pub provider_id: ProviderId,
}

/// The mathematical value of a pending request.
pub struct SubmitView {
    pub op_id: u64,
    pub revision: u64,
    pub provider_id: Seq<char>,
}

/// The value of an optional pending request.
pub open spec fn submit_view(submit: Option<PendingSubmit>) -> Option<SubmitView> {
    match submit {
        Some(pending) => Some(
            SubmitView {
                op_id: pending.op_id,
                revision: pending.revision,
                provider_id: pending.provider_id@,
            },
        ),
        None => None,
    }
}

/// How far closing has come.
#[derive(Debug, Clone, Copy, PartialEq, Eq, Structural)]
pub struct Closing {
    /// The jobs are being paused, to shut down after that.
    pub pausing: bool,
    /// The draft is being saved by this operation, to shut down after that.
    pub saving: Option<u64>,
    /// The service was told to shut down.
    pub stopping: bool,
    /// The service is gone.
    pub disconnected: bool,
    /// The window may close.
    pub allowed: bool,
}

impl Closing {
    /// Whether the window is on its way to closing.
    pub open spec fn under_way(self) -> bool {
        self.pausing || self.saving is Some || self.stopping
    }
}

/// What the composer's controls make at the moment: a draft that can be reviewed, with the digests
/// that it goes by, or a complaint.
#[derive(Debug)]
pub enum DraftState {
    Ready { provider_id: ProviderId, fingerprints: Vec<String>, local: bool },
    Faulty(String),
}

/// The mathematical value of a draft's state.
pub enum DraftStateView {
    Ready { provider_id: Seq<char>, fingerprints: Seq<Seq<char>>, local: bool },
    Faulty(Seq<char>),
}

impl View for DraftState {
    type V = DraftStateView;

    open spec fn view(&self) -> DraftStateView {
        match *self {
            DraftState::Ready { provider_id, fingerprints, local } => DraftStateView::Ready {
                provider_id: provider_id@,
                fingerprints: crate::text::texts(fingerprints@),
                local,
            },
            DraftState::Faulty(message) => DraftStateView::Faulty(message@),
        }
    }
}

/// A saved draft that waits for its provider's catalog.
pub struct PendingDraft {
    pub draft: GenerationDraft,
    pub editor_state: DraftEditorState,
    pub revision: u64,
}

/// What the window shows of a provider.
#[derive(Debug)]
pub struct ProviderCard {
    pub connected: bool,
    pub storage: String,
}

/// The mathematical value of a provider's card.
pub struct ProviderCardView {
    pub connected: bool,
    pub storage: Seq<char>,
}

impl View for ProviderCard {
    type V = ProviderCardView;

    open spec fn view(&self) -> ProviderCardView {
        ProviderCardView { connected: self.connected, storage: self.storage@ }
    }
}

/// Reads a key that was typed in: without the white space around it, and never blank.
pub fn read_key(text: &str) -> (r: Result<String, String>)
    ensures
        match r {
            Ok(key) => key@ == crate::text::trimmed(text@) && key@.len() > 0,
            Err(message) => crate::text::trimmed(text@).len() == 0 && message@
                == "Paste an API key first."@,
        },
{
    let key = trim_text(text);
    if key.unicode_len() == 0 {
        Err("Paste an API key first.".to_owned())
    } else {
        Ok(key.to_owned())
    }
}

/// What a provider's card says of its key.
pub fn connection_label(connected: bool) -> (s: &'static str)
    ensures
        s@ == (if connected {
            "Connected"@
        } else {
            "Needs API key"@
        }),
{
    if connected {
        "Connected"
    } else {
        "Needs API key"
    }
}

/// What the window asks of the service.
#[derive(Debug)]
pub enum WindowRequest {
    LoadDraft { op_id: u64 },
    LoadHistory { op_id: u64, limit: usize },
    RefreshCatalog { op_id: u64, provider_id: ProviderId },
    InvalidatePrepared { op_id: u64, revision: u64 },
    SubmitPrepared { op_id: u64, prepared_id: u64 },
    PauseMonitor { op_id: u64, key: ProviderJobKey },
    Resume { op_id: u64, key: ProviderJobKey },
    ResumeAll { op_id: u64 },
    PauseAll { op_id: u64 },
    ClearUncertainSubmission { op_id: u64, key: HoldKey },
    OpenVideo { op_id: u64, path: String },
    Shutdown,
}

/// The mathematical value of a request.
pub enum RequestView {
    LoadDraft { op_id: u64 },
    LoadHistory { op_id: u64, limit: usize },
    RefreshCatalog { op_id: u64, provider_id: Seq<char> },
    InvalidatePrepared { op_id: u64, revision: u64 },
    SubmitPrepared { op_id: u64, prepared_id: u64 },
    PauseMonitor { op_id: u64, key: (Seq<char>, Seq<char>) },
    Resume { op_id: u64, key: (Seq<char>, Seq<char>) },
    ResumeAll { op_id: u64 },
    PauseAll { op_id: u64 },
    ClearUncertainSubmission { op_id: u64, key: (Seq<char>, Seq<char>) },
    OpenVideo { op_id: u64, path: Seq<char> },
    Shutdown,
}

impl View for WindowRequest {
    type V = RequestView;

    open spec fn view(&self) -> RequestView {
        match *self {
            WindowRequest::LoadDraft { op_id } => RequestView::LoadDraft { op_id },
            WindowRequest::LoadHistory { op_id, limit } => RequestView::LoadHistory {
                op_id,
                limit,
            },
            WindowRequest::RefreshCatalog { op_id, provider_id } => RequestView::RefreshCatalog {
                op_id,
                provider_id: provider_id@,
            },
            WindowRequest::InvalidatePrepared { op_id, revision } =>
                RequestView::InvalidatePrepared { op_id, revision },
            WindowRequest::SubmitPrepared { op_id, prepared_id } => RequestView::SubmitPrepared {
                op_id,
                prepared_id,
            },
            WindowRequest::PauseMonitor { op_id, key } => RequestView::PauseMonitor {
                op_id,
                key: key@,
            },
            WindowRequest::Resume { op_id, key } => RequestView::Resume { op_id, key: key@ },
            WindowRequest::ResumeAll { op_id } => RequestView::ResumeAll { op_id },
            WindowRequest::PauseAll { op_id } => RequestView::PauseAll { op_id },
            WindowRequest::ClearUncertainSubmission { op_id, key } =>
                RequestView::ClearUncertainSubmission { op_id, key: key@ },
            WindowRequest::OpenVideo { op_id, path } => RequestView::OpenVideo {
                op_id,
                path: path@,
            },
            WindowRequest::Shutdown => RequestView::Shutdown,
        }
    }
}

/// What is to be done besides showing the state.
pub enum Effect {
    Toast(String),
    Ask(WindowRequest),
    /// Select the provider in both lists, without counting that as an edit.
    SelectProvider(u32),
    RefreshMedia,
    StoreCatalog(VideoCatalog),
    RefreshModels,
    /// Put a saved draft into the controls, without counting that as an edit.
    ApplyDraft { draft: GenerationDraft, editor_state: DraftEditorState },
    ShowReview {
        provider_id: ProviderId,
        request: VideoRequest,
        quote: CostQuote,
        expires_at: Timestamp,
    },
    ShowJobs,
    /// Warn that an accepted job was not saved.
    WarnRemoteJob { key: ProviderJobKey, message: String },
    /// Warn that a paid request may have been accepted.
    WarnUncertain { provider_id: ProviderId, message: String },
    /// Ask whether a hold is to be cleared.
    ResolveHold(HoldKey),
    WarnDraftUnsaved(String),
    ConfirmQuit,
    /// Ask the service to prepare the draft for review.
    Prepare { op_id: u64, revision: u64 },
    /// Restart the timer that saves the draft.
    RestartSaveTimer,
    /// Save the draft now, stop its timer, and tell `draft_queued` what came of it.
    SaveForClose,
    CloseWindow,
}

/// The mathematical value of an effect.
pub enum EffectView {
    Toast(Seq<char>),
    Ask(RequestView),
    SelectProvider(u32),
    RefreshMedia,
    StoreCatalog(VideoCatalog),
    RefreshModels,
    ApplyDraft { draft: GenerationDraft, editor_state: DraftEditorState },
    ShowReview {
        provider_id: Seq<char>,
        request: VideoRequest,
        quote: CostQuote,
        expires_at: Timestamp,
    },
    ShowJobs,
    WarnRemoteJob { key: (Seq<char>, Seq<char>), message: Seq<char> },
    WarnUncertain { provider_id: Seq<char>, message: Seq<char> },
    ResolveHold((Seq<char>, Seq<char>)),
    WarnDraftUnsaved(Seq<char>),
    ConfirmQuit,
    Prepare { op_id: u64, revision: u64 },
    RestartSaveTimer,
    SaveForClose,
    CloseWindow,
}

impl View for Effect {
    type V = EffectView;

    open spec fn view(&self) -> EffectView {
        match *self {
            Effect::Toast(message) => EffectView::Toast(message@),
            Effect::Ask(request) => EffectView::Ask(request@),
            Effect::SelectProvider(index) => EffectView::SelectProvider(index),
            Effect::RefreshMedia => EffectView::RefreshMedia,
            Effect::StoreCatalog(catalog) => EffectView::StoreCatalog(catalog),
            Effect::RefreshModels => EffectView::RefreshModels,
            Effect::ApplyDraft { draft, editor_state } => EffectView::ApplyDraft {
                draft,
                editor_state,
            },
            Effect::ShowReview { provider_id, request, quote, expires_at } =>
                EffectView::ShowReview { provider_id: provider_id@, request, quote, expires_at },
            Effect::ShowJobs => EffectView::ShowJobs,
            Effect::WarnRemoteJob { key, message } => EffectView::WarnRemoteJob {
                key: key@,
                message: message@,
            },
            Effect::WarnUncertain { provider_id, message } => EffectView::WarnUncertain {
                provider_id: provider_id@,
                message: message@,
            },
            Effect::ResolveHold(key) => EffectView::ResolveHold(key@),
            Effect::WarnDraftUnsaved(message) => EffectView::WarnDraftUnsaved(message@),
            Effect::ConfirmQuit => EffectView::ConfirmQuit,
            Effect::Prepare { op_id, revision } => EffectView::Prepare { op_id, revision },
            Effect::RestartSaveTimer => EffectView::RestartSaveTimer,
            Effect::SaveForClose => EffectView::SaveForClose,
            Effect::CloseWindow => EffectView::CloseWindow,
        }
    }
}

/// The values of a list of effects.
pub open spec fn effects_view(effects: Seq<Effect>) -> Seq<EffectView> {
    Seq::new(effects.len(), |i: int| effects[i]@)
}

fn push(effects: &mut Vec<Effect>, effect: Effect)
    ensures
        effects_view(final(effects)@) == effects_view(old(effects)@).push(effect@),
{
    effects.push(effect);
    assert(effects_view(effects@) =~= effects_view(old(effects)@).push(effect@));
}

fn no_effects() -> (effects: Vec<Effect>)
    ensures
        effects_view(effects@) == Seq::<EffectView>::empty(),
{
    let effects: Vec<Effect> = Vec::new();
    assert(effects_view(effects@) =~= Seq::<EffectView>::empty());
    effects
}

fn toast(message: &str) -> (effect: Effect)
    ensures
        effect@ == EffectView::Toast(message@),
{
    Effect::Toast(message.to_owned())
}

/// What the window knows.
pub struct WindowState {
    next_op: u64,
    revision: u64,
    prepared: Option<PreparedReview>,
    submit: Option<PendingSubmit>,
    uncertain_revision: Option<u64>,
    holds: Table<HoldKey, UncertainSubmissionRecord>,
    clears: Table<u64, HoldKey>,
    closing: Closing,
    draft: DraftState,
    banner: Banner,
    catalogs: Table<ProviderId, bool>,
    pending_draft: Option<PendingDraft>,
    providers: Table<ProviderId, ProviderCard>,
    jobs: Table<ProviderJobKey, JobCard>,
    active: Table<ProviderJobKey, bool>,
    latest_video: Option<String>,
}

/// The mathematical value of what the window knows.
pub struct WindowView {
    pub next_op: u64,
    pub revision: u64,
    pub prepared: Option<PreparedView>,
    pub submit: Option<SubmitView>,
    pub uncertain_revision: Option<u64>,
    pub holds: Map<(Seq<char>, Seq<char>), HoldView>,
    pub clears: Map<u64, (Seq<char>, Seq<char>)>,
    pub closing: Closing,
    pub draft: DraftStateView,
    pub banner: BannerView,
    /// The providers whose catalog has come in.
    pub catalogs: Map<Seq<char>, bool>,
    pub pending_draft: Option<PendingDraft>,
    pub providers: Map<Seq<char>, ProviderCardView>,
    pub jobs: Map<(Seq<char>, Seq<char>), crate::gui::job_cards::CardView>,
    /// The jobs that closing would leave behind.
    pub active: Set<(Seq<char>, Seq<char>)>,
    pub latest_video: Option<Seq<char>>,
}

impl View for WindowState {
    type V = WindowView;

    closed spec fn view(&self) -> WindowView {
        WindowView {
            next_op: self.next_op,
            revision: self.revision,
            prepared: prepared_view(self.prepared),
            submit: submit_view(self.submit),
            uncertain_revision: self.uncertain_revision,
            holds: self.holds@,
            clears: self.clears@,
            closing: self.closing,
            draft: self.draft@,
            banner: self.banner@,
            catalogs: self.catalogs@,
            pending_draft: self.pending_draft,
            providers: self.providers@,
            jobs: self.jobs@,
            active: self.active@.dom(),
            latest_video: crate::domain::opt_view(self.latest_video),
        }
    }
}

/// The first of a provider's digests that a hold is recorded for.
pub open spec fn held_among(
    holds: Map<(Seq<char>, Seq<char>), HoldView>,
    provider_id: Seq<char>,
    fingerprints: Seq<Seq<char>>,
) -> Option<(Seq<char>, Seq<char>)>
    decreases fingerprints.len(),
{
    if fingerprints.len() == 0 {
        None
    } else if holds.contains_key((provider_id, fingerprints[0])) {
        Some((provider_id, fingerprints[0]))
    } else {
        held_among(holds, provider_id, fingerprints.skip(1))
    }
}

/// The number after an operation's, as far as a machine word counts.
pub open spec fn later(n: u64) -> u64 {
    if n == u64::MAX {
        n
    } else {
        (n + 1) as u64
    }
}

impl WindowView {
    /// The draft that the controls make and that a hold blocks, if one does.
    pub open spec fn current_hold(self) -> Option<(Seq<char>, Seq<char>)> {
        match self.draft {
            DraftStateView::Ready { provider_id, fingerprints, .. } => held_among(
                self.holds,
                provider_id,
                fingerprints,
            ),
            DraftStateView::Faulty(_) => None,
        }
    }

    /// Whether a hold is being cleared.
    pub open spec fn clearing(self, key: (Seq<char>, Seq<char>)) -> bool {
        exists|op: u64| self.clears.contains_key(op) && #[trigger] self.clears[op] == key
    }

    /// What the composer says, and whether its button can be used.
    pub open spec fn verdict(self) -> BannerView {
        let pages = !self.closing.under_way();
        if self.closing.under_way() {
            BannerView {
                message: "Finishing local state before closing Video Harness."@,
                shade: Shade::Warning,
                label: "Closing safely…"@,
                enabled: false,
                pages,
            }
        } else if self.closing.disconnected {
            BannerView {
                message:
                    "The background service stopped. Close and reopen Video Harness before preparing another generation."@,
                shade: Shade::Error,
                label: "Background service stopped"@,
                enabled: false,
                pages,
            }
        } else if self.submit is Some {
            BannerView {
                message:
                    "Submitting one paid request. Keep Video Harness open until its remote job ID is safely stored."@,
                shade: Shade::Warning,
                label: "Submitting…"@,
                enabled: false,
                pages,
            }
        } else if self.current_hold() is Some {
            let clearing = self.clearing(self.current_hold()->0);
            BannerView {
                message:
                    "This exact draft may already have been accepted. Check the provider dashboard before allowing another paid request."@,
                shade: Shade::Error,
                label: if clearing {
                    "Clearing safety hold…"@
                } else {
                    "Resolve uncertain submission"@
                },
                enabled: !clearing,
                pages,
            }
        } else if self.uncertain_revision == Some(self.revision) {
            BannerView {
                message:
                    "The provider may already be generating this exact draft. Check its dashboard before retrying, or edit the draft to create a distinct request."@,
                shade: Shade::Error,
                label: "Submission outcome uncertain"@,
                enabled: false,
                pages,
            }
        } else {
            match self.draft {
                DraftStateView::Ready { provider_id, local, .. } => BannerView {
                    message: if provider_id == FAL_PROVIDER_ID@ && local {
                        "Ready to review. Local reference media uploads to a public fal CDN at Review and expires after 24 hours."@
                    } else {
                        "Ready to review — nothing has been submitted."@
                    },
                    shade: Shade::Good,
                    label: "Review generation"@,
                    enabled: true,
                    pages,
                },
                DraftStateView::Faulty(message) => BannerView {
                    message,
                    shade: if crate::text::occurs(message, "OpenRouter"@) || crate::text::occurs(
                        message,
                        "does not support"@,
                    ) {
                        Shade::Warning
                    } else {
                        Shade::Muted
                    },
                    label: "Review generation"@,
                    enabled: false,
                    pages,
                },
            }
        }
    }

    /// The state with the composer's banner brought up to date.
    pub open spec fn refreshed(self) -> WindowView {
        WindowView { banner: self.verdict(), ..self }
    }

    /// The state with something else said in the banner.
    pub open spec fn saying(self, message: Seq<char>, shade: Shade) -> WindowView {
        WindowView { banner: BannerView { message, shade, ..self.banner }, ..self }
    }

    /// The state with another label on the composer's button.
    pub open spec fn labelled(self, label: Seq<char>) -> WindowView {
        WindowView { banner: BannerView { label, ..self.banner }, ..self }
    }

    /// The state after the pending request with this number is answered.
    pub open spec fn answered(self, op_id: u64) -> WindowView {
        if self.submit matches Some(pending) && pending.op_id == op_id {
            WindowView { submit: None, ..self }
        } else {
            self
        }
    }

    /// The state without a prepared review.
    pub open spec fn unprepared(self) -> WindowView {
        WindowView { prepared: None, ..self }
    }

    /// The state with one more operation numbered.
    pub open spec fn numbered(self) -> WindowView {
        WindowView { next_op: later(self.next_op), ..self }
    }

    /// The state with a hold.
    pub open spec fn holding(self, hold: HoldView) -> WindowView {
        WindowView {
            holds: self.holds.insert((hold.provider_id, hold.draft_fingerprint), hold),
            ..self
        }
    }

    /// The card of a job, or a fresh one, with a title.
    pub open spec fn card(self, key: (Seq<char>, Seq<char>), title: Seq<char>) -> crate::gui::job_cards::CardView {
        if self.jobs.contains_key(key) {
            self.jobs[key].titled(title)
        } else {
            crate::gui::job_cards::CardView::fresh(title)
        }
    }

    /// The state with a job's card.
    pub open spec fn with_card(
        self,
        key: (Seq<char>, Seq<char>),
        card: crate::gui::job_cards::CardView,
    ) -> WindowView {
        WindowView { jobs: self.jobs.insert(key, card), ..self }
    }

    /// The state with a job among those that closing would leave behind, or not.
    pub open spec fn watching(self, key: (Seq<char>, Seq<char>), watched: bool) -> WindowView {
        WindowView {
            active: if watched {
                self.active.insert(key)
            } else {
                self.active.remove(key)
            },
            ..self
        }
    }
}

fn make_banner(message: &str, shade: Shade, label: &str, enabled: bool, pages: bool) -> (banner:
    Banner)
    ensures
        banner@ == (BannerView { message: message@, shade, label: label@, enabled, pages }),
{
    Banner { message: message.to_owned(), shade, label: label.to_owned(), enabled, pages }
}

fn first_held(
    holds: &Table<HoldKey, UncertainSubmissionRecord>,
    provider_id: &ProviderId,
    fingerprints: &Vec<String>,
) -> (r: Option<HoldKey>)
    ensures
        match r {
            Some(key) => held_among(
                holds@,
                provider_id@,
                crate::text::texts(fingerprints@),
            ) == Some(key@) && holds@.contains_key(key@),
            None => held_among(
                holds@,
                provider_id@,
                crate::text::texts(fingerprints@),
            ) is None,
        },
{
    let ghost views = crate::text::texts(fingerprints@);
    let mut i: usize = 0;
    assert(views.skip(0) =~= views);
    while i < fingerprints.len()
        invariant
            i <= fingerprints@.len(),
            views == crate::text::texts(fingerprints@),
            held_among(holds@, provider_id@, views) == held_among(
                holds@,
                provider_id@,
                views.skip(i as int),
            ),
        decreases fingerprints@.len() - i,
    {
        proof {
            assert(views.skip(i as int)[0] == fingerprints@[i as int]@);
            assert(views.skip(i as int).skip(1) =~= views.skip(i as int + 1));
        }
        let key = HoldKey {
            provider_id: provider_id.copy(),
            draft_fingerprint: fingerprints[i].clone(),
        };
        if holds.contains(&key) {
            return Some(key);
        }
        i = i + 1;
    }
    assert(views.skip(i as int) =~= Seq::empty());
    None
}

impl Closing {
    fn is_under_way(&self) -> (b: bool)
        ensures
            b == self.under_way(),
    {
        self.pausing || self.saving.is_some() || self.stopping
    }
}

impl WindowState {
    /// A window that knows nothing yet, with cards for both providers.
    pub fn new() -> (state: WindowState)
        ensures
            state@.next_op == 1,
            state@.revision == 0,
            state@.prepared is None,
            state@.submit is None,
            state@.uncertain_revision is None,
            state@.holds == Map::<(Seq<char>, Seq<char>), HoldView>::empty(),
            state@.clears == Map::<u64, (Seq<char>, Seq<char>)>::empty(),
            state@.closing == (Closing {
                pausing: false,
                saving: None,
                stopping: false,
                disconnected: false,
                allowed: false,
            }),
            state@.draft == DraftStateView::Faulty("Choose a model"@),
            state@.banner == (BannerView {
                message: ""@,
                shade: Shade::Muted,
                label: "Review generation"@,
                enabled: false,
                pages: true,
            }),
            state@.catalogs == Map::<Seq<char>, bool>::empty(),
            state@.pending_draft is None,
            state@.providers == Map::<Seq<char>, ProviderCardView>::empty().insert(
                OPENROUTER_PROVIDER_ID@,
                ProviderCardView { connected: false, storage: ""@ },
            ).insert(FAL_PROVIDER_ID@, ProviderCardView { connected: false, storage: ""@ }),
            state@.jobs == Map::<
                (Seq<char>, Seq<char>),
                crate::gui::job_cards::CardView,
            >::empty(),
            state@.active == Set::<(Seq<char>, Seq<char>)>::empty(),
            state@.latest_video is None,
    {
        let mut providers: Table<ProviderId, ProviderCard> = Table::new();
        providers.insert(
            ProviderId::openrouter(),
            ProviderCard { connected: false, storage: "".to_owned() },
        );
        providers.insert(
            ProviderId::fal(),
            ProviderCard { connected: false, storage: "".to_owned() },
        );
        let state = WindowState {
            next_op: 1,
            revision: 0,
            prepared: None,
            submit: None,
            uncertain_revision: None,
            holds: Table::new(),
            clears: Table::new(),
            closing: Closing {
                pausing: false,
                saving: None,
                stopping: false,
                disconnected: false,
                allowed: false,
            },
            draft: DraftState::Faulty("Choose a model".to_owned()),
            banner: make_banner("", Shade::Muted, "Review generation", false, true),
            catalogs: Table::new(),
            pending_draft: None,
            providers,
            jobs: Table::new(),
            active: Table::new(),
            latest_video: None,
        };
        assert(state@.active =~= Set::<(Seq<char>, Seq<char>)>::empty());
        state
    }

    /// What the composer says at the moment.
    pub fn banner(&self) -> (banner: &Banner)
        ensures
            banner@ == self@.banner,
    {
        &self.banner
    }

    /// The card of a job.
    pub fn job(&self, key: &ProviderJobKey) -> (card: Option<&JobCard>)
        ensures
            match card {
                Some(card) => self@.jobs.contains_key(key@) && card@ == self@.jobs[key@],
                None => !self@.jobs.contains_key(key@),
            },
    {
        self.jobs.get(key)
    }

    /// The card of a provider.
    pub fn provider(&self, id: &ProviderId) -> (card: Option<&ProviderCard>)
        ensures
            match card {
                Some(card) => self@.providers.contains_key(id@) && card@ == self@.providers[id@],
                None => !self@.providers.contains_key(id@),
            },
    {
        self.providers.get(id)
    }

    /// How often the draft has been edited.
    pub fn revision(&self) -> (revision: u64)
        ensures
            revision == self@.revision,
    {
        self.revision
    }

    /// Numbers an operation.
    pub fn op_id(&mut self) -> (id: u64)
        ensures
            id == old(self)@.next_op,
            final(self)@ == old(self)@.numbered(),
    {
        let id: u64 = self.next_op;
        self.next_op = id.saturating_add(1);
        id
    }

    fn find_hold(&self) -> (r: Option<HoldKey>)
        ensures
            match r {
                Some(key) => self@.current_hold() == Some(key@) && self@.holds.contains_key(key@),
                None => self@.current_hold() is None,
            },
    {
        match &self.draft {
            DraftState::Ready { provider_id, fingerprints, .. } => first_held(
                &self.holds,
                provider_id,
                fingerprints,
            ),
            DraftState::Faulty(_) => None,
        }
    }

    /// The draft that the controls make and that a hold blocks, if one does.
    pub fn current_uncertain_submission(&self) -> (r: Option<&UncertainSubmissionRecord>)
        ensures
            match r {
                Some(record) => self@.current_hold() matches Some(key) && self@.holds.contains_key(
                    key,
                ) && record@ == self@.holds[key],
                None => self@.current_hold() is None,
            },
    {
        match self.find_hold() {
            Some(key) => self.holds.get(&key),
            None => None,
        }
    }

    fn is_clearing(&self, key: &HoldKey) -> (b: bool)
        ensures
            b == self@.clearing(key@),
    {
        let held = self.clears.holds_value(key);
        proof {
            if held {
                let op = choose|op: u64| self.clears@.contains_key(op) && #[trigger] self.clears@[op]
                    == key@;
                assert(self@.clears.contains_key(op) && self@.clears[op] == key@);
            } else if self@.clearing(key@) {
                let op = choose|op: u64|
                    self@.clears.contains_key(op) && #[trigger] self@.clears[op] == key@;
                assert(self.clears@.contains_key(op) && self.clears@[op] == key@);
            }
        }
        held
    }

    fn update_compatibility(&mut self)
        ensures
            final(self)@ == old(self)@.refreshed(),
    {
        let pages = !self.closing.is_under_way();
        let banner = if self.closing.is_under_way() {
            make_banner(
                "Finishing local state before closing Video Harness.",
                Shade::Warning,
                "Closing safely…",
                false,
                pages,
            )
        } else if self.closing.disconnected {
            make_banner(
                "The background service stopped. Close and reopen Video Harness before preparing another generation.",
                Shade::Error,
                "Background service stopped",
                false,
                pages,
            )
        } else if self.submit.is_some() {
            make_banner(
                "Submitting one paid request. Keep Video Harness open until its remote job ID is safely stored.",
                Shade::Warning,
                "Submitting…",
                false,
                pages,
            )
        } else {
            match self.find_hold() {
                Some(key) => {
                    let clearing = self.is_clearing(&key);
                    make_banner(
                        "This exact draft may already have been accepted. Check the provider dashboard before allowing another paid request.",
                        Shade::Error,
                        if clearing {
                            "Clearing safety hold…"
                        } else {
                            "Resolve uncertain submission"
                        },
                        !clearing,
                        pages,
                    )
                },
                None => self.draft_banner(pages),
            }
        };
        self.banner = banner;
    }

    fn draft_banner(&self, pages: bool) -> (banner: Banner)
        requires
            pages,
            !self@.closing.under_way(),
            !self@.closing.disconnected,
            self@.submit is None,
            self@.current_hold() is None,
        ensures
            banner@ == self@.verdict(),
    {
        let uncertain = match self.uncertain_revision {
            Some(revision) => revision == self.revision,
            None => false,
        };
        if uncertain {
            return make_banner(
                "The provider may already be generating this exact draft. Check its dashboard before retrying, or edit the draft to create a distinct request.",
                Shade::Error,
                "Submission outcome uncertain",
                false,
                pages,
            );
        }
        match &self.draft {
            DraftState::Ready { provider_id, local, .. } => {
                let message = if provider_id.is(FAL_PROVIDER_ID) && *local {
                    "Ready to review. Local reference media uploads to a public fal CDN at Review and expires after 24 hours."
                } else {
                    "Ready to review — nothing has been submitted."
                };
                make_banner(message, Shade::Good, "Review generation", true, pages)
            },
            DraftState::Faulty(message) => {
                let warning = contains_text(message.as_str(), "OpenRouter") || contains_text(
                    message.as_str(),
                    "does not support",
                );
                make_banner(
                    message.as_str(),
                    if warning {
                        Shade::Warning
                    } else {
                        Shade::Muted
                    },
                    "Review generation",
                    false,
                    pages,
                )
            },
        }
    }

    fn show_compatibility(&mut self, message: String, shade: Shade)
        ensures
            final(self)@ == old(self)@.saying(message@, shade),
    {
        self.banner.message = message;
        self.banner.shade = shade;
    }

    fn clear_pending_submission(&mut self, op_id: u64) -> (r: Option<PendingSubmit>)
        ensures
            final(self)@ == old(self)@.answered(op_id),
            submit_view(r) == (if old(self)@.submit matches Some(pending) && pending.op_id
                == op_id {
                old(self)@.submit
            } else {
                None
            }),
    {
        let ours = match &self.submit {
            Some(pending) => pending.op_id == op_id,
            None => false,
        };
        if ours {
            self.submit.take()
        } else {
            None
        }
    }

    fn card_of(&self, key: &ProviderJobKey, title: &str) -> (card: JobCard)
        ensures
            card@ == self@.card(key@, title@),
    {
        match self.jobs.get(key) {
            Some(card) => {
                let mut card = card.copy();
                card.set_title(title);
                card
            },
            None => JobCard::new(title),
        }
    }

    fn watch(&mut self, key: &ProviderJobKey, watched: bool)
        ensures
            final(self)@ == old(self)@.watching(key@, watched),
    {
        if watched {
            self.active.insert(key.copy(), true);
            assert(self@.active =~= old(self)@.active.insert(key@));
        } else {
            self.active.remove(key);
            assert(self@.active =~= old(self)@.active.remove(key@));
        }
    }

    /// Takes note of what the controls make, without counting that as an edit.
    pub fn set_draft(&mut self, draft: DraftState)
        ensures
            final(self)@ == (WindowView { draft: draft@, ..old(self)@ }).refreshed(),
    {
        self.draft = draft;
        self.update_compatibility();
    }
}

/// Where a job's record was saved.
#[derive(Debug, Clone, Copy, PartialEq, Eq, Structural)]
pub enum RecoveryStore {
    GuiState,
    History,
}

/// A record of the history, and whether the video that it names exists.
#[derive(Debug)]
pub struct FoundRecord {
    pub record: JobRecord,
    pub output_exists: bool,
}

/// A job that a former session left, and whether it was paused there.
#[derive(Debug)]
pub struct LeftJob {
    pub key: ProviderJobKey,
    pub monitoring_paused: bool,
}

/// What the service tells the window.
pub enum WindowEvent {
    Ready { providers: Vec<ProviderConnection>, default_provider: ProviderId },
    ApiKeyConnected { provider_id: ProviderId, storage: String },
    ApiKeyForgotten { provider_id: ProviderId, storage: String },
    CatalogLoaded { provider_id: ProviderId, catalog: VideoCatalog },
    PreparationStarted { media_count: usize },
    MediaUploadStarted { media_index: usize, path: String },
    MediaUploadProgress { media_index: usize, sent: u64, total: u64 },
    MediaUploadCompleted { media_index: usize, reused: bool, expires_at: Option<Timestamp> },
    ReviewReady {
        prepared_id: u64,
        revision: u64,
        provider_id: ProviderId,
        request: VideoRequest,
        quote: CostQuote,
        expires_at: Timestamp,
        draft_fingerprint: String,
    },
    PreparedInvalidated { revision: u64 },
    DraftLoaded { draft: Option<PendingDraft> },
    UncertainSubmissionSaved { record: UncertainSubmissionRecord },
    UncertainSubmissionCleared { op_id: u64, key: HoldKey },
    UncertainSubmissionsLoaded { records: Vec<UncertainSubmissionRecord> },
    UncertainSubmissionBlocked { op_id: u64, record: UncertainSubmissionRecord },
    SubmissionStarted { op_id: u64 },
    JobAccepted { provider_id: ProviderId, job: VideoJob, record: Option<JobRecord> },
    JobRecoverySaved { op_id: u64, key: ProviderJobKey, store: RecoveryStore },
    JobRecoveryWarning { key: ProviderJobKey, message: String },
    JobRecoveryFailed { op_id: u64, key: ProviderJobKey, message: String },
    SubmissionUncertain {
        op_id: u64,
        provider_id: ProviderId,
        message: String,
        draft_fingerprint: Option<String>,
    },
    JobUpdated { job: VideoJob, record: JobRecord },
    PollWaiting { key: ProviderJobKey, attempt: usize, seconds: u64 },
    /// The texts tell the sizes.
    DownloadProgress {
        key: ProviderJobKey,
        written: u64,
        total: Option<u64>,
        written_text: String,
        total_text: Option<String>,
    },
    Downloaded { job: VideoJob, record: JobRecord, path: String },
    HistoryLoaded { records: Vec<FoundRecord> },
    MonitorPaused { key: ProviderJobKey, remote_continues: bool },
    MonitorsPaused { count: usize, remote_continue: bool },
    ResumeAllStarted { started: usize, skipped: usize },
    ResumableJobsLoaded { jobs: Vec<LeftJob> },
    Cancelled { key: Option<ProviderJobKey>, remote_continues: bool },
    DraftSaved { op_id: u64, revision: u64 },
    Error {
        op_id: u64,
        provider_id: Option<ProviderId>,
        message: String,
        recoverable: bool,
        job_id: Option<String>,
    },
    ShutdownBlocked { reason: String },
    ShutdownComplete,
    /// A video was opened, a price or settings came back, or a job was imported: nothing to show.
    Noted,
}

/// What of its surroundings the controller looks at.
pub struct Surroundings {
    pub selected_provider: ProviderId,
    pub media: Vec<DraftMedia>,
    pub now: Timestamp,
}

/// What an event does: the state after it, and what else is to be done, in order.
pub struct Reaction {
    pub state: WindowView,
    pub effects: Seq<EffectView>,
}

/// A reaction that does nothing besides changing the state.
pub open spec fn quietly(state: WindowView) -> Reaction {
    Reaction { state, effects: Seq::empty() }
}

/// The cards after the connections came in.
pub open spec fn connections_applied(
    cards: Map<Seq<char>, ProviderCardView>,
    connections: Seq<ProviderConnection>,
) -> Map<Seq<char>, ProviderCardView>
    decreases connections.len(),
{
    if connections.len() == 0 {
        cards
    } else {
        let before = connections_applied(cards, connections.drop_last());
        let last = connections.last();
        if before.contains_key(last.descriptor.id@) {
            before.insert(
                last.descriptor.id@,
                ProviderCardView {
                    connected: last.connected,
                    storage: last.credential_status.message@,
                },
            )
        } else {
            before
        }
    }
}

/// The holds that a list of records stands for.
pub open spec fn holds_of(records: Seq<UncertainSubmissionRecord>) -> Map<
    (Seq<char>, Seq<char>),
    HoldView,
>
    decreases records.len(),
{
    if records.len() == 0 {
        Map::empty()
    } else {
        holds_of(records.drop_last()).insert(hold_key(records.last()), records.last()@)
    }
}

/// How much of an upload is done, in percent.
pub open spec fn percent(sent: u64, total: u64) -> nat {
    if total == 0 {
        0
    } else {
        ((if sent * 100 > u64::MAX {
            u64::MAX as int
        } else {
            sent * 100
        }) / (total as int)) as nat
    }
}

/// The text for when an upload expires.
pub open spec fn expiry_says(expires_at: Option<Timestamp>) -> Seq<char> {
    match expires_at {
        Some(moment) => match crate::outside::moment_text_of(moment, MINUTE_PATTERN@) {
            Some(text) => "; expires "@ + text,
            None => ""@,
        },
        None => ""@,
    }
}

/// A title, or a fallback.
pub open spec fn title_or(request: Option<VideoRequest>, fallback: Seq<char>) -> Seq<char> {
    match crate::gui::media_list::title_of(request) {
        Some(title) => title,
        None => fallback,
    }
}

impl WindowView {
    /// The service is told to shut down, unless it was told already.
    pub open spec fn shutdown_asked(self) -> Reaction {
        if self.closing.stopping {
            quietly(self)
        } else {
            Reaction {
                state: WindowView {
                    closing: Closing { stopping: true, ..self.closing },
                    ..self
                },
                effects: seq![EffectView::Ask(RequestView::Shutdown)],
            }
        }
    }

    /// The draft is saved before the service is told to shut down, unless that is under way.
    pub open spec fn close_asked(self) -> Reaction {
        if self.closing.saving is Some || self.closing.stopping {
            quietly(self)
        } else {
            Reaction { state: self, effects: seq![EffectView::SaveForClose] }
        }
    }

    /// A saved draft comes into the controls, or waits for its provider's catalog.
    pub open spec fn draft_applied(self, pending: PendingDraft) -> Reaction {
        if self.catalogs.contains_key(pending.draft.provider_id@) {
            Reaction {
                state: (WindowView { revision: pending.revision, ..self }).refreshed(),
                effects: seq![
                    EffectView::ApplyDraft {
                        draft: pending.draft,
                        editor_state: pending.editor_state,
                    },
                    EffectView::Toast("Restored your autosaved draft."@),
                ],
            }
        } else {
            quietly(WindowView { pending_draft: Some(pending), ..self })
        }
    }

    /// A catalog came in.
    pub open spec fn catalog_loaded(
        self,
        provider_id: Seq<char>,
        catalog: VideoCatalog,
        selected: Seq<char>,
    ) -> Reaction {
        let known = WindowView {
            catalogs: self.catalogs.insert(provider_id, true),
            ..self
        };
        let first = if selected == provider_id {
            Reaction {
                state: known.refreshed(),
                effects: seq![EffectView::StoreCatalog(catalog), EffectView::RefreshModels],
            }
        } else {
            Reaction { state: known, effects: seq![EffectView::StoreCatalog(catalog)] }
        };
        match self.pending_draft {
            Some(pending) => if pending.draft.provider_id@ == provider_id {
                let second = (WindowView { pending_draft: None, ..first.state }).draft_applied(
                    pending,
                );
                Reaction { state: second.state, effects: first.effects + second.effects }
            } else {
                first
            },
            None => first,
        }
    }

    /// The service is ready.
    pub open spec fn made_ready(
        self,
        connections: Seq<ProviderConnection>,
        default_provider: Seq<char>,
    ) -> Reaction {
        let op = self.next_op;
        Reaction {
            state: (WindowView {
                providers: connections_applied(self.providers, connections),
                ..self
            }).numbered().numbered().numbered().numbered(),
            effects: seq![
                EffectView::SelectProvider(
                    crate::gui::media_list::place_of_provider(default_provider),
                ),
                EffectView::RefreshMedia,
                EffectView::Ask(RequestView::LoadDraft { op_id: op }),
                EffectView::Ask(RequestView::LoadHistory { op_id: later(op), limit: 200 }),
                EffectView::Ask(
                    RequestView::RefreshCatalog {
                        op_id: later(later(op)),
                        provider_id: OPENROUTER_PROVIDER_ID@,
                    },
                ),
                EffectView::Ask(
                    RequestView::RefreshCatalog {
                        op_id: later(later(later(op))),
                        provider_id: FAL_PROVIDER_ID@,
                    },
                ),
            ],
        }
    }

    /// A provider has a key now, or has none.
    pub open spec fn connected(self, provider_id: Seq<char>, connected: bool, storage: Seq<char>) -> WindowView {
        if self.providers.contains_key(provider_id) {
            WindowView {
                providers: self.providers.insert(
                    provider_id,
                    ProviderCardView { connected, storage },
                ),
                ..self
            }
        } else {
            self
        }
    }

    /// A review came in: it is shown, unless the draft has been edited since.
    pub open spec fn review_arrived(
        self,
        review: PreparedView,
        provider_id: Seq<char>,
        request: VideoRequest,
        quote: CostQuote,
        expires_at: Timestamp,
    ) -> Reaction {
        let named = self.labelled("Review generation"@);
        if review.revision != self.revision {
            Reaction {
                state: named.refreshed(),
                effects: seq![
                    EffectView::Toast("The draft changed, so that review was discarded."@),
                ],
            }
        } else {
            Reaction {
                state: WindowView {
                    prepared: Some(review),
                    banner: BannerView { enabled: true, ..named.banner },
                    ..named
                },
                effects: seq![
                    EffectView::ShowReview { provider_id, request, quote, expires_at },
                ],
            }
        }
    }

    /// A job's card changes, where there is one.
    pub open spec fn card_saying(self, key: (Seq<char>, Seq<char>), detail: Seq<char>) -> WindowView {
        if self.jobs.contains_key(key) {
            self.with_card(
                key,
                crate::gui::job_cards::CardView { detail, ..self.jobs[key] },
            )
        } else {
            self
        }
    }

    /// The provider has accepted a job.
    pub open spec fn job_accepted(
        self,
        provider_id: Seq<char>,
        job: VideoJob,
        request: Option<VideoRequest>,
    ) -> Reaction {
        let key = job.spec_key();
        let title = title_or(
            request,
            crate::gui::media_list::provider_title(provider_id) + " job"@,
        );
        Reaction {
            state: self.with_card(key, self.card(key, title).accepted(job)).watching(
                key,
                !job.status@.terminal(),
            ),
            effects: seq![
                EffectView::ShowJobs,
                EffectView::Toast(
                    "The provider accepted the generation. Saving its recovery record…"@,
                ),
            ],
        }
    }

    /// The job of a paid request is saved.
    pub open spec fn recovery_saved(
        self,
        op_id: u64,
        key: (Seq<char>, Seq<char>),
        store: RecoveryStore,
    ) -> Reaction {
        Reaction {
            state: self.answered(op_id).card_saying(
                key,
                "Recovery record saved locally. Monitoring provider status…"@,
            ).refreshed(),
            effects: seq![
                EffectView::Toast(
                    "Remote job ID saved in "@ + (match store {
                        RecoveryStore::GuiState => "GUI recovery state"@,
                        RecoveryStore::History => "compatible history"@,
                    }) + "."@,
                ),
            ],
        }
    }

    /// The job of a paid request could not be saved.
    pub open spec fn recovery_failed(
        self,
        op_id: u64,
        key: (Seq<char>, Seq<char>),
        message: Seq<char>,
    ) -> Reaction {
        let answered = self.answered(op_id);
        let marked = if answered.jobs.contains_key(key) {
            answered.with_card(key, answered.jobs[key].lost())
        } else {
            answered
        };
        Reaction {
            state: marked.watching(key, true).refreshed(),
            effects: seq![EffectView::WarnRemoteJob { key, message }],
        }
    }

    /// A paid request may have been accepted.
    pub open spec fn submission_uncertain(
        self,
        op_id: u64,
        provider_id: Seq<char>,
        message: Seq<char>,
        fingerprint: Option<Seq<char>>,
        now: Timestamp,
    ) -> Reaction {
        let answered = self.answered(op_id);
        let noted = match fingerprint {
            None => if self.submit matches Some(pending) && pending.op_id == op_id {
                WindowView { uncertain_revision: Some(self.submit->0.revision), ..answered }
            } else {
                answered
            },
            Some(fingerprint) => if answered.holds.contains_key((provider_id, fingerprint)) {
                answered
            } else {
                answered.holding(
                    HoldView {
                        provider_id,
                        draft_fingerprint: fingerprint,
                        recorded_at: now,
                        message: crate::gui_state::UNCERTAIN_SUBMISSION_MESSAGE@,
                    },
                )
            },
        };
        Reaction {
            state: noted.unprepared().refreshed(),
            effects: seq![EffectView::WarnUncertain { provider_id, message }],
        }
    }

    /// A paid request was refused because of a hold.
    pub open spec fn submission_blocked(self, op_id: u64, hold: HoldView) -> Reaction {
        Reaction {
            state: self.answered(op_id).unprepared().holding(hold).refreshed(),
            effects: seq![
                EffectView::WarnUncertain {
                    provider_id: hold.provider_id,
                    message: hold.message,
                },
            ],
        }
    }

    /// A hold is gone.
    pub open spec fn hold_cleared(self, op_id: u64, key: (Seq<char>, Seq<char>)) -> Reaction {
        Reaction {
            state: (WindowView {
                clears: self.clears.remove(op_id),
                holds: self.holds.remove(key),
                ..self
            }).refreshed(),
            effects: if self.clears.contains_key(op_id) {
                seq![
                    EffectView::Toast(
                        "The safety hold was cleared. Review again to obtain a fresh quote before submitting."@,
                    ),
                ]
            } else {
                Seq::empty()
            },
        }
    }

    /// The holds came in.
    pub open spec fn holds_loaded(self, records: Seq<UncertainSubmissionRecord>) -> WindowView {
        let loaded = WindowView { holds: holds_of(records), ..self };
        if loaded.current_hold() is Some {
            loaded.unprepared().refreshed()
        } else {
            loaded.refreshed()
        }
    }

    /// The provider has told how a job stands.
    pub open spec fn job_updated(self, job: VideoJob, request: Option<VideoRequest>) -> WindowView {
        let key = job.spec_key();
        self.with_card(
            key,
            self.card(key, title_or(request, "Video generation"@)).updated(job),
        ).watching(key, !job.status@.terminal())
    }

    /// A video is on this machine.
    pub open spec fn job_downloaded(
        self,
        job: VideoJob,
        request: Option<VideoRequest>,
        path: Seq<char>,
    ) -> Reaction {
        let key = job.spec_key();
        let stored = self.with_card(
            key,
            self.card(key, title_or(request, "Completed video"@)).stored(path),
        ).watching(key, false);
        Reaction {
            state: WindowView { latest_video: Some(path), ..stored },
            effects: seq![EffectView::Toast("Your video is ready in the Videos folder."@)],
        }
    }

    /// A job of the history is shown.
    pub open spec fn record_restored(self, record: JobRecord, output_exists: bool) -> WindowView {
        let key = (record.provider_id@, record.job_id@);
        let shown = self.with_card(
            key,
            self.card(key, title_or(record.request, "Saved video generation"@)).restored(
                record,
                output_exists,
            ),
        );
        if record.output_path is Some && output_exists && self.latest_video is None {
            WindowView { latest_video: Some(record.output_path->0@), ..shown }
        } else {
            shown
        }
    }

    /// The jobs of the history are shown.
    pub open spec fn history_restored(self, records: Seq<FoundRecord>) -> WindowView
        decreases records.len(),
    {
        if records.len() == 0 {
            self
        } else {
            self.history_restored(records.drop_last()).record_restored(
                records.last().record,
                records.last().output_exists,
            )
        }
    }

    /// The jobs that a former session left are shown.
    pub open spec fn jobs_left(self, jobs: Seq<LeftJob>) -> WindowView
        decreases jobs.len(),
    {
        if jobs.len() == 0 {
            self
        } else {
            let before = self.jobs_left(jobs.drop_last());
            let last = jobs.last();
            before.with_card(
                last.key@,
                before.card(last.key@, "Saved remote job"@).left_over(last.monitoring_paused),
            )
        }
    }

    /// A job is no longer watched.
    pub open spec fn monitor_paused(self, key: (Seq<char>, Seq<char>), remote_continues: bool) -> WindowView {
        let shown = if self.jobs.contains_key(key) {
            self.with_card(
                key,
                crate::gui::job_cards::CardView {
                    detail: if remote_continues {
                        "Local checks paused; the provider continues remotely"@
                    } else {
                        "Monitoring paused"@
                    },
                    ..self.jobs[key].paused()
                },
            )
        } else {
            self
        };
        shown.watching(key, false)
    }

    /// No job is watched any more.
    pub open spec fn monitors_paused(self, count: usize, remote_continue: bool) -> Reaction {
        let paused = WindowView {
            jobs: crate::table::mapped(
                self.jobs,
                |key: (Seq<char>, Seq<char>), card: crate::gui::job_cards::CardView|
                    if card.active {
                        card.paused()
                    } else {
                        card
                    },
            ),
            active: Set::empty(),
            ..self
        };
        let said = EffectView::Toast(
            "Paused "@ + crate::text::numeral(count as nat) + (if remote_continue {
                " monitor(s). Remote jobs continue."@
            } else {
                " monitor(s)."@
            }),
        );
        if self.closing.pausing {
            let next = (WindowView {
                closing: Closing { pausing: false, ..self.closing },
                ..paused
            }).close_asked();
            Reaction { state: next.state, effects: seq![said] + next.effects }
        } else {
            Reaction { state: paused, effects: seq![said] }
        }
    }

    /// The task that watched a job has stopped.
    pub open spec fn monitor_stopped(self, key: (Seq<char>, Seq<char>), remote_continues: bool) -> WindowView {
        let shown = if self.jobs.contains_key(key) {
            self.with_card(key, self.jobs[key].stopped(remote_continues))
        } else {
            self
        };
        shown.watching(key, false)
    }

    /// The draft is saved; if that was for closing, the service is told to shut down, unless the
    /// draft has been edited since.
    pub open spec fn draft_saved(self, op_id: u64, revision: u64) -> Reaction {
        if self.closing.saving == Some(op_id) {
            let saved = WindowView { closing: Closing { saving: None, ..self.closing }, ..self };
            if revision == self.revision {
                saved.shutdown_asked()
            } else {
                saved.close_asked()
            }
        } else {
            quietly(self)
        }
    }

    /// Something went wrong.
    pub open spec fn failed(
        self,
        op_id: u64,
        provider_id: Option<Seq<char>>,
        message: Seq<char>,
        recoverable: bool,
        job_id: Option<Seq<char>>,
    ) -> Reaction {
        let saving_failed = self.closing.saving == Some(op_id);
        let cleared = WindowView {
            clears: self.clears.remove(op_id),
            closing: if saving_failed {
                Closing { saving: None, ..self.closing }
            } else {
                self.closing
            },
            ..self
        };
        let refreshed = cleared.answered(op_id).labelled("Review generation"@).refreshed();
        let marked = match job_id {
            None => refreshed,
            Some(id) => WindowView {
                jobs: crate::table::mapped(
                    refreshed.jobs,
                    |key: (Seq<char>, Seq<char>), card: crate::gui::job_cards::CardView|
                        if concerns(key, provider_id, id) {
                            card.faulty(message, recoverable)
                        } else {
                            card
                        },
                ),
                active: if recoverable {
                    Set::new(
                        |key: (Seq<char>, Seq<char>)|
                            refreshed.active.contains(key) || (refreshed.jobs.contains_key(key)
                                && concerns(key, provider_id, id)),
                    )
                } else {
                    refreshed.active
                },
                ..refreshed
            },
        };
        Reaction {
            state: marked,
            effects: if saving_failed {
                seq![EffectView::WarnDraftUnsaved(message), EffectView::Toast(message)]
            } else {
                seq![EffectView::Toast(message)]
            },
        }
    }
}

/// Whether a failure of a job, and perhaps of a provider, is about the job with a key.
pub open spec fn concerns(
    key: (Seq<char>, Seq<char>),
    provider_id: Option<Seq<char>>,
    job_id: Seq<char>,
) -> bool {
    key.1 == job_id && (provider_id is None || provider_id == Some(key.0))
}

/// What an event does.
pub open spec fn reaction(view: WindowView, event: WindowEvent, around: Surroundings) -> Reaction {
    match event {
        WindowEvent::Ready { providers, default_provider } => view.made_ready(
            providers@,
            default_provider@,
        ),
        WindowEvent::ApiKeyConnected { provider_id, storage } => Reaction {
            state: view.connected(provider_id@, true, storage@),
            effects: seq![EffectView::Toast("Provider connected."@)],
        },
        WindowEvent::ApiKeyForgotten { provider_id, storage } => quietly(
            view.connected(provider_id@, false, storage@),
        ),
        WindowEvent::CatalogLoaded { provider_id, catalog } => view.catalog_loaded(
            provider_id@,
            catalog,
            around.selected_provider@,
        ),
        WindowEvent::PreparationStarted { media_count } => quietly(
            view.saying(
                "Preparing review and checking "@ + crate::text::numeral(media_count as nat)
                    + " reference-media item(s)…"@,
                Shade::Warning,
            ),
        ),
        WindowEvent::MediaUploadStarted { media_index, path } => quietly(
            view.saying(
                "Uploading "@ + crate::gui::media_list::ordinal_says(
                    around.media@,
                    media_index as int,
                ) + ": "@ + ((match crate::paths::name_of(path@) {
                    Some(name) => name,
                    None => "media"@,
                }) + " (generation has not been submitted)"@),
                Shade::Warning,
            ),
        ),
        WindowEvent::MediaUploadProgress { media_index, sent, total } => quietly(
            view.saying(
                "Uploading "@ + crate::gui::media_list::ordinal_says(
                    around.media@,
                    media_index as int,
                ) + "… "@ + (crate::text::numeral(percent(sent, total)) + "%"@),
                Shade::Warning,
            ),
        ),
        WindowEvent::MediaUploadCompleted { media_index, reused, expires_at } => quietly(
            view.saying(
                crate::gui::media_list::ordinal_says(around.media@, media_index as int) + ": "@ + (
                if reused {
                    "reused secure upload"@
                } else {
                    "upload complete"@
                }) + (expiry_says(expires_at) + ". Fetching a fresh quote…"@),
                Shade::Warning,
            ),
        ),
        WindowEvent::ReviewReady {
            prepared_id,
            revision,
            provider_id,
            request,
            quote,
            expires_at,
            draft_fingerprint,
        } => view.review_arrived(
            PreparedView { id: prepared_id, revision, draft_fingerprint: draft_fingerprint@ },
            provider_id@,
            request,
            quote,
            expires_at,
        ),
        WindowEvent::PreparedInvalidated { revision } => quietly(
            (if revision >= view.revision {
                view.unprepared()
            } else {
                view
            }).labelled("Review generation"@).refreshed(),
        ),
        WindowEvent::DraftLoaded { draft } => match draft {
            Some(pending) => view.draft_applied(pending),
            None => quietly(view.refreshed()),
        },
        WindowEvent::UncertainSubmissionSaved { record } => quietly(
            view.holding(record@).refreshed(),
        ),
        WindowEvent::UncertainSubmissionCleared { op_id, key } => view.hold_cleared(op_id, key@),
        WindowEvent::UncertainSubmissionsLoaded { records } => quietly(
            view.holds_loaded(records@),
        ),
        WindowEvent::UncertainSubmissionBlocked { op_id, record } => view.submission_blocked(
            op_id,
            record@,
        ),
        WindowEvent::SubmissionStarted { op_id } => if view.submit matches Some(pending)
            && pending.op_id == op_id {
            quietly(
                (WindowView {
                    banner: BannerView { enabled: false, ..view.banner },
                    ..view
                }).saying(
                    "Submitting one paid generation request. Keep this window open until a job ID appears…"@,
                    Shade::Warning,
                ),
            )
        } else {
            quietly(view)
        },
        WindowEvent::JobAccepted { provider_id, job, record } => view.job_accepted(
            provider_id@,
            job,
            match record {
                Some(record) => record.request,
                None => None,
            },
        ),
        WindowEvent::JobRecoverySaved { op_id, key, store } => view.recovery_saved(
            op_id,
            key@,
            store,
        ),
        WindowEvent::JobRecoveryWarning { key, message } => Reaction {
            state: view.card_saying(
                key@,
                "The job is recoverable, but some optional metadata was not saved. "@ + message@,
            ),
            effects: seq![EffectView::Toast(message@)],
        },
        WindowEvent::JobRecoveryFailed { op_id, key, message } => view.recovery_failed(
            op_id,
            key@,
            message@,
        ),
        WindowEvent::SubmissionUncertain { op_id, provider_id, message, draft_fingerprint } =>
            view.submission_uncertain(
            op_id,
            provider_id@,
            message@,
            crate::domain::opt_view(draft_fingerprint),
            around.now,
        ),
        WindowEvent::JobUpdated { job, record } => quietly(view.job_updated(job, record.request)),
        WindowEvent::PollWaiting { key, attempt, seconds } => quietly(
            view.with_card(
                key@,
                view.card(key@, "Video generation"@).waiting(attempt, seconds),
            ).watching(key@, true),
        ),
        WindowEvent::DownloadProgress { key, written, total, written_text, total_text } => quietly(
            view.with_card(
                key@,
                view.card(key@, "Video generation"@).downloading(
                    written,
                    total,
                    written_text@,
                    crate::domain::opt_view(total_text),
                ),
            ).watching(key@, true),
        ),
        WindowEvent::Downloaded { job, record, path } => view.job_downloaded(
            job,
            record.request,
            path@,
        ),
        WindowEvent::HistoryLoaded { records } => quietly(view.history_restored(records@)),
        WindowEvent::MonitorPaused { key, remote_continues } => quietly(
            view.monitor_paused(key@, remote_continues),
        ),
        WindowEvent::MonitorsPaused { count, remote_continue } => view.monitors_paused(
            count,
            remote_continue,
        ),
        WindowEvent::ResumeAllStarted { started, skipped } => Reaction {
            state: view,
            effects: seq![
                EffectView::Toast(
                    "Resumed "@ + crate::text::numeral(started as nat) + " job(s); skipped "@ + (
                    crate::text::numeral(skipped as nat) + "."@),
                ),
            ],
        },
        WindowEvent::ResumableJobsLoaded { jobs } => quietly(view.jobs_left(jobs@)),
        WindowEvent::Cancelled { key, remote_continues } => match key {
            Some(key) => quietly(view.monitor_stopped(key@, remote_continues)),
            None => quietly(view),
        },
        WindowEvent::DraftSaved { op_id, revision } => view.draft_saved(op_id, revision),
        WindowEvent::Error { op_id, provider_id, message, recoverable, job_id } => view.failed(
            op_id,
            crate::workflow::provider_view(provider_id),
            message@,
            recoverable,
            crate::domain::opt_view(job_id),
        ),
        WindowEvent::ShutdownBlocked { reason } => Reaction {
            state: (WindowView {
                closing: Closing { pausing: false, stopping: false, ..view.closing },
                ..view
            }).refreshed(),
            effects: seq![EffectView::Toast(reason@)],
        },
        WindowEvent::ShutdownComplete => Reaction {
            state: WindowView {
                closing: Closing {
                    stopping: false,
                    disconnected: true,
                    allowed: true,
                    ..view.closing
                },
                ..view
            },
            effects: seq![EffectView::CloseWindow],
        },
        WindowEvent::Noted => quietly(view),
    }
}

/// Whether a list of effects and a state are what a reaction says.
spec fn done(reaction: Reaction, state: WindowView, effects: Seq<Effect>) -> bool {
    state == reaction.state && effects_view(effects) == reaction.effects
}

fn title_text(request: &Option<VideoRequest>, fallback: &str) -> (s: String)
    ensures
        s@ == title_or(*request, fallback@),
{
    match job_title(request) {
        Some(title) => title,
        None => fallback.to_owned(),
    }
}

fn upload_percent(sent: u64, total: u64) -> (n: u64)
    ensures
        n == percent(sent, total),
{
    if total == 0 {
        return 0;
    }
    let hundredfold: u64 = match sent.checked_mul(100) {
        Some(n) => n,
        None => u64::MAX,
    };
    hundredfold / total
}

fn expiry_text(expires_at: Option<Timestamp>) -> (s: String)
    ensures
        s@ == expiry_says(expires_at),
{
    match expires_at {
        Some(moment) => match write_moment(moment, MINUTE_PATTERN) {
            Some(text) => concat("; expires ", text.as_str()),
            None => "".to_owned(),
        },
        None => "".to_owned(),
    }
}

impl WindowState {
    fn ask_shutdown(&mut self, effects: &mut Vec<Effect>)
        ensures
            final(self)@ == old(self)@.shutdown_asked().state,
            effects_view(final(effects)@) == effects_view(old(effects)@)
                + old(self)@.shutdown_asked().effects,
    {
        if !self.closing.stopping {
            self.closing.stopping = true;
            push(effects, Effect::Ask(WindowRequest::Shutdown));
        }
        assert(effects_view(effects@) =~= effects_view(old(effects)@)
            + old(self)@.shutdown_asked().effects);
    }

    fn ask_close(&mut self, effects: &mut Vec<Effect>)
        ensures
            final(self)@ == old(self)@.close_asked().state,
            effects_view(final(effects)@) == effects_view(old(effects)@)
                + old(self)@.close_asked().effects,
    {
        if self.closing.saving.is_none() && !self.closing.stopping {
            push(effects, Effect::SaveForClose);
        }
        assert(effects_view(effects@) =~= effects_view(old(effects)@)
            + old(self)@.close_asked().effects);
    }

    fn apply_draft(&mut self, pending: PendingDraft, effects: &mut Vec<Effect>)
        ensures
            final(self)@ == old(self)@.draft_applied(pending).state,
            effects_view(final(effects)@) == effects_view(old(effects)@)
                + old(self)@.draft_applied(pending).effects,
    {
        if self.catalogs.contains(&pending.draft.provider_id) {
            self.revision = pending.revision;
            self.update_compatibility();
            push(
                effects,
                Effect::ApplyDraft { draft: pending.draft, editor_state: pending.editor_state },
            );
            push(effects, toast("Restored your autosaved draft."));
        } else {
            self.pending_draft = Some(pending);
        }
        assert(effects_view(effects@) =~= effects_view(old(effects)@) + old(self)@.draft_applied(
            pending,
        ).effects);
    }

    fn update_connections(&mut self, connections: &Vec<ProviderConnection>)
        ensures
            final(self)@ == (WindowView {
                providers: connections_applied(old(self)@.providers, connections@),
                ..old(self)@
            }),
    {
        let mut i: usize = 0;
        while i < connections.len()
            invariant
                i <= connections@.len(),
                self@ == (WindowView {
                    providers: connections_applied(
                        old(self)@.providers,
                        connections@.take(i as int),
                    ),
                    ..old(self)@
                }),
            decreases connections@.len() - i,
        {
            proof {
                assert(connections@.take(i as int + 1).drop_last() =~= connections@.take(
                    i as int,
                ));
            }
            let connection = &connections[i];
            if self.providers.contains(&connection.descriptor.id) {
                self.providers.insert(
                    connection.descriptor.id.copy(),
                    ProviderCard {
                        connected: connection.connected,
                        storage: connection.credential_status.message.clone(),
                    },
                );
            }
            i = i + 1;
        }
        assert(connections@.take(i as int) =~= connections@);
    }

    fn on_ready(
        &mut self,
        connections: &Vec<ProviderConnection>,
        default_provider: &ProviderId,
    ) -> (effects: Vec<Effect>)
        ensures
            done(
                old(self)@.made_ready(connections@, default_provider@),
                final(self)@,
                effects@,
            ),
    {
        let mut effects = no_effects();
        self.update_connections(connections);
        push(&mut effects, Effect::SelectProvider(index_for_provider(default_provider)));
        push(&mut effects, Effect::RefreshMedia);
        let op_id = self.op_id();
        push(&mut effects, Effect::Ask(WindowRequest::LoadDraft { op_id }));
        let op_id = self.op_id();
        push(&mut effects, Effect::Ask(WindowRequest::LoadHistory { op_id, limit: 200 }));
        let op_id = self.op_id();
        push(
            &mut effects,
            Effect::Ask(
                WindowRequest::RefreshCatalog { op_id, provider_id: ProviderId::openrouter() },
            ),
        );
        let op_id = self.op_id();
        push(
            &mut effects,
            Effect::Ask(WindowRequest::RefreshCatalog { op_id, provider_id: ProviderId::fal() }),
        );
        assert(effects_view(effects@) =~= old(self)@.made_ready(connections@, default_provider@).effects);
        effects
    }

    fn set_connected(&mut self, provider_id: ProviderId, connected: bool, storage: String)
        ensures
            final(self)@ == old(self)@.connected(provider_id@, connected, storage@),
    {
        if self.providers.contains(&provider_id) {
            self.providers.insert(provider_id, ProviderCard { connected, storage });
        }
    }

    fn on_catalog(&mut self, provider_id: ProviderId, catalog: VideoCatalog, selected: &ProviderId)
        -> (effects: Vec<Effect>)
        ensures
            done(
                old(self)@.catalog_loaded(provider_id@, catalog, selected@),
                final(self)@,
                effects@,
            ),
    {
        let mut effects = no_effects();
        self.catalogs.insert(provider_id.copy(), true);
        push(&mut effects, Effect::StoreCatalog(catalog));
        if selected.same(&provider_id) {
            push(&mut effects, Effect::RefreshModels);
            self.update_compatibility();
        }
        let waiting = match &self.pending_draft {
            Some(pending) => pending.draft.provider_id.same(&provider_id),
            None => false,
        };
        if waiting {
            if let Some(pending) = self.pending_draft.take() {
                self.apply_draft(pending, &mut effects);
            }
        }
        assert(effects_view(effects@) =~= old(self)@.catalog_loaded(provider_id@, catalog, selected@).effects);
        effects
    }

    fn on_review(
        &mut self,
        review: PreparedReview,
        provider_id: ProviderId,
        request: VideoRequest,
        quote: CostQuote,
        expires_at: Timestamp,
    ) -> (effects: Vec<Effect>)
        ensures
            done(
                old(self)@.review_arrived(
                    prepared_view(Some(review))->0,
                    provider_id@,
                    request,
                    quote,
                    expires_at,
                ),
                final(self)@,
                effects@,
            ),
    {
        let mut effects = no_effects();
        self.banner.label = "Review generation".to_owned();
        if review.revision != self.revision {
            self.update_compatibility();
            push(&mut effects, toast("The draft changed, so that review was discarded."));
        } else {
            self.prepared = Some(review);
            self.banner.enabled = true;
            push(&mut effects, Effect::ShowReview { provider_id, request, quote, expires_at });
        }
        effects
    }

    fn say_on_card(&mut self, key: &ProviderJobKey, detail: &str)
        ensures
            final(self)@ == old(self)@.card_saying(key@, detail@),
    {
        let found = match self.jobs.get(key) {
            Some(card) => Some(card.copy()),
            None => None,
        };
        if let Some(mut card) = found {
            card.say(detail);
            self.jobs.insert(key.copy(), card);
        }
    }

    fn on_accepted(
        &mut self,
        provider_id: &ProviderId,
        job: &VideoJob,
        request: &Option<VideoRequest>,
    ) -> (effects: Vec<Effect>)
        ensures
            done(
                old(self)@.job_accepted(provider_id@, *job, *request),
                final(self)@,
                effects@,
            ),
    {
        let mut effects = no_effects();
        let key = job.key();
        let fallback = concat(provider_name(provider_id), " job");
        let title = title_text(request, fallback.as_str());
        let mut card = self.card_of(&key, title.as_str());
        card.accept(job);
        self.jobs.insert(key.copy(), card);
        self.watch(&key, !job.status.terminal());
        push(&mut effects, Effect::ShowJobs);
        push(
            &mut effects,
            toast("The provider accepted the generation. Saving its recovery record…"),
        );
        assert(effects_view(effects@) =~= old(self)@.job_accepted(provider_id@, *job, *request).effects);
        effects
    }

    fn on_recovery_saved(&mut self, op_id: u64, key: &ProviderJobKey, store: RecoveryStore) -> (
    effects: Vec<Effect>)
        ensures
            done(old(self)@.recovery_saved(op_id, key@, store), final(self)@, effects@),
    {
        let mut effects = no_effects();
        let _ = self.clear_pending_submission(op_id);
        self.say_on_card(key, "Recovery record saved locally. Monitoring provider status…");
        self.update_compatibility();
        let place = match store {
            RecoveryStore::GuiState => "GUI recovery state",
            RecoveryStore::History => "compatible history",
        };
        push(&mut effects, Effect::Toast(concat3("Remote job ID saved in ", place, ".")));
        effects
    }

    fn on_recovery_failed(&mut self, op_id: u64, key: ProviderJobKey, message: String) -> (effects:
        Vec<Effect>)
        ensures
            done(old(self)@.recovery_failed(op_id, key@, message@), final(self)@, effects@),
    {
        let mut effects = no_effects();
        let _ = self.clear_pending_submission(op_id);
        let found = match self.jobs.get(&key) {
            Some(card) => Some(card.copy()),
            None => None,
        };
        if let Some(mut card) = found {
            card.lose();
            self.jobs.insert(key.copy(), card);
        }
        self.watch(&key, true);
        self.update_compatibility();
        push(&mut effects, Effect::WarnRemoteJob { key, message });
        effects
    }

    fn hold(&mut self, record: UncertainSubmissionRecord)
        ensures
            final(self)@ == old(self)@.holding(record@),
    {
        let key = HoldKey::of(&record);
        self.holds.insert(key, record);
    }

    fn on_uncertain(
        &mut self,
        op_id: u64,
        provider_id: ProviderId,
        message: String,
        draft_fingerprint: Option<String>,
        now: Timestamp,
    ) -> (effects: Vec<Effect>)
        ensures
            done(
                old(self)@.submission_uncertain(
                    op_id,
                    provider_id@,
                    message@,
                    crate::domain::opt_view(draft_fingerprint),
                    now,
                ),
                final(self)@,
                effects@,
            ),
    {
        let mut effects = no_effects();
        let answered = self.clear_pending_submission(op_id);
        match draft_fingerprint {
            None => {
                if let Some(pending) = answered {
                    self.uncertain_revision = Some(pending.revision);
                }
            },
            Some(fingerprint) => {
                let key = HoldKey {
                    provider_id: provider_id.copy(),
                    draft_fingerprint: fingerprint,
                };
                if !self.holds.contains(&key) {
                    let record = UncertainSubmissionRecord::new(
                        provider_id.copy(),
                        key.draft_fingerprint.clone(),
                        now,
                    );
                    self.hold(record);
                }
            },
        }
        self.prepared = None;
        self.update_compatibility();
        push(&mut effects, Effect::WarnUncertain { provider_id, message });
        effects
    }

    fn on_blocked(&mut self, op_id: u64, record: UncertainSubmissionRecord) -> (effects: Vec<
        Effect,
    >)
        ensures
            done(old(self)@.submission_blocked(op_id, record@), final(self)@, effects@),
    {
        let mut effects = no_effects();
        let _ = self.clear_pending_submission(op_id);
        self.prepared = None;
        let provider_id = record.provider_id.copy();
        let message = record.message.clone();
        self.hold(record);
        self.update_compatibility();
        push(&mut effects, Effect::WarnUncertain { provider_id, message });
        effects
    }

    fn on_hold_cleared(&mut self, op_id: u64, key: &HoldKey) -> (effects: Vec<Effect>)
        ensures
            done(old(self)@.hold_cleared(op_id, key@), final(self)@, effects@),
    {
        let mut effects = no_effects();
        let asked = self.clears.contains(&op_id);
        self.clears.remove(&op_id);
        self.holds.remove(key);
        self.update_compatibility();
        if asked {
            push(
                &mut effects,
                toast(
                    "The safety hold was cleared. Review again to obtain a fresh quote before submitting.",
                ),
            );
        }
        effects
    }

    fn on_holds(&mut self, records: &Vec<UncertainSubmissionRecord>)
        ensures
            final(self)@ == old(self)@.holds_loaded(records@),
    {
        self.holds.clear();
        let mut i: usize = 0;
        while i < records.len()
            invariant
                i <= records@.len(),
                self@ == (WindowView {
                    holds: holds_of(records@.take(i as int)),
                    ..old(self)@
                }),
            decreases records@.len() - i,
        {
            proof {
                assert(records@.take(i as int + 1).drop_last() =~= records@.take(i as int));
            }
            self.hold(records[i].copy());
            i = i + 1;
        }
        assert(records@.take(i as int) =~= records@);
        if self.find_hold().is_some() {
            self.prepared = None;
        }
        self.update_compatibility();
    }

    fn on_updated(&mut self, job: &VideoJob, request: &Option<VideoRequest>)
        ensures
            final(self)@ == old(self)@.job_updated(*job, *request),
    {
        let key = job.key();
        let title = title_text(request, "Video generation");
        let mut card = self.card_of(&key, title.as_str());
        card.update(job);
        self.jobs.insert(key.copy(), card);
        self.watch(&key, !job.status.terminal());
    }

    fn on_downloaded(&mut self, job: &VideoJob, request: &Option<VideoRequest>, path: String) -> (
    effects: Vec<Effect>)
        ensures
            done(old(self)@.job_downloaded(*job, *request, path@), final(self)@, effects@),
    {
        let mut effects = no_effects();
        let key = job.key();
        let title = title_text(request, "Completed video");
        let mut card = self.card_of(&key, title.as_str());
        card.store(path.as_str());
        self.jobs.insert(key.copy(), card);
        self.watch(&key, false);
        self.latest_video = Some(path);
        push(&mut effects, toast("Your video is ready in the Videos folder."));
        effects
    }

    fn restore_record(&mut self, record: &JobRecord, output_exists: bool)
        ensures
            final(self)@ == old(self)@.record_restored(*record, output_exists),
    {
        let key = record.key();
        let title = title_text(&record.request, "Saved video generation");
        let mut card = self.card_of(&key, title.as_str());
        card.restore(record, output_exists);
        self.jobs.insert(key, card);
        if let Some(path) = &record.output_path {
            if output_exists && self.latest_video.is_none() {
                self.latest_video = Some(path.clone());
            }
        }
    }

    fn on_history(&mut self, records: &Vec<FoundRecord>)
        ensures
            final(self)@ == old(self)@.history_restored(records@),
    {
        let mut i: usize = 0;
        while i < records.len()
            invariant
                i <= records@.len(),
                self@ == old(self)@.history_restored(records@.take(i as int)),
            decreases records@.len() - i,
        {
            proof {
                assert(records@.take(i as int + 1).drop_last() =~= records@.take(i as int));
            }
            self.restore_record(&records[i].record, records[i].output_exists);
            i = i + 1;
        }
        assert(records@.take(i as int) =~= records@);
    }

    fn on_left(&mut self, jobs: &Vec<LeftJob>)
        ensures
            final(self)@ == old(self)@.jobs_left(jobs@),
    {
        let mut i: usize = 0;
        while i < jobs.len()
            invariant
                i <= jobs@.len(),
                self@ == old(self)@.jobs_left(jobs@.take(i as int)),
            decreases jobs@.len() - i,
        {
            proof {
                assert(jobs@.take(i as int + 1).drop_last() =~= jobs@.take(i as int));
            }
            let mut card = self.card_of(&jobs[i].key, "Saved remote job");
            card.leave_over(jobs[i].monitoring_paused);
            self.jobs.insert(jobs[i].key.copy(), card);
            i = i + 1;
        }
        assert(jobs@.take(i as int) =~= jobs@);
    }

    fn on_monitor_paused(&mut self, key: &ProviderJobKey, remote_continues: bool)
        ensures
            final(self)@ == old(self)@.monitor_paused(key@, remote_continues),
    {
        let found = match self.jobs.get(key) {
            Some(card) => Some(card.copy()),
            None => None,
        };
        if let Some(mut card) = found {
            card.pause();
            card.say(
                if remote_continues {
                    "Local checks paused; the provider continues remotely"
                } else {
                    "Monitoring paused"
                },
            );
            self.jobs.insert(key.copy(), card);
        }
        self.watch(key, false);
    }

    fn on_stopped(&mut self, key: &ProviderJobKey, remote_continues: bool)
        ensures
            final(self)@ == old(self)@.monitor_stopped(key@, remote_continues),
    {
        let found = match self.jobs.get(key) {
            Some(card) => Some(card.copy()),
            None => None,
        };
        if let Some(mut card) = found {
            card.stop(remote_continues);
            self.jobs.insert(key.copy(), card);
        }
        self.watch(key, false);
    }

    fn on_saved(&mut self, op_id: u64, revision: u64) -> (effects: Vec<Effect>)
        ensures
            done(old(self)@.draft_saved(op_id, revision), final(self)@, effects@),
    {
        let mut effects = no_effects();
        let ours = match self.closing.saving {
            Some(saving) => saving == op_id,
            None => false,
        };
        if ours {
            self.closing.saving = None;
            if revision == self.revision {
                self.ask_shutdown(&mut effects);
            } else {
                self.ask_close(&mut effects);
            }
        }
        assert(effects_view(effects@) =~= old(self)@.draft_saved(op_id, revision).effects);
        effects
    }
}

fn pause_cards(jobs: &mut Table<ProviderJobKey, JobCard>)
    ensures
        final(jobs)@ == crate::table::mapped(
            old(jobs)@,
            |key: (Seq<char>, Seq<char>), card: crate::gui::job_cards::CardView|
                if card.active {
                    card.paused()
                } else {
                    card
                },
        ),
{
    let ghost before = jobs.entries@;
    let ghost f = |key: (Seq<char>, Seq<char>), card: crate::gui::job_cards::CardView|
        if card.active {
            card.paused()
        } else {
            card
        };
    let mut i: usize = 0;
    while i < jobs.entries.len()
        invariant
            i <= jobs.entries@.len() == before.len(),
            forall|k: int|
                0 <= k < i ==> (#[trigger] jobs.entries@[k]).key@ == before[k].key@
                    && jobs.entries@[k].value@ == (if before[k].value@.active {
                    before[k].value@.paused()
                } else {
                    before[k].value@
                }),
            forall|k: int| i <= k < before.len() ==> jobs.entries@[k] == before[k],
        decreases jobs.entries@.len() - i,
    {
        let mut card = jobs.entries[i].value.copy();
        if card.active {
            card.pause();
        }
        let key = jobs.entries[i].key.copy();
        jobs.entries.set(i, Entry { key, value: card });
        i = i + 1;
    }
    proof {
        crate::table::map_of_mapped(before, jobs.entries@, f);
        old(jobs).shows_its_entries();
        jobs.shows_its_entries();
    }
}

fn is_concerned(key: &ProviderJobKey, provider_id: &Option<ProviderId>, job_id: &str) -> (b: bool)
    ensures
        b == concerns(key@, crate::workflow::provider_view(*provider_id), job_id@),
{
    same_text(key.remote_job_id.as_str(), job_id) && match provider_id {
        Some(id) => id.same(&key.provider_id),
        None => true,
    }
}

fn fault_cards(
    jobs: &mut Table<ProviderJobKey, JobCard>,
    provider_id: &Option<ProviderId>,
    job_id: &str,
    message: &str,
    recoverable: bool,
)
    ensures
        final(jobs)@ == crate::table::mapped(
            old(jobs)@,
            |key: (Seq<char>, Seq<char>), card: crate::gui::job_cards::CardView|
                if concerns(key, crate::workflow::provider_view(*provider_id), job_id@) {
                    card.faulty(message@, recoverable)
                } else {
                    card
                },
        ),
{
    let ghost before = jobs.entries@;
    let ghost provider = crate::workflow::provider_view(*provider_id);
    let ghost f = |key: (Seq<char>, Seq<char>), card: crate::gui::job_cards::CardView|
        if concerns(key, provider, job_id@) {
            card.faulty(message@, recoverable)
        } else {
            card
        };
    let mut i: usize = 0;
    while i < jobs.entries.len()
        invariant
            i <= jobs.entries@.len() == before.len(),
            provider == crate::workflow::provider_view(*provider_id),
            forall|k: int|
                0 <= k < i ==> (#[trigger] jobs.entries@[k]).key@ == before[k].key@
                    && jobs.entries@[k].value@ == (if concerns(
                    before[k].key@,
                    provider,
                    job_id@,
                ) {
                    before[k].value@.faulty(message@, recoverable)
                } else {
                    before[k].value@
                }),
            forall|k: int| i <= k < before.len() ==> jobs.entries@[k] == before[k],
        decreases jobs.entries@.len() - i,
    {
        let mut card = jobs.entries[i].value.copy();
        let key = jobs.entries[i].key.copy();
        if is_concerned(&key, provider_id, job_id) {
            card.fault(message, recoverable);
        }
        jobs.entries.set(i, Entry { key, value: card });
        i = i + 1;
    }
    proof {
        crate::table::map_of_mapped(before, jobs.entries@, f);
        old(jobs).shows_its_entries();
        jobs.shows_its_entries();
    }
}

fn watch_concerned(
    active: &mut Table<ProviderJobKey, bool>,
    jobs: &Table<ProviderJobKey, JobCard>,
    provider_id: &Option<ProviderId>,
    job_id: &str,
)
    ensures
        final(active)@.dom() == Set::new(
            |key: (Seq<char>, Seq<char>)|
                old(active)@.dom().contains(key) || (jobs@.contains_key(key) && concerns(
                    key,
                    crate::workflow::provider_view(*provider_id),
                    job_id@,
                )),
        ),
{
    let ghost provider = crate::workflow::provider_view(*provider_id);
    let mut i: usize = 0;
    while i < jobs.entries.len()
        invariant
            i <= jobs.entries@.len(),
            provider == crate::workflow::provider_view(*provider_id),
            forall|key: (Seq<char>, Seq<char>)|
                #[trigger] active@.dom().contains(key) == (old(active)@.dom().contains(key)
                    || exists|k: int|
                    0 <= k < i && (#[trigger] jobs.entries@[k]).key@ == key && concerns(
                        key,
                        provider,
                        job_id@,
                    )),
        decreases jobs.entries@.len() - i,
    {
        let ghost now = active@;
        let key = jobs.entries[i].key.copy();
        let ours = is_concerned(&key, provider_id, job_id);
        if ours {
            active.insert(key.copy(), true);
        }
        assert forall|other: (Seq<char>, Seq<char>)| #[trigger] active@.dom().contains(other) == (
        old(active)@.dom().contains(other) || exists|k: int|
            0 <= k < i + 1 && (#[trigger] jobs.entries@[k]).key@ == other && concerns(
                other,
                provider,
                job_id@,
            )) by {
            assert(now.dom().contains(other) == (old(active)@.dom().contains(other) || exists|
                k: int,
            |
                0 <= k < i && (#[trigger] jobs.entries@[k]).key@ == other && concerns(
                    other,
                    provider,
                    job_id@,
                )));
            assert(jobs.entries@[i as int].key@ == key@);
        }
        i = i + 1;
    }
    proof {
        jobs.shows_its_entries();
        let wanted = Set::new(
            |key: (Seq<char>, Seq<char>)|
                old(active)@.dom().contains(key) || (jobs@.contains_key(key) && concerns(
                    key,
                    provider,
                    job_id@,
                )),
        );
        assert forall|key: (Seq<char>, Seq<char>)| active@.dom().contains(key) == wanted.contains(
            key,
        ) by {
            if jobs@.contains_key(key) {
                let k = crate::table::map_of_key(jobs.entries@, key);
                assert(jobs.entries@[k].key@ == key);
            }
            if exists|k: int|
                0 <= k < jobs.entries@.len() && (#[trigger] jobs.entries@[k]).key@ == key
                    && concerns(key, provider, job_id@) {
                let k = choose|k: int|
                    0 <= k < jobs.entries@.len() && (#[trigger] jobs.entries@[k]).key@ == key
                        && concerns(key, provider, job_id@);
                crate::table::map_of_present(jobs.entries@, k);
            }
        }
        assert(active@.dom() =~= wanted);
    }
}

impl WindowState {
    fn on_all_paused(&mut self, count: usize, remote_continue: bool) -> (effects: Vec<Effect>)
        ensures
            done(old(self)@.monitors_paused(count, remote_continue), final(self)@, effects@),
    {
        let mut effects = no_effects();
        pause_cards(&mut self.jobs);
        self.active.clear();
        assert(self@.active =~= Set::<(Seq<char>, Seq<char>)>::empty());
        let numeral = decimal(count as u64);
        let message = concat3(
            "Paused ",
            numeral.as_str(),
            if remote_continue {
                " monitor(s). Remote jobs continue."
            } else {
                " monitor(s)."
            },
        );
        push(&mut effects, Effect::Toast(message));
        if self.closing.pausing {
            self.closing.pausing = false;
            self.ask_close(&mut effects);
        }
        assert(effects_view(effects@) =~= old(self)@.monitors_paused(
            count,
            remote_continue,
        ).effects);
        effects
    }

    fn on_error(
        &mut self,
        op_id: u64,
        provider_id: Option<ProviderId>,
        message: String,
        recoverable: bool,
        job_id: Option<String>,
    ) -> (effects: Vec<Effect>)
        ensures
            done(
                old(self)@.failed(
                    op_id,
                    crate::workflow::provider_view(provider_id),
                    message@,
                    recoverable,
                    crate::domain::opt_view(job_id),
                ),
                final(self)@,
                effects@,
            ),
    {
        let mut effects = no_effects();
        self.clears.remove(&op_id);
        let saving_failed = match self.closing.saving {
            Some(saving) => saving == op_id,
            None => false,
        };
        if saving_failed {
            self.closing.saving = None;
            push(&mut effects, Effect::WarnDraftUnsaved(message.clone()));
        }
        let _ = self.clear_pending_submission(op_id);
        self.banner.label = "Review generation".to_owned();
        self.update_compatibility();
        if let Some(id) = &job_id {
            if recoverable {
                watch_concerned(&mut self.active, &self.jobs, &provider_id, id.as_str());
            }
            fault_cards(&mut self.jobs, &provider_id, id.as_str(), message.as_str(), recoverable);
        }
        push(&mut effects, Effect::Toast(message));
        assert(effects_view(effects@) =~= old(self)@.failed(
            op_id,
            crate::workflow::provider_view(provider_id),
            message@,
            recoverable,
            crate::domain::opt_view(job_id),
        ).effects);
        effects
    }
}

impl WindowState {
    fn on_plain_news(&mut self, event: WindowEvent, around: &Surroundings) -> (effects: Vec<Effect>)
        requires
            event is PreparationStarted || event is MediaUploadStarted || event
                is MediaUploadProgress || event is MediaUploadCompleted,
        ensures
            done(reaction(old(self)@, event, *around), final(self)@, effects@),
    {
        let effects = no_effects();
        match event {
            WindowEvent::PreparationStarted { media_count } => {
                let numeral = decimal(media_count as u64);
                self.show_compatibility(
                    concat3(
                        "Preparing review and checking ",
                        numeral.as_str(),
                        " reference-media item(s)…",
                    ),
                    Shade::Warning,
                );
            },
            WindowEvent::MediaUploadStarted { media_index, path } => {
                let ordinal = typed_media_ordinal(&around.media, media_index);
                let name = match file_name(path.as_str()) {
                    Some(name) => name,
                    None => "media".to_owned(),
                };
                let head = concat3("Uploading ", ordinal.as_str(), ": ");
                let tail = concat(name.as_str(), " (generation has not been submitted)");
                self.show_compatibility(concat(head.as_str(), tail.as_str()), Shade::Warning);
            },
            WindowEvent::MediaUploadProgress { media_index, sent, total } => {
                let ordinal = typed_media_ordinal(&around.media, media_index);
                let numeral = decimal(upload_percent(sent, total));
                let head = concat3("Uploading ", ordinal.as_str(), "… ");
                let tail = concat(numeral.as_str(), "%");
                self.show_compatibility(concat(head.as_str(), tail.as_str()), Shade::Warning);
            },
            WindowEvent::MediaUploadCompleted { media_index, reused, expires_at } => {
                let ordinal = typed_media_ordinal(&around.media, media_index);
                let source = if reused {
                    "reused secure upload"
                } else {
                    "upload complete"
                };
                let expiry = expiry_text(expires_at);
                let head = concat3(ordinal.as_str(), ": ", source);
                let tail = concat(expiry.as_str(), ". Fetching a fresh quote…");
                self.show_compatibility(concat(head.as_str(), tail.as_str()), Shade::Warning);
            },
            _ => {},
        }
        effects
    }

    fn on_review_news(&mut self, event: WindowEvent, now: Timestamp) -> (effects: Vec<Effect>)
        requires
            event is ReviewReady || event is PreparedInvalidated || event
                is UncertainSubmissionSaved || event is UncertainSubmissionCleared || event
                is UncertainSubmissionsLoaded || event is UncertainSubmissionBlocked || event
                is SubmissionStarted || event is SubmissionUncertain,
        ensures
            forall|around: Surroundings|
                around.now == now ==> done(
                    #[trigger] reaction(old(self)@, event, around),
                    final(self)@,
                    effects@,
                ),
    {
        match event {
            WindowEvent::ReviewReady {
                prepared_id,
                revision,
                provider_id,
                request,
                quote,
                expires_at,
                draft_fingerprint,
            } => self.on_review(
                PreparedReview { id: prepared_id, revision, draft_fingerprint },
                provider_id,
                request,
                quote,
                expires_at,
            ),
            WindowEvent::PreparedInvalidated { revision } => {
                if revision >= self.revision {
                    self.prepared = None;
                }
                self.banner.label = "Review generation".to_owned();
                self.update_compatibility();
                no_effects()
            },
            WindowEvent::UncertainSubmissionSaved { record } => {
                self.hold(record);
                self.update_compatibility();
                no_effects()
            },
            WindowEvent::UncertainSubmissionCleared { op_id, key } => self.on_hold_cleared(
                op_id,
                &key,
            ),
            WindowEvent::UncertainSubmissionsLoaded { records } => {
                self.on_holds(&records);
                no_effects()
            },
            WindowEvent::UncertainSubmissionBlocked { op_id, record } => self.on_blocked(
                op_id,
                record,
            ),
            WindowEvent::SubmissionStarted { op_id } => {
                let ours = match &self.submit {
                    Some(pending) => pending.op_id == op_id,
                    None => false,
                };
                if ours {
                    self.banner.enabled = false;
                    self.show_compatibility(
                        "Submitting one paid generation request. Keep this window open until a job ID appears…".to_owned(),
                        Shade::Warning,
                    );
                }
                no_effects()
            },
            WindowEvent::SubmissionUncertain { op_id, provider_id, message, draft_fingerprint } =>
                self.on_uncertain(op_id, provider_id, message, draft_fingerprint, now),
            _ => no_effects(),
        }
    }

    fn on_job_news(&mut self, event: WindowEvent) -> (effects: Vec<Effect>)
        requires
            event is JobAccepted || event is JobRecoverySaved || event is JobRecoveryWarning
                || event is JobRecoveryFailed || event is JobUpdated || event is PollWaiting
                || event is DownloadProgress || event is Downloaded || event is HistoryLoaded
                || event is MonitorPaused || event is MonitorsPaused || event is ResumeAllStarted
                || event is ResumableJobsLoaded || event is Cancelled,
        ensures
            forall|around: Surroundings|
                done(
                    #[trigger] reaction(old(self)@, event, around),
                    final(self)@,
                    effects@,
                ),
    {
        match event {
            WindowEvent::JobAccepted { provider_id, job, record } => {
                let request = match record {
                    Some(record) => record.request,
                    None => None,
                };
                self.on_accepted(&provider_id, &job, &request)
            },
            WindowEvent::JobRecoverySaved { op_id, key, store } => self.on_recovery_saved(
                op_id,
                &key,
                store,
            ),
            WindowEvent::JobRecoveryWarning { key, message } => {
                let mut effects = no_effects();
                let detail = concat(
                    "The job is recoverable, but some optional metadata was not saved. ",
                    message.as_str(),
                );
                self.say_on_card(&key, detail.as_str());
                push(&mut effects, Effect::Toast(message));
                effects
            },
            WindowEvent::JobRecoveryFailed { op_id, key, message } => self.on_recovery_failed(
                op_id,
                key,
                message,
            ),
            WindowEvent::JobUpdated { job, record } => {
                self.on_updated(&job, &record.request);
                no_effects()
            },
            WindowEvent::PollWaiting { key, attempt, seconds } => {
                let mut card = self.card_of(&key, "Video generation");
                card.wait(attempt, seconds);
                self.jobs.insert(key.copy(), card);
                self.watch(&key, true);
                no_effects()
            },
            WindowEvent::DownloadProgress { key, written, total, written_text, total_text } => {
                let mut card = self.card_of(&key, "Video generation");
                card.download(written, total, written_text.as_str(), &total_text);
                self.jobs.insert(key.copy(), card);
                self.watch(&key, true);
                no_effects()
            },
            WindowEvent::Downloaded { job, record, path } => self.on_downloaded(
                &job,
                &record.request,
                path,
            ),
            WindowEvent::HistoryLoaded { records } => {
                self.on_history(&records);
                no_effects()
            },
            WindowEvent::MonitorPaused { key, remote_continues } => {
                self.on_monitor_paused(&key, remote_continues);
                no_effects()
            },
            WindowEvent::MonitorsPaused { count, remote_continue } => self.on_all_paused(
                count,
                remote_continue,
            ),
            WindowEvent::ResumeAllStarted { started, skipped } => {
                let mut effects = no_effects();
                let first = decimal(started as u64);
                let second = decimal(skipped as u64);
                let head = concat3("Resumed ", first.as_str(), " job(s); skipped ");
                let tail = concat(second.as_str(), ".");
                push(&mut effects, Effect::Toast(concat(head.as_str(), tail.as_str())));
                effects
            },
            WindowEvent::ResumableJobsLoaded { jobs } => {
                self.on_left(&jobs);
                no_effects()
            },
            WindowEvent::Cancelled { key, remote_continues } => {
                if let Some(key) = key {
                    self.on_stopped(&key, remote_continues);
                }
                no_effects()
            },
            _ => no_effects(),
        }
    }

    /// Answers an event of the service.
    pub fn handle_event(&mut self, event: WindowEvent, around: &Surroundings) -> (effects: Vec<
        Effect,
    >)
        ensures
            final(self)@ == reaction(old(self)@, event, *around).state,
            effects_view(effects@) == reaction(old(self)@, event, *around).effects,
    {
        match event {
            WindowEvent::Ready { providers, default_provider } => self.on_ready(
                &providers,
                &default_provider,
            ),
            WindowEvent::ApiKeyConnected { provider_id, storage } => {
                let mut effects = no_effects();
                self.set_connected(provider_id, true, storage);
                push(&mut effects, toast("Provider connected."));
                effects
            },
            WindowEvent::ApiKeyForgotten { provider_id, storage } => {
                self.set_connected(provider_id, false, storage);
                no_effects()
            },
            WindowEvent::CatalogLoaded { provider_id, catalog } => self.on_catalog(
                provider_id,
                catalog,
                &around.selected_provider,
            ),
            WindowEvent::DraftLoaded { draft } => {
                let mut effects = no_effects();
                match draft {
                    Some(pending) => self.apply_draft(pending, &mut effects),
                    None => self.update_compatibility(),
                }
                assert(effects_view(effects@) =~= reaction(old(self)@, event, *around).effects);
                effects
            },
            WindowEvent::DraftSaved { op_id, revision } => self.on_saved(op_id, revision),
            WindowEvent::Error { op_id, provider_id, message, recoverable, job_id } =>
                self.on_error(op_id, provider_id, message, recoverable, job_id),
            WindowEvent::ShutdownBlocked { reason } => {
                let mut effects = no_effects();
                self.closing.pausing = false;
                self.closing.stopping = false;
                self.update_compatibility();
                push(&mut effects, Effect::Toast(reason));
                effects
            },
            WindowEvent::ShutdownComplete => {
                let mut effects = no_effects();
                self.closing.stopping = false;
                self.closing.disconnected = true;
                self.closing.allowed = true;
                push(&mut effects, Effect::CloseWindow);
                effects
            },
            WindowEvent::Noted => no_effects(),
            WindowEvent::PreparationStarted { .. }
            | WindowEvent::MediaUploadStarted { .. }
            | WindowEvent::MediaUploadProgress { .. }
            | WindowEvent::MediaUploadCompleted { .. } => self.on_plain_news(event, around),
            WindowEvent::ReviewReady { .. }
            | WindowEvent::PreparedInvalidated { .. }
            | WindowEvent::UncertainSubmissionSaved { .. }
            | WindowEvent::UncertainSubmissionCleared { .. }
            | WindowEvent::UncertainSubmissionsLoaded { .. }
            | WindowEvent::UncertainSubmissionBlocked { .. }
            | WindowEvent::SubmissionStarted { .. }
            | WindowEvent::SubmissionUncertain { .. } => self.on_review_news(event, around.now),
            _ => self.on_job_news(event),
        }
    }
}

/// What is said when the service takes no more requests at the moment.
pub const BUSY: &'static str = "The background service is busy. Please try again.";

/// What came of saving the draft before closing.
#[derive(Debug, Clone, Copy, PartialEq, Eq, Structural)]
pub enum QueuedSave {
    /// The service saves it under this number.
    Queued(u64),
    /// The controls make no draft.
    NoDraft,
    /// The service takes no more requests at the moment.
    Busy,
}

impl WindowView {
    /// The user edited the draft.
    pub open spec fn edited(self, draft: DraftStateView) -> Reaction {
        let revision = later(self.revision);
        Reaction {
            state: (WindowView { revision, draft, ..self }).unprepared().numbered().refreshed(),
            effects: seq![
                EffectView::Ask(RequestView::InvalidatePrepared { op_id: self.next_op, revision }),
                EffectView::RestartSaveTimer,
            ],
        }
    }

    /// The user wants a hold resolved.
    pub open spec fn resolution_asked(self, key: (Seq<char>, Seq<char>)) -> Reaction {
        if self.submit is Some || self.closing.under_way() {
            Reaction {
                state: self,
                effects: seq![
                    EffectView::Toast(
                        "Wait for the current operation to finish before changing this safety hold."@,
                    ),
                ],
            }
        } else if self.clearing(key) {
            quietly(self)
        } else {
            Reaction { state: self, effects: seq![EffectView::ResolveHold(key)] }
        }
    }

    /// The draft is prepared for review.
    pub open spec fn preparation_asked(self) -> Reaction {
        if self.closing.under_way() {
            Reaction {
                state: self,
                effects: seq![
                    EffectView::Toast(
                        "Finish or cancel closing before preparing another generation."@,
                    ),
                ],
            }
        } else {
            match self.draft {
                DraftStateView::Faulty(message) => quietly(self.saying(message, Shade::Error)),
                DraftStateView::Ready { local, .. } => Reaction {
                    state: (WindowView {
                        banner: BannerView {
                            enabled: false,
                            label: "Preparing review…"@,
                            ..self.banner
                        },
                        ..self
                    }).saying(
                        if local {
                            "Checking and uploading local reference media…"@
                        } else {
                            "Validating controls and fetching a fresh price…"@
                        },
                        Shade::Warning,
                    ).numbered(),
                    effects: seq![
                        EffectView::Prepare { op_id: self.next_op, revision: self.revision },
                    ],
                },
            }
        }
    }

    /// The composer's button is pressed.
    pub open spec fn review_pressed(self) -> Reaction {
        match self.current_hold() {
            Some(key) => self.resolution_asked(key),
            None => self.preparation_asked(),
        }
    }

    /// The user confirms one paid request, in the review of a draft for this provider.
    pub open spec fn generate_pressed(self, provider_id: Seq<char>) -> Reaction {
        let taken = self.unprepared();
        match self.prepared {
            Some(review) if review.revision == self.revision => if self.closing.under_way() {
                Reaction {
                    state: taken,
                    effects: seq![
                        EffectView::Toast(
                            "Video Harness is already closing safely; no generation was submitted."@,
                        ),
                    ],
                }
            } else if self.holds.contains_key((provider_id, review.draft_fingerprint)) {
                taken.resolution_asked((provider_id, review.draft_fingerprint))
            } else {
                Reaction {
                    state: (WindowView {
                        submit: Some(
                            SubmitView {
                                op_id: self.next_op,
                                revision: review.revision,
                                provider_id,
                            },
                        ),
                        banner: BannerView { enabled: false, ..self.banner },
                        ..taken
                    }).numbered(),
                    effects: seq![
                        EffectView::Ask(
                            RequestView::SubmitPrepared {
                                op_id: self.next_op,
                                prepared_id: review.id,
                            },
                        ),
                    ],
                }
            },
            _ => Reaction {
                state: taken,
                effects: seq![
                    EffectView::Toast(
                        "That review is no longer current. Review the draft again."@,
                    ),
                ],
            },
        }
    }

    /// The user confirms that a hold is to be cleared.
    pub open spec fn clearing_confirmed(self, key: (Seq<char>, Seq<char>)) -> Reaction {
        if self.submit is Some || self.closing.under_way() {
            Reaction {
                state: self,
                effects: seq![
                    EffectView::Toast(
                        "The safety hold was not changed while another operation was active."@,
                    ),
                ],
            }
        } else if self.current_hold() != Some(key) {
            Reaction {
                state: self,
                effects: seq![
                    EffectView::Toast(
                        "The draft or safety state changed. Nothing was cleared."@,
                    ),
                ],
            }
        } else {
            Reaction {
                state: (WindowView {
                    clears: self.clears.insert(self.next_op, key),
                    ..self
                }).numbered().refreshed(),
                effects: seq![
                    EffectView::Ask(
                        RequestView::ClearUncertainSubmission { op_id: self.next_op, key },
                    ),
                ],
            }
        }
    }

    /// The window is asked to close.
    pub open spec fn close_pressed(self) -> Reaction {
        if self.closing.allowed {
            quietly(self)
        } else if self.submit is Some {
            Reaction {
                state: self,
                effects: seq![
                    EffectView::Toast(
                        "Please keep Video Harness open until the paid request outcome and recovery record are safe."@,
                    ),
                ],
            }
        } else if self.closing.under_way() {
            Reaction {
                state: self,
                effects: seq![EffectView::Toast("Finishing local state safely before closing…"@)],
            }
        } else if self.active != Set::<(Seq<char>, Seq<char>)>::empty() {
            Reaction { state: self, effects: seq![EffectView::ConfirmQuit] }
        } else {
            self.close_asked()
        }
    }

    /// The service is gone.
    pub open spec fn service_lost(self) -> Reaction {
        if self.closing.disconnected {
            quietly(self)
        } else {
            let closed = (WindowView {
                closing: Closing {
                    pausing: false,
                    saving: None,
                    stopping: false,
                    disconnected: true,
                    allowed: true,
                },
                ..self
            }).unprepared();
            match self.submit {
                Some(pending) => Reaction {
                    state: (WindowView {
                        submit: None,
                        uncertain_revision: Some(pending.revision),
                        ..closed
                    }).refreshed(),
                    effects: seq![
                        EffectView::WarnUncertain {
                            provider_id: pending.provider_id,
                            message:
                                "The background service stopped before it could confirm the paid request outcome. Treat this submission as potentially accepted."@,
                        },
                    ],
                },
                None => Reaction {
                    state: closed.refreshed(),
                    effects: seq![
                        EffectView::Toast(
                            "The background service stopped. Close and reopen Video Harness."@,
                        ),
                    ],
                },
            }
        }
    }
}

impl WindowState {
    /// Takes note of an edit: a prepared review is no longer good for anything.
    pub fn draft_changed(&mut self, draft: DraftState) -> (effects: Vec<Effect>)
        ensures
            final(self)@ == old(self)@.edited(draft@).state,
            effects_view(effects@) == old(self)@.edited(draft@).effects,
    {
        let mut effects = no_effects();
        let revision: u64 = self.revision.saturating_add(1);
        self.revision = revision;
        self.draft = draft;
        self.prepared = None;
        let op_id = self.op_id();
        self.update_compatibility();
        push(&mut effects, Effect::Ask(WindowRequest::InvalidatePrepared { op_id, revision }));
        push(&mut effects, Effect::RestartSaveTimer);
        assert(effects_view(effects@) =~= old(self)@.edited(draft@).effects);
        effects
    }

    fn ask_resolution(&self, key: HoldKey) -> (effects: Vec<Effect>)
        ensures
            done(self@.resolution_asked(key@), self@, effects@),
    {
        let mut effects = no_effects();
        if self.submit.is_some() || self.closing.is_under_way() {
            push(
                &mut effects,
                toast(
                    "Wait for the current operation to finish before changing this safety hold.",
                ),
            );
        } else if !self.is_clearing(&key) {
            push(&mut effects, Effect::ResolveHold(key));
        }
        effects
    }

    fn ask_preparation(&mut self) -> (effects: Vec<Effect>)
        ensures
            done(old(self)@.preparation_asked(), final(self)@, effects@),
    {
        let mut effects = no_effects();
        if self.closing.is_under_way() {
            push(
                &mut effects,
                toast("Finish or cancel closing before preparing another generation."),
            );
            return effects;
        }
        let (complaint, local) = match &self.draft {
            DraftState::Faulty(message) => (Some(message.clone()), false),
            DraftState::Ready { local, .. } => (None, *local),
        };
        if let Some(message) = complaint {
            self.show_compatibility(message, Shade::Error);
            return effects;
        }
        self.banner.enabled = false;
        self.banner.label = "Preparing review…".to_owned();
        let message = if local {
            "Checking and uploading local reference media…"
        } else {
            "Validating controls and fetching a fresh price…"
        };
        self.show_compatibility(message.to_owned(), Shade::Warning);
        let op_id = self.op_id();
        push(&mut effects, Effect::Prepare { op_id, revision: self.revision });
        effects
    }

    /// Answers the composer's button: a hold is to be resolved first, else the draft is prepared.
    pub fn review_or_resolve(&mut self) -> (effects: Vec<Effect>)
        ensures
            final(self)@ == old(self)@.review_pressed().state,
            effects_view(effects@) == old(self)@.review_pressed().effects,
    {
        match self.find_hold() {
            Some(key) => self.ask_resolution(key),
            None => self.ask_preparation(),
        }
    }

    /// Answers the confirmation of one paid request: nothing is sent unless the review is of the
    /// draft as it stands, the window stays open and no hold blocks the draft.
    pub fn confirm_generation(&mut self, provider_id: &ProviderId) -> (effects: Vec<Effect>)
        ensures
            final(self)@ == old(self)@.generate_pressed(provider_id@).state,
            effects_view(effects@) == old(self)@.generate_pressed(provider_id@).effects,
    {
        let mut effects = no_effects();
        let review = match self.prepared.take() {
            Some(review) => review,
            None => {
                push(
                    &mut effects,
                    toast("That review is no longer current. Review the draft again."),
                );
                return effects;
            },
        };
        if review.revision != self.revision {
            push(
                &mut effects,
                toast("That review is no longer current. Review the draft again."),
            );
            return effects;
        }
        if self.closing.is_under_way() {
            push(
                &mut effects,
                toast("Video Harness is already closing safely; no generation was submitted."),
            );
            return effects;
        }
        let key = HoldKey {
            provider_id: provider_id.copy(),
            draft_fingerprint: review.draft_fingerprint,
        };
        if self.holds.contains(&key) {
            return self.ask_resolution(key);
        }
        let op_id = self.op_id();
        self.submit =
        Some(PendingSubmit { op_id, revision: review.revision, provider_id: provider_id.copy() });
        self.banner.enabled = false;
        push(
            &mut effects,
            Effect::Ask(WindowRequest::SubmitPrepared { op_id, prepared_id: review.id }),
        );
        effects
    }

    /// Takes note of whether the service took a paid request.
    pub fn submission_sent(&mut self, op_id: u64, delivered: bool) -> (effects: Vec<Effect>)
        ensures
            final(self)@ == (if delivered {
                old(self)@
            } else {
                old(self)@.answered(op_id).refreshed()
            }),
            effects_view(effects@) == (if delivered {
                Seq::empty()
            } else {
                seq![EffectView::Toast(BUSY@)]
            }),
    {
        let mut effects = no_effects();
        if !delivered {
            let _ = self.clear_pending_submission(op_id);
            self.update_compatibility();
            push(&mut effects, toast(BUSY));
        }
        effects
    }

    /// Answers the confirmation that a hold is to be cleared.
    pub fn confirm_clearing(&mut self, key: &HoldKey) -> (effects: Vec<Effect>)
        ensures
            final(self)@ == old(self)@.clearing_confirmed(key@).state,
            effects_view(effects@) == old(self)@.clearing_confirmed(key@).effects,
    {
        let mut effects = no_effects();
        if self.submit.is_some() || self.closing.is_under_way() {
            push(
                &mut effects,
                toast("The safety hold was not changed while another operation was active."),
            );
            return effects;
        }
        let current = match self.find_hold() {
            Some(found) => found.same_key(key),
            None => false,
        };
        if !current {
            push(&mut effects, toast("The draft or safety state changed. Nothing was cleared."));
            return effects;
        }
        let op_id = self.op_id();
        self.clears.insert(op_id, key.copy());
        self.update_compatibility();
        push(
            &mut effects,
            Effect::Ask(WindowRequest::ClearUncertainSubmission { op_id, key: key.copy() }),
        );
        effects
    }

    /// Takes note of whether the service took the request to clear a hold.
    pub fn clearing_sent(&mut self, op_id: u64, delivered: bool) -> (effects: Vec<Effect>)
        ensures
            final(self)@ == (if delivered {
                old(self)@
            } else {
                (WindowView { clears: old(self)@.clears.remove(op_id), ..old(self)@ }).refreshed()
            }),
            effects_view(effects@) == (if delivered {
                Seq::empty()
            } else {
                seq![EffectView::Toast(BUSY@)]
            }),
    {
        let mut effects = no_effects();
        if !delivered {
            self.clears.remove(&op_id);
            self.update_compatibility();
            push(&mut effects, toast(BUSY));
        }
        effects
    }

    /// Answers the wish to close the window; it may close at once where the first value is true.
    pub fn close_requested(&mut self) -> (r: (bool, Vec<Effect>))
        ensures
            r.0 == old(self)@.closing.allowed,
            final(self)@ == old(self)@.close_pressed().state,
            effects_view(r.1@) == old(self)@.close_pressed().effects,
    {
        let mut effects = no_effects();
        if self.closing.allowed {
            return (true, effects);
        }
        if self.submit.is_some() {
            push(
                &mut effects,
                toast(
                    "Please keep Video Harness open until the paid request outcome and recovery record are safe.",
                ),
            );
        } else if self.closing.is_under_way() {
            push(&mut effects, toast("Finishing local state safely before closing…"));
        } else if !self.active.is_empty() {
            push(&mut effects, Effect::ConfirmQuit);
        } else {
            self.ask_close(&mut effects);
        }
        assert(effects_view(effects@) =~= old(self)@.close_pressed().effects);
        (false, effects)
    }

    /// Answers the confirmation that the jobs are to be left behind.
    pub fn confirm_quit(&mut self) -> (effects: Vec<Effect>)
        ensures
            final(self)@ == (if old(self)@.closing.pausing {
                old(self)@
            } else {
                (WindowView {
                    closing: Closing { pausing: true, ..old(self)@.closing },
                    ..old(self)@
                }).numbered()
            }),
            effects_view(effects@) == (if old(self)@.closing.pausing {
                Seq::empty()
            } else {
                seq![EffectView::Ask(RequestView::PauseAll { op_id: old(self)@.next_op })]
            }),
    {
        let mut effects = no_effects();
        if !self.closing.pausing {
            self.closing.pausing = true;
            let op_id = self.op_id();
            push(&mut effects, Effect::Ask(WindowRequest::PauseAll { op_id }));
        }
        effects
    }

    /// Takes note of whether the service took the request to pause the jobs before closing.
    pub fn pause_sent(&mut self, delivered: bool) -> (effects: Vec<Effect>)
        ensures
            final(self)@ == (if delivered {
                old(self)@.refreshed()
            } else {
                (WindowView {
                    closing: Closing { pausing: false, ..old(self)@.closing },
                    ..old(self)@
                }).refreshed()
            }),
            effects_view(effects@) == (if delivered {
                seq![EffectView::Toast("Pausing local monitors before closing…"@)]
            } else {
                seq![EffectView::Toast(BUSY@)]
            }),
    {
        let mut effects = no_effects();
        if !delivered {
            self.closing.pausing = false;
        }
        self.update_compatibility();
        push(
            &mut effects,
            toast(
                if delivered {
                    "Pausing local monitors before closing…"
                } else {
                    BUSY
                },
            ),
        );
        effects
    }

    /// Takes note of what came of saving the draft before closing.
    pub fn draft_queued(&mut self, outcome: QueuedSave) -> (effects: Vec<Effect>)
        ensures
            match outcome {
                QueuedSave::Queued(op_id) => final(self)@ == (WindowView {
                    closing: Closing { saving: Some(op_id), ..old(self)@.closing },
                    ..old(self)@
                }).refreshed() && effects_view(effects@) == seq![
                    EffectView::Toast("Saving your latest draft before closing…"@),
                ],
                QueuedSave::NoDraft => final(self)@ == old(self)@.shutdown_asked().state
                    && effects_view(effects@) == old(self)@.shutdown_asked().effects,
                QueuedSave::Busy => final(self)@ == old(self)@ && effects_view(effects@) == seq![
                    EffectView::Toast(BUSY@),
                ],
            },
    {
        let mut effects = no_effects();
        match outcome {
            QueuedSave::Queued(op_id) => {
                self.closing.saving = Some(op_id);
                self.update_compatibility();
                push(&mut effects, toast("Saving your latest draft before closing…"));
            },
            QueuedSave::NoDraft => {
                self.ask_shutdown(&mut effects);
                assert(effects_view(effects@) =~= old(self)@.shutdown_asked().effects);
            },
            QueuedSave::Busy => {
                push(&mut effects, toast(BUSY));
            },
        }
        effects
    }

    /// Answers the wish to close without saving the draft.
    pub fn discard_draft(&mut self) -> (effects: Vec<Effect>)
        ensures
            final(self)@ == old(self)@.shutdown_asked().state,
            effects_view(effects@) == old(self)@.shutdown_asked().effects,
    {
        let mut effects = no_effects();
        self.ask_shutdown(&mut effects);
        assert(effects_view(effects@) =~= old(self)@.shutdown_asked().effects);
        effects
    }

    /// Takes note of whether the service took the request to shut down.
    pub fn shutdown_sent(&mut self, delivered: bool) -> (effects: Vec<Effect>)
        ensures
            final(self)@ == (if delivered {
                old(self)@.refreshed()
            } else {
                (WindowView {
                    closing: Closing { stopping: false, ..old(self)@.closing },
                    ..old(self)@
                }).refreshed()
            }),
            effects_view(effects@) == (if delivered {
                seq![EffectView::Toast("Finishing local state before closing…"@)]
            } else {
                seq![EffectView::Toast(BUSY@)]
            }),
    {
        let mut effects = no_effects();
        if !delivered {
            self.closing.stopping = false;
        }
        self.update_compatibility();
        push(
            &mut effects,
            toast(
                if delivered {
                    "Finishing local state before closing…"
                } else {
                    BUSY
                },
            ),
        );
        effects
    }

    /// Takes note that the service is gone. A paid request that it has not answered may have been
    /// accepted.
    pub fn handle_service_disconnected(&mut self) -> (effects: Vec<Effect>)
        ensures
            final(self)@ == old(self)@.service_lost().state,
            effects_view(effects@) == old(self)@.service_lost().effects,
    {
        let mut effects = no_effects();
        if self.closing.disconnected {
            return effects;
        }
        self.closing = Closing {
            pausing: false,
            saving: None,
            stopping: false,
            disconnected: true,
            allowed: true,
        };
        self.prepared = None;
        match self.submit.take() {
            Some(pending) => {
                self.uncertain_revision = Some(pending.revision);
                push(
                    &mut effects,
                    Effect::WarnUncertain {
                        provider_id: pending.provider_id,
                        message:
                            "The background service stopped before it could confirm the paid request outcome. Treat this submission as potentially accepted.".to_owned(),
                    },
                );
            },
            None => {
                push(
                    &mut effects,
                    toast("The background service stopped. Close and reopen Video Harness."),
                );
            },
        }
        self.update_compatibility();
        effects
    }

    /// Answers the wish to watch a job again.
    pub fn resume_job(&mut self, key: &ProviderJobKey) -> (effects: Vec<Effect>)
        ensures
            final(self)@ == ({
                let numbered = old(self)@.numbered();
                let shown = if numbered.jobs.contains_key(key@) {
                    numbered.with_card(
                        key@,
                        crate::gui::job_cards::CardView {
                            detail: "Connecting to the provider…"@,
                            ..numbered.jobs[key@].resuming()
                        },
                    )
                } else {
                    numbered
                };
                shown.watching(key@, true)
            }),
            effects_view(effects@) == seq![
                EffectView::Ask(RequestView::Resume { op_id: old(self)@.next_op, key: key@ }),
            ],
    {
        let mut effects = no_effects();
        let op_id = self.op_id();
        push(&mut effects, Effect::Ask(WindowRequest::Resume { op_id, key: key.copy() }));
        let found = match self.jobs.get(key) {
            Some(card) => Some(card.copy()),
            None => None,
        };
        if let Some(mut card) = found {
            card.resume();
            card.say("Connecting to the provider…");
            self.jobs.insert(key.copy(), card);
        }
        self.watch(key, true);
        effects
    }

    /// Answers the wish to stop watching a job.
    pub fn pause_job(&mut self, key: &ProviderJobKey) -> (effects: Vec<Effect>)
        ensures
            final(self)@ == old(self)@.numbered(),
            effects_view(effects@) == seq![
                EffectView::Ask(RequestView::PauseMonitor { op_id: old(self)@.next_op, key: key@ }),
            ],
    {
        let mut effects = no_effects();
        let op_id = self.op_id();
        push(&mut effects, Effect::Ask(WindowRequest::PauseMonitor { op_id, key: key.copy() }));
        effects
    }

    /// Answers the wish to stop watching all jobs.
    pub fn pause_all(&mut self) -> (effects: Vec<Effect>)
        ensures
            final(self)@ == old(self)@.numbered(),
            effects_view(effects@) == seq![
                EffectView::Ask(RequestView::PauseAll { op_id: old(self)@.next_op }),
            ],
    {
        let mut effects = no_effects();
        let op_id = self.op_id();
        push(&mut effects, Effect::Ask(WindowRequest::PauseAll { op_id }));
        effects
    }

    /// Answers the wish to see a job's video. A card without one has nothing to open.
    pub fn open_job_video(&mut self, key: &ProviderJobKey) -> (effects: Vec<Effect>)
        ensures
            if old(self)@.jobs.contains_key(key@) && old(self)@.jobs[key@].video is Some {
                final(self)@ == old(self)@.numbered() && effects_view(effects@) == seq![
                    EffectView::Ask(
                        RequestView::OpenVideo {
                            op_id: old(self)@.next_op,
                            path: old(self)@.jobs[key@].video->0,
                        },
                    ),
                ]
            } else {
                final(self)@ == old(self)@ && effects_view(effects@) == Seq::<EffectView>::empty()
            },
    {
        let mut effects = no_effects();
        let path = match self.jobs.get(key) {
            Some(card) => crate::domain::copy_text(&card.video),
            None => None,
        };
        if let Some(path) = path {
            let op_id = self.op_id();
            push(&mut effects, Effect::Ask(WindowRequest::OpenVideo { op_id, path }));
        }
        effects
    }

    /// Answers the wish to see the video that came last.
    pub fn open_latest_video(&mut self) -> (effects: Vec<Effect>)
        ensures
            match old(self)@.latest_video {
                Some(path) => final(self)@ == old(self)@.numbered() && effects_view(effects@)
                    == seq![
                    EffectView::Ask(RequestView::OpenVideo { op_id: old(self)@.next_op, path }),
                ],
                None => final(self)@ == old(self)@ && effects_view(effects@) == seq![
                    EffectView::Toast("No downloaded video is available yet."@),
                ],
            },
    {
        let mut effects = no_effects();
        let path = crate::domain::copy_text(&self.latest_video);
        match path {
            Some(path) => {
                let op_id = self.op_id();
                push(&mut effects, Effect::Ask(WindowRequest::OpenVideo { op_id, path }));
            },
            None => {
                push(&mut effects, toast("No downloaded video is available yet."));
            },
        }
        effects
    }
}

fn resume_cards(jobs: &mut Table<ProviderJobKey, JobCard>)
    ensures
        final(jobs)@ == crate::table::mapped(
            old(jobs)@,
            |key: (Seq<char>, Seq<char>), card: crate::gui::job_cards::CardView|
                if card.can_resume {
                    card.resuming()
                } else {
                    card
                },
        ),
{
    let ghost before = jobs.entries@;
    let ghost f = |key: (Seq<char>, Seq<char>), card: crate::gui::job_cards::CardView|
        if card.can_resume {
            card.resuming()
        } else {
            card
        };
    let mut i: usize = 0;
    while i < jobs.entries.len()
        invariant
            i <= jobs.entries@.len() == before.len(),
            forall|k: int|
                0 <= k < i ==> (#[trigger] jobs.entries@[k]).key@ == before[k].key@
                    && jobs.entries@[k].value@ == (if before[k].value@.can_resume {
                    before[k].value@.resuming()
                } else {
                    before[k].value@
                }),
            forall|k: int| i <= k < before.len() ==> jobs.entries@[k] == before[k],
        decreases jobs.entries@.len() - i,
    {
        let mut card = jobs.entries[i].value.copy();
        if card.can_resume {
            card.resume();
        }
        let key = jobs.entries[i].key.copy();
        jobs.entries.set(i, Entry { key, value: card });
        i = i + 1;
    }
    proof {
        crate::table::map_of_mapped(before, jobs.entries@, f);
        old(jobs).shows_its_entries();
        jobs.shows_its_entries();
    }
}

fn watch_resumable(active: &mut Table<ProviderJobKey, bool>, jobs: &Table<ProviderJobKey, JobCard>)
    ensures
        final(active)@.dom() == Set::new(
            |key: (Seq<char>, Seq<char>)|
                old(active)@.dom().contains(key) || (jobs@.contains_key(key)
                    && jobs@[key].can_resume),
        ),
{
    let mut i: usize = 0;
    while i < jobs.entries.len()
        invariant
            i <= jobs.entries@.len(),
            forall|key: (Seq<char>, Seq<char>)|
                #[trigger] active@.dom().contains(key) == (old(active)@.dom().contains(key)
                    || exists|k: int|
                    0 <= k < i && (#[trigger] jobs.entries@[k]).key@ == key
                        && jobs@.contains_key(key) && jobs@[key].can_resume),
        decreases jobs.entries@.len() - i,
    {
        let ghost now = active@;
        let key = jobs.entries[i].key.copy();
        let ours = match jobs.get(&key) {
            Some(card) => card.can_resume,
            None => false,
        };
        if ours {
            active.insert(key.copy(), true);
        }
        assert forall|other: (Seq<char>, Seq<char>)| #[trigger] active@.dom().contains(other) == (
        old(active)@.dom().contains(other) || exists|k: int|
            0 <= k < i + 1 && (#[trigger] jobs.entries@[k]).key@ == other && jobs@.contains_key(
                other,
            ) && jobs@[other].can_resume) by {
            assert(now.dom().contains(other) == (old(active)@.dom().contains(other) || exists|
                k: int,
            |
                0 <= k < i && (#[trigger] jobs.entries@[k]).key@ == other && jobs@.contains_key(
                    other,
                ) && jobs@[other].can_resume));
            assert(jobs.entries@[i as int].key@ == key@);
        }
        i = i + 1;
    }
    proof {
        jobs.shows_its_entries();
        let wanted = Set::new(
            |key: (Seq<char>, Seq<char>)|
                old(active)@.dom().contains(key) || (jobs@.contains_key(key)
                    && jobs@[key].can_resume),
        );
        assert forall|key: (Seq<char>, Seq<char>)| active@.dom().contains(key) == wanted.contains(
            key,
        ) by {
            if jobs@.contains_key(key) {
                let k = crate::table::map_of_key(jobs.entries@, key);
                assert(jobs.entries@[k].key@ == key);
            }
        }
        assert(active@.dom() =~= wanted);
    }
}

impl WindowState {
    /// Answers the wish to watch all jobs again that can be.
    pub fn resume_all(&mut self) -> (effects: Vec<Effect>)
        ensures
            final(self)@ == (WindowView {
                jobs: crate::table::mapped(
                    old(self)@.jobs,
                    |key: (Seq<char>, Seq<char>), card: crate::gui::job_cards::CardView|
                        if card.can_resume {
                            card.resuming()
                        } else {
                            card
                        },
                ),
                active: Set::new(
                    |key: (Seq<char>, Seq<char>)|
                        old(self)@.active.contains(key) || (old(self)@.jobs.contains_key(key)
                            && old(self)@.jobs[key].can_resume),
                ),
                ..old(self)@
            }).numbered(),
            effects_view(effects@) == seq![
                EffectView::Ask(RequestView::ResumeAll { op_id: old(self)@.next_op }),
                EffectView::Toast("Resuming saved remote jobs…"@),
            ],
    {
        let mut effects = no_effects();
        watch_resumable(&mut self.active, &self.jobs);
        resume_cards(&mut self.jobs);
        let op_id = self.op_id();
        push(&mut effects, Effect::Ask(WindowRequest::ResumeAll { op_id }));
        push(&mut effects, toast("Resuming saved remote jobs…"));
        assert(effects_view(effects@) =~= seq![
            EffectView::Ask(RequestView::ResumeAll { op_id: old(self)@.next_op }),
            EffectView::Toast("Resuming saved remote jobs…"@),
        ]);
        effects
    }
}

/// Whether a list of effects sends a paid request.
pub open spec fn pays(effects: Seq<EffectView>) -> bool {
    exists|i: int|
        0 <= i < effects.len() && (#[trigger] effects[i]) matches EffectView::Ask(
            RequestView::SubmitPrepared { .. },
        )
}

/// A paid request is sent only for the draft as it stands, while the window stays open and no hold
/// blocks the draft; it is one request, for the review that was shown, and from then on it counts
/// as pending.
pub proof fn paid_requests_are_guarded(view: WindowView, provider_id: Seq<char>)
    requires
        pays(view.generate_pressed(provider_id).effects),
    ensures
        view.prepared is Some,
        view.prepared->0.revision == view.revision,
        !view.closing.under_way(),
        !view.holds.contains_key((provider_id, view.prepared->0.draft_fingerprint)),
        view.generate_pressed(provider_id).effects == seq![
            EffectView::Ask(
                RequestView::SubmitPrepared {
                    op_id: view.next_op,
                    prepared_id: view.prepared->0.id,
                },
            ),
        ],
        view.generate_pressed(provider_id).state.submit is Some,
{
}

proof fn catalogs_never_pay(
    view: WindowView,
    provider_id: Seq<char>,
    catalog: VideoCatalog,
    selected: Seq<char>,
)
    ensures
        !pays(view.catalog_loaded(provider_id, catalog, selected).effects),
{
    let effects = view.catalog_loaded(provider_id, catalog, selected).effects;
    assert forall|i: int| 0 <= i < effects.len() implies !((#[trigger] effects[i])
        matches EffectView::Ask(RequestView::SubmitPrepared { .. })) by {
        if let Some(pending) = view.pending_draft {
        }
    }
}

proof fn readiness_never_pays(
    view: WindowView,
    connections: Seq<ProviderConnection>,
    default_provider: Seq<char>,
)
    ensures
        !pays(view.made_ready(connections, default_provider).effects),
{
}

proof fn pauses_never_pay(view: WindowView, count: usize, remote_continue: bool)
    ensures
        !pays(view.monitors_paused(count, remote_continue).effects),
{
    let effects = view.monitors_paused(count, remote_continue).effects;
    assert forall|i: int| 0 <= i < effects.len() implies !((#[trigger] effects[i])
        matches EffectView::Ask(RequestView::SubmitPrepared { .. })) by {}
}

/// No event of the service sends a paid request.
#[verifier::spinoff_prover]
#[verifier::rlimit(60)]
pub proof fn events_never_pay(view: WindowView, event: WindowEvent, around: Surroundings)
    ensures
        !pays(reaction(view, event, around).effects),
{
    match event {
        WindowEvent::CatalogLoaded { provider_id, catalog } => {
            catalogs_never_pay(view, provider_id@, catalog, around.selected_provider@);
        },
        WindowEvent::Ready { providers, default_provider } => {
            readiness_never_pays(view, providers@, default_provider@);
        },
        WindowEvent::MonitorsPaused { count, remote_continue } => {
            pauses_never_pay(view, count, remote_continue);
        },
        _ => {
            assert(reaction(view, event, around).effects.len() <= 2);
            let effects = reaction(view, event, around).effects;
            assert(effects.len() > 0 ==> !(effects[0] matches EffectView::Ask(
                RequestView::SubmitPrepared { .. },
            )));
            assert(effects.len() > 1 ==> !(effects[1] matches EffectView::Ask(
                RequestView::SubmitPrepared { .. },
            )));
        },
    }
}

/// One review is good for one paid request: confirming it again sends nothing.
pub proof fn reviews_are_paid_for_once(
    view: WindowView,
    provider_id: Seq<char>,
    other: Seq<char>,
)
    ensures
        view.generate_pressed(provider_id).state.prepared is None,
        !pays(view.generate_pressed(provider_id).state.generate_pressed(other).effects),
{
}

/// After an edit, nothing is paid for before a new review.
pub proof fn edits_void_reviews(view: WindowView, draft: DraftStateView, provider_id: Seq<char>)
    ensures
        view.edited(draft).state.prepared is None,
        !pays(view.edited(draft).state.generate_pressed(provider_id).effects),
{
}

/// While a paid request is unanswered the window does not close: closing is neither allowed nor
/// begun.
pub proof fn unanswered_requests_keep_the_window_open(view: WindowView)
    requires
        view.submit is Some,
        !view.closing.allowed,
    ensures
        view.close_pressed().state == view,
        view.close_pressed().effects.len() == 1,
        view.close_pressed().effects[0] is Toast,
{
}

proof fn restoring_keeps_closing(view: WindowView, records: Seq<FoundRecord>)
    ensures
        view.history_restored(records).closing == view.closing,
        view.history_restored(records).holds == view.holds,
    decreases records.len(),
{
    if records.len() > 0 {
        restoring_keeps_closing(view, records.drop_last());
    }
}

proof fn leaving_keeps_closing(view: WindowView, jobs: Seq<LeftJob>)
    ensures
        view.jobs_left(jobs).closing == view.closing,
        view.jobs_left(jobs).holds == view.holds,
    decreases jobs.len(),
{
    if jobs.len() > 0 {
        leaving_keeps_closing(view, jobs.drop_last());
    }
}

/// An event allows the window to close only when the service has shut down.
#[verifier::spinoff_prover]
#[verifier::rlimit(60)]
pub proof fn only_shutdown_allows_closing(view: WindowView, event: WindowEvent, around: Surroundings)
    requires
        !view.closing.allowed,
    ensures
        reaction(view, event, around).state.closing.allowed == (event is ShutdownComplete),
{
    match event {
        WindowEvent::HistoryLoaded { records } => {
            restoring_keeps_closing(view, records@);
        },
        WindowEvent::ResumableJobsLoaded { jobs } => {
            leaving_keeps_closing(view, jobs@);
        },
        _ => {},
    }
}

/// A hold goes only when the service says that it was cleared, or that these are all the holds
/// that there are.
#[verifier::spinoff_prover]
#[verifier::rlimit(60)]
pub proof fn holds_are_not_forgotten(
    view: WindowView,
    event: WindowEvent,
    around: Surroundings,
    key: (Seq<char>, Seq<char>),
)
    requires
        view.holds.contains_key(key),
        !(event is UncertainSubmissionCleared),
        !(event is UncertainSubmissionsLoaded),
    ensures
        reaction(view, event, around).state.holds.contains_key(key),
{
    match event {
        WindowEvent::HistoryLoaded { records } => {
            restoring_keeps_closing(view, records@);
        },
        WindowEvent::ResumableJobsLoaded { jobs } => {
            leaving_keeps_closing(view, jobs@);
        },
        _ => {},
    }
}

/// A draft that a hold blocks is not prepared for review, and the composer does not offer to.
pub proof fn held_drafts_are_not_reviewed(view: WindowView)
    requires
        view.current_hold() is Some,
    ensures
        view.review_pressed().state == view,
        forall|i: int|
            0 <= i < view.review_pressed().effects.len() ==> !((
            #[trigger] view.review_pressed().effects[i]) is Prepare),
        view.verdict().shade != Shade::Good,
{
}

/// A paid request whose outcome is lost with the service leaves the draft blocked as it stands.
pub proof fn lost_outcomes_block_the_draft(view: WindowView)
    requires
        !view.closing.disconnected,
        view.submit is Some,
        view.submit->0.revision == view.revision,
    ensures
        view.service_lost().state.uncertain_revision == Some(view.revision),
        !view.service_lost().state.verdict().enabled,
{
}

} // verus!
