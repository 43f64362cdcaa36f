//! The window's state.

use video_harness::domain::{
    CostQuote, JobLocator, JobStatus, ProviderId, ProviderJobKey, QuoteConfidence, Timestamp,
    VideoJob, VideoRequest,
};
use video_harness::gui::job_cards::{
    animation_sign, identity_line, next_frame, JobCard, Progress, ANIMATION_FRAMES,
};
use video_harness::gui::window::{
    connection_label, read_key, DraftState, Effect, FoundRecord, HoldKey, LeftJob, QueuedSave,
    Surroundings, WindowEvent, WindowRequest, WindowState, BUSY,
};
use video_harness::gui_state::UncertainSubmissionRecord;
use video_harness::history::JobRecord;
use video_harness::json::Json;
use video_harness::table::Table;

fn request() -> VideoRequest {
    VideoRequest {
        provider_id: ProviderId::fal(),
        model: "model".to_owned(),
        prompt: "prompt".to_owned(),
        duration: None,
        resolution: None,
        aspect_ratio: None,
        size: None,
        generate_audio: None,
        seed: None,
        frame_images: Vec::new(),
        input_references: Vec::new(),
        adapter_options: None,
    }
}

fn quote() -> CostQuote {
    CostQuote {
        amount: None,
        basis: String::new(),
        exact: false,
        pricing_sku: None,
        unit_price: None,
        currency: "USD".to_owned(),
        raw_pricing: Vec::new(),
        confidence: QuoteConfidence::Unknown,
    }
}

fn at(seconds: i64) -> Timestamp {
    Timestamp { seconds, nanos: 0 }
}

fn around() -> Surroundings {
    Surroundings { selected_provider: ProviderId::fal(), media: Vec::new(), now: at(100) }
}

fn ready(fingerprint: &str) -> DraftState {
    DraftState::Ready {
        provider_id: ProviderId::fal(),
        fingerprints: vec![fingerprint.to_owned()],
        local: false,
    }
}

fn key(id: &str) -> ProviderJobKey {
    ProviderJobKey { provider_id: ProviderId::fal(), remote_job_id: id.to_owned() }
}

fn job(id: &str, status: JobStatus) -> VideoJob {
    VideoJob {
        provider_id: ProviderId::fal(),
        id: id.to_owned(),
        status,
        polling_url: String::new(),
        generation_id: None,
        unsigned_urls: Vec::new(),
        usage: Json::Object(Vec::new()),
        error: None,
        locator: JobLocator::Fal {
            endpoint_id: "e".to_owned(),
            request_id: id.to_owned(),
            status_url: None,
            response_url: None,
        },
        artifacts: Vec::new(),
        raw: Json::Null,
    }
}

/// A window with a draft, and its number of the review that arrived.
fn reviewed() -> WindowState {
    let mut window = WindowState::new();
    window.set_draft(ready(&"a".repeat(64)));
    let effects = window.review_or_resolve();
    assert!(effects.iter().any(|effect| matches!(effect, Effect::Prepare { .. })));
    let revision = window.revision();
    let effects = window.handle_event(
        WindowEvent::ReviewReady {
            prepared_id: 9,
            revision,
            provider_id: ProviderId::fal(),
            request: request(),
            quote: quote(),
            expires_at: at(1_000),
            draft_fingerprint: "a".repeat(64),
        },
        &around(),
    );
    assert!(effects.iter().any(|effect| matches!(effect, Effect::ShowReview { .. })));
    window
}

fn submission(effects: &Vec<Effect>) -> Option<(u64, u64)> {
    effects.iter().find_map(|effect| match effect {
        Effect::Ask(WindowRequest::SubmitPrepared { op_id, prepared_id }) => {
            Some((*op_id, *prepared_id))
        }
        _ => None,
    })
}

#[test]
fn reviews_are_paid_for_once() {
    let mut window = reviewed();
    let effects = window.confirm_generation(&ProviderId::fal());
    assert_eq!(submission(&effects).map(|asked| asked.1), Some(9));
    assert!(submission(&window.confirm_generation(&ProviderId::fal())).is_none());
}

#[test]
fn edits_void_reviews() {
    let mut window = reviewed();
    window.draft_changed(ready(&"b".repeat(64)));
    assert!(submission(&window.confirm_generation(&ProviderId::fal())).is_none());
}

#[test]
fn late_reviews_are_not_shown() {
    let mut window = WindowState::new();
    window.set_draft(ready(&"a".repeat(64)));
    window.review_or_resolve();
    let revision = window.revision();
    window.draft_changed(ready(&"b".repeat(64)));
    let effects = window.handle_event(
        WindowEvent::ReviewReady {
            prepared_id: 9,
            revision,
            provider_id: ProviderId::fal(),
            request: request(),
            quote: quote(),
            expires_at: at(1_000),
            draft_fingerprint: "a".repeat(64),
        },
        &around(),
    );
    assert!(!effects.iter().any(|effect| matches!(effect, Effect::ShowReview { .. })));
    assert!(submission(&window.confirm_generation(&ProviderId::fal())).is_none());
}

#[test]
fn held_drafts_are_resolved_and_not_reviewed() {
    let mut window = WindowState::new();
    window.set_draft(ready(&"a".repeat(64)));
    window.handle_event(
        WindowEvent::UncertainSubmissionsLoaded {
            records: vec![UncertainSubmissionRecord::new(
                ProviderId::fal(),
                "a".repeat(64),
                at(5),
            )],
        },
        &around(),
    );
    assert!(window.current_uncertain_submission().is_some());
    let effects = window.review_or_resolve();
    assert!(effects.iter().any(|effect| matches!(effect, Effect::ResolveHold(_))));
    assert!(!effects.iter().any(|effect| matches!(effect, Effect::Prepare { .. })));

    let hold = HoldKey { provider_id: ProviderId::fal(), draft_fingerprint: "a".repeat(64) };
    let effects = window.confirm_clearing(&hold);
    let op_id = effects
        .iter()
        .find_map(|effect| match effect {
            Effect::Ask(WindowRequest::ClearUncertainSubmission { op_id, .. }) => Some(*op_id),
            _ => None,
        })
        .expect("a request to clear");
    assert!(window.current_uncertain_submission().is_some());
    window.clearing_sent(op_id, true);
    window.handle_event(
        WindowEvent::UncertainSubmissionCleared { op_id, key: hold },
        &around(),
    );
    assert!(window.current_uncertain_submission().is_none());
    assert!(window
        .review_or_resolve()
        .iter()
        .any(|effect| matches!(effect, Effect::Prepare { .. })));
}

#[test]
fn lost_outcomes_block_the_draft() {
    let mut window = reviewed();
    let (op_id, _) =
        submission(&window.confirm_generation(&ProviderId::fal())).expect("a submission");
    window.submission_sent(op_id, true);
    let effects = window.handle_event(
        WindowEvent::SubmissionUncertain {
            op_id,
            provider_id: ProviderId::fal(),
            message: "no answer".to_owned(),
            draft_fingerprint: Some("a".repeat(64)),
        },
        &around(),
    );
    assert!(effects.iter().any(|effect| matches!(effect, Effect::WarnUncertain { .. })));
    assert!(window.current_uncertain_submission().is_some());
    assert!(!window
        .review_or_resolve()
        .iter()
        .any(|effect| matches!(effect, Effect::Prepare { .. })));
}

#[test]
fn unanswered_requests_keep_the_window_open() {
    let mut window = reviewed();
    let (op_id, _) =
        submission(&window.confirm_generation(&ProviderId::fal())).expect("a submission");
    window.submission_sent(op_id, true);
    let (may_close, _) = window.close_requested();
    assert!(!may_close);
}

#[test]
fn undelivered_submissions_can_be_repeated() {
    let mut window = reviewed();
    let (op_id, _) =
        submission(&window.confirm_generation(&ProviderId::fal())).expect("a submission");
    let effects = window.submission_sent(op_id, false);
    assert!(effects.iter().any(|effect| matches!(effect, Effect::Toast(text) if text == BUSY)));
}

#[test]
fn the_window_closes_after_the_service() {
    let mut window = WindowState::new();
    window.set_draft(ready(&"a".repeat(64)));
    let (may_close, effects) = window.close_requested();
    assert!(!may_close);
    assert!(effects.iter().any(|effect| matches!(effect, Effect::SaveForClose)));
    let effects = window.draft_queued(QueuedSave::Queued(77));
    assert!(!effects
        .iter()
        .any(|effect| matches!(effect, Effect::Ask(WindowRequest::Shutdown))));
    let revision = window.revision();
    let effects =
        window.handle_event(WindowEvent::DraftSaved { op_id: 77, revision }, &around());
    assert!(effects
        .iter()
        .any(|effect| matches!(effect, Effect::Ask(WindowRequest::Shutdown))));
    window.shutdown_sent(true);
    let effects = window.handle_event(WindowEvent::ShutdownComplete, &around());
    assert!(effects.iter().any(|effect| matches!(effect, Effect::CloseWindow)));
    assert!(window.close_requested().0);
}

#[test]
fn watched_jobs_are_paused_before_closing() {
    let mut window = WindowState::new();
    window.set_draft(ready(&"a".repeat(64)));
    window.handle_event(
        WindowEvent::JobAccepted {
            provider_id: ProviderId::fal(),
            job: job("r", JobStatus::Pending),
            record: None,
        },
        &around(),
    );
    let (may_close, effects) = window.close_requested();
    assert!(!may_close);
    assert!(effects.iter().any(|effect| matches!(effect, Effect::ConfirmQuit)));
    let effects = window.confirm_quit();
    assert!(effects
        .iter()
        .any(|effect| matches!(effect, Effect::Ask(WindowRequest::PauseAll { .. }))));
    let effects = window.pause_sent(true);
    assert!(effects.iter().any(|effect| matches!(
        effect,
        Effect::Toast(message) if message == "Pausing local monitors before closing…"
    )));
    assert_eq!(window.banner().label, "Closing safely…");
    window.pause_sent(false);
    assert_eq!(window.banner().label, "Review generation");
}

#[test]
fn accepted_jobs_have_cards() {
    let mut window = WindowState::new();
    window.handle_event(
        WindowEvent::JobAccepted {
            provider_id: ProviderId::fal(),
            job: job("r", JobStatus::Pending),
            record: None,
        },
        &around(),
    );
    assert!(window.job(&key("r")).expect("card").active);
    let effects = window.pause_job(&key("r"));
    assert!(effects.iter().any(|effect| matches!(
        effect,
        Effect::Ask(WindowRequest::PauseMonitor { .. })
    )));
    window.handle_event(
        WindowEvent::MonitorPaused { key: key("r"), remote_continues: true },
        &around(),
    );
    assert!(!window.job(&key("r")).expect("card").active);
    assert!(window.job(&key("r")).expect("card").can_resume);
    let effects = window.resume_job(&key("r"));
    assert!(effects
        .iter()
        .any(|effect| matches!(effect, Effect::Ask(WindowRequest::Resume { .. }))));
    assert!(window.job(&key("s")).is_none());
}

#[test]
fn jobs_left_over_can_be_resumed() {
    let mut window = WindowState::new();
    window.handle_event(
        WindowEvent::ResumableJobsLoaded {
            jobs: vec![LeftJob { key: key("r"), monitoring_paused: true }],
        },
        &around(),
    );
    assert!(window.job(&key("r")).expect("card").can_resume);
    assert!(window
        .resume_all()
        .iter()
        .any(|effect| matches!(effect, Effect::Ask(WindowRequest::ResumeAll { .. }))));
    window.handle_event(WindowEvent::HistoryLoaded { records: Vec::<FoundRecord>::new() }, &around());
    assert!(window.job(&key("r")).is_some());
}

#[test]
fn a_lost_service_disables_the_window() {
    let mut window = WindowState::new();
    window.handle_service_disconnected();
    assert!(!window.banner().enabled);
    assert!(window.close_requested().0);
}

#[test]
fn numbers_are_not_given_twice() {
    let mut window = WindowState::new();
    let first = window.op_id();
    let second = window.op_id();
    assert_ne!(first, second);
}

#[test]
fn faulty_drafts_say_what_is_wrong() {
    let mut window = WindowState::new();
    window.draft_changed(DraftState::Faulty("Seed must be a whole number".to_owned()));
    assert!(!window
        .review_or_resolve()
        .iter()
        .any(|effect| matches!(effect, Effect::Prepare { .. })));
}

#[test]
fn without_a_video_none_is_opened() {
    let mut window = WindowState::new();
    assert!(!window
        .open_latest_video()
        .iter()
        .any(|effect| matches!(effect, Effect::Ask(WindowRequest::OpenVideo { .. }))));
    assert_ne!(connection_label(true), connection_label(false));
}

#[test]
fn a_card_opens_its_own_video() {
    let mut window = WindowState::new();
    assert!(window.open_job_video(&key("r")).is_empty());
    let done = job("r", JobStatus::Completed);
    let record = JobRecord {
        provider_id: ProviderId::fal(),
        job_id: "r".to_owned(),
        polling_url: String::new(),
        locator: done.locator.copy(),
        status: "completed".to_owned(),
        request: None,
        generation_id: None,
        output_path: Some("/tmp/r.mp4".to_owned()),
        cost: None,
        currency: None,
        error: None,
        created_at: at(1),
        updated_at: at(2),
    };
    window.handle_event(
        WindowEvent::Downloaded { job: done, record, path: "/tmp/r.mp4".to_owned() },
        &around(),
    );
    let effects = window.open_job_video(&key("r"));
    assert_eq!(effects.len(), 1);
    assert!(matches!(
        &effects[0],
        Effect::Ask(WindowRequest::OpenVideo { path, .. }) if path == "/tmp/r.mp4"
    ));
    assert!(window.open_job_video(&key("s")).is_empty());
    assert_eq!(identity_line(&key("r")), "fal.ai \u{2022} r");
}

#[test]
fn cards_follow_their_job() {
    let mut card = JobCard::new("title");
    card.accept(&job("r", JobStatus::Pending));
    assert!(card.active && card.can_pause);
    card.pause();
    assert!(!card.active && card.can_resume);
    card.resume();
    assert!(card.active && card.can_pause);
    card.download(5, Some(10), "5 B", &Some("10 B".to_owned()));
    assert_eq!(card.progress, Progress::Part { written: 5, total: 10 });
    card.store("/tmp/v.mp4");
    assert_eq!(card.video.as_deref(), Some("/tmp/v.mp4"));
    assert_eq!(card.progress, Progress::Full);
    assert!(!card.active);
    let mut failed = JobCard::new("title");
    failed.accept(&job("r", JobStatus::Pending));
    failed.update(&job("r", JobStatus::Failed));
    assert!(!failed.active);
}

#[test]
fn tables_keep_one_value_for_each_key() {
    let mut table: Table<u64, bool> = Table::new();
    assert!(table.is_empty());
    table.insert(1, true);
    table.insert(1, false);
    table.insert(2, true);
    assert_eq!(table.get(&1), Some(&false));
    table.remove(&1);
    assert!(!table.contains(&1));
    assert!(table.contains(&2));
    table.clear();
    assert!(table.is_empty());
}

#[test]
fn watched_cards_are_animated() {
    let mut frame = 0;
    for _ in 0..ANIMATION_FRAMES {
        frame = next_frame(frame);
    }
    assert_eq!(frame, 0);
    let mut card = JobCard::new("title");
    let still = card.animation.clone();
    card.animate(3);
    assert_eq!(card.animation, still);
    card.accept(&job("r", JobStatus::Pending));
    card.animate(3);
    assert_eq!(card.animation, animation_sign(3));
}

#[test]
fn keys_are_not_blank() {
    assert_eq!(read_key(" key "), Ok("key".to_owned()));
    assert_eq!(read_key("  "), Err("Paste an API key first.".to_owned()));
}

#[test]
fn everything_can_be_paused() {
    let mut window = WindowState::new();
    assert!(window
        .pause_all()
        .iter()
        .any(|effect| matches!(effect, Effect::Ask(WindowRequest::PauseAll { .. }))));
}

#[test]
fn unsaved_drafts_can_be_given_up() {
    let mut window = WindowState::new();
    window.close_requested();
    window.draft_queued(QueuedSave::Busy);
    assert!(window
        .discard_draft()
        .iter()
        .any(|effect| matches!(effect, Effect::Ask(WindowRequest::Shutdown))));
}
