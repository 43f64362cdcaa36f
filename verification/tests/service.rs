//! The service and the terminal's screens.

use video_harness::domain::{
    JobLocator, JobStatus, ProviderId, ProviderJobKey, VideoArtifact, VideoCatalog, VideoJob,
};
use video_harness::json::Json;
use video_harness::providers::fal_transfer::read_part_answer;
use video_harness::providers::{ProviderError, ProviderErrorKind};
use video_harness::ui::{
    centered, cloud_cinema, complete_lines, confirmation_lines, editor_display, editor_inline, footer_text,
    format_cost_currency, history_detail, history_header, history_row, insert_cursor, key_status,
    masked_key, option_label, option_label_u32, progress_lines, provider_badge, settings_lines,
    summarize_editor, terminal_text, timing_text, too_small_lines, typed_options, Area, ComposeFocus,
    ComposePanel, CostView, HistoryItem, ModalKind, ProgressPanel, Route, ShownLine, ShownModel,
};
use video_harness::ui_input::{KeyCode, KeyEvent, SecretEditor, TextEditor};
use video_harness::workflow::{
    after_download, after_result, bare_request, catalog_at_hand, collect_step, connection,
    countdown_step, descriptor, known_provider, memory_status, missing_video, monitor_step,
    player_failed, report_missing_key, report_provider_error, report_unknown_provider,
    request_from_job, request_texts, sleep_slice, CollectStep, DownloadedStep, HistoryTask,
    KnownProvider, MonitorStep, Service, ServiceCommand, ServiceConfig, ServiceScope, ServiceStep,
    TaskFailure, TaskPhase, TaskResult, TaskStep,
};

fn json(text: &str) -> Json {
    read_part_answer(&text.as_bytes().to_vec()).expect("a document")
}

fn job(status: JobStatus, videos: usize) -> VideoJob {
    VideoJob {
        provider_id: ProviderId::fal(),
        id: "r".to_owned(),
        status,
        polling_url: String::new(),
        generation_id: None,
        unsigned_urls: Vec::new(),
        usage: Json::Object(Vec::new()),
        error: None,
        locator: JobLocator::Fal {
            endpoint_id: "e".to_owned(),
            request_id: "r".to_owned(),
            status_url: None,
            response_url: None,
        },
        artifacts: (0..videos)
            .map(|index| VideoArtifact {
                url: format!("https://v.example/{index}"),
                index,
                content_type: None,
            })
            .collect(),
        raw: Json::Null,
    }
}

fn key() -> ProviderJobKey {
    ProviderJobKey { provider_id: ProviderId::fal(), remote_job_id: "r".to_owned() }
}

fn refusal(kind: ProviderErrorKind) -> ProviderError {
    ProviderError::new(ProviderId::fal(), kind, "refused".to_owned())
}

fn generate(op_id: u64) -> ServiceCommand {
    ServiceCommand::Generate {
        op_id,
        provider_id: ProviderId::fal(),
        request: bare_request(&ProviderId::fal(), "m".to_owned(), "p".to_owned()),
    }
}

#[test]
fn one_operation_runs_at_a_time() {
    let mut service = Service::new(false, true);
    assert!(matches!(service.handle_command(generate(1)), ServiceStep::Generate { op_id: 1, .. }));
    service.started(1);
    assert!(matches!(service.handle_command(generate(2)), ServiceStep::Fail(_)));
    assert!(!service.finished(1));
    assert!(matches!(service.handle_command(generate(3)), ServiceStep::Generate { .. }));
}

#[test]
fn paid_work_needs_a_key() {
    let mut service = Service::new(false, false);
    assert!(matches!(service.handle_command(generate(1)), ServiceStep::Fail(_)));
    assert!(service.key_accepted(2, &ProviderId::fal()).is_ok());
    assert!(matches!(service.handle_command(generate(3)), ServiceStep::Generate { .. }));
    assert!(service.key_accepted(4, &ProviderId::named("other")).is_err());
    assert!(matches!(
        service.handle_command(ServiceCommand::ForgetApiKey {
            op_id: 5,
            provider_id: ProviderId::fal()
        }),
        ServiceStep::Forget { .. }
    ));
    assert!(matches!(service.handle_command(generate(6)), ServiceStep::Fail(_)));
}

#[test]
fn imports_are_known_by_their_locator() {
    let fal = || JobLocator::Fal {
        endpoint_id: "e".to_owned(),
        request_id: "r".to_owned(),
        status_url: None,
        response_url: None,
    };
    assert_eq!(fal().remote_job_id(), "r");
    let other =
        JobLocator::OpenRouter { polling_url: "https://openrouter.ai/api/v1/videos/j/".to_owned() };
    assert_eq!(other.remote_job_id(), "j");
    assert_eq!(other.key().provider_id.as_str(), "openrouter");
    let import = |locator: JobLocator| ServiceCommand::Import {
        op_id: 1,
        provider_id: ProviderId::fal(),
        locator,
    };
    let mut service = Service::new(false, true);
    assert!(matches!(
        service.handle_command(import(fal())),
        ServiceStep::Import { op_id: 1, .. }
    ));
    assert!(matches!(
        service.handle_command(import(other)),
        ServiceStep::Fail(failure)
            if failure.message == "Import locator belongs to a different provider"
                && failure.job_id.as_deref() == Some("j")
    ));
    service.started(2);
    assert!(matches!(
        service.handle_command(import(fal())),
        ServiceStep::Fail(failure)
            if failure.message == "Another job is already active"
                && failure.job_id.as_deref() == Some("r")
    ));
}

#[test]
fn running_work_can_be_cancelled() {
    let mut service = Service::new(false, true);
    assert!(matches!(
        service.handle_command(ServiceCommand::CancelCurrent { op_id: 1 }),
        ServiceStep::ReportIdle { op_id: 1 }
    ));
    service.started(2);
    assert!(!service.is_cancelled());
    assert!(matches!(
        service.handle_command(ServiceCommand::CancelCurrent { op_id: 3 }),
        ServiceStep::Cancel
    ));
    assert!(service.is_cancelled());
}

#[test]
fn shutting_down_waits_for_running_work() {
    let mut idle = Service::new(true, true);
    assert!(matches!(idle.handle_command(ServiceCommand::Shutdown), ServiceStep::Stop));
    let mut busy = Service::new(true, true);
    busy.started(1);
    assert!(matches!(busy.commands_ended(), ServiceStep::Wait));
    assert!(!busy.accepts());
    assert!(busy.is_cancelled());
    assert!(busy.finished(1));
}

#[test]
fn catalogs_may_be_cached() {
    let catalog = |provider_id: ProviderId, stale| VideoCatalog {
        provider_id,
        models: Vec::new(),
        stale,
        preferred: None,
    };
    let fal = ProviderId::fal();
    assert!(!catalog_at_hand(Ok(catalog(ProviderId::fal(), false)), None, &fal)
        .expect("live")
        .stale);
    assert!(catalog_at_hand(
        Err(refusal(ProviderErrorKind::Network)),
        Some(catalog(ProviderId::fal(), true)),
        &fal
    )
    .expect("cached")
    .stale);
    assert!(catalog_at_hand(
        Err(refusal(ProviderErrorKind::Network)),
        Some(catalog(ProviderId::openrouter(), true)),
        &fal
    )
    .is_err());
}

#[test]
fn jobs_are_saved_before_they_are_watched() {
    let (phase, step) = after_result(TaskPhase::Submitting, TaskResult::Done, &key());
    assert_eq!(phase, TaskPhase::Announcing);
    assert!(matches!(step, TaskStep::Announce));
    let (phase, step) = after_result(phase, TaskResult::Done, &key());
    assert_eq!(phase, TaskPhase::Saving);
    assert!(matches!(step, TaskStep::Save));
    let (phase, step) = after_result(phase, TaskResult::Done, &key());
    assert_eq!(phase, TaskPhase::Watching);
    assert!(matches!(step, TaskStep::Monitor));
    let (phase, step) = after_result(TaskPhase::Saving, TaskResult::HistoryBroke, &key());
    assert_eq!(phase, TaskPhase::Ended);
    assert!(matches!(step, TaskStep::Fail(_)));
    let (_, step) = after_result(TaskPhase::Updating, TaskResult::AlreadySaved, &key());
    assert!(matches!(step, TaskStep::Present));
    let (_, step) = after_result(TaskPhase::LookingUp, TaskResult::Missing, &key());
    assert!(matches!(
        step,
        TaskStep::Fail(failure) if failure.message == "No saved fal job named r was found"
    ));
}

#[test]
fn checks_are_limited() {
    let fal = ProviderId::fal();
    assert!(matches!(
        monitor_step(&job(JobStatus::InProgress, 0), &fal, 0, 2, false),
        MonitorStep::Wait { attempt: 1 }
    ));
    assert!(matches!(
        monitor_step(&job(JobStatus::InProgress, 0), &fal, 2, 2, false),
        MonitorStep::Fail(_)
    ));
    assert!(matches!(
        monitor_step(&job(JobStatus::Completed, 1), &fal, 0, 2, false),
        MonitorStep::Collect
    ));
    assert!(matches!(
        monitor_step(&job(JobStatus::Failed, 0), &fal, 0, 2, false),
        MonitorStep::Fail(_)
    ));
    assert!(matches!(
        monitor_step(&job(JobStatus::InProgress, 0), &fal, 0, 2, true),
        MonitorStep::Stop
    ));
}

#[test]
fn finished_videos_are_downloaded() {
    let fal = ProviderId::fal();
    assert!(matches!(
        collect_step(&job(JobStatus::Completed, 2), &fal, false),
        CollectStep::Download { url } if url == "https://v.example/0"
    ));
    assert!(matches!(
        collect_step(&job(JobStatus::Completed, 0), &fal, false),
        CollectStep::Fail(failure)
            if failure.message == "The provider completed without a video artifact"
    ));
    assert!(matches!(collect_step(&job(JobStatus::Completed, 1), &fal, true), CollectStep::Stop));
    assert!(matches!(after_download(None, "r"), DownloadedStep::Discard));
    assert!(matches!(
        after_download(Some(Ok("/tmp/v.mp4".to_owned())), "r"),
        DownloadedStep::Record { path } if path == "/tmp/v.mp4"
    ));
    assert!(matches!(
        after_download(Some(Err(refusal(ProviderErrorKind::Download))), "r"),
        DownloadedStep::Fail(_)
    ));
}

#[test]
fn stretches_add_up() {
    let mut left = 2_500;
    let mut total = 0;
    while let Some((stretch, rest)) = countdown_step(left) {
        assert!(stretch <= 1_000);
        total += stretch;
        left = rest;
    }
    assert_eq!(total, 2_500);
    assert_eq!(sleep_slice(0), None);
    assert_eq!(sleep_slice(40), Some(40));
    assert_eq!(sleep_slice(4_000), Some(100));
}

#[test]
fn imported_jobs_have_a_request() {
    let mut imported = job(JobStatus::Completed, 1);
    assert_eq!(
        request_texts(&imported),
        ("imported-video-job".to_owned(), "Imported video".to_owned())
    );
    imported.raw = json("{\"model\": \"m\", \"result\": {\"prompt\": \"p\"}}");
    let request = request_from_job(&ProviderId::fal(), &imported, false);
    assert_eq!(request.model, "m");
    assert_eq!(request.prompt, "p");
    assert_eq!(request_from_job(&ProviderId::fal(), &imported, true).model, "imported-video-job");
}

#[test]
fn failures_are_reported() {
    let missing = report_missing_key(1, &ProviderId::fal(), ServiceScope::Quote, None);
    assert_eq!(missing.message, "Connect a fal.ai API key first");
    let unknown =
        report_unknown_provider(2, &ProviderId::named("other"), ServiceScope::Catalog);
    assert_eq!(unknown.message, "Unsupported video provider other");
    let lost = report_provider_error(
        3,
        ServiceScope::Generation,
        refusal(ProviderErrorKind::SubmissionUncertain),
        Some("r".to_owned()),
    );
    assert!(!lost.recoverable);
    assert_eq!(lost.job_id.as_deref(), Some("r"));
    assert_eq!(missing_video(4, "/v").message, "Video file no longer exists: /v");
    assert_eq!(
        player_failed(5, "none").message,
        "Could not start the default video player: none"
    );
    let broken = TaskFailure::broken(ProviderId::fal(), HistoryTask::Create, "r".to_owned());
    assert_eq!(broken.report(6).op_id, 6);
    assert_eq!(known_provider(&ProviderId::fal()).expect("known"), KnownProvider::Fal);
    assert_eq!(
        known_provider(&ProviderId::named("x")).expect_err("unknown").message,
        "Unsupported video provider x"
    );
    assert_eq!(descriptor(&ProviderId::fal()).website, "https://fal.ai");
    assert!(connection(&ProviderId::fal(), true, memory_status()).connected);
    assert!(ServiceConfig::default().max_poll_attempts > 0);
}

fn press(code: KeyCode) -> KeyEvent {
    KeyEvent { code, control: false, alt: false }
}

#[test]
fn editors_follow_keys() {
    let mut editor = TextEditor::line();
    editor.insert_str("h\u{e9}llo");
    assert_eq!(editor.cursor(), 5);
    assert!(editor.handle_key(press(KeyCode::Backspace)));
    assert_eq!(editor.text(), "h\u{e9}ll");
    editor.insert_char('o');
    assert_eq!(editor.text(), "h\u{e9}llo");
    assert!(editor.handle_key(press(KeyCode::Home)));
    assert!(editor.handle_key(press(KeyCode::Delete)));
    assert_eq!(editor.text(), "\u{e9}llo");
    assert!(!editor.handle_key(press(KeyCode::Enter)));
    let mut lines = TextEditor::from_text("ab\ncde".to_owned(), true);
    assert_eq!(lines.cursor_line_column(), (1, 3));
    assert!(lines.move_vertical(-1));
    assert_eq!(lines.cursor_line_column(), (0, 2));
    assert!(!lines.move_vertical(-1));
    assert!(lines.handle_key(press(KeyCode::Enter)));
    assert_eq!(lines.text(), "ab\n\ncde");
    lines.set_text(" x ".to_owned());
    assert_eq!(lines.trimmed(), "x");
    lines.clear();
    assert!(lines.is_empty());
}

#[test]
fn keys_are_never_shown() {
    let mut secret = SecretEditor::new();
    secret.insert_str("abc");
    assert_eq!(secret.masked(), "\u{2022}\u{2022}\u{2022}");
    assert_eq!(secret.masked_for_terminal(false), "***");
    assert!(!masked_key(&secret, true, false).contains('a'));
    assert_eq!(secret.expose_once(), "abc");
    assert!(secret.handle_key(press(KeyCode::Backspace)));
    assert_eq!(secret.cursor(), 2);
    secret.clear();
    assert!(secret.is_empty());
    assert_eq!(key_status(Some(true)), "******** (masked)");
    assert_eq!(key_status(None), "Unavailable");
}

#[test]
fn logged_commands_leave_the_key_out() {
    let command = ServiceCommand::ConnectApiKey {
        op_id: 7,
        provider_id: ProviderId::fal(),
        key: "fal-key-marker".to_owned(),
        persist_on_success: true,
    };
    assert_eq!(command.debug_text(), "ConnectApiKey #7");
    assert_eq!(ServiceCommand::CancelCurrent { op_id: 8 }.debug_text(), "CancelCurrent #8");
    assert_eq!(ServiceCommand::Shutdown.debug_text(), "Shutdown");
    let step = ServiceStep::Validate {
        op_id: 9,
        provider_id: ProviderId::fal(),
        key: "fal-key-marker".to_owned(),
        persist_on_success: false,
    };
    assert_eq!(step.debug_text(), "Validate #9");
    assert_eq!(ServiceStep::Stop.debug_text(), "Stop");
}

#[test]
fn typed_options_are_json_or_nothing() {
    assert!(matches!(typed_options(" \n"), Ok(None)));
    assert!(matches!(typed_options(" {\"a\": 1} "), Ok(Some(Json::Object(members))) if members.len() == 1));
    assert!(typed_options("{").is_err());
}

#[test]
fn terminal_texts_are_plain() {
    assert_eq!(terminal_text("a\u{2026}", true), "a\u{2026}");
    assert!(terminal_text("a\u{2026}", false).is_ascii());
    assert!(insert_cursor("ab", 1, false).starts_with('a'));
    let editor = TextEditor::from_text("a\nb".to_owned(), true);
    assert_eq!(editor_display(&editor, false, true), "a\nb");
    assert!(!editor_inline(&editor, false, false).contains('\n'));
    assert!(summarize_editor(&TextEditor::line()).len() < 20);
    assert_eq!(provider_badge(&ProviderId::fal()), "[FAL]");
    assert_eq!(
        format_cost_currency(&Some("0.5".to_owned()), &Some("EUR".to_owned())),
        "0.5 EUR"
    );
}

#[test]
fn choices_are_named() {
    let values = vec!["720p".to_owned(), "1080p".to_owned()];
    assert_eq!(option_label(&values, Some(1)), "1080p");
    assert_eq!(option_label(&values, None), "provider default");
    assert_eq!(option_label(&values, Some(7)), "provider default");
    assert_eq!(option_label_u32(&vec![5, 7], Some(0)), "5s");
    assert_eq!(option_label_u32(&vec![5, 7], Some(1)), "custom duration");
    assert_eq!(option_label_u32(&vec![5, 7], None), "provider default");
}

fn item() -> HistoryItem {
    HistoryItem {
        provider_id: ProviderId::fal(),
        provider_name: "fal.ai".to_owned(),
        job_id: "r".to_owned(),
        created: "2026-01-01".to_owned(),
        status: "completed".to_owned(),
        model: "m".to_owned(),
        prompt: "p".to_owned(),
        cost: None,
        currency: None,
        output_path: Some("/tmp/v.mp4".to_owned()),
        error: None,
    }
}

#[test]
fn rows_fit_the_header() {
    for width in [40, 80, 100, 140] {
        assert_eq!(history_row(&item(), width).len(), history_header(width).len());
    }
    assert_eq!(
        history_row(&item(), 100),
        vec!["2026-01-01", "[FAL]", "completed", "m", "p", "unavailable"]
    );
    assert_eq!(history_row(&item(), 50), vec!["[FAL] completed", "p"]);
    assert_eq!(
        history_detail(&item()),
        "Provider: [FAL] fal.ai\nJob: r\nOutput: /tmp/v.mp4\nPrompt: p"
    );
}

#[test]
fn screens_say_where_things_stand() {
    assert_eq!(footer_text(Route::Progress, None, 120), " Esc/Q pause safely   R retry monitoring ");
    assert_eq!(footer_text(Route::Progress, None, 60), " Q pause  R retry ");
    assert_eq!(
        footer_text(Route::Compose, Some(ModalKind::Confirmation), 120),
        " Enter generate   Esc cancel "
    );
    let small: Vec<String> = too_small_lines(Route::Progress, &Some("r".to_owned()), "running")
        .into_iter()
        .map(|line| line.text)
        .collect();
    assert_eq!(
        small,
        vec![
            "Terminal too small",
            "Resize to at least 40 x 14.",
            "Job: r",
            "Status: running",
            "Esc/Q: safe exit",
        ]
    );
    assert_eq!(timing_text(65, Some(5), true), "Elapsed 1:05  •  checking again in 5s");
    assert_eq!(timing_text(65, Some(5), false), "Elapsed 1:05  -  checking again in 5s");
    let progress = progress_lines(&ProgressPanel {
        status: "running".to_owned(),
        detail: "waiting".to_owned(),
        elapsed: 65,
        countdown: None,
        job_id: Some("r".to_owned()),
        downloaded: None,
        error: None,
        unicode: true,
    });
    let progress: Vec<String> = progress.into_iter().map(|line| line.text).collect();
    assert_eq!(progress, vec!["running  waiting", "Elapsed 1:05", "Job r"]);
    let done = complete_lines(&ProviderId::fal(), "r", "/tmp/v.mp4", &None, &None, true);
    assert_eq!(done[0].text, "🎬  Your video is ready!");
    assert_eq!(done[2].text, "/tmp/v.mp4");
    assert_eq!(done[4].text, "[FAL]  Job r  •  Final cost unavailable");
}

fn texts(lines: Vec<ShownLine>) -> Vec<String> {
    lines.into_iter().map(|line| line.text).collect()
}

fn unpriced() -> CostView {
    CostView {
        amount: None,
        exact: false,
        currency: "USD".to_owned(),
        basis: "per second".to_owned(),
        raw_pricing: String::new(),
    }
}

#[test]
fn settings_of_the_model_are_listed() {
    let panel = ComposePanel {
        provider_id: ProviderId::fal(),
        provider_name: "fal.ai".to_owned(),
        model: Some(ShownModel {
            id: "m".to_owned(),
            name: "Model".to_owned(),
            description: "About it".to_owned(),
            durations: vec![5],
            resolutions: Vec::new(),
            aspect_ratios: Vec::new(),
            sizes: Vec::new(),
            audio: true,
            seed: false,
            first_frame: false,
            last_frame: false,
        }),
        catalog_message: "1 model".to_owned(),
        catalog_stale: false,
        focus: ComposeFocus::Duration,
        duration_index: Some(0),
        resolution_index: None,
        aspect_index: None,
        size_index: None,
        audio: false,
        seed: TextEditor::line(),
        advanced: false,
        first_frame: TextEditor::line(),
        last_frame: TextEditor::line(),
        references: TextEditor::multiline(),
        adapter_options: TextEditor::multiline(),
        estimate: unpriced(),
        unicode: true,
        short: false,
    };
    assert_eq!(
        texts(settings_lines(&panel)),
        vec![
            "  Provider     [FAL] fal.ai",
            "  Model        Model",
            "1 model",
            "> Duration     5s",
            "  Audio        [ ] off",
            "  Advanced     [+] show",
            "",
            "Cost estimate unavailable",
            "per second",
            "",
            "About it",
        ]
    );
}

#[test]
fn the_paid_request_is_spelled_out() {
    let mut request = bare_request(&ProviderId::fal(), "m".to_owned(), "p".to_owned());
    request.duration = Some(5);
    assert_eq!(
        texts(confirmation_lines(&request, "fal.ai", &unpriced(), true)),
        vec![
            "This submits exactly one paid generation request to fal.ai.",
            "The POST is never automatically retried after an ambiguous result.",
            "",
            "Provider: [FAL] fal.ai",
            "Model: m",
            "Prompt: p",
            "Duration: 5s",
            "Resolution: provider default",
            "",
            "Cost estimate unavailable",
            "per second",
            "Confirm only if you accept an unknown charge.",
            "",
        ]
    );
}

#[test]
fn dialogs_lie_in_the_middle() {
    let area = Area { x: 0, y: 0, width: 100, height: 40 };
    let inner = centered(area, 50, 20);
    assert_eq!(inner, Area { x: 25, y: 10, width: 50, height: 20 });
    assert_eq!(centered(area, 200, 20).width, 100);
}

#[test]
fn the_still_scene_is_still() {
    let texts = |phase, still| {
        cloud_cinema(60, phase, still, true)
            .into_iter()
            .map(|line| line.text)
            .collect::<Vec<_>>()
    };
    assert_eq!(texts(1, true), texts(9, true));
    assert_ne!(texts(1, false), texts(2, false));
}
