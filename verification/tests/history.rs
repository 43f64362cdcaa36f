//! The history of generations.

use video_harness::domain::{JobLocator, JobStatus, ProviderId, Timestamp, VideoJob, VideoRequest};
use video_harness::history::{
    backup_path, backup_step, backup_temporary, check_imported, check_submitted, currency_for_job,
    import_locator, locator_is_complete, needs_backups, normalize_legacy_request,
    normalized_request_json, parse_time, polling_url_for_locator, reconcile_legacy_job,
    reject_newer_schema, row_payload, row_to_record, safe_limit, select_rows, update_generation,
    update_legacy_job, updated_locator, upsert_generation, upsert_legacy_job, usage_cost,
    validate_provider_values, BackupStep, GenerationRow, HistoryError, HistoryStore, LegacyRow,
    SCHEMA_VERSION,
};
use video_harness::json::Json;
use video_harness::providers::fal_transfer::read_part_answer;

fn json(text: &str) -> Json {
    read_part_answer(&text.as_bytes().to_vec()).expect("a document")
}

fn locator(id: &str) -> JobLocator {
    JobLocator::Fal {
        endpoint_id: "fal-ai/a".to_owned(),
        request_id: id.to_owned(),
        status_url: None,
        response_url: None,
    }
}

fn job(id: &str, status: JobStatus) -> VideoJob {
    VideoJob {
        provider_id: ProviderId::fal(),
        id: id.to_owned(),
        status,
        polling_url: String::new(),
        generation_id: None,
        unsigned_urls: Vec::new(),
        usage: Json::Object(Vec::new()),
        error: None,
        locator: locator(id),
        artifacts: Vec::new(),
        raw: Json::Null,
    }
}

fn request() -> VideoRequest {
    VideoRequest {
        provider_id: ProviderId::fal(),
        model: "fal-ai/a".to_owned(),
        prompt: "prompt".to_owned(),
        duration: None,
        resolution: None,
        aspect_ratio: None,
        size: None,
        generate_audio: None,
        seed: None,
        frame_images: Vec::new(),
        input_references: Vec::new(),
        adapter_options: None,
    }
}

fn row(id: &str, status: &str, updated_at: &str) -> GenerationRow {
    GenerationRow {
        provider_id: ProviderId::fal(),
        remote_job_id: id.to_owned(),
        locator: locator(id),
        status: status.to_owned(),
        request_json: Some("{}".to_owned()),
        generation_id: Some("g".to_owned()),
        output_path: Some("/tmp/v.mp4".to_owned()),
        cost: Some("1.5".to_owned()),
        currency: Some("USD".to_owned()),
        error: None,
        created_at: updated_at.to_owned(),
        updated_at: updated_at.to_owned(),
    }
}

fn legacy(status: &str, updated_at: &str) -> LegacyRow {
    LegacyRow {
        job_id: "r".to_owned(),
        polling_url: "https://openrouter.ai/api/v1/videos/r".to_owned(),
        status: status.to_owned(),
        request_json: None,
        generation_id: None,
        output_path: None,
        cost: None,
        error: None,
        created_at: updated_at.to_owned(),
        updated_at: updated_at.to_owned(),
    }
}

const EARLY: &str = "2026-01-01T00:00:00+00:00";
const LATE: &str = "2026-01-02T00:00:00+00:00";

#[test]
fn newer_tables_are_refused() {
    assert!(reject_newer_schema(SCHEMA_VERSION).is_ok());
    let error = reject_newer_schema(SCHEMA_VERSION + 1).expect_err("newer");
    assert!(matches!(
        error,
        HistoryError::UnsupportedSchemaVersion { found, supported }
            if found == SCHEMA_VERSION + 1 && supported == SCHEMA_VERSION
    ));
    assert_eq!(
        error.message(),
        format!(
            "history schema version {} is newer than supported version {}",
            SCHEMA_VERSION + 1,
            SCHEMA_VERSION
        )
    );
    assert!(matches!(needs_backups(None), Ok(false)));
    assert!(matches!(needs_backups(Some(0)), Ok(true)));
    assert!(matches!(needs_backups(Some(SCHEMA_VERSION)), Ok(false)));
    assert!(needs_backups(Some(SCHEMA_VERSION + 1)).is_err());
}

#[test]
fn kept_requests_are_read_as_documents() {
    let mut kept = row("r", "completed", EARLY);
    kept.request_json = Some("{\"model\": \"m\"}".to_owned());
    assert_eq!(row_payload(&kept).expect("document").get_str("model"), Some("m"));
    kept.request_json = Some("{".to_owned());
    assert!(row_payload(&kept).is_none());
    kept.request_json = None;
    assert!(row_payload(&kept).is_none());
}

#[test]
fn costs_are_read_from_the_usage() {
    assert_eq!(usage_cost(&json("{\"cost\": \"0.50\"}")).as_deref(), Some("0.50"));
    assert_eq!(usage_cost(&json("{\"cost\": 2}")).as_deref(), Some("2"));
    assert_eq!(usage_cost(&json("{\"cost\": \"much\"}")), None);
    assert_eq!(usage_cost(&json("{\"cost\": null}")), None);
    assert_eq!(usage_cost(&json("{}")), None);
}

#[test]
fn backups_are_made_once() {
    assert_eq!(backup_step(false, false), BackupStep::Nothing);
    assert_eq!(backup_step(true, true), BackupStep::Keep);
    assert_eq!(backup_step(true, false), BackupStep::Make);
    let store = HistoryStore::new("/data/history.sqlite3".to_owned());
    assert_eq!(store.path(), "/data/history.sqlite3");
    assert_eq!(
        store.pre_rust_backup_path(),
        "/data/history.sqlite3.pre-rust-v1.bak"
    );
    assert_eq!(
        store.pre_provider_v2_backup_path(),
        "/data/history.sqlite3.pre-provider-v2.bak"
    );
    assert_eq!(
        store.ensure_pre_rust_backup(true, false),
        (BackupStep::Make, "/data/history.sqlite3.pre-rust-v1.bak".to_owned())
    );
    assert_eq!(store.ensure_pre_provider_v2_backup(true, true).0, BackupStep::Keep);
    assert_eq!(backup_path("/data/h", "x"), "/data/h.x.bak");
    assert_eq!(backup_temporary("/data/h.x.bak", 12, 3), "/data/h.x.bak.tmp-12-3");
}

#[test]
fn jobs_of_others_are_not_saved() {
    let fal = ProviderId::fal();
    assert!(validate_provider_values(&fal, None, &job("r", JobStatus::Pending), None).is_ok());
    assert!(matches!(
        validate_provider_values(
            &ProviderId::openrouter(),
            None,
            &job("r", JobStatus::Pending),
            None
        ),
        Err(HistoryError::ProviderMismatch)
    ));
    assert!(matches!(
        validate_provider_values(&fal, None, &job("r", JobStatus::Pending), Some("bad".to_owned())),
        Err(HistoryError::Domain(text)) if text == "bad"
    ));
    assert!(matches!(
        check_submitted(&fal, &request(), &job(" ", JobStatus::Pending), None),
        Err(HistoryError::IncompleteSubmittedJob)
    ));
    assert!(check_submitted(&fal, &request(), &job("r", JobStatus::Pending), None).is_ok());
    assert!(matches!(
        check_imported(&fal, &job("", JobStatus::Pending)),
        Err(HistoryError::IncompleteImportedJob)
    ));
    assert!(check_imported(&fal, &job("r", JobStatus::Pending)).is_ok());
    assert!(import_locator(&fal, &job("r", JobStatus::Pending)).is_ok());
    assert!(locator_is_complete(&None));
    assert!(!locator_is_complete(&Some("bad".to_owned())));
}

#[test]
fn incomplete_places_are_not_taken_over() {
    let fal = ProviderId::fal();
    let kept = updated_locator(
        &fal,
        &job("r", JobStatus::Pending),
        &Some("bad".to_owned()),
        &locator("saved"),
    )
    .expect("locator");
    assert!(matches!(kept, JobLocator::Fal { request_id, .. } if request_id == "saved"));
    let own =
        updated_locator(&fal, &job("r", JobStatus::Pending), &None, &locator("saved")).expect("own");
    assert!(matches!(own, JobLocator::Fal { request_id, .. } if request_id == "r"));
    assert_eq!(
        polling_url_for_locator(&JobLocator::OpenRouter { polling_url: "https://o/p".to_owned() }),
        "https://o/p"
    );
}

#[test]
fn costs_have_a_currency() {
    let mut paid = job("r", JobStatus::Completed);
    assert_eq!(currency_for_job(&paid, false), None);
    assert_eq!(currency_for_job(&paid, true), Some("USD".to_owned()));
    paid.usage = json("{\"currency\": \"EUR\"}");
    assert_eq!(currency_for_job(&paid, true), Some("EUR".to_owned()));
}

#[test]
fn requests_are_saved_with_their_provider() {
    let text = normalized_request_json(&json("{\"model\": \"m\", \"prompt\": \"p\"}"), &ProviderId::fal())
        .expect("text");
    assert_eq!(text, "{\"model\":\"m\",\"prompt\":\"p\",\"provider_id\":\"fal\"}");
    let options = json("{\"model\": \"m\", \"provider\": {\"a\": 1}}");
    assert_eq!(
        normalized_request_json(&options, &ProviderId::fal()).expect("text"),
        "{\"adapter_options\":{\"a\":1},\"model\":\"m\",\"provider_id\":\"fal\"}"
    );
    assert_eq!(normalized_request_json(&json("[]"), &ProviderId::fal()), None);
}

#[test]
fn updates_lose_nothing() {
    let updated = update_generation(
        row("r", "in_progress", EARLY),
        &job("r", JobStatus::Completed),
        locator("r"),
        None,
        None,
        LATE,
    );
    assert_eq!(updated.status, "completed");
    assert_eq!(updated.output_path.as_deref(), Some("/tmp/v.mp4"));
    assert_eq!(updated.cost.as_deref(), Some("1.5"));
    assert_eq!(updated.generation_id.as_deref(), Some("g"));
    assert_eq!(updated.created_at, EARLY);
    assert_eq!(updated.updated_at, LATE);
}

#[test]
fn submissions_make_rows() {
    let fresh = upsert_generation(
        None,
        &ProviderId::fal(),
        &job("r", JobStatus::Pending),
        locator("r"),
        Some("{\"a\":1}".to_owned()),
        None,
        EARLY,
    );
    assert_eq!(fresh.status, "pending");
    assert_eq!(fresh.created_at, EARLY);
    let again = upsert_generation(
        Some(fresh),
        &ProviderId::fal(),
        &job("r", JobStatus::InProgress),
        locator("r"),
        None,
        None,
        LATE,
    );
    assert_eq!(again.request_json.as_deref(), Some("{\"a\":1}"));
    assert_eq!(again.created_at, EARLY);
    assert_eq!(again.updated_at, LATE);
    assert_eq!(again.status, "in_progress");
}

#[test]
fn older_rows_are_kept_and_taken_over() {
    let fresh = upsert_legacy_job(
        None,
        &job("r", JobStatus::Pending),
        "https://openrouter.ai/api/v1/videos/r",
        None,
        None,
        EARLY,
    );
    assert_eq!(fresh.status, "pending");
    let updated = update_legacy_job(
        fresh,
        &job("r", JobStatus::Completed),
        "https://openrouter.ai/api/v1/videos/r",
        Some("/tmp/v.mp4".to_owned()),
        Some("2".to_owned()),
        LATE,
    );
    assert_eq!(updated.status, "completed");
    assert_eq!(updated.output_path.as_deref(), Some("/tmp/v.mp4"));
    let taken = reconcile_legacy_job(None, updated, None);
    assert_eq!(taken.provider_id, ProviderId::openrouter());
    assert_eq!(taken.remote_job_id, "r");
    assert_eq!(taken.status, "completed");
}

#[test]
fn newer_rows_survive() {
    let mut saved = row("r", "completed", LATE);
    saved.provider_id = ProviderId::openrouter();
    saved.locator = JobLocator::OpenRouter { polling_url: "https://o/p".to_owned() };
    let kept = reconcile_legacy_job(Some(saved), legacy("pending", EARLY), None);
    assert_eq!(kept.status, "completed");
    assert_eq!(kept.updated_at, LATE);
}

#[test]
fn older_requests_are_renamed() {
    let text = normalize_legacy_request(
        Some("{\"model\": \"m\", \"prompt\": \"p\"}".to_owned()),
        Some(json("{\"model\": \"m\", \"prompt\": \"p\"}")),
    )
    .expect("text");
    assert_eq!(text, "{\"model\":\"m\",\"prompt\":\"p\",\"provider_id\":\"openrouter\"}");
    assert_eq!(
        normalize_legacy_request(Some("broken".to_owned()), None),
        Some("broken".to_owned())
    );
    assert_eq!(normalize_legacy_request(None, None), None);
}

#[test]
fn rows_are_read_back() {
    let now = Timestamp { seconds: 7, nanos: 0 };
    let record = row_to_record(row("r", "completed", EARLY), Some(request()), now).expect("record");
    assert_eq!(record.id(), "r");
    assert_eq!(record.remote_id(), "r");
    assert_eq!(record.path(), Some("/tmp/v.mp4"));
    assert_eq!(record.actual_cost(), Some("1.5"));
    assert!(record.terminal());
    assert_eq!(record.key().remote_job_id, "r");
    assert_eq!(record.created_at.seconds, 1_767_225_600);
    let odd = row_to_record(row("r", "pending", "yesterday"), None, now).expect("record");
    assert_eq!(odd.created_at, now);
    assert!(!odd.terminal());
    let mut foreign = row("r", "pending", EARLY);
    foreign.provider_id = ProviderId::openrouter();
    assert!(matches!(row_to_record(foreign, None, now), Err(HistoryError::InvalidRow)));
    let mut unpriced = row("r", "pending", EARLY);
    unpriced.cost = Some("much".to_owned());
    assert_eq!(row_to_record(unpriced, None, now).expect("record").actual_cost(), None);
    assert_eq!(parse_time("never", now), now);
}

#[test]
fn listings_are_newest_first() {
    let rows = vec![
        row("a", "completed", EARLY),
        row("b", "pending", LATE),
        row("c", "in_progress", EARLY),
    ];
    assert_eq!(select_rows(&rows, None, false, Some(2))[0], 1);
    assert_eq!(select_rows(&rows, None, false, Some(2)).len(), 2);
    assert_eq!(select_rows(&rows, None, true, None), vec![1, 2]);
    assert_eq!(select_rows(&rows, Some(&ProviderId::openrouter()), false, None), Vec::<usize>::new());
    assert_eq!(safe_limit(0), 1);
    assert_eq!(safe_limit(10), 10);
    assert_eq!(safe_limit(9_999), 5_000);
}
