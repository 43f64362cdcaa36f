//! What is kept between sessions.

use video_harness::domain::{
    DraftMedia, GenerationDraft, JobLocator, MediaRole, MediaSource, ProviderId, ProviderJobKey,
    Timestamp,
};
use video_harness::draft_rows::{
    draft_row, load_draft, read_kept_source, written_source, DraftRow,
};
use video_harness::gui_state::{
    begin_uncertain_submission, canonical_json, canonical_text, check_schema_version,
    contains_credential_field, decoded_draft_settings, encoded_draft_settings,
    generation_draft_fingerprint, hex_text, is_credential_field_name, parse_timestamp,
    raw_text_contains_credential_field, read_draft_settings, read_position, read_receipt,
    read_resumable_job, read_revision, read_uncertain_submission, receipt_row, stored_length,
    stored_position, stored_revision, usable_receipt, validate_draft, validate_editor_text,
    validate_fingerprint, validate_generation_media, validate_receipt, validate_resumable_job,
    validate_uncertain_submission, write_timestamp, written_draft_settings,
    BeginUncertainSubmission, DraftEditorState, GenerationMediaAssociation, GuiStateError,
    GuiStateStore, ReceiptRow, ResumableJob, SchemaText, StoredDraft, StoredDraftMedia,
    StoredMediaSource, StoredUploadReceipt, UncertainSubmissionRecord, MAX_SEED_TEXT_BYTES,
    SCHEMA_VERSION, UNCERTAIN_SUBMISSION_MESSAGE,
};
use video_harness::json::{json_eq, Json, JsonNumber, Member};

fn number(value: i64) -> Json {
    Json::Number(JsonNumber {
        text: value.to_string(),
        signed: Some(value),
        unsigned: u64::try_from(value).ok(),
        bits: (value as f64).to_bits(),
        decimal: value.to_string(),
    })
}

fn text(value: &str) -> Json {
    Json::Text(value.to_owned())
}

fn object(members: Vec<(&str, Json)>) -> Json {
    Json::Object(
        members
            .into_iter()
            .map(|(key, value)| Member { key: key.to_owned(), value })
            .collect(),
    )
}

fn empty_editor() -> DraftEditorState {
    DraftEditorState {
        seed_text: String::new(),
        advanced_json_text: String::new(),
        schema_text: Vec::new(),
    }
}

fn draft() -> StoredDraft {
    StoredDraft {
        revision: 7,
        provider_id: ProviderId::fal(),
        model_id: "fal-ai/sample/video".to_owned(),
        prompt: "A tiny robot watering flowers".to_owned(),
        settings: object(vec![("aspect_ratio", text("16:9")), ("duration", number(5))]),
        editor_state: None,
        media: vec![
            StoredDraftMedia {
                id: "start".to_owned(),
                role: "start_frame".to_owned(),
                source: StoredMediaSource::LocalFile("/tmp/start.png".to_owned()),
            },
            StoredDraftMedia {
                id: "reference".to_owned(),
                role: "reference".to_owned(),
                source: StoredMediaSource::RemoteUrl("https://example.test/ref.png".to_owned()),
            },
        ],
    }
}

fn generation(model: &str, prompt: &str) -> GenerationDraft {
    GenerationDraft {
        provider_id: ProviderId::fal(),
        model: model.to_owned(),
        prompt: prompt.to_owned(),
        duration: None,
        resolution: None,
        aspect_ratio: None,
        size: None,
        generate_audio: None,
        seed: None,
        adapter_options: None,
        media: Vec::new(),
    }
}

fn at(seconds: i64) -> Timestamp {
    Timestamp { seconds, nanos: 0 }
}

#[test]
fn malformed_editor_json_with_credential_key_fails_closed() {
    let mut unsafe_draft = draft();
    unsafe_draft.editor_state = Some(DraftEditorState {
        advanced_json_text: "{\"nested\": {\"api-key\": \"do-not-save\"".to_owned(),
        ..empty_editor()
    });
    assert!(matches!(validate_draft(&unsafe_draft), Err(GuiStateError::CredentialInDraft)));
}

#[test]
fn credential_names_cover_provider_and_auth_conventions_without_token_controls() {
    for name in [
        "OPENROUTER_API_KEY",
        "FAL_KEY",
        "FAL_API_KEY",
        "x-api-key",
        "openRouterApiKey",
        "clientSecret",
        "webhookSecret",
        "accessToken",
        "customToken",
        "authorization",
        "authorizationHeader",
    ] {
        assert!(is_credential_field_name(name), "expected {name:?} to be credential-like");
    }

    for name in [
        "max_tokens",
        "token_count",
        "output_tokens",
        "maxToken",
        "tokenLimit",
        "motion_strength",
    ] {
        assert!(
            !is_credential_field_name(name),
            "expected {name:?} to remain a normal generation control"
        );
    }
}

#[test]
fn raw_credential_assignments_support_json_shell_and_config_syntaxes() {
    for text in [
        r#"{"OPENROUTER_API_KEY":"value"}"#,
        r#"{"nested":{"FAL_API_KEY":"value"}}"#,
        "{'FAL_KEY': 'value'",
        "'x-api-key' = 'value'",
        "\"openRouterApiKey\" = \"value",
        "clientSecret: value",
        "accessToken = value",
        "authorizationHeader=Bearer value",
        "export OPENROUTER_API_KEY=value",
    ] {
        assert!(
            raw_text_contains_credential_field(text),
            "expected credential assignment in {text:?}"
        );
    }

    for text in [
        r#"{"max_tokens":128,"token_count":4}"#,
        "max_tokens = 128\ntoken_count: 4",
        r#"{"note":"authorization: cinematic"}"#,
        r#"{"note":"OPENROUTER_API_KEY=value"}"#,
        r#"note = "authorizationHeader: cinematic""#,
    ] {
        assert!(
            !raw_text_contains_credential_field(text),
            "unexpected credential assignment in {text:?}"
        );
    }
}

#[test]
fn schema_editor_credential_names_and_oversized_values_fail_closed() {
    let mut credential = draft();
    credential.editor_state = Some(DraftEditorState {
        schema_text: vec![SchemaText {
            name: "access-token".to_owned(),
            value: "not persisted".to_owned(),
        }],
        ..empty_editor()
    });
    assert!(matches!(validate_draft(&credential), Err(GuiStateError::CredentialInDraft)));

    let mut oversized = draft();
    oversized.editor_state = Some(DraftEditorState {
        seed_text: "0".repeat(MAX_SEED_TEXT_BYTES + 1),
        ..empty_editor()
    });
    assert!(matches!(validate_draft(&oversized), Err(GuiStateError::InvalidValue(_))));
}

#[test]
fn editor_debug_output_never_contains_raw_text() {
    let editor = DraftEditorState {
        seed_text: "seed-marker".to_owned(),
        advanced_json_text: "advanced-marker".to_owned(),
        schema_text: vec![SchemaText {
            name: "field-marker".to_owned(),
            value: "value-marker".to_owned(),
        }],
    };
    let debug = editor.debug_text();
    for marker in ["seed-marker", "advanced-marker", "field-marker", "value-marker"] {
        assert!(!debug.contains(marker));
    }
    assert_eq!(
        debug,
        "DraftEditorState { seed_text: \"[REDACTED]\", advanced_json_text: \"[REDACTED]\", schema_text_fields: 1 }"
    );
}

#[test]
fn draft_rejects_nested_credentials() {
    let mut unsafe_draft = draft();
    unsafe_draft.settings =
        object(vec![("advanced", object(vec![("api-key", text("do-not-save"))]))]);
    assert!(matches!(validate_draft(&unsafe_draft), Err(GuiStateError::CredentialInDraft)));
    assert!(contains_credential_field(&unsafe_draft.settings));
}

#[test]
fn in_progress_draft_allows_an_empty_model() {
    let mut in_progress = draft();
    in_progress.model_id.clear();
    in_progress.prompt = "Prompt entered before catalogs loaded".to_owned();
    assert!(validate_draft(&in_progress).is_ok());
}

#[test]
fn invalid_editor_text_round_trips_exactly_without_schema_migration() {
    let mut saved = draft();
    saved.editor_state = Some(DraftEditorState {
        seed_text: "-".to_owned(),
        advanced_json_text: "{\n  \"guidance_scale\": 1.\n".to_owned(),
        schema_text: vec![
            SchemaText { name: "freeform_note".to_owned(), value: "unfinished [ text".to_owned() },
            SchemaText { name: "motion_strength".to_owned(), value: "-.".to_owned() },
        ],
    });
    let encoded = encoded_draft_settings(&saved).expect("settings");
    let (settings, editor) = decoded_draft_settings(encoded).expect("decoded");
    assert!(json_eq(&settings, &saved.settings));
    let editor = editor.expect("editor state");
    assert_eq!(editor.get_str("seed_text"), Some("-"));
    assert_eq!(editor.get_str("advanced_json_text"), Some("{\n  \"guidance_scale\": 1.\n"));
    assert!(json_eq(
        &editor,
        &object(vec![
            ("advanced_json_text", text("{\n  \"guidance_scale\": 1.\n")),
            (
                "schema_text",
                object(vec![
                    ("freeform_note", text("unfinished [ text")),
                    ("motion_strength", text("-.")),
                ]),
            ),
            ("seed_text", text("-")),
        ])
    ));
    assert!(validate_draft(&saved).is_ok());
    assert_eq!(SCHEMA_VERSION, 1);

    let plain = encoded_draft_settings(&draft()).expect("settings");
    let (settings, editor) = decoded_draft_settings(plain).expect("decoded");
    assert!(json_eq(&settings, &draft().settings));
    assert!(editor.is_none());
}

fn edited_draft() -> StoredDraft {
    StoredDraft {
        editor_state: Some(DraftEditorState {
            seed_text: "-".to_owned(),
            advanced_json_text: "{\n  \"guidance_scale\": 1.\n".to_owned(),
            schema_text: vec![
                SchemaText {
                    name: "freeform_note".to_owned(),
                    value: "unfinished [ text".to_owned(),
                },
                SchemaText { name: "motion_strength".to_owned(), value: "-.".to_owned() },
            ],
        }),
        model_id: String::new(),
        ..draft()
    }
}

#[test]
fn kept_drafts_are_read_back_whole() {
    let saved = edited_draft();
    let row = draft_row(&saved).expect("row");
    assert_eq!(row.revision, 7);
    assert_eq!(
        row.media_json,
        "[{\"id\":\"start\",\"role\":\"start_frame\",\"source\":{\"type\":\"local_file\",\"value\":\"/tmp/start.png\"}},{\"id\":\"reference\",\"role\":\"reference\",\"source\":{\"type\":\"remote_url\",\"value\":\"https://example.test/ref.png\"}}]"
    );
    assert_eq!(
        row.settings_json,
        "{\"__video_harness_editor_v1\":{\"advanced_json_text\":\"{\\n  \\\"guidance_scale\\\": 1.\\n\",\"schema_text\":{\"freeform_note\":\"unfinished [ text\",\"motion_strength\":\"-.\"},\"seed_text\":\"-\"},\"aspect_ratio\":\"16:9\",\"duration\":5}"
    );
    let back = load_draft(saved.provider_id.clone(), row).expect("draft");
    assert_eq!(back.revision, saved.revision);
    assert_eq!(back.provider_id.as_str(), "fal");
    assert_eq!(back.model_id, "");
    assert_eq!(back.prompt, saved.prompt);
    assert!(json_eq(&back.settings, &saved.settings));
    let (written, read) = (saved.editor_state.expect("editor"), back.editor_state.expect("editor"));
    assert_eq!(read.seed_text, written.seed_text);
    assert_eq!(read.advanced_json_text, written.advanced_json_text);
    let texts = |editor: &DraftEditorState| -> Vec<(String, String)> {
        editor
            .schema_text
            .iter()
            .map(|text| (text.name.clone(), text.value.clone()))
            .collect()
    };
    assert_eq!(texts(&read), texts(&written));
    let ids: Vec<&str> = back.media.iter().map(|item| item.id.as_str()).collect();
    assert_eq!(ids, ["start", "reference"]);
    assert!(matches!(
        &back.media[1].source,
        StoredMediaSource::RemoteUrl(url) if url == "https://example.test/ref.png"
    ));
}

#[test]
fn damaged_drafts_are_refused() {
    let load = |settings: &str, media: &str, revision: i64| {
        let row = DraftRow {
            revision,
            model_id: "m".to_owned(),
            prompt: "p".to_owned(),
            settings_json: settings.to_owned(),
            media_json: media.to_owned(),
        };
        match load_draft(ProviderId::fal(), row) {
            Ok(_) => "kept".to_owned(),
            Err(error) => error.message(),
        }
    };
    assert_eq!(load("{}", "[]", 1), "kept");
    assert!(load("{", "[]", 1).starts_with("could not serialize GUI state: "));
    assert_eq!(
        load("[]", "[]", 1),
        "invalid GUI state value: draft settings must be a JSON object"
    );
    assert_eq!(
        load("{\"__video_harness_editor_v1\":{\"seed_text\":1}}", "[]", 1),
        "could not serialize GUI state: the editor's text of a draft is not of its form"
    );
    assert_eq!(load("{\"__video_harness_editor_v1\":{}}", "[]", 1), "kept");
    assert_eq!(load("{}", "[]", -1), "invalid GUI state value: negative draft revision");
    assert!(load("{}", "[", 1).starts_with("could not serialize GUI state: "));
    assert_eq!(
        load("{}", "[{\"id\":\"a\"}]", 1),
        "could not serialize GUI state: the media of a draft are not of their form"
    );
    assert_eq!(
        load("{\"api_key\":\"x\"}", "[]", 1),
        "draft settings may not contain credential fields"
    );
    let late = StoredDraft { revision: u64::MAX, ..draft() };
    assert_eq!(
        draft_row(&late).expect_err("revision").message(),
        "invalid GUI state value: draft revision is too large"
    );
}

#[test]
fn settings_are_kept_as_text() {
    let text = written_draft_settings(&draft()).expect("text");
    assert_eq!(text, "{\"aspect_ratio\":\"16:9\",\"duration\":5}");
    let (settings, editor) = read_draft_settings(&text).expect("settings");
    assert!(json_eq(&settings, &draft().settings));
    assert!(editor.is_none());
    assert!(matches!(read_draft_settings("{"), Err(GuiStateError::Json(_))));
    let loose = StoredDraft { settings: text_list(), ..edited_draft() };
    assert_eq!(
        written_draft_settings(&loose).expect_err("no object").message(),
        "invalid GUI state value: draft settings must be a JSON object"
    );
}

fn text_list() -> Json {
    Json::Array(vec![text("a")])
}

#[test]
fn receipts_are_kept_and_read_back() {
    let receipt = StoredUploadReceipt {
        provider_id: ProviderId::fal(),
        source_sha256: "a".repeat(64),
        source_path: "/tmp/start.png".to_owned(),
        remote_url: "https://v3.fal.media/files/start.png".to_owned(),
        content_type: "image/png".to_owned(),
        byte_length: 42,
        created_at: Timestamp { seconds: 1_431_648_000, nanos: 5_000_000 },
        expires_at: at(1_431_734_400),
    };
    let row = receipt_row(&receipt).expect("row");
    assert_eq!(row.created_at, "2015-05-15T00:00:00.005+00:00");
    assert_eq!(row.expires_at, "2015-05-16T00:00:00+00:00");
    let back = read_receipt(ProviderId::fal(), row).expect("receipt");
    assert_eq!(back.created_at, receipt.created_at);
    assert_eq!(back.expires_at, receipt.expires_at);
    assert_eq!(back.byte_length, 42);
    assert_eq!(back.remote_url, receipt.remote_url);
    let distant = StoredUploadReceipt { expires_at: at(i64::MAX), ..receipt };
    assert_eq!(
        receipt_row(&distant).expect_err("moment").message(),
        "invalid GUI state value: a moment is out of range"
    );
}

#[test]
fn upload_receipt_is_reused_only_before_expiry() {
    let now = at(1_700_000_000);
    let receipt = StoredUploadReceipt {
        provider_id: ProviderId::fal(),
        source_sha256: "a".repeat(64),
        source_path: "/tmp/start.png".to_owned(),
        remote_url: "https://v3.fal.media/files/start.png".to_owned(),
        content_type: "image/png".to_owned(),
        byte_length: 42,
        created_at: now,
        expires_at: at(now.seconds + 24 * 3600),
    };
    assert!(validate_receipt(&receipt).is_ok());
    assert!(receipt.usable_at(now));
    assert!(!receipt.usable_at(at(now.seconds + 25 * 3600)));
    assert!(!receipt.usable_at(receipt.expires_at));
}

#[test]
fn receipts_need_a_digest_and_a_later_expiry() {
    let now = at(1_700_000_000);
    let receipt = StoredUploadReceipt {
        provider_id: ProviderId::fal(),
        source_sha256: "a".repeat(63),
        source_path: "/tmp/start.png".to_owned(),
        remote_url: "https://v3.fal.media/files/start.png".to_owned(),
        content_type: "image/png".to_owned(),
        byte_length: 42,
        created_at: now,
        expires_at: at(now.seconds + 1),
    };
    assert!(matches!(validate_receipt(&receipt), Err(GuiStateError::InvalidValue(_))));
    let early = StoredUploadReceipt {
        source_sha256: "a".repeat(64),
        expires_at: now,
        ..receipt
    };
    assert!(matches!(validate_receipt(&early), Err(GuiStateError::InvalidValue(_))));
}

#[test]
fn generation_media_and_resumable_jobs_round_trip() {
    let key = ProviderJobKey {
        provider_id: ProviderId::fal(),
        remote_job_id: "request-1".to_owned(),
    };
    let locator = || JobLocator::Fal {
        endpoint_id: "model".to_owned(),
        request_id: "request-1".to_owned(),
        status_url: Some("https://queue.fal.run/model/requests/request-1/status".to_owned()),
        response_url: Some("https://queue.fal.run/model/requests/request-1".to_owned()),
    };
    let saved = ResumableJob {
        key: key.clone(),
        locator: locator(),
        accepted_at: at(1_431_648_000),
        monitoring_paused: false,
    };
    assert!(validate_resumable_job(&saved).is_ok());
    let accepted_at = write_timestamp(saved.accepted_at).expect("moment");
    assert_eq!(accepted_at, "2015-05-15T00:00:00+00:00");
    let paused = read_resumable_job(
        saved.key.clone(),
        saved.locator.clone(),
        &accepted_at,
        true,
    )
    .expect("paused job");
    assert!(paused.monitoring_paused);
    assert_eq!(paused.accepted_at, saved.accepted_at);
    assert_eq!(paused.key.remote_job_id, "request-1");
    assert!(matches!(
        paused.locator,
        JobLocator::Fal { ref endpoint_id, ref request_id, ref status_url, ref response_url }
            if endpoint_id == "model"
                && request_id == "request-1"
                && status_url.as_deref()
                    == Some("https://queue.fal.run/model/requests/request-1/status")
                && response_url.as_deref()
                    == Some("https://queue.fal.run/model/requests/request-1")
    ));
    let other = ProviderJobKey {
        provider_id: ProviderId::fal(),
        remote_job_id: "request-2".to_owned(),
    };
    let strayed = ResumableJob { key: other.clone(), ..saved };
    assert!(validate_resumable_job(&strayed).is_err());

    let item = |position: usize, key: &ProviderJobKey| GenerationMediaAssociation {
        key: key.clone(),
        position,
        draft_media_id: "start".to_owned(),
        role: "start_frame".to_owned(),
        source: StoredMediaSource::LocalFile("/tmp/start.png".to_owned()),
        resolved_url: "https://v3.fal.media/files/start.png".to_owned(),
    };
    assert!(validate_generation_media(&key, &vec![item(0, &key)]).is_ok());
    assert!(validate_generation_media(&key, &vec![item(0, &other)]).is_err());
    let kept = stored_position(item(0, &key).position).expect("kept position");
    assert_eq!(read_position(kept).expect("position"), 0);
    let source = written_source(&item(0, &key).source);
    assert_eq!(source, "{\"type\":\"local_file\",\"value\":\"/tmp/start.png\"}");
    assert!(matches!(
        read_kept_source(&source),
        Ok(StoredMediaSource::LocalFile(path)) if path == "/tmp/start.png"
    ));
    assert!(read_kept_source("{\"type\":\"elsewhere\",\"value\":\"x\"}").is_err());
}

#[test]
fn uncertain_submissions_are_a_digest_only_set() {
    let first =
        UncertainSubmissionRecord::new(ProviderId::openrouter(), "a".repeat(64), at(100));
    assert!(matches!(
        begin_uncertain_submission(first.clone(), None),
        Ok(BeginUncertainSubmission::Inserted(saved)) if saved.recorded_at == at(100)
    ));
    let second = UncertainSubmissionRecord::new(ProviderId::fal(), "b".repeat(64), at(101));
    assert!(matches!(
        begin_uncertain_submission(second.clone(), None),
        Ok(BeginUncertainSubmission::Inserted(saved))
            if saved.provider_id.as_str() == "fal"
                && saved.draft_fingerprint == "b".repeat(64)
                && saved.recorded_at == at(101)
                && saved.message == UNCERTAIN_SUBMISSION_MESSAGE
    ));
    let replacement =
        UncertainSubmissionRecord::new(ProviderId::openrouter(), "a".repeat(64), at(220));
    assert!(matches!(
        begin_uncertain_submission(replacement, Some(first)),
        Ok(BeginUncertainSubmission::Existing(saved))
            if saved.provider_id.as_str() == "openrouter"
                && saved.draft_fingerprint == "a".repeat(64)
                && saved.recorded_at == at(100)
                && saved.message == UNCERTAIN_SUBMISSION_MESSAGE
    ));
    assert!(matches!(
        begin_uncertain_submission(second.clone(), Some(second)),
        Ok(BeginUncertainSubmission::Existing(saved)) if saved.recorded_at == at(101)
    ));
}

#[test]
fn uncertain_submission_rejects_provider_response_text() {
    let mut unsafe_record =
        UncertainSubmissionRecord::new(ProviderId::openrouter(), "c".repeat(64), at(1));
    assert_eq!(unsafe_record.message, UNCERTAIN_SUBMISSION_MESSAGE);
    unsafe_record.message = "server echoed a credential".to_owned();
    assert!(matches!(
        begin_uncertain_submission(unsafe_record.clone(), None),
        Err(GuiStateError::InvalidValue(_))
    ));
    assert!(validate_uncertain_submission(&unsafe_record).is_err());
}

#[test]
fn semantic_fingerprint_ignores_cosmetic_edits_and_json_key_order() {
    let mut first =
        generation(" fal-ai/sample/video ", "  A  tiny\nrobot watering flowers  ");
    first.adapter_options = Some(object(vec![
        (
            "camera",
            object(vec![("motion", text(" slow   pan ")), ("strength", number(1))]),
        ),
        ("negative_prompt", text(" blur  ")),
    ]));
    let reference = DraftMedia {
        source: MediaSource::RemoteUrl { url: "https://example.test/reference.png".to_owned() },
        role: MediaRole::Reference,
    };
    first.media.push(reference.copy());
    let identities = vec!["https://example.test/reference.png".to_owned()];

    let mut same = generation("fal-ai/sample/video", "A tiny robot watering flowers");
    same.adapter_options = Some(object(vec![
        ("negative_prompt", text("blur")),
        (
            "camera",
            object(vec![("strength", number(1)), ("motion", text("slow pan"))]),
        ),
    ]));
    same.media.push(reference);
    assert_eq!(
        generation_draft_fingerprint(&first, &identities),
        generation_draft_fingerprint(&same, &identities)
    );

    same.prompt.push_str(" at sunset");
    assert_ne!(
        generation_draft_fingerprint(&first, &identities),
        generation_draft_fingerprint(&same, &identities)
    );
}

#[test]
fn everything_billed_changes_the_fingerprint() {
    let plain = || generation("m", "p");
    let some = |value: &str| Some(value.to_owned());
    let item = |role: MediaRole| DraftMedia {
        source: MediaSource::RemoteUrl { url: "https://example.test/a.png".to_owned() },
        role,
    };
    let drafts = vec![
        plain(),
        GenerationDraft { provider_id: ProviderId::openrouter(), ..plain() },
        generation("n", "p"),
        generation("m", "q"),
        GenerationDraft { duration: Some(5), ..plain() },
        GenerationDraft { resolution: some("720p"), ..plain() },
        GenerationDraft { aspect_ratio: some("720p"), ..plain() },
        GenerationDraft { size: some("720p"), ..plain() },
        GenerationDraft { generate_audio: Some(false), ..plain() },
        GenerationDraft { seed: Some(5), ..plain() },
        GenerationDraft { adapter_options: Some(object(Vec::new())), ..plain() },
        GenerationDraft { media: vec![item(MediaRole::StartFrame)], ..plain() },
        GenerationDraft { media: vec![item(MediaRole::EndFrame)], ..plain() },
    ];
    let fingerprints: Vec<String> = drafts
        .iter()
        .map(|draft| generation_draft_fingerprint(draft, &vec![String::new(); draft.media.len()]))
        .collect();
    for first in 0..fingerprints.len() {
        for second in 0..first {
            assert_ne!(fingerprints[first], fingerprints[second], "{first} {second}");
        }
    }
}

#[test]
fn fingerprints_are_lowercase_digests() {
    let fingerprint = generation_draft_fingerprint(&generation("m", "p"), &Vec::new());
    assert!(validate_fingerprint(&fingerprint).is_ok());
    assert!(validate_fingerprint(&fingerprint.to_uppercase()).is_err());
    assert!(validate_fingerprint("abc").is_err());
}

#[test]
fn canonical_text_composes_and_squeezes() {
    assert_eq!(canonical_text("  cafe\u{301}\t au \n lait "), "caf\u{e9} au lait");
    assert_eq!(canonical_text(""), "");
}

#[test]
fn canonical_documents_are_sorted() {
    let shuffled = object(vec![("b", number(1)), ("a", text(" x  y "))]);
    let canonical = canonical_json(&shuffled);
    assert!(json_eq(&canonical, &object(vec![("a", text("x y")), ("b", number(1))])));
}

#[test]
fn digests_are_written_in_hexadecimal() {
    assert_eq!(hex_text(&vec![0, 15, 16, 255]), "000f10ff");
}

#[test]
fn editor_texts_keep_their_limits() {
    assert!(validate_editor_text("seed", "12\n34\t", 8).is_ok());
    assert!(validate_editor_text("seed", "123456789", 8).is_err());
    assert!(validate_editor_text("seed", "a\u{7}", 8).is_err());
}

#[test]
fn editors_tell_whether_they_hold_a_secret() {
    let editor = DraftEditorState { seed_text: "x secret y".to_owned(), ..empty_editor() };
    assert!(editor.contains_secret("secret"));
    assert!(!editor.contains_secret("other"));
}

#[test]
fn newer_schema_is_not_modified() {
    assert!(check_schema_version(SCHEMA_VERSION).is_ok());
    assert!(matches!(
        check_schema_version(SCHEMA_VERSION + 1),
        Err(GuiStateError::UnsupportedSchemaVersion { found, supported })
            if found == SCHEMA_VERSION + 1 && supported == SCHEMA_VERSION
    ));
}

#[test]
fn revisions_fit_the_database() {
    assert!(matches!(stored_revision(7), Ok(7)));
    assert!(stored_revision(u64::MAX).is_err());
}

#[test]
fn moments_are_read_in_any_zone() {
    assert!(matches!(
        parse_timestamp("2015-05-15T02:00:00+02:00"),
        Ok(moment) if moment == at(1_431_648_000)
    ));
    assert!(parse_timestamp("yesterday").is_err());
}

#[test]
fn the_store_knows_its_path() {
    assert_eq!(GuiStateStore::new("/tmp/state".to_owned()).path(), "/tmp/state");
}

fn found_row(byte_length: i64, created_at: &str) -> ReceiptRow {
    ReceiptRow {
        source_sha256: "a".repeat(64),
        source_path: "/tmp/start.png".to_owned(),
        remote_url: "https://v3.fal.media/files/start.png".to_owned(),
        content_type: "image/png".to_owned(),
        byte_length,
        created_at: created_at.to_owned(),
        expires_at: "2015-05-16T00:00:00+00:00".to_owned(),
    }
}

#[test]
fn kept_receipts_are_read_back() {
    let receipt = read_receipt(ProviderId::fal(), found_row(42, "2015-05-15T00:00:00+00:00"))
        .expect("receipt");
    assert_eq!(receipt.byte_length, 42);
    assert_eq!(receipt.created_at, at(1_431_648_000));
    assert!(usable_receipt(Some(receipt.clone()), at(1_431_648_000)).is_some());
    assert!(usable_receipt(Some(receipt), at(1_431_734_400)).is_none());
    assert!(usable_receipt(None, at(0)).is_none());
    assert_eq!(
        read_receipt(ProviderId::fal(), found_row(-1, "2015-05-15T00:00:00+00:00"))
            .expect_err("negative")
            .message(),
        "invalid GUI state value: negative upload byte length"
    );
    assert_eq!(
        read_receipt(ProviderId::fal(), found_row(1, "soon")).expect_err("no moment").message(),
        "invalid GUI state value: invalid timestamp soon"
    );
    assert!(matches!(stored_length(42), Ok(42)));
    assert!(stored_length(u64::MAX).is_err());
}

#[test]
fn kept_numbers_are_not_negative() {
    assert!(matches!(read_revision(7), Ok(7)));
    assert!(read_revision(-7).is_err());
    assert!(matches!(stored_position(3), Ok(3)));
    assert!(matches!(read_position(3), Ok(3)));
    assert!(read_position(-3).is_err());
}

#[test]
fn kept_jobs_and_records_are_read_back() {
    let key = ProviderJobKey {
        provider_id: ProviderId::fal(),
        remote_job_id: "r".to_owned(),
    };
    let other = ProviderJobKey {
        provider_id: ProviderId::fal(),
        remote_job_id: "s".to_owned(),
    };
    let locator = || JobLocator::Fal {
        endpoint_id: "e".to_owned(),
        request_id: "r".to_owned(),
        status_url: None,
        response_url: None,
    };
    let moment = "2015-05-15T00:00:00+00:00";
    let job = read_resumable_job(key.clone(), locator(), moment, true).expect("job");
    assert_eq!(job.accepted_at, at(1_431_648_000));
    assert!(job.monitoring_paused);
    assert_eq!(
        read_resumable_job(other, locator(), moment, true)
            .expect_err("mismatch")
            .message(),
        "invalid GUI state value: saved resumable job key and locator do not match"
    );
    let record = read_uncertain_submission(
        ProviderId::fal(),
        "d".repeat(64),
        moment,
        UNCERTAIN_SUBMISSION_MESSAGE.to_owned(),
    )
    .expect("record");
    assert_eq!(record.recorded_at, at(1_431_648_000));
    assert!(read_uncertain_submission(
        ProviderId::fal(),
        "D".repeat(64),
        moment,
        UNCERTAIN_SUBMISSION_MESSAGE.to_owned(),
    )
    .is_err());
}
