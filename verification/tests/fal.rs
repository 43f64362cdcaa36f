//! fal.ai.

use video_harness::domain::{
    FieldMapping, InputReference, JobLocator, JobStatus, MediaKind, ProviderId, QuoteConfidence,
    Timestamp, VideoModel, VideoRequest,
};
use video_harness::gui_state::StoredUploadReceipt;
use video_harness::json::{json_eq, Json, Member};
use video_harness::providers::fal::{
    common_field_map, fal_duration_value, fal_input, schema_accepts_string, schema_properties,
    validate_schema,
};
use video_harness::providers::fal_catalog::{
    collect_models, find_entry, looked_up_model, next_cursor, normalize_catalog,
    normalize_fal_model, openapi_input_schema, openapi_output_schema, resolve_refs, schema_batches,
    schema_has_video_url, PAGE_COMPLAINT,
};
use video_harness::providers::fal_endpoints::{
    follow_redirect, read_artifact_url, read_response_url, upload_child_url, FalOptions,
    FalProvider, DEFAULT_PLATFORM_URL, DEFAULT_QUEUE_URL, DEFAULT_STORAGE_URL,
};
use video_harness::providers::fal_http::{
    backoff, body_text, collect_chunk, error_from_http, next_step, parse_retry_after, redact_text,
    redact_value, retryable, submission_status_is_ambiguous, submission_uncertain_from_http, Body,
    Exchange, NextStep, RequestKind, RetryPolicy,
};
use video_harness::providers::fal_jobs::{
    after_status, extract_video_artifacts, fal_error_message, fal_payload_error, fal_result_job,
    fal_status_job, fal_submitted_job, find_videos, poll_target, result_fallback, result_videos,
    write_locator, PollStep,
};
use video_harness::providers::fal_models::read_model;
use video_harness::providers::fal_quote::quote_from_answer;
use video_harness::providers::fal_transfer::{
    accepted_submission, account, after_download_answer, after_sending, check_deadline, completion,
    descriptor, download_headers, initiated_upload, media_capabilities, media_content_type, placed_download,
    plan_staging, read_part_answer, read_upload_body, request_headers, reusable_receipt,
    start_download,
    upload_expiry, upload_name, DownloadProgress, DownloadStep, MultipartUpload, Placed, Sending, Staging, UploadStep,
    MAX_DOWNLOAD_BYTES, MAX_REDIRECTS, MULTIPART_THRESHOLD,
};
use video_harness::providers::{ProviderError, ProviderErrorKind};
use video_harness::urls::extend_url;

fn json(text: &str) -> Json {
    read_part_answer(&text.as_bytes().to_vec()).expect("a document")
}

fn message<T>(result: Result<T, ProviderError>) -> String {
    match result {
        Ok(_) => panic!("an error was expected"),
        Err(error) => error.message,
    }
}

fn provider() -> FalProvider {
    FalProvider::with_options(
        " key ",
        FalOptions {
            platform_base_url: "https://api.fal.ai/v1/".to_owned(),
            queue_base_url: DEFAULT_QUEUE_URL.to_owned(),
            storage_base_url: DEFAULT_STORAGE_URL.to_owned(),
            timeout_seconds: 60,
            max_retries: 3,
            backoff_base_seconds: 1,
        },
    )
    .expect("a provider")
}

fn model(schema: &str) -> VideoModel {
    let input_schema = json(schema);
    VideoModel {
        provider_id: ProviderId::fal(),
        id: "fal-ai/sample".to_owned(),
        name: "Sample".to_owned(),
        description: String::new(),
        supported_durations: Vec::new(),
        supported_resolutions: Vec::new(),
        supported_aspect_ratios: Vec::new(),
        supported_sizes: Vec::new(),
        supported_frame_images: Vec::new(),
        generate_audio: None,
        generated_audio_supported: false,
        generated_audio_default: None,
        seed: None,
        input_modalities: None,
        media_bindings: Vec::new(),
        field_map: common_field_map(&input_schema),
        input_schema: Some(input_schema),
        pricing_skus: Vec::new(),
    }
}

fn request(prompt: &str) -> VideoRequest {
    VideoRequest {
        provider_id: ProviderId::fal(),
        model: "fal-ai/sample".to_owned(),
        prompt: prompt.to_owned(),
        duration: None,
        resolution: None,
        aspect_ratio: None,
        size: None,
        generate_audio: None,
        seed: None,
        frame_images: Vec::new(),
        input_references: Vec::new(),
        adapter_options: None,
    }
}

#[test]
fn schema_combinators_do_not_skip_sibling_constraints() {
    let any_of_with_minimum = json(
        "{\"type\": \"number\", \"minimum\": 1, \"anyOf\": [{\"type\": \"number\"}, {\"type\": \"string\"}]}",
    );
    assert!(validate_schema(&any_of_with_minimum, &json("0.5"), "$input").is_err());

    let overlapping_one_of = json("{\"oneOf\": [{\"type\": \"number\"}, {\"minimum\": 0}]}");
    assert!(validate_schema(&overlapping_one_of, &json("1"), "$input").is_err());
}

#[test]
fn schema_additional_properties_is_enforced_without_declared_properties() {
    let closed = json("{\"type\": \"object\", \"additionalProperties\": false}");
    assert!(validate_schema(&closed, &json("{\"unexpected\": true}"), "$input").is_err());

    let typed = json("{\"type\": \"object\", \"additionalProperties\": {\"type\": \"string\"}}");
    assert!(validate_schema(&typed, &json("{\"valid\": \"yes\"}"), "$input").is_ok());
    assert!(validate_schema(&typed, &json("{\"invalid\": 1}"), "$input").is_err());
}

#[test]
fn schema_complaints_say_where_and_what() {
    let check = |schema: &str, value: &str| {
        message(validate_schema(&json(schema), &json(value), "$input"))
    };
    assert_eq!(
        check("{\"anyOf\": [{\"type\": \"string\"}]}", "1"),
        "$input does not match any allowed schema"
    );
    assert_eq!(
        check("{\"oneOf\": [{\"type\": \"number\"}, {\"minimum\": 0}]}", "1"),
        "$input must match exactly one allowed schema"
    );
    assert_eq!(check("{\"enum\": [1, 2]}", "3"), "$input is not an allowed value");
    assert_eq!(check("{\"const\": 1}", "2"), "$input must equal the schema constant");
    assert_eq!(check("{\"type\": \"string\"}", "1"), "$input has the wrong JSON type");
    assert_eq!(check("{\"type\": \"integer\"}", "1.5"), "$input has the wrong JSON type");
    assert_eq!(check("{\"minimum\": 1.5}", "1"), "$input must be at least 1.5");
    assert_eq!(check("{\"maximum\": 2}", "3"), "$input must be at most 2");
    assert_eq!(check("{\"exclusiveMinimum\": 1}", "1"), "$input must be greater than 1");
    assert_eq!(check("{\"exclusiveMaximum\": 1}", "1"), "$input must be less than 1");
    assert_eq!(
        check("{\"minLength\": 3}", "\"\u{e9}\u{e9}\""),
        "$input must contain at least 3 characters"
    );
    assert_eq!(
        check("{\"maxLength\": 1}", "\"ab\""),
        "$input must contain at most 1 characters"
    );
    assert_eq!(check("{\"required\": [\"a\"]}", "{}"), "$input.a is required");
    assert_eq!(
        check("{\"properties\": {\"a\": {\"type\": \"string\"}}}", "{\"a\": 1}"),
        "$input.a has the wrong JSON type"
    );
    assert_eq!(
        check("{\"additionalProperties\": false}", "{\"b\": 1}"),
        "$input.b is not accepted by this model"
    );
    assert_eq!(
        check("{\"items\": {\"type\": \"string\"}}", "[\"a\", 1]"),
        "$input[1] has the wrong JSON type"
    );
    assert_eq!(check("{\"minItems\": 1}", "[]"), "$input must contain at least 1 items");
    assert_eq!(check("{\"maxItems\": 1}", "[1, 2]"), "$input must contain at most 1 items");
}

#[test]
fn integers_and_fractions_are_different_values() {
    assert!(validate_schema(&json("{\"enum\": [1]}"), &json("1"), "$").is_ok());
    assert!(validate_schema(&json("{\"enum\": [1]}"), &json("1.0"), "$").is_err());
    assert!(validate_schema(&json("{\"enum\": [0.5]}"), &json("5e-1"), "$").is_ok());
}

#[test]
fn properties_are_gathered_and_mapped() {
    let schema = json(
        "{\"allOf\": [{\"properties\": {\"text\": {}, \"seed\": {\"a\": 1}}}], \"properties\": {\"seed\": {\"a\": 2}, \"video_length\": {}}}",
    );
    let properties = schema_properties(&schema);
    assert_eq!(
        properties.iter().map(|member| member.key.as_str()).collect::<Vec<_>>(),
        vec!["seed", "text", "video_length"]
    );
    assert_eq!(properties[0].value.get_u64("a"), Some(2));
    let map = common_field_map(&schema);
    assert_eq!(
        map.iter()
            .map(|mapping| (mapping.canonical.as_str(), mapping.field.as_str()))
            .collect::<Vec<_>>(),
        vec![("duration", "video_length"), ("prompt", "text"), ("seed", "seed")]
    );
}

#[test]
fn durations_are_written_as_the_schema_wants_them() {
    let text = model("{\"properties\": {\"prompt\": {}, \"duration\": {\"enum\": [\"5\", \"10\"]}}}");
    assert!(json_eq(&fal_duration_value(&text, 5), &json("\"5\"")));
    assert!(json_eq(&fal_duration_value(&text, 6), &json("6")));
    assert!(schema_accepts_string(&json("{\"type\": [\"null\", \"string\"]}"), "x"));
    assert!(!schema_accepts_string(&json("{\"type\": \"integer\"}"), "5"));
}

#[test]
fn requests_become_inputs() {
    let model = model(
        "{\"type\": \"object\", \"required\": [\"prompt\"], \"properties\": {\"prompt\": {\"type\": \"string\"}, \"duration\": {\"type\": \"integer\"}, \"seed\": {\"type\": \"integer\"}, \"motion\": {\"type\": \"string\"}, \"image_urls\": {\"type\": \"array\"}}}",
    );
    let mut request = request("a prompt");
    request.duration = Some(5);
    request.seed = Some(-3);
    request.adapter_options = Some(json("{\"motion\": \"slow\"}"));
    let input = fal_input(&request, &model, None).expect("input");
    assert!(json_eq(
        &input,
        &json("{\"duration\": 5, \"motion\": \"slow\", \"prompt\": \"a prompt\", \"seed\": -3}")
    ));

    request.size = Some("big".to_owned());
    assert_eq!(
        message(fal_input(&request, &model, None)),
        "This fal model does not support the requested size control"
    );
    assert_eq!(
        message(fal_input(&request, &model, Some("bad".to_owned()))),
        "bad"
    );
}

#[test]
fn references_of_a_request_reach_their_field() {
    let mut model = model(
        "{\"properties\": {\"prompt\": {\"type\": \"string\"}, \"image_urls\": {\"type\": \"array\"}}}",
    );
    model.input_modalities = Some(vec![MediaKind::Image]);
    let mut request = request("p");
    request.input_references.push(InputReference {
        url: "https://media.example/a.png".to_owned(),
        kind: MediaKind::Image,
    });
    let input = fal_input(&request, &model, None).expect("input");
    assert!(json_eq(
        &input,
        &json("{\"image_urls\": [\"https://media.example/a.png\"], \"prompt\": \"p\"}")
    ));
    let unmapped = FieldMapping { canonical: "prompt".to_owned(), field: "prompt".to_owned() };
    model.field_map = vec![unmapped];
    assert!(fal_input(&request, &model, None).is_err());
}

const OPENAPI: &str = "{\"paths\": {\"/\": {\"post\": {\"requestBody\": {\"content\": {\"application/json\": {\"schema\": {\"$ref\": \"#/components/schemas/In\"}}}}, \"responses\": {\"200\": {\"content\": {\"application/json\": {\"schema\": {\"properties\": {\"video\": {\"properties\": {\"url\": {\"type\": \"string\"}}}}}}}}}}}}, \"components\": {\"schemas\": {\"In\": {\"properties\": {\"prompt\": {\"type\": \"string\"}, \"duration\": {\"enum\": [\"5\", 10, \"x\"]}, \"resolution\": {\"enum\": [\"720p\"]}}}}}}";

fn entry(id: &str, name: &str, category: &str) -> Json {
    json(&format!(
        "{{\"endpoint_id\": \"{id}\", \"metadata\": {{\"display_name\": \"{name}\", \"category\": \"{category}\", \"status\": \"active\"}}, \"openapi\": {OPENAPI}}}"
    ))
}

#[test]
fn references_are_resolved() {
    let root = json(OPENAPI);
    let schema = openapi_input_schema(&root).expect("schema");
    let resolved = resolve_refs(&schema, &root).expect("resolved");
    assert!(resolved.get("properties").expect("properties").get("prompt").is_some());
    assert_eq!(
        message(resolve_refs(&json("{\"$ref\": \"other.json\"}"), &root)),
        "fal OpenAPI schema uses an external reference"
    );
    assert_eq!(
        message(resolve_refs(&json("{\"$ref\": \"#/nowhere\"}"), &root)),
        "fal OpenAPI schema contains a missing reference"
    );
    let circular = json("{\"a\": {\"$ref\": \"#/a\"}}");
    assert_eq!(
        message(resolve_refs(&circular, &circular)),
        "fal OpenAPI schema contains recursive references"
    );
}

#[test]
fn video_outputs_are_recognized() {
    assert!(schema_has_video_url(&json(
        "{\"properties\": {\"video\": {\"properties\": {\"url\": {\"type\": \"string\"}}}}}"
    )));
    assert!(!schema_has_video_url(&json(
        "{\"properties\": {\"image\": {\"properties\": {\"url\": {\"type\": \"string\"}}}}}"
    )));
}

#[test]
fn entries_become_models() {
    let model = normalize_fal_model(&entry("fal-ai/a", "A", "text-to-video"))
        .expect("entry")
        .expect("model");
    assert_eq!(model.get_str("id"), Some("fal-ai/a"));
    assert_eq!(model.get_str("name"), Some("A"));
    assert!(json_eq(model.get("supported_durations").expect("durations"), &json("[5, 10]")));
    assert!(json_eq(model.get("supported_resolutions").expect("list"), &json("[\"720p\"]")));
    assert!(json_eq(model.get("generate_audio").expect("flag"), &json("false")));
    assert!(normalize_fal_model(&entry("fal-ai/a", "A", "text-to-image"))
        .expect("entry")
        .is_none());
    assert!(normalize_fal_model(&json("{}")).expect("entry").is_none());
}

#[test]
fn catalogs_are_ordered_by_name() {
    let models = normalize_catalog(&vec![
        entry("fal-ai/z", "B", "text-to-video"),
        entry("fal-ai/y", "A", "image-to-video"),
        json("{}"),
        entry("fal-ai/x", "B", "text-to-video"),
    ]);
    assert_eq!(
        models.iter().map(|model| model.get_str("id").expect("id")).collect::<Vec<_>>(),
        vec!["fal-ai/y", "fal-ai/x", "fal-ai/z"]
    );
}

#[test]
fn catalog_pages_are_gathered() {
    let mut found: Vec<Member> = Vec::new();
    let page = json(
        "{\"models\": [{\"endpoint_id\": \"b\"}, {\"endpoint_id\": \"a\", \"n\": 1}, {}], \"next_cursor\": \"c\", \"has_more\": true}",
    );
    collect_models(&mut found, &page, "no models").expect("page");
    let again = json("{\"models\": [{\"endpoint_id\": \"a\", \"n\": 2}]}");
    collect_models(&mut found, &again, "no models").expect("page");
    assert_eq!(found.iter().map(|m| m.key.as_str()).collect::<Vec<_>>(), vec!["a", "b"]);
    assert_eq!(found[0].value.get_u64("n"), Some(2));
    assert_eq!(message(collect_models(&mut found, &json("{}"), PAGE_COMPLAINT)), PAGE_COMPLAINT);
    assert_eq!(next_cursor(&page), Some("c".to_owned()));
    assert_eq!(next_cursor(&again), None);
    assert_eq!(
        find_entry(&page, "models", "a").expect("entry").get_u64("n"),
        Some(1)
    );
    assert!(find_entry(&page, "models", "z").is_none());

    let many: Vec<Member> = (0..25)
        .map(|i| Member { key: format!("m{i:02}"), value: Json::Null })
        .collect();
    let batches = schema_batches(&many);
    assert_eq!(batches.iter().map(Vec::len).collect::<Vec<_>>(), vec![10, 10, 5]);
    assert_eq!(batches[2][0], "m20");
}

#[test]
fn urls_are_built_from_the_bases() {
    let fal = provider();
    assert_eq!(fal.expose_key(), "key");
    assert_eq!(fal.options().platform_base_url, DEFAULT_PLATFORM_URL);
    assert_eq!(
        fal.credentials_url().expect("URL"),
        "https://api.fal.ai/v1/models?limit=1"
    );
    assert_eq!(
        fal.model_url("fal-ai/a b").expect("URL"),
        "https://api.fal.ai/v1/models?endpoint_id=fal-ai%2Fa+b&expand=openapi-3.0"
    );
    assert_eq!(
        fal.pricing_url("a").expect("URL"),
        "https://api.fal.ai/v1/models/pricing?endpoint_id=a"
    );
    assert_eq!(
        fal.schema_url(&vec!["a".to_owned(), "b".to_owned()]).expect("URL"),
        "https://api.fal.ai/v1/models?expand=openapi-3.0&endpoint_id=a&endpoint_id=b"
    );
    assert_eq!(
        fal.upload_url(true).expect("URL"),
        "https://rest.fal.ai/storage/upload/initiate-multipart?storage_type=fal-cdn-v3"
    );
    assert_eq!(
        fal.queue_url(
            "fal-ai/a",
            vec!["requests".to_owned(), "r 1".to_owned(), "status".to_owned()]
        )
        .expect("URL"),
        "https://queue.fal.run/fal-ai/a/requests/r%201/status"
    );
    assert_eq!(
        fal.page_url("text-to-video", &Some("next".to_owned())).expect("URL"),
        "https://api.fal.ai/v1/models?category=text-to-video&status=active&limit=50&cursor=next"
    );
}

#[test]
fn odd_setups_are_refused() {
    let set_up = |key: &str, platform: &str, queue: &str| {
        FalProvider::with_options(
            key,
            FalOptions {
                platform_base_url: platform.to_owned(),
                queue_base_url: queue.to_owned(),
                storage_base_url: DEFAULT_STORAGE_URL.to_owned(),
                timeout_seconds: 60,
                max_retries: 3,
                backoff_base_seconds: 1,
            },
        )
    };
    assert!(set_up("  ", DEFAULT_PLATFORM_URL, DEFAULT_QUEUE_URL).is_err());
    assert!(set_up("k", "http://api.fal.ai/v1", DEFAULT_QUEUE_URL).is_err());
    assert!(set_up("k", "https://u:p@api.fal.ai", DEFAULT_QUEUE_URL).is_err());
    assert!(set_up("k", DEFAULT_PLATFORM_URL, "https://evil.example").is_err());
    assert!(set_up("k", DEFAULT_PLATFORM_URL, DEFAULT_QUEUE_URL).is_ok());
}

#[test]
fn redirects_stay_on_https() {
    assert_eq!(
        follow_redirect("https://a.example/x/y", "../z").expect("URL"),
        "https://a.example/z"
    );
    assert!(follow_redirect("https://a.example/x", "http://b.example/").is_err());
}

#[test]
fn imported_jobs_are_read_from_queue_urls() {
    let locator =
        FalProvider::parse_import_url("https://queue.fal.run/fal-ai/a/requests/r1/status")
            .expect("locator");
    match locator {
        JobLocator::Fal { endpoint_id, request_id, .. } => {
            assert_eq!(endpoint_id, "fal-ai/a");
            assert_eq!(request_id, "r1");
        }
        _ => panic!("a fal locator was expected"),
    }
    assert_eq!(message(FalProvider::parse_import_url("::")), "Invalid fal queue URL");
    assert!(FalProvider::parse_import_url("https://other.example/fal-ai/a/requests/r1").is_err());
    match FalProvider::locator("/fal-ai/a/", "/r1/", None) {
        Ok(JobLocator::Fal { endpoint_id, request_id, status_url: None, response_url: None }) => {
            assert_eq!(endpoint_id, "fal-ai/a");
            assert_eq!(request_id, "r1");
        }
        _ => panic!("a fal locator was expected"),
    }
    let refused = FalProvider::locator("a", "r", Some("no such place".to_owned()))
        .expect_err("a place with a problem");
    assert_eq!(refused.kind, ProviderErrorKind::Validation);
    assert_eq!(refused.message, "no such place");
}

#[test]
fn jobs_carry_their_locator_in_writing() {
    let answer = json(
        "{\"request_id\": \"r\", \"status_url\": \"https://queue.fal.run/a/requests/r/status\"}",
    );
    assert_eq!(
        fal_submitted_job("a", &answer, None).expect("job").polling_url,
        "{\"provider\":\"fal\",\"endpoint_id\":\"a\",\"request_id\":\"r\",\"status_url\":\"https://queue.fal.run/a/requests/r/status\"}"
    );
    assert_eq!(
        fal_status_job("a", "r", &json("{}")).polling_url,
        "{\"provider\":\"fal\",\"endpoint_id\":\"a\",\"request_id\":\"r\"}"
    );
    assert_eq!(
        write_locator(&JobLocator::OpenRouter { polling_url: "https://o/\"p\"".to_owned() }),
        "{\"provider\":\"open_router\",\"polling_url\":\"https://o/\\\"p\\\"\"}"
    );
}

#[test]
fn submissions_alone_are_sent_once() {
    let kinds = [
        RequestKind::CatalogPage,
        RequestKind::Schemas,
        RequestKind::Model,
        RequestKind::Credentials,
        RequestKind::Price,
        RequestKind::UploadPlace,
        RequestKind::Status,
        RequestKind::Output,
    ];
    for kind in kinds {
        assert!(kind.policy(3).retry_safe);
        assert_eq!(kind.policy(3).max_retries, 3);
        assert_eq!(kind.manner().posts, kind == RequestKind::UploadPlace);
    }
    let submission = RequestKind::Submission;
    assert!(!submission.policy(3).retry_safe);
    assert!(submission.manner().posts && submission.manner().authenticated);
    assert!(!RequestKind::CatalogPage.manner().authenticated);
    assert!(RequestKind::Credentials.manner().authenticated);
    assert!(matches!(
        next_step(submission.policy(3), 0, &Exchange::Unreachable, "key"),
        NextStep::Fail(_)
    ));
    assert!(matches!(
        next_step(RequestKind::Status.policy(3), 0, &Exchange::Unreachable, "key"),
        NextStep::Backoff(1)
    ));
}

#[test]
fn models_are_read_from_their_documents() {
    let model = read_model(&json(
        "{\"id\": \"m\", \"name\": \"Model\", \"supported_durations\": [5, \"8\", 10, -1], \"supported_resolutions\": [\"720p\", 1], \"generate_audio\": true, \"seed\": false, \"input_schema\": {\"a\": 1}, \"field_map\": {\"prompt\": \"text\", \"seed\": 1}}",
    ));
    assert_eq!(model.provider_id.as_str(), "fal");
    assert_eq!((model.id.as_str(), model.name.as_str()), ("m", "Model"));
    assert_eq!(model.description, "");
    assert_eq!(model.supported_durations, [5, 10]);
    assert_eq!(model.supported_resolutions, ["720p"]);
    assert!(model.supported_sizes.is_empty());
    assert_eq!(model.generate_audio, Some(true));
    assert!(model.generated_audio_supported);
    assert_eq!(model.seed, Some(false));
    assert!(json_eq(&model.input_schema.expect("schema"), &json("{\"a\": 1}")));
    assert_eq!(model.field_map.len(), 1);
    assert_eq!(model.field_map[0].canonical, "prompt");
    assert_eq!(model.field_map[0].field, "text");
    assert_eq!(body_text(&json("{\"b\": [1, \"x\"], \"a\": null}")), "{\"a\":null,\"b\":[1,\"x\"]}");
}

#[test]
fn downloads_carry_no_key() {
    let list: Vec<(String, String)> =
        download_headers().into_iter().map(|header| (header.name, header.value)).collect();
    assert_eq!(
        list,
        [
            ("accept".to_owned(), "video/*,application/octet-stream".to_owned()),
            ("user-agent".to_owned(), "video-harness/0.3 Video Harness".to_owned()),
        ]
    );
}

#[test]
fn addresses_are_extended_within_bounds() {
    let none: Vec<String> = Vec::new();
    let some = |text: &str| vec![text.to_owned()];
    assert_eq!(
        extend_url("https://e.test/v1", &some("a b"), &some("q"), &some("x&y")).as_deref(),
        Some("https://e.test/v1/a%20b?q=x%26y")
    );
    assert_eq!(extend_url("no address", &some("a"), &none, &none), None);
    let long = vec!["a".repeat(1_000_000)];
    let longer = extend_url("https://e.test/", &long, &some("q"), &long).expect("URL");
    assert_eq!(longer.len(), 2_000_018);
    let too_long = vec!["a".repeat(357_913_941)];
    assert_eq!(extend_url("https://e.test/", &too_long, &none, &none), None);
}

#[test]
fn secrets_are_taken_out() {
    assert_eq!(redact_text("a key, key", "key"), "a [REDACTED], [REDACTED]");
    assert_eq!(redact_text("a key", ""), "a key");
    let redacted = redact_value(&json("{\"key\": [\"the key\", 1]}"), "key");
    assert!(json_eq(&redacted, &json("{\"key\": [\"the [REDACTED]\", 1]}")));
}

#[test]
fn some_answers_are_worth_another_try() {
    for status in [408, 425, 429, 500, 502, 503, 504] {
        assert!(retryable(status));
    }
    for status in [200, 400, 401, 404, 501, 505] {
        assert!(!retryable(status));
    }
    assert!(submission_status_is_ambiguous(500));
    assert!(submission_status_is_ambiguous(408));
    assert!(submission_status_is_ambiguous(499));
    assert!(!submission_status_is_ambiguous(400));
    assert!(!submission_status_is_ambiguous(429));
    assert_eq!(parse_retry_after(&Some("12".to_owned())), Some(12));
    assert_eq!(parse_retry_after(&Some("soon".to_owned())), None);
    assert_eq!(parse_retry_after(&None), None);
}

fn answered(status: u16, body: &str) -> Exchange {
    Exchange::Answered {
        status,
        retry_after: None,
        body: Body::Bytes(body.as_bytes().to_vec()),
    }
}

const SAFE: RetryPolicy = RetryPolicy { retry_safe: true, max_retries: 3 };
const UNSAFE: RetryPolicy = RetryPolicy { retry_safe: false, max_retries: 3 };

#[test]
fn safe_requests_are_repeated_and_others_are_not() {
    assert!(matches!(next_step(SAFE, 0, &Exchange::Unreachable, "key"), NextStep::Backoff(1)));
    assert!(matches!(next_step(SAFE, 2, &answered(503, ""), "key"), NextStep::Backoff(4)));
    assert!(matches!(next_step(SAFE, 3, &answered(503, ""), "key"), NextStep::Fail(_)));
    assert_eq!(backoff(3), 8);
    let asked = Exchange::Answered {
        status: 429,
        retry_after: Some("7".to_owned()),
        body: Body::Bytes(Vec::new()),
    };
    assert!(matches!(next_step(SAFE, 0, &asked, "key"), NextStep::Wait(7)));
    match next_step(UNSAFE, 0, &Exchange::Unreachable, "key") {
        NextStep::Fail(error) => assert_eq!(error.kind, ProviderErrorKind::SubmissionUncertain),
        _ => panic!("a submission is sent once"),
    }
    match next_step(UNSAFE, 0, &answered(503, ""), "key") {
        NextStep::Fail(error) => assert_eq!(error.kind, ProviderErrorKind::SubmissionUncertain),
        _ => panic!("a submission is sent once"),
    }
    match next_step(UNSAFE, 0, &answered(400, "{\"detail\": \"the key is bad\"}"), "key") {
        NextStep::Fail(error) => {
            assert_eq!(error.kind, ProviderErrorKind::Validation);
            assert_eq!(error.message, "the [REDACTED] is bad");
            assert_eq!(error.status_code, Some(400));
        }
        _ => panic!("a refusal is final"),
    }
    match next_step(SAFE, 0, &answered(200, "{\"a\": \"key\"}"), "key") {
        NextStep::Done(answer) => assert!(json_eq(&answer, &json("{\"a\": \"[REDACTED]\"}"))),
        _ => panic!("the answer is good"),
    }
    match next_step(SAFE, 0, &answered(200, "no document"), "key") {
        NextStep::Fail(error) => assert_eq!(error.kind, ProviderErrorKind::Response),
        _ => panic!("the answer is no document"),
    }
}

#[test]
fn refusals_are_sorted_by_status() {
    let kind = |status| error_from_http(status, &None, &json("{}"), "key").kind;
    assert_eq!(kind(401), ProviderErrorKind::Authentication);
    assert_eq!(kind(402), ProviderErrorKind::InsufficientCredits);
    assert_eq!(kind(429), ProviderErrorKind::RateLimit);
    assert_eq!(kind(500), ProviderErrorKind::Unavailable);
    let uncertain = submission_uncertain_from_http(error_from_http(
        503,
        &None,
        &json("{\"detail\": \"busy\"}"),
        "key",
    ));
    assert_eq!(
        uncertain.message,
        "fal.ai returned HTTP 503 after receiving the submission: busy. The request may exist; do not submit again until history is checked."
    );
    assert_eq!(uncertain.kind, ProviderErrorKind::SubmissionUncertain);
}

#[test]
fn bodies_have_a_limit() {
    let mut read = vec![1];
    assert!(collect_chunk(&mut read, &mut vec![2, 3], 3));
    assert_eq!(read, vec![1, 2, 3]);
    assert!(!collect_chunk(&mut read, &mut vec![4], 3));
    assert_eq!(read, vec![1, 2, 3]);
}

#[test]
fn errors_are_read_from_answers() {
    assert_eq!(
        fal_error_message(&json("{\"error\": {\"message\": \"m\", \"type\": \"t\"}}")),
        ("m".to_owned(), Some("t".to_owned()))
    );
    assert_eq!(
        fal_error_message(&json("{\"detail\": [{\"loc\": 1}], \"code\": \"c\"}")),
        ("[{\"loc\":1}]".to_owned(), Some("c".to_owned()))
    );
    assert_eq!(fal_payload_error(&json("{\"error\": \"e\"}")), Some("e".to_owned()));
    assert_eq!(fal_payload_error(&json("{\"error\": {}, \"error_type\": \"t\"}")), Some("t".to_owned()));
    assert_eq!(fal_payload_error(&json("{\"error\": {\"a\": 1}}")), Some("{\"a\":1}".to_owned()));
    assert_eq!(fal_payload_error(&json("{\"error\": null}")), None);
}

#[test]
fn submissions_start_jobs() {
    let answer = json(
        "{\"request_id\": \"r\", \"status_url\": \"https://queue.fal.run/a/requests/r/status\"}",
    );
    let job = fal_submitted_job("a", &answer, None).expect("job");
    assert_eq!(job.id, "r");
    assert!(matches!(job.status, JobStatus::Pending));
    assert_eq!(
        message(fal_submitted_job("a", &json("{}"), None)),
        "fal submission is missing request_id"
    );
    let uncertain = accepted_submission("a", &json("{}"), None).expect_err("no request id");
    assert_eq!(uncertain.kind, ProviderErrorKind::SubmissionUncertain);
    assert_eq!(accepted_submission("a", &answer, None).expect("job").id, "r");
}

#[test]
fn statuses_are_read() {
    let status = |text: &str| fal_status_job("a", "r", &json(text)).status;
    assert!(matches!(status("{\"status\": \"in_queue\"}"), JobStatus::Pending));
    assert!(matches!(status("{\"status\": \"IN_PROGRESS\"}"), JobStatus::InProgress));
    assert!(matches!(status("{\"status\": \"COMPLETED\"}"), JobStatus::Completed));
    assert!(matches!(status("{\"status\": \"Canceled\"}"), JobStatus::Cancelled));
    assert!(matches!(
        status("{\"status\": \"COMPLETED\", \"error\": \"e\"}"),
        JobStatus::Failed
    ));
    assert!(matches!(status("{\"status\": \"Odd\"}"), JobStatus::Unknown(name) if name == "odd"));
    assert!(matches!(status("{}"), JobStatus::Unknown(name) if name == "unknown"));
}

#[test]
fn results_are_fetched_when_ready() {
    let ready = json("{\"status\": \"completed\"}");
    assert!(matches!(after_status("a", "r", &None, &ready), PollStep::FetchFromQueue));
    assert!(matches!(
        after_status("a", "r", &Some("https://queue.fal.run/r".to_owned()), &ready),
        PollStep::FetchFrom(url) if url == "https://queue.fal.run/r"
    ));
    assert!(matches!(
        after_status("a", "r", &None, &json("{\"status\": \"IN_QUEUE\"}")),
        PollStep::Report(_)
    ));
    let missing = error_from_http(404, &None, &json("{}"), "key");
    assert!(result_fallback(&missing));
    assert!(!result_fallback(&error_from_http(500, &None, &json("{}"), "key")));
}

#[test]
fn videos_are_found_once() {
    let result = json(
        "{\"data\": {\"video\": {\"url\": \"https://v.example/b.mp4\", \"content_type\": \"video/mp4\"}, \"again\": {\"url\": \"https://v.example/b.mp4\"}, \"preview\": {\"url\": \"https://v.example/a.png\"}}}",
    );
    let found = result_videos(&result);
    assert_eq!(found.len(), 1);
    assert_eq!(found[0].url, "https://v.example/b.mp4");
    let artifacts = extract_video_artifacts(&found, &vec![true]);
    let job = fal_result_job("a", "r", &json("{\"metrics\": {\"t\": 1}}"), &result, artifacts)
        .expect("job");
    assert!(matches!(job.status, JobStatus::Completed));
    assert_eq!(job.unsigned_urls, vec!["https://v.example/b.mp4".to_owned()]);
    assert!(json_eq(&job.usage, &json("{\"t\": 1}")));
    assert_eq!(
        message(fal_result_job("a", "r", &json("{}"), &json("{}"), Vec::new())),
        "fal completed without exactly one unambiguous video URL"
    );
    let two = find_videos(&json("{\"videos\": [\"https://v.example/2\", \"https://v.example/1\"]}"));
    assert_eq!(
        two.iter().map(|video| video.url.as_str()).collect::<Vec<_>>(),
        vec!["https://v.example/1", "https://v.example/2"]
    );
    let safe = extract_video_artifacts(&two, &vec![false, true]);
    assert_eq!(safe.len(), 1);
    assert_eq!(safe[0].index, 1);
}

#[test]
fn prices_become_quotes() {
    let quote = |price: &str, duration: Option<u32>| {
        quote_from_answer(
            &json(&format!("{{\"prices\": [{{\"endpoint_id\": \"m\", {price}}}]}}")),
            "m",
            duration,
        )
        .expect("quote")
        .expect("amount")
    };
    let fixed = quote("\"unit\": \"Video\", \"unit_price\": 0.5", None);
    assert_eq!(fixed.amount.as_deref(), Some("0.5"));
    assert!(fixed.exact);
    assert_eq!(fixed.basis, "Advertised fal price per Video");
    assert_eq!(fixed.currency, "USD");
    let timed = quote("\"unit\": \"video second\", \"unit_price\": \"0.25\", \"currency\": \"EUR\"", Some(6));
    assert_eq!(timed.amount.as_deref(), Some("1.50"));
    assert_eq!(timed.basis, "Estimated 6s \u{d7} $0.25/video second");
    assert_eq!(timed.confidence, QuoteConfidence::Estimated);
    assert_eq!(timed.currency, "EUR");
    let open = quote("\"unit\": \"second\", \"unit_price\": 1", None);
    assert_eq!(open.amount, None);
    assert_eq!(open.basis, "fal bills per second; duration is required");
    let odd = quote("\"unit\": \"token\", \"unit_price\": 1", None);
    assert_eq!(odd.basis, "fal uses unsupported billing unit token");
    assert_eq!(odd.confidence, QuoteConfidence::Unknown);
    assert_eq!(
        message(quote_from_answer(&json("{}"), "m", None)),
        "fal pricing response does not include this model"
    );
}

#[test]
fn downloads_follow_a_few_redirects() {
    let step = |redirect, status, location: Option<&str>| {
        after_download_answer(
            redirect,
            "https://v.example/a",
            status,
            &location.map(str::to_owned),
            &Some("12".to_owned()),
        )
    };
    assert!(matches!(step(0, 302, Some("/b")), DownloadStep::Follow(url) if url == "https://v.example/b"));
    assert!(matches!(step(0, 200, None), DownloadStep::Receive(Some(12))));
    assert!(matches!(
        step(MAX_REDIRECTS, 302, Some("/b")),
        DownloadStep::Fail(error) if error.message == "Video download redirected too many times"
    ));
    assert!(matches!(
        step(0, 302, None),
        DownloadStep::Fail(error) if error.message == "Video redirect is missing Location"
    ));
    assert!(matches!(
        step(0, 404, None),
        DownloadStep::Fail(error) if error.message == "Video download failed with HTTP 404"
    ));
    assert!(start_download(None, false, "/tmp/v.mp4").is_ok());
    assert_eq!(
        message(start_download(None, true, "/tmp/v.mp4")),
        "Refusing to overwrite an existing download: /tmp/v.mp4"
    );
    assert!(placed_download(Placed::Done, "/tmp/v.mp4").is_ok());
    assert_eq!(
        message(placed_download(Placed::Failed("full".to_owned()), "/tmp/v.mp4")),
        "Could not finalize video: full"
    );
}

#[test]
fn downloads_are_complete() {
    let mut progress = DownloadProgress::new(Some(3));
    assert_eq!(message(progress.finish()), "fal returned an empty video file");
    progress.add_chunk(2).expect("room");
    assert_eq!(
        message(progress.finish()),
        "Video download size mismatch: expected 3 bytes, received 2"
    );
    progress.add_chunk(1).expect("room");
    assert!(progress.finish().is_ok());
}

#[test]
fn downloads_keep_their_limit() {
    let answer = |length: &str| {
        after_download_answer(0, "https://v.example/a", 200, &None, &Some(length.to_owned()))
    };
    assert!(matches!(answer("4294967296"), DownloadStep::Receive(Some(4_294_967_296))));
    assert!(matches!(
        answer("4294967297"),
        DownloadStep::Fail(error) if error.message == "Video download exceeds the 4 GiB limit"
    ));
    let mut progress = DownloadProgress::new(None);
    progress.add_chunk(MAX_DOWNLOAD_BYTES).expect("room");
    assert!(progress.finish().is_ok());
    assert_eq!(message(progress.add_chunk(1)), "Video download exceeds the 4 GiB limit");
    assert_eq!(message(progress.finish()), "Video download exceeds the 4 GiB limit");
}

#[test]
fn uploads_are_tried_three_times() {
    assert!(matches!(after_sending(Sending::File, 0, Some(200)), UploadStep::Accepted));
    assert!(matches!(after_sending(Sending::Part, 0, None), UploadStep::Again(250)));
    assert!(matches!(after_sending(Sending::Part, 1, Some(503)), UploadStep::Again(500)));
    assert!(matches!(after_sending(Sending::Part, 2, None), UploadStep::Fail(_)));
    assert!(matches!(after_sending(Sending::Completion, 0, Some(403)), UploadStep::Fail(_)));
}

#[test]
fn parts_are_listed() {
    let mut upload = MultipartUpload::new();
    upload.accept_part(&json("{\"etag\": \"x\"}"), 10).expect("part");
    upload.accept_part(&json("{\"etag\": \"y\", \"partNumber\": 7}"), 5).expect("part");
    assert_eq!(upload.sent, 15);
    assert_eq!(
        message(upload.accept_part(&json("{}"), 5)),
        "fal CDN upload part is missing its ETag"
    );
    let listed = completion(&upload.parts);
    let parts = listed.get_array("parts").expect("parts");
    assert_eq!(parts.len(), 2);
    assert_eq!(parts[0].get_str("etag"), Some("x"));
    assert_eq!(parts[0].get_u64("partNumber"), Some(1));
    assert_eq!(parts[1].get_u64("partNumber"), Some(7));
    assert_eq!(
        message(read_part_answer(&b"{".to_vec())),
        "fal CDN returned invalid upload JSON"
    );
}

#[test]
fn files_are_staged_once() {
    assert_eq!(message(plan_staging("/a.png", "", 0, None, Timestamp { seconds: 1, nanos: 0 })), "Local media file is empty");
    let digest = "a".repeat(64);
    let now = Timestamp { seconds: 100, nanos: 0 };
    let later = Timestamp { seconds: 101, nanos: 0 };
    let receipt = |provider_id: ProviderId, byte_length: u64, expires_at: Timestamp| {
        Some(StoredUploadReceipt {
            provider_id,
            source_sha256: digest.clone(),
            source_path: "/a.png".to_owned(),
            remote_url: "https://v3.fal.media/a.png".to_owned(),
            content_type: "image/png".to_owned(),
            byte_length,
            created_at: Timestamp { seconds: 1, nanos: 0 },
            expires_at,
        })
    };
    let good = receipt(ProviderId::fal(), 3, later);
    assert!(matches!(
        plan_staging("/a.png", &digest, 3, good.clone(), now),
        Ok(Staging::Reuse(kept)) if kept.remote_url == "https://v3.fal.media/a.png"
    ));
    assert!(reusable_receipt(good.clone(), &digest, 3, now).is_some());
    assert!(reusable_receipt(good.clone(), &"b".repeat(64), 3, now).is_none());
    assert!(reusable_receipt(good.clone(), &digest, 4, now).is_none());
    assert!(reusable_receipt(good.clone(), &digest, 3, later).is_none());
    let foreign = receipt(ProviderId::openrouter(), 3, later);
    assert!(reusable_receipt(foreign, &digest, 3, now).is_none());
    assert!(reusable_receipt(None, &digest, 3, now).is_none());
    assert!(matches!(
        plan_staging("/a.png", &digest, 3, receipt(ProviderId::fal(), 3, now), now),
        Ok(Staging::Upload(_))
    ));
    match plan_staging("/b/A\u{7}.PNG", &digest, MULTIPART_THRESHOLD + 1, good, now) {
        Ok(Staging::Upload(plan)) => {
            assert!(plan.multipart);
            assert_eq!(plan.content_type, "image/png");
            assert_eq!(plan.lifecycle, "{\"expiration_duration_seconds\":86400}");
            assert_eq!(plan.body.get_str("file_name"), Some("A.PNG"));
        }
        _ => panic!("an upload was expected"),
    }
    assert_eq!(media_content_type("/a/clip.MOV"), "video/quicktime");
    assert_eq!(media_content_type("/a/clip"), "application/octet-stream");
    assert_eq!(upload_name("/"), "reference.bin");
    let expires = upload_expiry(Timestamp { seconds: 5, nanos: 6 });
    assert_eq!(expires, Timestamp { seconds: 86405, nanos: 6 });
    assert_eq!(media_capabilities().upload_retention_seconds, Some(86400));
}

#[test]
fn uploads_go_to_public_hosts() {
    let answer = |url: &str| {
        json(&format!("{{\"file_url\": \"https://v.example/f\", \"upload_url\": \"{url}\"}}"))
    };
    let upload = initiated_upload(&answer("https://cdn.example/up?sig=1"), None).expect("upload");
    assert_eq!(upload.public_url, "https://v.example/f");
    assert_eq!(upload.upload_url.text, "https://cdn.example/up?sig=1");
    assert_eq!(
        message(initiated_upload(&answer("https://localhost/up"), None)),
        "fal CDN returned a local upload host"
    );
    assert_eq!(
        message(initiated_upload(&answer("https://10.0.0.1/up"), None)),
        "fal CDN returned a non-public upload host"
    );
    assert_eq!(
        message(initiated_upload(&answer("nonsense"), None)),
        "fal returned an invalid CDN upload URL"
    );
    assert_eq!(
        message(initiated_upload(&json("{}"), None)),
        "fal upload initiation is missing file_url"
    );
}

#[test]
fn staged_media_must_not_expire_first() {
    let at = |seconds| Timestamp { seconds, nanos: 0 };
    assert!(check_deadline(None, at(9)).is_ok());
    assert!(check_deadline(Some(at(10)), at(9)).is_ok());
    assert!(check_deadline(Some(at(9)), at(9)).is_err());
}

#[test]
fn the_key_goes_where_it_is_needed() {
    let with_key = request_headers(true, true, "Title", "secret").expect("headers");
    assert!(with_key.iter().any(|header| header.value == "Key secret" && header.sensitive));
    let without = request_headers(false, false, "Title", "secret").expect("headers");
    assert!(!without.iter().any(|header| header.value.contains("secret")));
    assert_eq!(
        message(request_headers(true, false, "a\nb", "secret")),
        "Invalid application title"
    );
    assert_eq!(message(request_headers(true, false, "a", "a\nb")), "Invalid fal API key");
    assert_eq!(descriptor().display_name, "fal.ai");
    assert_eq!(account(Json::Null).label, "fal.ai API key");
}

#[test]
fn single_models_are_looked_up() {
    let entry_text = format!(
        "{{\"models\": [{{\"endpoint_id\": \"fal-ai/a\", \"metadata\": {{\"category\": \"text-to-video\"}}, \"openapi\": {OPENAPI}}}, {{\"endpoint_id\": \"fal-ai/b\"}}]}}"
    );
    let payload = json(&entry_text);
    assert_eq!(
        looked_up_model(&payload, "fal-ai/a").expect("model").get_str("name"),
        Some("fal-ai/a")
    );
    assert_eq!(
        message(looked_up_model(&payload, "fal-ai/b")),
        "fal model fal-ai/b is not compatible with video input/output"
    );
    assert_eq!(
        message(looked_up_model(&payload, "fal-ai/c")),
        "fal model lookup did not return the requested model"
    );
    assert!(openapi_output_schema(&json(OPENAPI)).is_some());
    assert!(openapi_output_schema(&json("{}")).is_none());
}

#[test]
fn jobs_of_other_providers_are_not_asked_about() {
    let own = JobLocator::Fal {
        endpoint_id: "e".to_owned(),
        request_id: "r".to_owned(),
        status_url: None,
        response_url: Some("https://queue.fal.run/r".to_owned()),
    };
    let target = poll_target(&own, None).expect("target");
    assert_eq!(target.endpoint_id, "e");
    assert_eq!(target.request_id, "r");
    assert_eq!(target.response_url.as_deref(), Some("https://queue.fal.run/r"));
    assert_eq!(message(poll_target(&own, Some("bad".to_owned()))), "bad");
    let other = JobLocator::OpenRouter { polling_url: "https://o/p".to_owned() };
    assert_eq!(
        message(poll_target(&other, None)),
        "fal cannot poll a locator owned by another provider"
    );
}

#[test]
fn answers_to_parts_are_read() {
    assert!(json_eq(&read_upload_body(Body::Bytes(Vec::new())).expect("answer"), &Json::Null));
    assert_eq!(
        message(read_upload_body(Body::Interrupted)),
        "fal CDN interrupted an upload response"
    );
    assert_eq!(
        message(read_upload_body(Body::TooLarge)),
        "fal CDN upload response exceeded the safe size limit"
    );
}

#[test]
fn urls_are_read() {
    assert_eq!(
        read_artifact_url("HTTPS://V.example/a b").expect("URL"),
        "https://v.example/a%20b"
    );
    assert_eq!(message(read_artifact_url("nonsense")), "Invalid artifact URL");
    assert_eq!(message(read_response_url("nonsense")), "Invalid fal response URL");
    let answer = json(
        "{\"file_url\": \"https://v.example/f\", \"upload_url\": \"https://cdn.example/up/?sig=1\"}",
    );
    let upload = initiated_upload(&answer, None).expect("upload");
    assert_eq!(
        upload_child_url(&upload.upload_url, "2").expect("URL"),
        "https://cdn.example/up/2?sig=1"
    );
}
