//! What the providers have in common, and OpenRouter.

use std::sync::Arc;
use video_harness::domain::{
    CostQuote, DraftMedia, FrameImage, FrameType, GenerationDraft, InputReference, JobLocator,
    JobStatus, MediaKind, MediaRole, MediaSource, ProviderId, QuoteConfidence, Timestamp, VideoJob,
    VideoModel, VideoRequest,
};
use video_harness::json::Json;
use video_harness::providers::fal_transfer::read_part_answer;
use video_harness::providers::openrouter::{
    adjust_quote, check_deadline, descriptor, ensure_provider, map_error, polling_url,
    request_has_variable_cost_inputs, submission_needs_model, unlisted_model,
    validate_against_model, validate_reference_policy, with_artifact, ApiError, ApiErrorKind,
    OpenRouterProvider,
};
use video_harness::providers::registry::ProviderRegistry;
use video_harness::providers::{
    audio_input_requires_visual, media_sha256, refuse_deadline, stage_remote, validate_request,
    validate_draft, validate_draft_with_local_staging, validation_urls, DraftFindings, MediaCapabilities,
    ProviderError, ProviderErrorKind, MAX_AUDIO_INPUTS, MAX_IMAGE_INPUTS, MAX_MEDIA_INPUTS_TOTAL,
    MAX_VIDEO_INPUTS,
};

fn json(text: &str) -> Json {
    read_part_answer(&text.as_bytes().to_vec()).expect("a document")
}

fn request(model: &str, prompt: &str) -> VideoRequest {
    VideoRequest {
        provider_id: ProviderId::openrouter(),
        model: model.to_owned(),
        prompt: prompt.to_owned(),
        duration: None,
        resolution: None,
        aspect_ratio: None,
        size: None,
        generate_audio: None,
        seed: None,
        frame_images: Vec::new(),
        input_references: Vec::new(),
        adapter_options: None,
    }
}

fn reference(url: &str, kind: MediaKind) -> InputReference {
    InputReference { url: url.to_owned(), kind }
}

fn model(id: &str) -> VideoModel {
    VideoModel {
        provider_id: ProviderId::openrouter(),
        id: id.to_owned(),
        name: id.to_owned(),
        description: String::new(),
        supported_durations: Vec::new(),
        supported_resolutions: Vec::new(),
        supported_aspect_ratios: Vec::new(),
        supported_sizes: Vec::new(),
        supported_frame_images: Vec::new(),
        generate_audio: None,
        generated_audio_supported: false,
        generated_audio_default: None,
        seed: None,
        input_modalities: None,
        media_bindings: Vec::new(),
        input_schema: None,
        field_map: Vec::new(),
        pricing_skus: Vec::new(),
    }
}

fn draft(provider_id: ProviderId, media: Vec<DraftMedia>) -> GenerationDraft {
    GenerationDraft {
        provider_id,
        model: "m".to_owned(),
        prompt: "p".to_owned(),
        duration: None,
        resolution: None,
        aspect_ratio: None,
        size: None,
        generate_audio: None,
        seed: None,
        adapter_options: None,
        media,
    }
}

fn no_findings(media: usize) -> DraftFindings {
    DraftFindings {
        draft_problem: None,
        constraint: None,
        url_problems: (0..media).map(|_| None).collect(),
        request_problem: None,
    }
}

fn local(path: &str) -> DraftMedia {
    DraftMedia {
        source: MediaSource::LocalFile { path: path.to_owned() },
        role: MediaRole::Reference,
    }
}

fn remote(url: &str) -> DraftMedia {
    DraftMedia {
        source: MediaSource::RemoteUrl { url: url.to_owned() },
        role: MediaRole::Reference,
    }
}

#[test]
fn reusable_media_limits_match_adapter_policy() {
    assert_eq!(MAX_MEDIA_INPUTS_TOTAL, 12);
    assert_eq!(MAX_IMAGE_INPUTS, 9);
    assert_eq!(MAX_VIDEO_INPUTS, 3);
    assert_eq!(MAX_AUDIO_INPUTS, 3);
}

#[test]
fn audio_visual_companion_policy_is_provider_and_model_specific() {
    assert!(audio_input_requires_visual(&ProviderId::openrouter(), "any/audio-capable-model"));
    assert!(audio_input_requires_visual(
        &ProviderId::fal(),
        "bytedance/seedance-2.0/reference-to-video"
    ));
    assert!(audio_input_requires_visual(
        &ProviderId::fal(),
        "FAL-AI/SEEDANCE-2.0/REFERENCE-TO-VIDEO"
    ));
    assert!(!audio_input_requires_visual(&ProviderId::fal(), "fal-ai/kling-video"));
    assert!(!audio_input_requires_visual(
        &ProviderId::named("future-provider"),
        "future-model"
    ));
}

#[test]
fn typed_reference_policy_enforces_companions_and_precedence() {
    let id = "bytedance/seedance-2.0";
    let mut audio_only = request(id, "fixture prompt");
    audio_only
        .input_references
        .push(reference("https://media.example/audio.mp3", MediaKind::Audio));
    assert!(validate_reference_policy(id, &audio_only).is_err());

    audio_only
        .input_references
        .push(reference("https://media.example/video.mp4", MediaKind::Video));
    validate_reference_policy(id, &audio_only).expect("mixed references");

    audio_only.frame_images.push(FrameImage {
        url: "https://media.example/frame.png".to_owned(),
        frame_type: FrameType::FirstFrame,
    });
    assert!(validate_reference_policy(id, &audio_only).is_err());
}

#[test]
fn typed_reference_policy_accepts_future_models_and_enforces_limits() {
    let id = "vendor/future-video-v1";
    let mut future = request(id, "fixture prompt");
    future
        .input_references
        .push(reference("https://media.example/video.mp4", MediaKind::Video));
    validate_reference_policy(id, &future)
        .expect("catalog-advertised future model is not blocked by its ID");

    for index in 1..=MAX_VIDEO_INPUTS {
        future.input_references.push(reference(
            &format!("https://media.example/video-{index}.mp4"),
            MediaKind::Video,
        ));
    }
    assert!(validate_reference_policy(id, &future).is_err());
}

#[test]
fn every_kind_of_reference_has_its_own_limit() {
    let mut images = request("m", "p");
    for _ in 0..MAX_IMAGE_INPUTS {
        images.input_references.push(reference("https://media.example/i.png", MediaKind::Image));
    }
    assert!(validate_reference_policy("m", &images).is_ok());
    for _ in 0..MAX_VIDEO_INPUTS {
        images.input_references.push(reference("https://media.example/v.mp4", MediaKind::Video));
    }
    assert!(validate_reference_policy("m", &images).is_ok());
    images.input_references.push(reference("https://media.example/a.mp3", MediaKind::Audio));
    assert!(validate_reference_policy("m", &images).is_err());

    let mut tenth = request("m", "p");
    for _ in 0..MAX_IMAGE_INPUTS + 1 {
        tenth.input_references.push(reference("https://media.example/i.png", MediaKind::Image));
    }
    assert!(validate_reference_policy("m", &tenth).is_err());
}

#[test]
fn provider_options_make_price_confidence_conservative() {
    let mut request = request("example/video", "fixture prompt");
    assert!(!request_has_variable_cost_inputs(&request));
    request.adapter_options =
        Some(json("{\"options\": {\"byteplus\": {\"parameters\": {\"quality\": \"high\"}}}}"));
    assert!(request_has_variable_cost_inputs(&request));

    request.adapter_options = Some(json("{}"));
    assert!(!request_has_variable_cost_inputs(&request));
}

#[test]
fn variable_prices_are_estimates() {
    let quote = |amount: Option<&str>| CostQuote {
        amount: amount.map(str::to_owned),
        basis: "per video".to_owned(),
        exact: true,
        pricing_sku: None,
        unit_price: None,
        currency: "USD".to_owned(),
        raw_pricing: Vec::new(),
        confidence: QuoteConfidence::Exact,
    };
    let plain = request("m", "p");
    assert!(adjust_quote(quote(Some("1")), &plain).exact);
    let mut with_media = request("m", "p");
    with_media.input_references.push(reference("https://media.example/i.png", MediaKind::Image));
    let adjusted = adjust_quote(quote(Some("1")), &with_media);
    assert!(!adjusted.exact);
    assert_eq!(adjusted.confidence, QuoteConfidence::Estimated);
    assert!(adjusted.basis.starts_with("per video; input media or provider-specific options"));
    assert!(adjust_quote(quote(None), &with_media).exact);
}

#[test]
fn other_providers_requests_are_refused() {
    let mut foreign = request("m", "p");
    foreign.provider_id = ProviderId::fal();
    let error = ensure_provider(&foreign).expect_err("foreign request");
    assert_eq!(error.message, "The request belongs to a different provider");
    assert_eq!(error.kind, ProviderErrorKind::Validation);
    assert!(ensure_provider(&request("m", "p")).is_ok());
}

#[test]
fn requests_are_held_against_their_model() {
    let plain = request("m", "p");
    assert!(validate_against_model(&plain, None, "m", &Vec::new()).is_ok());
    assert!(!submission_needs_model(&plain));
    let refused = validate_against_model(
        &plain,
        None,
        "m",
        &vec!["Unsupported duration".to_owned(), "Unsupported size".to_owned()],
    )
    .expect_err("unsupported");
    assert_eq!(
        refused.message,
        "OpenRouter model m does not support this request: Unsupported duration; Unsupported size"
    );
    let invalid = validate_against_model(&plain, Some("Prompt is empty".to_owned()), "m", &Vec::new())
        .expect_err("invalid");
    assert_eq!(invalid.message, "Prompt is empty");
    assert_eq!(
        unlisted_model("m").message,
        "OpenRouter model m is not in the current catalog"
    );
}

#[test]
fn the_last_model_of_a_name_is_remembered() {
    let mut provider = OpenRouterProvider::new(7u8);
    assert!(provider.cached("m").is_none());
    let mut second = model("m");
    second.description = "second".to_owned();
    provider.remember(vec![model("m"), second, model("n")]);
    assert_eq!(provider.cached("m").expect("model").description, "second");
    assert_eq!(**provider.client(), 7);
    let shared = Arc::new(8u8);
    assert_eq!(**OpenRouterProvider::from_shared(shared).client(), 8);
}

#[test]
fn deadlines_are_kept() {
    let at = |seconds| Timestamp { seconds, nanos: 0 };
    assert!(check_deadline(None, at(5)).is_ok());
    assert!(check_deadline(Some(at(6)), at(5)).is_ok());
    assert!(check_deadline(Some(at(5)), at(5)).is_err());
    assert!(refuse_deadline(&descriptor(), false).is_ok());
    assert!(refuse_deadline(&descriptor(), true).is_err());
}

fn finished_job() -> VideoJob {
    VideoJob {
        provider_id: ProviderId::openrouter(),
        id: "job".to_owned(),
        status: JobStatus::Completed,
        polling_url: "https://openrouter.ai/api/v1/videos/job".to_owned(),
        generation_id: None,
        unsigned_urls: Vec::new(),
        usage: Json::Object(Vec::new()),
        error: None,
        locator: JobLocator::OpenRouter {
            polling_url: "https://openrouter.ai/api/v1/videos/job".to_owned(),
        },
        artifacts: Vec::new(),
        raw: Json::Null,
    }
}

#[test]
fn finished_jobs_have_a_video() {
    let job = with_artifact(finished_job(), Ok("https://openrouter.ai/v/0".to_owned()))
        .expect("job");
    assert_eq!(job.artifacts.len(), 1);
    assert_eq!(job.artifacts[0].url, "https://openrouter.ai/v/0");
    assert_eq!(job.artifacts[0].index, 0);
    let error = with_artifact(finished_job(), Err("bad URL".to_owned())).expect_err("bad URL");
    assert_eq!(error.kind, ProviderErrorKind::Response);
    let mut running = finished_job();
    running.status = JobStatus::InProgress;
    assert!(with_artifact(running, Err("bad URL".to_owned())).expect("job").artifacts.is_empty());
}

#[test]
fn jobs_of_others_are_not_polled() {
    assert_eq!(
        polling_url(&finished_job().locator).expect("polling URL"),
        "https://openrouter.ai/api/v1/videos/job"
    );
    let foreign = JobLocator::Fal {
        endpoint_id: "e".to_owned(),
        request_id: "r".to_owned(),
        status_url: None,
        response_url: None,
    };
    assert_eq!(
        polling_url(&foreign).expect_err("foreign").message,
        "OpenRouter cannot poll a locator owned by another provider"
    );
}

#[test]
fn client_failures_keep_what_they_say() {
    let mapped = |kind| {
        map_error(ApiError {
            kind,
            message: "message".to_owned(),
            status_code: Some(429),
            code: Some("code".to_owned()),
            details: Json::Text("more".to_owned()),
            retry_after_seconds: Some(3),
        })
    };
    let error = mapped(ApiErrorKind::RateLimit);
    assert_eq!(error.kind, ProviderErrorKind::RateLimit);
    assert_eq!(error.message, "message");
    assert_eq!(error.status_code, Some(429));
    assert_eq!(error.retry_after_seconds, Some(3));
    assert!(matches!(error.details, Json::Text(ref text) if text == "more"));
    assert_eq!(mapped(ApiErrorKind::ResourceNotFound).kind, ProviderErrorKind::Validation);
    assert_eq!(mapped(ApiErrorKind::Provider).kind, ProviderErrorKind::Unavailable);
    assert_eq!(mapped(ApiErrorKind::UnsafeUrl).kind, ProviderErrorKind::UnsafeEndpoint);
    let uncertain = mapped(ApiErrorKind::SubmissionUncertain);
    assert_eq!(uncertain.kind, ProviderErrorKind::SubmissionUncertain);
    assert!(!uncertain.retryable());
    assert!(error.retryable());
}

#[test]
fn new_failures_have_no_details() {
    let error = ProviderError::new(
        ProviderId::fal(),
        ProviderErrorKind::Network,
        "gone".to_owned(),
    );
    assert_eq!(error.message, "gone");
    assert_eq!(error.status_code, None);
    assert_eq!(error.code, None);
    assert_eq!(error.retry_after_seconds, None);
    assert!(matches!(error.details, Json::Object(ref members) if members.is_empty()));
}

#[test]
fn media_is_taken_as_the_provider_allows() {
    let urls = MediaCapabilities::urls_only();
    let both = MediaCapabilities { local_files: true, ..urls };
    let mixed = vec![local("/tmp/a.png"), remote("https://media.example/b.png")];
    assert!(validation_urls(&mixed, urls, false, "OpenRouter").is_err());
    assert_eq!(validation_urls(&mixed, both, false, "fal.ai").expect("URLs").len(), 2);

    let openrouter = descriptor();
    let accepted = validate_draft_with_local_staging(
        &openrouter,
        urls,
        &draft(ProviderId::openrouter(), vec![remote("https://media.example/b.png")]),
        no_findings(1),
        false,
    );
    assert!(accepted.is_ok());
    let refused = validate_draft_with_local_staging(
        &openrouter,
        urls,
        &draft(ProviderId::openrouter(), vec![local("/tmp/a.png")]),
        no_findings(1),
        false,
    );
    let refused = refused.expect_err("local file");
    assert_eq!(refused.kind, ProviderErrorKind::Validation);
    assert_eq!(
        refused.message,
        "OpenRouter does not support local reference files; use a public HTTPS URL"
    );
    let unstaged = validate_draft(
        &openrouter,
        urls,
        &draft(ProviderId::openrouter(), vec![local("/tmp/a.png")]),
        no_findings(1),
    );
    assert_eq!(unstaged.expect_err("local file").message, refused.message);
    let staged = validate_draft_with_local_staging(
        &openrouter,
        urls,
        &draft(ProviderId::openrouter(), vec![local("/tmp/a.png")]),
        no_findings(1),
        true,
    );
    assert!(staged.is_ok());
    let foreign = validate_draft_with_local_staging(
        &openrouter,
        urls,
        &draft(ProviderId::fal(), Vec::new()),
        no_findings(0),
        false,
    );
    assert_eq!(
        foreign.expect_err("foreign").message,
        "The draft belongs to a different provider"
    );
}

#[test]
fn findings_come_in_order() {
    let openrouter = descriptor();
    let check = |findings| {
        validate_draft_with_local_staging(
            &openrouter,
            MediaCapabilities::urls_only(),
            &draft(ProviderId::openrouter(), vec![remote("https://media.example/b.png")]),
            findings,
            false,
        )
    };
    let mut findings = no_findings(1);
    findings.draft_problem = Some("Prompt is empty".to_owned());
    findings.request_problem = Some("Request is bad".to_owned());
    assert_eq!(check(findings).expect_err("draft").message, "Prompt is empty");
    let mut findings = no_findings(1);
    findings.url_problems[0] = Some("URL is bad".to_owned());
    findings.request_problem = Some("Request is bad".to_owned());
    assert_eq!(check(findings).expect_err("URL").message, "URL is bad");
    let mut findings = no_findings(1);
    findings.request_problem = Some("Request is bad".to_owned());
    assert_eq!(check(findings).expect_err("request").message, "Request is bad");
}

#[test]
fn providers_check_whose_request_it_is() {
    let openrouter = descriptor();
    assert!(validate_request(&openrouter, &ProviderId::openrouter(), None).is_ok());
    assert!(validate_request(&openrouter, &ProviderId::fal(), None).is_err());
    assert!(validate_request(
        &openrouter,
        &ProviderId::openrouter(),
        Some("bad".to_owned())
    )
    .is_err());
}

#[test]
fn remote_media_is_staged_as_it_is() {
    let openrouter = descriptor();
    assert_eq!(
        stage_remote(&openrouter, &remote("https://media.example/b.png"), None).expect("URL"),
        "https://media.example/b.png"
    );
    assert!(stage_remote(&openrouter, &local("/tmp/a.png"), None).is_err());
    assert!(stage_remote(
        &openrouter,
        &remote("https://media.example/b.png"),
        Some("bad".to_owned())
    )
    .is_err());
}

#[test]
fn digests_are_those_of_the_contents() {
    let (digest, size) = media_sha256(&b"abc".to_vec());
    assert_eq!(digest, "ba7816bf8f01cfea414140de5dae2223b00361a396177a9cb410ff61f20015ad");
    assert_eq!(size, 3);
}

#[test]
fn registered_providers_are_found() {
    let mut registry = ProviderRegistry::new();
    assert!(registry.register(ProviderId::openrouter(), 1).is_none());
    assert!(registry.register(ProviderId::fal(), 2).is_none());
    assert_eq!(registry.register(ProviderId::fal(), 3), Some(2));
    assert_eq!(registry.get(&ProviderId::fal()), Some(&3));
    assert_eq!(registry.get(&ProviderId::named("other")), None);
    let ids = registry.ids();
    assert_eq!(
        ids.iter().map(ProviderId::as_str).collect::<Vec<_>>(),
        vec!["fal", "openrouter"]
    );
}
