//! The media list, the review and the model's controls.

use video_harness::domain::{
    CostQuote, DraftMedia, FrameImage, FrameType, InputReference, MediaBinding, MediaCardinality, MediaKind,
    MediaRole, MediaSource, ProviderId, QuoteConfidence, Timestamp, VideoCatalog, VideoModel, VideoRequest,
};
use video_harness::gui::composer::{
    advanced_members, build_draft, check_draft, draft_editor_state, schema_control_value,
    selected_model_id, validate_model_media, ComposerFields, NamedControl, SchemaControl,
};
use video_harness::gui::media_list::{
    add_files, choose_role, classify_local_reference, default_role_for_kind, drop_notice, local_files_notice,
    ellipsize_text, has_local, index_for_provider, index_for_role, job_title, local_entry,
    media_hints, media_kind_for_extension, media_kind_icon, media_name, media_rows, move_earlier, move_later,
    provider_id_for_index, provider_name, read_entry, remote_entry, remote_kind_for_index,
    remote_roles, remove_media, role_for_index, role_for_kind, typed_media_ordinal,
    typed_reference_counts, typed_reference_details, EntryStep, FoundFile,
};
use video_harness::gui::model_controls::{
    duration_choices, duration_label, duration_place, model_description, plan_control, refreshed_model, schema_panel,
    schema_type, text_choices, text_label, text_place, ControlPlan,
};
use video_harness::gui::restore::{
    apply_draft, restore_model_options, snapshot_model_options, update_controls, ControlUpdate,
};
use video_harness::gui::review::{
    hold_question, hold_recorded, price_text, review_expiry, review_rows, settings_text,
    uncertain_warning, unsaved_warning,
};
use video_harness::gui_state::SchemaText;
use video_harness::json::{json_eq, Json};
use video_harness::providers::fal_transfer::read_part_answer;

fn json(text: &str) -> Json {
    read_part_answer(&text.as_bytes().to_vec()).expect("a document")
}

fn remote(url: &str, role: MediaRole) -> DraftMedia {
    DraftMedia { source: MediaSource::RemoteUrl { url: url.to_owned() }, role }
}

fn local(path: &str, role: MediaRole) -> DraftMedia {
    DraftMedia { source: MediaSource::LocalFile { path: path.to_owned() }, role }
}

fn request() -> VideoRequest {
    VideoRequest {
        provider_id: ProviderId::fal(),
        model: "model".to_owned(),
        prompt: "prompt".to_owned(),
        duration: None,
        resolution: None,
        aspect_ratio: None,
        size: None,
        generate_audio: None,
        seed: None,
        frame_images: Vec::new(),
        input_references: Vec::new(),
        adapter_options: None,
    }
}

fn reference(url: &str, kind: MediaKind) -> InputReference {
    InputReference { url: url.to_owned(), kind }
}

fn model(id: &str) -> VideoModel {
    VideoModel {
        provider_id: ProviderId::fal(),
        id: id.to_owned(),
        name: id.to_owned(),
        description: String::new(),
        supported_durations: Vec::new(),
        supported_resolutions: Vec::new(),
        supported_aspect_ratios: Vec::new(),
        supported_sizes: Vec::new(),
        supported_frame_images: Vec::new(),
        generate_audio: None,
        generated_audio_supported: false,
        generated_audio_default: None,
        seed: None,
        input_modalities: None,
        media_bindings: Vec::new(),
        input_schema: None,
        field_map: Vec::new(),
        pricing_skus: Vec::new(),
    }
}

fn fields() -> ComposerFields {
    ComposerFields {
        provider: 1,
        model_ids: vec!["fal-ai/a".to_owned(), "fal-ai/b".to_owned()],
        model: 1,
        prompt: "a robot".to_owned(),
        durations: vec![None, Some(5), Some(10)],
        duration: 2,
        resolutions: vec![None, Some("720p".to_owned())],
        resolution: 0,
        aspects: vec![None],
        aspect: 0,
        sizes: vec![None],
        size: 0,
        audio_available: true,
        audio: true,
        seed_available: true,
        seed: " 12 ".to_owned(),
        advanced: "{\"motion\": \"slow\"}".to_owned(),
        controls: vec![NamedControl {
            name: "quality".to_owned(),
            control: SchemaControl::Integer { text: "3".to_owned() },
        }],
        media: Vec::new(),
    }
}

#[test]
fn navigation_indexes_use_stable_provider_ids() {
    assert_eq!(provider_id_for_index(0), ProviderId::openrouter());
    assert_eq!(provider_id_for_index(1), ProviderId::fal());
    assert_eq!(index_for_provider(&ProviderId::openrouter()), 0);
    assert_eq!(index_for_provider(&ProviderId::fal()), 1);
}

#[test]
fn image_role_indexes_round_trip_and_typed_roles_are_fixed() {
    for role in [MediaRole::Reference, MediaRole::StartFrame, MediaRole::EndFrame] {
        assert_eq!(role_for_index(index_for_role(role)), role);
    }
    assert_eq!(default_role_for_kind(MediaKind::Video), MediaRole::VideoInput);
    assert_eq!(default_role_for_kind(MediaKind::Audio), MediaRole::AudioInput);
    assert_eq!(role_for_kind(MediaKind::Video, 2), MediaRole::VideoInput);
    assert_eq!(role_for_kind(MediaKind::Audio, 1), MediaRole::AudioInput);
    assert_eq!(remote_kind_for_index(0), None);
    assert_eq!(remote_kind_for_index(1), Some(MediaKind::Image));
    assert_eq!(remote_kind_for_index(2), Some(MediaKind::Video));
    assert_eq!(remote_kind_for_index(3), Some(MediaKind::Audio));
}

#[test]
fn local_references_need_a_known_extension_and_fitting_contents() {
    for (name, expected) in [
        ("frame.PNG", MediaKind::Image),
        ("clip.mp4", MediaKind::Video),
        ("clip.mov", MediaKind::Video),
        ("sound.mp3", MediaKind::Audio),
        ("sound.wav", MediaKind::Audio),
    ] {
        assert_eq!(classify_local_reference(name, true), Some(expected), "{name}");
    }
    assert_eq!(classify_local_reference("disguised.mp4", false), None);
    assert_eq!(media_kind_for_extension("unknown.mkv"), None);
    assert_eq!(media_kind_for_extension("no-extension"), None);
}

#[test]
fn typed_ordinals_count_each_media_kind_independently() {
    let items = vec![
        remote("https://example.test/one.png", MediaRole::Reference),
        remote("https://example.test/clip.mp4", MediaRole::VideoInput),
        remote("https://example.test/two.png", MediaRole::EndFrame),
        remote("https://example.test/sound.wav", MediaRole::AudioInput),
    ];
    assert_eq!(typed_media_ordinal(&items, 0), "Image 1");
    assert_eq!(typed_media_ordinal(&items, 1), "Video 1");
    assert_eq!(typed_media_ordinal(&items, 2), "Image 2");
    assert_eq!(typed_media_ordinal(&items, 3), "Audio 1");
}

#[test]
fn review_summary_exposes_typed_counts_and_ordinals() {
    let mut request = request();
    request.frame_images.push(FrameImage {
        url: "https://example.test/start.png".to_owned(),
        frame_type: FrameType::FirstFrame,
    });
    request.input_references.push(reference("https://example.test/ref.png", MediaKind::Image));
    request.input_references.push(reference("https://example.test/clip.mp4", MediaKind::Video));
    request.input_references.push(reference("https://example.test/sound.wav", MediaKind::Audio));

    assert_eq!(typed_reference_counts(&request), "2 images, 1 video, 1 audio clip");
    assert_eq!(
        typed_reference_details(&request),
        vec![
            "Image 1 (first frame): https://example.test/start.png",
            "Image 2 (general reference): https://example.test/ref.png",
            "Video 1 (video input): https://example.test/clip.mp4",
            "Audio 1 (audio input): https://example.test/sound.wav",
        ]
    );
}

#[test]
fn schema_type_ignores_nullable_marker() {
    assert_eq!(schema_type(&json("{\"type\": \"integer\"}")), Some("integer"));
    assert_eq!(schema_type(&json("{\"type\": [\"null\", \"string\"]}")), Some("string"));
    assert_eq!(schema_type(&json("{\"type\": \"object\"}")), Some("object"));
}

#[test]
fn prompt_summary_truncates_on_character_boundaries() {
    assert_eq!(ellipsize_text("hello", 10), "hello");
    assert_eq!(ellipsize_text("🦀🦀🦀", 2), "🦀🦀…");
}

#[test]
fn job_titles_come_from_prompts() {
    assert_eq!(job_title(&Some(request())), Some("prompt".to_owned()));
    assert_eq!(job_title(&None), None);
    let mut blank = request();
    blank.prompt.clear();
    assert_eq!(job_title(&Some(blank)), None);
}

#[test]
fn moving_back_restores_the_order() {
    let mut items = vec![
        remote("https://example.test/a.png", MediaRole::Reference),
        remote("https://example.test/b.png", MediaRole::Reference),
    ];
    assert!(!move_earlier(&mut items, 0));
    assert!(move_earlier(&mut items, 1));
    assert_eq!(media_name(&items[0].source), "b.png");
    assert!(move_later(&mut items, 0));
    assert!(!move_later(&mut items, 1));
    assert_eq!(media_name(&items[0].source), "a.png");
    choose_role(&mut items, 0, index_for_role(MediaRole::EndFrame));
    assert_eq!(items[0].role, MediaRole::EndFrame);
    assert!(remove_media(&mut items, 0));
    assert!(!remove_media(&mut items, 1));
    assert_eq!(items.len(), 1);
}

#[test]
fn rows_say_what_can_be_done() {
    let items = vec![
        local("/tmp/a.png", MediaRole::StartFrame),
        remote("https://example.test/clip.mp4", MediaRole::VideoInput),
    ];
    assert!(has_local(&items));
    let rows = media_rows(&items, &ProviderId::openrouter());
    assert_eq!(rows.len(), 2);
    assert_eq!(rows[0].name, "a.png");
    assert_eq!(rows[0].ordinal, "Image 1");
    assert!(rows[0].can_move_later && !rows[0].can_move_earlier);
    assert!(rows[0].blocked);
    assert_eq!(rows[0].role_choice, Some(index_for_role(MediaRole::StartFrame)));
    assert_eq!(rows[1].role_choice, None);
    assert!(!rows[1].blocked);
    assert!(!media_rows(&items, &ProviderId::fal())[0].blocked);
}

#[test]
fn entries_are_sorted_out() {
    let fal = ProviderId::fal();
    assert!(matches!(
        read_entry("https://example.test/a.png", Some(MediaKind::Image), &fal),
        EntryStep::Check { url, kind: MediaKind::Image } if url == "https://example.test/a.png"
    ));
    assert!(matches!(
        read_entry("file:///tmp/a.png", Some(MediaKind::Image), &fal),
        EntryStep::Resolve { .. }
    ));
    assert!(matches!(
        read_entry("file:///tmp/a.png", Some(MediaKind::Image), &ProviderId::openrouter()),
        EntryStep::Refuse(_)
    ));
    assert!(matches!(
        read_entry("https://example.test/a.png", None, &fal),
        EntryStep::Refuse(_)
    ));
    let added = local_entry(
        MediaKind::Image,
        index_for_role(MediaRole::StartFrame),
        Some("/tmp/a.png".to_owned()),
        Some(MediaKind::Image),
    )
    .expect("media");
    assert_eq!(added.role, MediaRole::StartFrame);
    assert!(local_entry(MediaKind::Image, 0, None, None).is_err());
    assert!(local_entry(
        MediaKind::Image,
        0,
        Some("/tmp/a.mp4".to_owned()),
        Some(MediaKind::Video)
    )
    .is_err());
    assert!(remote_entry(MediaKind::Audio, 0, "https://e/a.mp3".to_owned(), None).is_ok());
    assert!(remote_entry(
        MediaKind::Audio,
        0,
        "https://e/a.mp3".to_owned(),
        Some("bad".to_owned())
    )
    .is_err());
}

#[test]
fn dropped_files_are_added_or_counted() {
    let mut items = Vec::new();
    let files = vec![
        FoundFile { path: "/tmp/a.png".to_owned(), kind: Some(MediaKind::Image) },
        FoundFile { path: "/tmp/a.txt".to_owned(), kind: None },
        FoundFile { path: "/tmp/a.mp3".to_owned(), kind: Some(MediaKind::Audio) },
    ];
    assert_eq!(add_files(&mut items, &files), 2);
    assert_eq!(items[1].role, MediaRole::AudioInput);
    assert!(drop_notice(2, 1).is_some());
    assert!(drop_notice(2, 0).is_none());
    assert_eq!(
        local_files_notice(&ProviderId::openrouter()).as_deref(),
        Some("OpenRouter accepts reference media by public HTTPS URL only.")
    );
    assert_eq!(local_files_notice(&ProviderId::fal()), None);
}

#[test]
fn only_fal_takes_files() {
    assert!(media_hints(&ProviderId::fal()).files_allowed);
    assert!(!media_hints(&ProviderId::openrouter()).files_allowed);
    assert_eq!(provider_name(&ProviderId::fal()), "fal.ai");
    assert_eq!(provider_name(&ProviderId::openrouter()), "OpenRouter");
    assert_eq!(remote_roles(Some(MediaKind::Image)).0.len(), 3);
    assert!(remote_roles(Some(MediaKind::Image)).1);
    assert!(!remote_roles(Some(MediaKind::Video)).1);
}

#[test]
fn models_refuse_media_they_do_not_take() {
    let draft = build_draft(
        &ComposerFields {
            media: vec![remote("https://example.test/clip.mp4", MediaRole::VideoInput)],
            ..fields()
        },
        true,
        None,
    )
    .expect("draft");
    let mut images = model("fal-ai/b");
    images.input_modalities = Some(vec![MediaKind::Image]);
    assert_eq!(
        validate_model_media(&draft, Some(&images), false).expect_err("images only"),
        "fal-ai/b does not support videos references. Choose another model or remove the \
         incompatible media."
    );
    assert_eq!(
        validate_model_media(&draft, Some(&model("fal-ai/b")), false).expect_err("not advertised"),
        "fal-ai/b does not publish confirmed videos input support. Refresh the catalog or choose \
         a model that explicitly supports it."
    );
    let mut videos = model("fal-ai/b");
    videos.input_modalities = Some(vec![MediaKind::Image, MediaKind::Video]);
    assert_eq!(
        validate_model_media(&draft, Some(&videos), false).expect_err("no input field"),
        format!(
            "{} cannot bind videos references to a fal.ai input field. Choose another model or \
             remove them.",
            videos.name
        )
    );
    videos.media_bindings.push(MediaBinding {
        kind: MediaKind::Video,
        cardinality: MediaCardinality::Scalar,
        max_items: None,
        property_name: "video_url".to_owned(),
        title: None,
        description: None,
    });
    assert_eq!(
        validate_model_media(&draft, Some(&videos), true).expect_err("stale"),
        "Refresh this provider's model catalog before reviewing video or audio references. Cached \
         capabilities may be out of date."
    );
    assert_eq!(
        validate_model_media(&draft, None, false).expect_err("no model"),
        "The selected model is not in the provider catalog"
    );
    let clip = || remote("https://example.test/clip.mp4", MediaRole::VideoInput);
    let crowded =
        build_draft(&ComposerFields { media: vec![clip(), clip()], ..fields() }, true, None)
            .expect("draft");
    assert_eq!(
        validate_model_media(&crowded, Some(&videos), false).expect_err("too many"),
        "fal-ai/b accepts at most 1 video reference(s); this draft has 2."
    );
    let frame = remote("https://example.test/a.png", MediaRole::EndFrame);
    let framed = build_draft(&ComposerFields { media: vec![frame], ..fields() }, true, None)
        .expect("draft");
    assert_eq!(
        validate_model_media(&framed, Some(&videos), false).expect_err("no end frame"),
        "fal-ai/b does not support a last_frame input"
    );
    assert!(validate_model_media(&draft, Some(&videos), false).is_ok());
    assert!(check_draft(&draft, None, Some(&videos), false).is_ok());
    assert_eq!(
        check_draft(&draft, Some("bad".to_owned()), Some(&videos), false),
        Err("bad".to_owned())
    );
}

#[test]
fn models_are_described() {
    let mut described = model("fal-ai/b");
    assert_eq!(
        model_description(&described, false),
        "fal-ai/b • media capabilities not advertised"
    );
    described.description = " Fast ".to_owned();
    described.input_modalities = Some(vec![MediaKind::Image, MediaKind::Audio]);
    described.media_bindings.push(MediaBinding {
        kind: MediaKind::Image,
        cardinality: MediaCardinality::List,
        max_items: Some(2),
        property_name: "image_urls".to_owned(),
        title: None,
        description: None,
    });
    assert_eq!(
        model_description(&described, true),
        "Fast • accepts images, audio clips • media fields: Image — image_urls • cached catalog"
    );
    assert_eq!(media_kind_icon(MediaKind::Video), "video-x-generic-symbolic");
}

#[test]
fn fields_become_drafts() {
    assert_eq!(selected_model_id(&fields()), Some("fal-ai/b".to_owned()));
    let draft = build_draft(&fields(), true, None).expect("draft");
    assert_eq!(draft.provider_id, ProviderId::fal());
    assert_eq!(draft.model, "fal-ai/b");
    assert_eq!(draft.duration, Some(10));
    assert_eq!(draft.resolution, None);
    assert_eq!(draft.generate_audio, Some(true));
    assert_eq!(draft.seed, Some(12));
    assert!(json_eq(
        &draft.adapter_options.expect("options"),
        &json("{\"motion\": \"slow\", \"quality\": 3}")
    ));
    assert_eq!(
        build_draft(&fields(), true, Some("Prompt is empty".to_owned())).err(),
        Some("Prompt is empty".to_owned())
    );
    let unreadable = ComposerFields { seed: "x".to_owned(), ..fields() };
    assert_eq!(
        build_draft(&unreadable, true, None).err(),
        Some("Seed must be a whole number".to_owned())
    );
    assert!(build_draft(&unreadable, false, None).is_ok());
    assert_eq!(draft_editor_state(&unreadable).seed_text, "x");
}

#[test]
fn advanced_options_are_an_object() {
    assert!(advanced_members("", Ok(Json::Null)).expect("members").is_empty());
    assert_eq!(
        advanced_members("[1]", Ok(json("[1]"))).err(),
        Some("Advanced provider JSON must be an object".to_owned())
    );
    assert_eq!(
        advanced_members("{", Err("eof".to_owned())).err(),
        Some("Advanced provider JSON is invalid: eof".to_owned())
    );
    assert_eq!(advanced_members("{\"a\":1}", Ok(json("{\"a\": 1}"))).expect("members").len(), 1);
}

#[test]
fn control_texts_become_values() {
    let integer = |text: &str| schema_control_value(&SchemaControl::Integer { text: text.to_owned() });
    assert!(json_eq(&integer("-3").expect("value").expect("number"), &json("-3")));
    assert!(integer("").expect("value").is_none());
    assert!(integer("x").is_err());
    let number = SchemaControl::Number { text: "1.5".to_owned(), value: Some(json("1.5")) };
    assert!(json_eq(&schema_control_value(&number).expect("value").expect("number"), &json("1.5")));
    let unreadable = SchemaControl::Number { text: "1.5.".to_owned(), value: None };
    assert!(schema_control_value(&unreadable).is_err());
    let choice = SchemaControl::Choice { values: vec![None, Some(json("\"x\""))], selected: 1 };
    assert!(json_eq(&schema_control_value(&choice).expect("value").expect("choice"), &json("\"x\"")));
}

#[test]
fn choices_keep_their_place() {
    let durations = duration_choices(&vec![5, 10]);
    assert_eq!(durations, vec![None, Some(5), Some(10)]);
    assert_eq!(duration_place(&durations, Some(10)), 2);
    assert_eq!(duration_place(&durations, Some(7)), 0);
    assert_eq!(duration_label(Some(5)), "5 seconds");
    let texts = text_choices(&vec!["720p".to_owned()]);
    assert_eq!(text_place(&texts, &Some("720p".to_owned())), 1);
    assert_eq!(text_place(&texts, &None), 0);
    assert_eq!(text_label(&Some("720p".to_owned())), "720p");
    assert_eq!(text_label(&None), duration_label(None));
}

#[test]
fn schemas_become_controls() {
    match plan_control(&json("{\"enum\": [\"a\", \"b\"], \"default\": \"b\"}")) {
        Some(ControlPlan::Choice { values, labels, selected }) => {
            assert_eq!(values.len(), labels.len());
            assert!(json_eq(values[selected].as_ref().expect("value"), &json("\"b\"")));
        }
        _ => panic!("a choice was expected"),
    }
    match plan_control(&json("{\"type\": \"integer\", \"default\": 3}")) {
        Some(ControlPlan::Entry { text, .. }) => assert_eq!(text, "3"),
        _ => panic!("an entry was expected"),
    }
    assert!(plan_control(&json("{\"type\": \"object\"}")).is_none());
    let mut with_schema = model("fal-ai/a");
    with_schema.input_schema = Some(json(
        "{\"properties\": {\"quality\": {\"type\": \"integer\", \"title\": \"Quality\"}, \"deep\": {\"type\": \"object\"}}}",
    ));
    let panel = schema_panel(&with_schema);
    assert_eq!(panel.rows.len(), 1);
    assert_eq!(panel.rows[0].label, "Quality");
}

#[test]
fn saved_models_are_found_again() {
    let catalog = VideoCatalog {
        provider_id: ProviderId::fal(),
        models: vec![model("fal-ai/a"), model("fal-ai/b")],
        stale: false,
        preferred: None,
    };
    assert_eq!(refreshed_model(&catalog, &Some("fal-ai/b".to_owned())).0, 1);
    assert_eq!(refreshed_model(&catalog, &None).0, 0);
}

#[test]
fn drafts_come_back_to_the_controls() {
    let draft = build_draft(&fields(), true, None).expect("draft");
    let editor = draft_editor_state(&fields());
    let restore = apply_draft(&fields(), draft, editor);
    assert_eq!(restore.provider, 1);
    assert_eq!(restore.model, Some(1));
    assert_eq!(restore.prompt, "a robot");
    assert_eq!(restore.duration, 2);
    assert!(restore.audio);
    assert_eq!(restore.seed, " 12 ");
    let updates = update_controls(
        &fields().controls,
        &None,
        &vec![SchemaText { name: "quality".to_owned(), value: "9".to_owned() }],
    );
    assert!(matches!(
        &updates[0],
        ControlUpdate::Write { name, text } if name == "quality" && text == "9"
    ));
}

#[test]
fn model_options_survive_a_refresh() {
    let snapshot = snapshot_model_options(&fields());
    assert_eq!(snapshot.duration, Some(10));
    assert_eq!(snapshot.seed, " 12 ");
    let restore = restore_model_options(&fields(), snapshot);
    assert_eq!(restore.duration, 2);
    assert_eq!(restore.audio, Some(true));
    assert_eq!(restore.seed, Some(" 12 ".to_owned()));
    let silent = ComposerFields { audio_available: false, ..fields() };
    let restore = restore_model_options(&silent, snapshot_model_options(&fields()));
    assert_eq!(restore.audio, None);
}

fn quote(amount: Option<&str>, confidence: QuoteConfidence) -> CostQuote {
    CostQuote {
        amount: amount.map(str::to_owned),
        basis: "per video".to_owned(),
        exact: false,
        pricing_sku: None,
        unit_price: None,
        currency: "USD".to_owned(),
        raw_pricing: Vec::new(),
        confidence,
    }
}

#[test]
fn reviews_show_what_is_paid_for() {
    let mut request = request();
    request.duration = Some(5);
    request.adapter_options = Some(json("{\"motion\": \"slow\"}"));
    assert_eq!(
        price_text(&quote(Some("0.5"), QuoteConfidence::Estimated)),
        "Estimated 0.5 USD"
    );
    assert_eq!(
        price_text(&quote(None, QuoteConfidence::Unknown)),
        "Unavailable (per video)"
    );
    assert_eq!(
        settings_text(&request),
        "Duration: 5 seconds\nResolution: provider default\nAspect ratio: provider default\n\
         Exact size: provider default\nAudio: provider default\nSeed: provider default"
    );
    let rows = review_rows(
        &ProviderId::fal(),
        &request,
        &quote(None, QuoteConfidence::Unknown),
    );
    assert!(rows.iter().any(|row| row.value == "fal.ai"));
    assert!(rows.iter().any(|row| row.value == "prompt"));
    assert!(rows.iter().any(|row| {
        row.label == "Provider options" && row.value == "{\n  \"motion\": \"slow\"\n}"
    }));
}

#[test]
fn moments_are_shown_in_universal_time() {
    let moment = Timestamp { seconds: 1_431_648_000, nanos: 0 };
    let expiry = review_expiry(moment).expect("text");
    assert_eq!(expiry, "This review expires at 00:00:00 UTC or immediately after any edit.");
    let recorded = hold_recorded(moment).expect("text");
    assert_eq!(recorded, "Safety hold recorded 2015-05-15 00:00 UTC");
    assert_ne!(hold_recorded(Timestamp { seconds: 0, nanos: 0 }), hold_recorded(moment));
}

#[test]
fn warnings_name_the_provider() {
    assert_eq!(
        uncertain_warning(&ProviderId::fal()),
        "fal.ai may have accepted the paid request, but no remote job ID came back. Check the \
         provider dashboard before retrying. Editing the draft will create a distinct request."
    );
    assert_eq!(
        hold_question(&ProviderId::openrouter()),
        "OpenRouter may already be generating and charging for this exact draft. Open its \
         dashboard and look for the job first. Only clear this hold after you have confirmed \
         there is no matching generation."
    );
    assert_eq!(
        unsaved_warning("disk full"),
        "disk full\n\nKeep Video Harness open to fix or retry this, or close without saving the \
         latest edits."
    );
}
