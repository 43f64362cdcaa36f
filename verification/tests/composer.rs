//! The composer's choices, the window's layout and the moving scene.

use std::time::Duration;

use video_harness::domain::{PriceSku, ProviderId, VideoCatalog, VideoModel};
use video_harness::gui::cloud_cinema::{
    activity_style, format_timing, optional_label, AnimationGate, CloudCinemaActivity, MotionState,
    TimerStep, FRAME_INTERVAL,
};
use video_harness::gui::composer_state;
use video_harness::gui::composer_state::{
    resolve_selection, resolve_setting, AudioChoice, CapabilityFingerprint, CatalogReducer,
    ModelKey, ModelSelection, SettingsSource,
};
use video_harness::gui::layout;

fn model(id: &str) -> VideoModel {
    VideoModel {
        provider_id: ProviderId::openrouter(),
        id: id.to_owned(),
        name: id.to_owned(),
        description: String::new(),
        supported_durations: Vec::new(),
        supported_resolutions: Vec::new(),
        supported_aspect_ratios: Vec::new(),
        supported_sizes: Vec::new(),
        supported_frame_images: Vec::new(),
        generate_audio: None,
        generated_audio_supported: false,
        generated_audio_default: None,
        seed: None,
        input_modalities: None,
        media_bindings: Vec::new(),
        input_schema: None,
        field_map: Vec::new(),
        pricing_skus: Vec::new(),
    }
}

fn catalog(models: Vec<VideoModel>, preferred: Option<&str>) -> VideoCatalog {
    VideoCatalog {
        provider_id: ProviderId::openrouter(),
        models,
        stale: false,
        preferred: preferred.map(str::to_owned),
    }
}

#[test]
fn audio_choice_is_an_exact_three_way_mapping() {
    for (choice, request, selected) in [
        (AudioChoice::ProviderDefault, None, 0),
        (AudioChoice::On, Some(true), 1),
        (AudioChoice::Off, Some(false), 2),
    ] {
        assert_eq!(choice.request_value(), request);
        assert_eq!(AudioChoice::from_request(request), choice);
        assert_eq!(choice.selected(), selected);
        assert_eq!(AudioChoice::from_selected(selected), choice);
    }
    assert_eq!(AudioChoice::from_selected(9), AudioChoice::ProviderDefault);
}

#[test]
fn missing_saved_model_never_falls_back_but_new_drafts_can() {
    let catalog = catalog(
        vec![model("example/first"), model("black-forest-labs/flux-3-video")],
        Some("black-forest-labs/flux-3-video"),
    );
    assert!(matches!(
        resolve_selection(&catalog, Some("removed/model"), None, false),
        ModelSelection::Unavailable(key) if key.model_id == "removed/model"
    ));
    assert!(matches!(
        resolve_selection(&catalog, None, None, true),
        ModelSelection::Available(key) if key.model_id == "black-forest-labs/flux-3-video"
    ));
    assert!(matches!(
        resolve_selection(&catalog, None, Some("example/first"), true),
        ModelSelection::Available(key) if key.model_id == "example/first"
    ));
    assert!(matches!(
        resolve_selection(&catalog, None, None, false),
        ModelSelection::Empty(provider) if provider == ProviderId::openrouter()
    ));
}

#[test]
fn exact_then_remembered_then_default_precedence_is_stable() {
    assert_eq!(resolve_setting(Some(&3), Some(&2), &1), (3, SettingsSource::ExactDraft));
    assert_eq!(resolve_setting(None, Some(&2), &1), (2, SettingsSource::Remembered));
    assert_eq!(resolve_setting(None, None, &1), (1, SettingsSource::ProviderDefault));
}

#[test]
fn catalog_order_is_idempotent_and_capability_changes_invalidate_once() {
    let mut loud = model("example/model");
    loud.generated_audio_supported = true;
    let first = catalog(vec![loud], None);
    let changed = catalog(vec![model("example/model")], None);
    let key = ModelKey::new(ProviderId::openrouter(), "example/model".to_owned());
    let mut reducer = CatalogReducer::new();
    assert!(!reducer.apply(&first, Some(&key)));
    assert!(!reducer.apply(&first, Some(&key)));
    assert!(reducer.apply(&changed, Some(&key)));
    assert!(!reducer.apply(&changed, Some(&key)));
}

#[test]
fn composer_state_responsive_shell_has_exactly_one_switcher_at_supported_widths() {
    for width in [480, 720, 1_100] {
        let shell = composer_state::shell_layout_for_width(width);
        assert_ne!(shell.header_switcher, shell.bottom_switcher);
        assert_eq!(shell.inspector_pinned, width > composer_state::COMPACT_MAX_WIDTH);
    }
}

#[test]
fn layout_responsive_shell_has_exactly_one_switcher_at_supported_widths() {
    for width in [480, 720, 1_100] {
        let shell = layout::shell_layout_for_width(width);
        assert_ne!(shell.header_switcher, shell.bottom_switcher);
        assert_eq!(shell.inspector_pinned, width > layout::COMPACT_MAX_WIDTH);
    }
}

#[test]
fn the_shell_turns_compact_at_its_width() {
    assert!(layout::shell_layout_for_width(799).bottom_switcher);
    assert!(layout::shell_layout_for_width(800).header_switcher);
}

#[test]
fn animation_requires_every_gate() {
    let ready = AnimationGate {
        activity: CloudCinemaActivity::Active,
        mapped: true,
        animations_enabled: true,
        motion_allowed: true,
    };
    assert!(ready.should_animate());

    for blocked in [
        AnimationGate { activity: CloudCinemaActivity::Paused, ..ready },
        AnimationGate { mapped: false, ..ready },
        AnimationGate { animations_enabled: false, ..ready },
        AnimationGate { motion_allowed: false, ..ready },
    ] {
        assert!(!blocked.should_animate());
    }
}

#[test]
fn the_timer_runs_while_the_scene_moves() {
    let ready = AnimationGate {
        activity: CloudCinemaActivity::Active,
        mapped: true,
        animations_enabled: true,
        motion_allowed: true,
    };
    assert_eq!(ready.refresh(false), TimerStep::Start);
    assert_eq!(ready.refresh(true), TimerStep::Keep);
    let hidden = AnimationGate { mapped: false, ..ready };
    assert_eq!(hidden.refresh(true), TimerStep::Stop);
    assert_eq!(hidden.refresh(false), TimerStep::Keep);
}

#[test]
fn motion_recreates_the_original_cloud_cinema_paths() {
    let first = MotionState { phase: 0 };
    assert_eq!(first.star_slots(72), [0, 11, 22, 33, 44, 55]);
    assert_eq!(first.cloud_slots(72), [0, 17, 34, 51]);

    let mut next = first;
    next.advance();
    assert_eq!(next.star_slots(72), [71, 12, 21, 34, 43, 56]);
    assert_eq!(next.cloud_slots(72), [0, 17, 34, 51]);
}

#[test]
fn prices_are_compared_by_value_and_name() {
    let priced = |prices: &[(&str, &str)]| {
        let mut priced = model("m");
        priced.pricing_skus = prices
            .iter()
            .map(|(sku, amount)| PriceSku {
                sku: sku.to_string(),
                amount: amount.to_string(),
            })
            .collect();
        CapabilityFingerprint::of(&priced)
    };
    let first = priced(&[("second", "1.0"), ("video", "2")]);
    assert!(first.same(&priced(&[("video", "2.00"), ("second", "1.00")])));
    assert!(!first.same(&priced(&[("video", "2.01"), ("second", "1.0")])));
    assert!(!first.same(&priced(&[("second", "1.0")])));
    assert!(!priced(&[("second", "1.0")]).same(&first));
    assert!(!first.same(&priced(&[("second", "2"), ("video", "1.0")])));
}

#[test]
fn motion_goes_on_beyond_the_signed_range() {
    let last = MotionState { phase: u64::MAX };
    assert_eq!(last.cloud_slots(72), [7, 70, 1, 54]);
    assert_eq!(last.star_slots(72), [1, 10, 23, 32, 45, 54]);
    let far = MotionState { phase: 9_223_372_036_854_775_908 };
    assert_eq!(far.cloud_slots(72), [18, 5, 43, 0]);
    assert_eq!(far.star_slots(72), [52, 31, 2, 53, 24, 3]);
    assert_eq!(last.star_slots(0), [0, 0, 0, 0, 0, 0]);
    assert_eq!(last.cloud_slots(0), [0, 0, 0, 0]);
}

#[test]
fn timing_is_truthful_and_never_invents_a_countdown() {
    assert_eq!(format_timing(62, None), "Observed this session: 1:02");
    assert_eq!(
        format_timing(3_723, Some(7)),
        "Observed this session: 1:02:03  •  checking again in 7s"
    );
}

#[test]
fn cadence_matches_the_original_widget() {
    assert_eq!(Duration::from_millis(FRAME_INTERVAL), Duration::from_millis(240));
}

#[test]
fn labels_and_styles_are_left_out_where_there_is_nothing_to_say() {
    assert_eq!(optional_label(Some("abc"), "Job "), Some("Job abc".to_owned()));
    assert_eq!(optional_label(Some("  "), "Job "), None);
    assert_eq!(optional_label(None, "Job "), None);
    assert_eq!(activity_style(CloudCinemaActivity::Inactive), None);
    assert!(activity_style(CloudCinemaActivity::Error).is_some());
}
