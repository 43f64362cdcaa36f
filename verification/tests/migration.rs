//! The import of older data.

use video_harness::domain::Timestamp;
use video_harness::json::Json;
use video_harness::migration::{
    acknowledge_relink, check_database, check_document, check_marker, collect_json_assets,
    contains_credential_key, declined_marker, detect_relinks, eligibility, final_check,
    first_target_entry, imported_marker, inventory, known_regular_file, next_step, pending_relinks,
    relink_reason, root_name, staged_pairs, temporary_sibling, valid_provider_slug, validate_json, Answer,
    AppPaths, AssetClass, Commit, CommitAction, EntryKind, Findings, LegacyMigration,
    LegacyMigrationConsent, LegacyMigrationDecision, LegacyMigrationEligibility,
    LegacyMigrationError, LegacyMigrationInventory, LegacyMigrationOutcome,
    LegacyMigrationSkipReason, LocalMedia, MigrationDirectories, MigrationStep, Phase,
    ProviderEntry, Purpose, RelinkReason, Reservation, StagedPair, TargetLook, FLATPAK_APP_ID,
    MARKER_SCHEMA_VERSION, MAX_JSON_BYTES,
};
use video_harness::paths::{
    extension, file_name, join_path, lower_extension, normalized_absolute, path_is_within_any,
    paths_overlap, sibling, sort_paths, with_file_name,
};
use video_harness::providers::fal_transfer::read_part_answer;

fn json(text: &str) -> Json {
    read_part_answer(&text.as_bytes().to_vec()).expect("a document")
}

fn directories(root: &str) -> MigrationDirectories {
    MigrationDirectories {
        data_dir: format!("{root}/data"),
        cache_dir: format!("{root}/cache"),
        config_dir: format!("{root}/config"),
    }
}

fn paths() -> AppPaths {
    AppPaths {
        data_dir: "/var/app/data".to_owned(),
        cache_dir: "/var/app/cache".to_owned(),
        config_dir: "/var/app/config".to_owned(),
        videos_dir: "/home/u/Videos".to_owned(),
    }
}

fn migration(flatpak: bool) -> LegacyMigration {
    LegacyMigration::for_paths(
        flatpak,
        directories("/old"),
        directories("/new"),
        "/videos".to_owned(),
    )
}

fn full() -> LegacyMigrationInventory {
    LegacyMigrationInventory {
        history_database: true,
        gui_state_database: true,
        config_file_count: 1,
        cache_file_count: 0,
    }
}

const NOW: Timestamp = Timestamp { seconds: 100, nanos: 0 };

#[test]
fn only_confined_installations_import() {
    assert!(matches!(
        migration(false).first_step(),
        MigrationStep::Done(LegacyMigrationOutcome::Skipped(LegacyMigrationSkipReason::NotFlatpak))
    ));
    assert!(matches!(
        eligibility(migration(false).first_step()),
        Some(LegacyMigrationEligibility::NotFlatpak)
    ));
    assert!(matches!(migration(true).first_step(), MigrationStep::Ask(Phase::Marker)));
}

#[test]
fn the_target_has_to_be_empty() {
    let step = next_step(
        Purpose::Run(LegacyMigrationConsent::Import),
        Phase::Target,
        Answer::Target(Some("/new/data/x".to_owned())),
    );
    assert!(matches!(
        step,
        MigrationStep::Done(LegacyMigrationOutcome::Skipped(
            LegacyMigrationSkipReason::TargetContainsData(path)
        )) if path == "/new/data/x"
    ));
    assert!(final_check(None).is_ok());
    assert!(matches!(
        final_check(Some("/new/data".to_owned())),
        Err(LegacyMigrationError::TargetChanged(path)) if path == "/new/data"
    ));
    let dirs = directories("/new").all();
    assert_eq!(
        first_target_entry(
            &dirs,
            &vec![TargetLook::Absent, TargetLook::Empty, TargetLook::Holds("a".to_owned())]
        ),
        Some("a".to_owned())
    );
    assert_eq!(
        first_target_entry(
            &dirs,
            &vec![TargetLook::Absent, TargetLook::Obstacle, TargetLook::Empty]
        ),
        Some("/new/cache".to_owned())
    );
    assert_eq!(
        first_target_entry(
            &dirs,
            &vec![TargetLook::Absent, TargetLook::Empty, TargetLook::Empty]
        ),
        None
    );
}

#[test]
fn consent_decides() {
    let assess = next_step(Purpose::Assess, Phase::Inventory, Answer::Inventory(full()));
    assert!(matches!(
        eligibility(assess),
        Some(LegacyMigrationEligibility::NeedsConsent(found)) if found == full()
    ));
    assert!(matches!(
        next_step(
            Purpose::Run(LegacyMigrationConsent::StartClean),
            Phase::Target,
            Answer::Target(None)
        ),
        MigrationStep::Decline
    ));
    let run = Purpose::Run(LegacyMigrationConsent::Import);
    assert!(matches!(
        next_step(run, Phase::Target, Answer::Target(None)),
        MigrationStep::Ask(Phase::Inventory)
    ));
    assert!(matches!(
        next_step(run, Phase::Inventory, Answer::Inventory(full())),
        MigrationStep::Ask(Phase::MarkerAgain)
    ));
    assert!(matches!(
        next_step(run, Phase::MarkerAgain, Answer::Marker(None)),
        MigrationStep::Ask(Phase::TargetAgain)
    ));
    assert!(matches!(
        next_step(run, Phase::TargetAgain, Answer::Target(None)),
        MigrationStep::Import
    ));
}

#[test]
fn decisions_last() {
    let marker = declined_marker(NOW);
    assert_eq!(marker.decision, LegacyMigrationDecision::Declined);
    assert!(check_marker(&marker).is_ok());
    assert!(matches!(
        next_step(
            Purpose::Run(LegacyMigrationConsent::Import),
            Phase::Marker,
            Answer::Marker(Some(marker))
        ),
        MigrationStep::Done(LegacyMigrationOutcome::AlreadyDecided(_))
    ));
    let mut newer = declined_marker(NOW);
    newer.schema_version = MARKER_SCHEMA_VERSION + 1;
    assert!(matches!(
        check_marker(&newer),
        Err(LegacyMigrationError::UnsupportedMarkerSchema { .. })
    ));
}

#[test]
fn nothing_to_import_is_skipped() {
    let none = inventory(false, false, &Vec::new(), &Vec::new());
    assert!(none.is_empty());
    assert!(matches!(
        next_step(Purpose::Assess, Phase::Inventory, Answer::Inventory(none)),
        MigrationStep::Done(LegacyMigrationOutcome::Skipped(
            LegacyMigrationSkipReason::NoLegacyData
        ))
    ));
    assert!(!full().is_empty());
}

#[test]
fn directories_are_discovered() {
    let found = LegacyMigration::discover(
        Some("/home/u".to_owned()),
        Some(FLATPAK_APP_ID.to_owned()),
        Some("/run/user/1".to_owned()),
        &paths(),
    )
    .expect("migration");
    assert_eq!(
        found.source().data_dir,
        "/home/u/.local/share/openrouter-video-studio"
    );
    assert_eq!(found.target().cache_dir, "/var/app/cache");
    assert_eq!(found.marker_path(), "/var/app/config/legacy-import-v1.json");
    assert!(found.accessible_roots().contains(&"/run/user/1/doc".to_owned()));
    assert!(found
        .with_accessible_root("/extra".to_owned())
        .accessible_roots()
        .contains(&"/extra".to_owned()));
    assert!(matches!(
        LegacyMigration::discover(None, None, None, &paths()),
        Err(LegacyMigrationError::HomeUnavailable)
    ));
}

#[test]
fn overlapping_directories_are_refused() {
    let overlapping = LegacyMigration::for_paths(
        true,
        directories("/old"),
        MigrationDirectories {
            data_dir: "/old/data/inner".to_owned(),
            cache_dir: "/new/cache".to_owned(),
            config_dir: "/new/config".to_owned(),
        },
        "/videos".to_owned(),
    );
    assert!(matches!(
        overlapping.validate_separate_storage(),
        Err(LegacyMigrationError::SourceTargetOverlap(_))
    ));
    assert!(matches!(overlapping.first_step(), MigrationStep::Fail(_)));
    assert!(migration(true).validate_separate_storage().is_ok());
    assert!(paths_overlap("/a/b", "/a/b/../b/c"));
    assert!(!paths_overlap("/a/b", "/a/bc"));
    assert!(path_is_within_any("/a/b/c", &vec!["/x".to_owned(), "/a/b".to_owned()]));
    assert!(!path_is_within_any("/a/bc", &vec!["/a/b".to_owned()]));
}

fn findings() -> Findings {
    Findings {
        root_file: EntryKind::File,
        app_settings: EntryKind::File,
        providers: EntryKind::Directory,
        entries: vec![
            ProviderEntry {
                name: Some("fal".to_owned()),
                kind: EntryKind::Directory,
                file: EntryKind::File,
            },
            ProviderEntry {
                name: Some("Bad Name".to_owned()),
                kind: EntryKind::Directory,
                file: EntryKind::File,
            },
        ],
    }
}

#[test]
fn known_files_are_collected() {
    let assets = collect_json_assets("/old/config", AssetClass::Config, &findings()).expect("assets");
    assert!(assets.iter().any(|asset| asset.app_settings));
    assert!(assets.iter().any(|asset| asset.relative.starts_with("providers/fal/")));
    assert!(!assets.iter().any(|asset| asset.relative.contains("Bad Name")));
    let cache = collect_json_assets("/old/cache", AssetClass::Cache, &findings()).expect("assets");
    assert!(!cache.iter().any(|asset| asset.app_settings));
    assert_ne!(root_name(AssetClass::Config), root_name(AssetClass::Cache));
    let mut linked = findings();
    linked.root_file = EntryKind::Symlink;
    assert!(matches!(
        collect_json_assets("/old/config", AssetClass::Config, &linked),
        Err(LegacyMigrationError::UnsafeSource { .. })
    ));
    assert!(valid_provider_slug("fal"));
    assert!(!valid_provider_slug("../fal"));
    assert!(!valid_provider_slug(""));
}

#[test]
fn links_are_not_followed() {
    assert!(matches!(known_regular_file("/f", EntryKind::File), Ok(true)));
    assert!(matches!(known_regular_file("/f", EntryKind::Absent), Ok(false)));
    assert!(matches!(
        known_regular_file("/f", EntryKind::Symlink),
        Err(LegacyMigrationError::UnsafeSource { reason, .. }) if reason == "file is a symbolic link"
    ));
    assert!(matches!(
        known_regular_file("/f", EntryKind::Directory),
        Err(LegacyMigrationError::UnsafeSource { reason, .. })
            if reason == "path is not a regular file"
    ));
}

#[test]
fn settings_with_credentials_are_refused() {
    assert!(contains_credential_key(&json("{\"a\": [{\"api_key\": 1}]}")));
    assert!(!contains_credential_key(&json("{\"max_tokens\": 1}")));
    assert!(matches!(
        check_document("/f", Ok(json("{\"api_key\": 1}")), true, None, 1),
        Err(LegacyMigrationError::CredentialInSettings { .. })
    ));
    assert!(matches!(
        check_document("/f", Ok(json("[]")), true, None, 1),
        Err(LegacyMigrationError::InvalidSettingsDocument { .. })
    ));
    assert!(matches!(
        check_document("/f", Ok(json("{}")), true, Some(Ok(2)), 1),
        Err(LegacyMigrationError::UnsupportedAppSettingsSchema { .. })
    ));
    assert!(check_document("/f", Ok(json("{}")), true, Some(Ok(1)), 1).is_ok());
    assert!(matches!(
        validate_json("/f", 3, &b"{".to_vec(), true, None, 1),
        Err(LegacyMigrationError::InvalidJson { .. })
    ));
    assert!(matches!(
        validate_json("/f", MAX_JSON_BYTES + 1, &b"{}".to_vec(), true, None, 1),
        Err(LegacyMigrationError::JsonTooLarge { .. })
    ));
    assert!(validate_json("/f", 2, &b"{}".to_vec(), false, None, 1).is_ok());
}

#[test]
fn broken_databases_are_refused() {
    assert!(check_database("/d", "history", 2, 2, "OK").is_ok());
    assert!(matches!(
        check_database("/d", "history", 3, 2, "ok"),
        Err(LegacyMigrationError::UnsupportedDatabaseSchema { found: 3, supported: 2, .. })
    ));
    let error = check_database("/d", "history", 2, 2, "malformed").expect_err("broken");
    assert_eq!(error.message(), "SQLite integrity check failed for /d: malformed");
}

fn media(path: &str, exists: bool) -> LocalMedia {
    LocalMedia {
        draft_id: "d".to_owned(),
        media_id: path.to_owned(),
        path: path.to_owned(),
        exists,
        resolved: path.to_owned(),
    }
}

#[test]
fn unreadable_media_has_to_be_chosen_again() {
    let roots = vec!["/videos".to_owned()];
    assert_eq!(relink_reason(true, "/videos/a.mp4", &roots), None);
    assert_eq!(relink_reason(false, "/videos/a.mp4", &roots), Some(RelinkReason::Missing));
    assert_eq!(relink_reason(true, "/home/a.mp4", &roots), Some(RelinkReason::OutsideSandbox));
    let list = vec![media("/videos/a.mp4", true), media("/home/b.mp4", true)];
    let relinks = detect_relinks(&list, &roots);
    assert_eq!(relinks.len(), 1);
    assert_eq!(relinks[0].path, "/home/b.mp4");

    let mut marker =
        imported_marker(&full(), &Vec::new(), &Vec::new(), &list, &roots, NOW);
    assert_eq!(marker.decision, LegacyMigrationDecision::Imported);
    assert!(!acknowledge_relink(&mut marker, "d", "other"));
    assert!(acknowledge_relink(&mut marker, "d", "/home/b.mp4"));
    assert!(!acknowledge_relink(&mut marker, "d", "/home/b.mp4"));
    let kept = Some(marker);
    assert!(pending_relinks(&kept).expect("list").is_empty());
}

fn pairs() -> Vec<StagedPair> {
    vec![
        StagedPair { stage: "/s1".to_owned(), target: "/t1".to_owned() },
        StagedPair { stage: "/s2".to_owned(), target: "/t2".to_owned() },
    ]
}

#[test]
fn staged_directories_are_put_in_place() {
    let mut commit = Commit::new(pairs());
    assert!(matches!(commit.action(), CommitAction::Look(0)));
    commit.looked(Reservation::Empty("/t1.aside".to_owned()));
    assert!(matches!(
        commit.action(),
        CommitAction::Move(rename) if rename.from == "/t1" && rename.to == "/t1.aside"
    ));
    commit.moved(None, "");
    commit.looked(Reservation::Free);
    assert!(matches!(
        commit.action(),
        CommitAction::Move(rename) if rename.from == "/s1" && rename.to == "/t1"
    ));
    commit.moved(None, "");
    commit.moved(None, "");
    assert!(matches!(commit.action(), CommitAction::Done(Ok(()))));
    assert!(commit.outcome().is_ok());
}

#[test]
fn failed_imports_are_rolled_back() {
    let mut commit = Commit::new(pairs());
    commit.looked(Reservation::Empty("/t1.aside".to_owned()));
    commit.moved(None, "");
    commit.looked(Reservation::Free);
    commit.moved(None, "");
    let refused = LegacyMigrationError::Io {
        action: "rename".to_owned(),
        path: "/s2".to_owned(),
        source: "disk full".to_owned(),
    };
    commit.moved(Some(refused), "disk full");
    assert!(matches!(
        commit.action(),
        CommitAction::Undo(rename) if rename.from == "/t1" && rename.to == "/s1"
    ));
    commit.undone(None);
    assert!(matches!(
        commit.action(),
        CommitAction::Undo(rename) if rename.from == "/t1.aside" && rename.to == "/t1"
    ));
    commit.undone(Some("busy".to_owned()));
    match commit.outcome() {
        Err(LegacyMigrationError::Commit { commit, rollback }) => {
            assert!(commit.contains("disk full"));
            assert!(rollback.contains("busy"));
        }
        _ => panic!("a failed import was expected"),
    }
}

#[test]
fn the_configuration_is_published_last() {
    let pairs = staged_pairs(&directories("/stage"), &directories("/home"));
    let named: Vec<(&str, &str)> =
        pairs.iter().map(|pair| (pair.stage.as_str(), pair.target.as_str())).collect();
    assert_eq!(
        named,
        [
            ("/stage/data", "/home/data"),
            ("/stage/cache", "/home/cache"),
            ("/stage/config", "/home/config"),
        ]
    );
}

#[test]
fn imports_that_were_taken_back_end_in_their_own_error() {
    let refused = || LegacyMigrationError::Io {
        action: "rename".to_owned(),
        path: "/t2".to_owned(),
        source: "disk full".to_owned(),
    };
    let mut commit = Commit::new(pairs());
    commit.looked(Reservation::Free);
    commit.looked(Reservation::Empty("/t2.aside".to_owned()));
    commit.moved(Some(refused()), "disk full");
    assert!(matches!(
        commit.outcome(),
        Err(LegacyMigrationError::Io { action, path, source })
            if action == "rename" && path == "/t2" && source == "disk full"
    ));

    let mut commit = Commit::new(pairs());
    commit.looked(Reservation::Free);
    commit.looked(Reservation::Free);
    commit.moved(None, "");
    commit.moved(Some(refused()), "disk full");
    assert!(matches!(
        commit.action(),
        CommitAction::Undo(rename) if rename.from == "/t1" && rename.to == "/s1"
    ));
    commit.undone(None);
    assert!(matches!(
        commit.outcome(),
        Err(LegacyMigrationError::Commit { commit, rollback })
            if commit == "/s2 -> /t2: disk full" && rollback == "completed"
    ));
}

#[test]
fn changed_targets_stop_the_import() {
    let mut commit = Commit::new(pairs());
    commit.looked(Reservation::Changed);
    assert!(matches!(
        commit.action(),
        CommitAction::Done(Err(LegacyMigrationError::TargetChanged(path))) if path == "/t1"
    ));
}

#[test]
fn paths_are_taken_apart() {
    assert_eq!(file_name("/a/b.txt"), Some("b.txt".to_owned()));
    assert_eq!(file_name("/"), None);
    assert_eq!(extension("/a/b.TXT"), Some("TXT".to_owned()));
    assert_eq!(extension("/a/.hidden"), None);
    assert_eq!(lower_extension("/a/b.TXT"), Some("txt".to_owned()));
    assert_eq!(with_file_name("/a/b.txt", "c"), "/a/c");
    assert_eq!(join_path("/a", "b"), "/a/b");
    assert_eq!(join_path("/a", "/b"), "/b");
    assert_eq!(sibling("/a/b", "c"), Some("/a/c".to_owned()));
    assert_eq!(
        normalized_absolute("/a/./b/../c"),
        vec!["/".to_owned(), "a".to_owned(), "c".to_owned()]
    );
    assert_eq!(
        sort_paths(&vec!["b".to_owned(), "a/z".to_owned(), "a".to_owned()]),
        vec!["a".to_owned(), "a/z".to_owned(), "b".to_owned()]
    );
    assert!(temporary_sibling("/a/b", "stage", 1, 2).expect("path").starts_with("/a/"));
    assert_eq!(temporary_sibling("/", "stage", 1, 2), None);
}
