//! The one-time import of the state that an earlier, unconfined installation left behind: whether
//! it is offered, what is taken over, and how a failed import is undone.

use crate::domain::Timestamp;
use crate::json::{Json, JsonView};
use crate::outside::read_bytes;
use crate::paths::{
    file_name, join_path, path_comes_before, path_is_within_any, paths_overlap, sibling,
    sort_paths,
};
use crate::text::{
    chars_of, comes_before, concat, concat3, decimal, eq_ignore_ascii_case, list_texts, lower_char,
    same_text, signed_decimal,
};
use vstd::prelude::*;

verus! {

pub const FLATPAK_APP_ID: &'static str = "io.github.EnchiladaBoy.VideoHarness";

pub const LEGACY_APP_DIRECTORY: &'static str = "openrouter-video-studio";

pub const MIGRATION_MARKER_FILE: &'static str = "legacy-import-v1.json";

pub const MARKER_SCHEMA_VERSION: u32 = 1;

pub const SUPPORTED_HISTORY_SCHEMA_VERSION: i64 = 2;

pub const SUPPORTED_GUI_STATE_SCHEMA_VERSION: i64 = 1;

/// The largest settings file that is taken over.
pub const MAX_JSON_BYTES: u64 = 67_108_864;

/// Why an import did not happen.
#[derive(Debug)]
pub enum LegacyMigrationError {
    HomeUnavailable,
    SourceTargetOverlap(String),
    UnsafeSource { path: String, reason: String },
    Io { action: String, path: String, source: String },
    Database { path: String, source: String },
    DatabaseIntegrity { path: String, detail: String },
    UnsupportedDatabaseSchema { database: String, found: i64, supported: i64 },
    InvalidJson { path: String, source: String },
    JsonTooLarge { path: String },
    CredentialInSettings { path: String },
    InvalidSettingsDocument { path: String },
    UnsupportedAppSettingsSchema { found: u64, supported: u32 },
    InvalidMarker { path: String, source: String },
    UnsupportedMarkerSchema { found: u32, supported: u32 },
    TargetChanged(String),
    Commit { commit: String, rollback: String },
}

/// The message of a failure.
pub open spec fn message_of(error: LegacyMigrationError) -> Seq<char> {
    match error {
        LegacyMigrationError::HomeUnavailable =>
            "HOME is unavailable; cannot locate the pre-Flatpak application data"@,
        LegacyMigrationError::SourceTargetOverlap(path) =>
            "legacy and Flatpak target storage overlap at "@ + path@,
        LegacyMigrationError::UnsafeSource { path, reason } =>
            "unsafe legacy migration source at "@ + path@ + ": "@ + reason@,
        LegacyMigrationError::Io { action, path, source } => "could not "@ + action@ + " "@ + path@
            + ": "@ + source@,
        LegacyMigrationError::Database { path, source } => "could not read SQLite database "@
            + path@ + ": "@ + source@,
        LegacyMigrationError::DatabaseIntegrity { path, detail } =>
            "SQLite integrity check failed for "@ + path@ + ": "@ + detail@,
        LegacyMigrationError::UnsupportedDatabaseSchema { database, found, supported } => database@
            + " schema version "@ + crate::text::signed_numeral(found as int)
            + " is newer than this release supports ("@ + crate::text::signed_numeral(
            supported as int,
        ) + ")"@,
        LegacyMigrationError::InvalidJson { path, source } => "legacy JSON file "@ + path@
            + " is invalid: "@ + source@,
        LegacyMigrationError::JsonTooLarge { path } => "legacy JSON file "@ + path@
            + " is too large to import safely"@,
        LegacyMigrationError::CredentialInSettings { path } => "legacy settings file "@ + path@
            + " may contain credentials and was not imported"@,
        LegacyMigrationError::InvalidSettingsDocument { path } => "legacy settings file "@ + path@
            + " has an invalid document shape"@,
        LegacyMigrationError::UnsupportedAppSettingsSchema { found, supported } =>
            "app settings schema version "@ + crate::text::numeral(found as nat)
            + " is newer than this release supports ("@ + crate::text::numeral(supported as nat)
            + ")"@,
        LegacyMigrationError::InvalidMarker { path, source } => "migration marker "@ + path@
            + " is invalid: "@ + source@,
        LegacyMigrationError::UnsupportedMarkerSchema { found, supported } =>
            "migration marker schema version "@ + crate::text::numeral(found as nat)
            + " is newer than this release supports ("@ + crate::text::numeral(supported as nat)
            + ")"@,
        LegacyMigrationError::TargetChanged(path) =>
            "the target changed while legacy data was being imported: "@ + path@,
        LegacyMigrationError::Commit { commit, rollback } =>
            "could not commit the staged migration: "@ + commit@ + "; rollback: "@ + rollback@,
    }
}

fn four(a: &str, b: &str, c: &str, d: &str) -> (s: String)
    ensures
        s@ == a@ + b@ + c@ + d@,
{
    let head = concat3(a, b, c);
    concat(head.as_str(), d)
}

impl LegacyMigrationError {
    /// The message of the failure.
    pub fn message(&self) -> (s: String)
        ensures
            s@ == message_of(*self),
    {
        match self {
            LegacyMigrationError::HomeUnavailable =>
                "HOME is unavailable; cannot locate the pre-Flatpak application data".to_owned(),
            LegacyMigrationError::SourceTargetOverlap(path) => concat(
                "legacy and Flatpak target storage overlap at ",
                path.as_str(),
            ),
            LegacyMigrationError::UnsafeSource { path, reason } => four(
                "unsafe legacy migration source at ",
                path.as_str(),
                ": ",
                reason.as_str(),
            ),
            LegacyMigrationError::Io { action, path, source } => {
                let head = four("could not ", action.as_str(), " ", path.as_str());
                concat3(head.as_str(), ": ", source.as_str())
            },
            LegacyMigrationError::Database { path, source } => four(
                "could not read SQLite database ",
                path.as_str(),
                ": ",
                source.as_str(),
            ),
            LegacyMigrationError::DatabaseIntegrity { path, detail } => four(
                "SQLite integrity check failed for ",
                path.as_str(),
                ": ",
                detail.as_str(),
            ),
            LegacyMigrationError::UnsupportedDatabaseSchema { database, found, supported } => {
                let f = signed_decimal(*found);
                let s = signed_decimal(*supported);
                let head = four(
                    database.as_str(),
                    " schema version ",
                    f.as_str(),
                    " is newer than this release supports (",
                );
                concat3(head.as_str(), s.as_str(), ")")
            },
            LegacyMigrationError::InvalidJson { path, source } => four(
                "legacy JSON file ",
                path.as_str(),
                " is invalid: ",
                source.as_str(),
            ),
            LegacyMigrationError::JsonTooLarge { path } => concat3(
                "legacy JSON file ",
                path.as_str(),
                " is too large to import safely",
            ),
            LegacyMigrationError::CredentialInSettings { path } => concat3(
                "legacy settings file ",
                path.as_str(),
                " may contain credentials and was not imported",
            ),
            LegacyMigrationError::InvalidSettingsDocument { path } => concat3(
                "legacy settings file ",
                path.as_str(),
                " has an invalid document shape",
            ),
            LegacyMigrationError::UnsupportedAppSettingsSchema { found, supported } => {
                let f = decimal(*found);
                let s = decimal(*supported as u64);
                let head = concat3(
                    "app settings schema version ",
                    f.as_str(),
                    " is newer than this release supports (",
                );
                concat3(head.as_str(), s.as_str(), ")")
            },
            LegacyMigrationError::InvalidMarker { path, source } => four(
                "migration marker ",
                path.as_str(),
                " is invalid: ",
                source.as_str(),
            ),
            LegacyMigrationError::UnsupportedMarkerSchema { found, supported } => {
                let f = decimal(*found as u64);
                let s = decimal(*supported as u64);
                let head = concat3(
                    "migration marker schema version ",
                    f.as_str(),
                    " is newer than this release supports (",
                );
                concat3(head.as_str(), s.as_str(), ")")
            },
            LegacyMigrationError::TargetChanged(path) => concat(
                "the target changed while legacy data was being imported: ",
                path.as_str(),
            ),
            LegacyMigrationError::Commit { commit, rollback } => four(
                "could not commit the staged migration: ",
                commit.as_str(),
                "; rollback: ",
                rollback.as_str(),
            ),
        }
    }
}

/// Where the program keeps its files.
#[derive(Debug)]
pub struct AppPaths {
    pub data_dir: String,
    pub cache_dir: String,
    pub config_dir: String,
    pub videos_dir: String,
}

/// The three directories that are taken over, or taken over into.
#[derive(Debug)]
pub struct MigrationDirectories {
    pub data_dir: String,
    pub cache_dir: String,
    pub config_dir: String,
}

/// The paths of three directories.
pub open spec fn directories(d: MigrationDirectories) -> Seq<Seq<char>> {
    seq![d.data_dir@, d.cache_dir@, d.config_dir@]
}

impl MigrationDirectories {
    /// The directories of an unconfined installation under a home directory.
    pub fn legacy_for_home(home: &str) -> (d: MigrationDirectories)
        ensures
            d.data_dir@ == crate::paths::joined(
                crate::paths::joined(home@, ".local/share"@),
                LEGACY_APP_DIRECTORY@,
            ),
            d.cache_dir@ == crate::paths::joined(
                crate::paths::joined(home@, ".cache"@),
                LEGACY_APP_DIRECTORY@,
            ),
            d.config_dir@ == crate::paths::joined(
                crate::paths::joined(home@, ".config"@),
                LEGACY_APP_DIRECTORY@,
            ),
    {
        let share = join_path(home, ".local/share");
        let cache = join_path(home, ".cache");
        let config = join_path(home, ".config");
        MigrationDirectories {
            data_dir: join_path(share.as_str(), LEGACY_APP_DIRECTORY),
            cache_dir: join_path(cache.as_str(), LEGACY_APP_DIRECTORY),
            config_dir: join_path(config.as_str(), LEGACY_APP_DIRECTORY),
        }
    }

    /// The directories of this installation.
    pub fn from_app_paths(paths: &AppPaths) -> (d: MigrationDirectories)
        ensures
            directories(d) == seq![paths.data_dir@, paths.cache_dir@, paths.config_dir@],
    {
        MigrationDirectories {
            data_dir: paths.data_dir.clone(),
            cache_dir: paths.cache_dir.clone(),
            config_dir: paths.config_dir.clone(),
        }
    }

    /// The three paths.
    pub fn all(&self) -> (list: Vec<String>)
        ensures
            crate::text::texts(list@) == directories(*self),
    {
        let mut list: Vec<String> = Vec::new();
        list.push(self.data_dir.clone());
        list.push(self.cache_dir.clone());
        list.push(self.config_dir.clone());
        assert(crate::text::texts(list@) =~= directories(*self));
        list
    }
}

/// What the user wants.
#[derive(Debug, Clone, Copy, PartialEq, Eq, Structural)]
pub enum LegacyMigrationConsent {
    Import,
    StartClean,
}

/// What was decided.
#[derive(Debug, Clone, Copy, PartialEq, Eq, Structural)]
pub enum LegacyMigrationDecision {
    Imported,
    Declined,
}

/// Why a local file has to be chosen again.
#[derive(Debug, Clone, Copy, PartialEq, Eq, Structural)]
pub enum RelinkReason {
    OutsideSandbox,
    Missing,
}

/// A local file that has to be chosen again.
#[derive(Debug)]
pub struct RelinkRequired {
    pub draft_id: String,
    pub media_id: String,
    pub path: String,
    pub reason: RelinkReason,
}

/// What was taken over.
#[derive(Debug)]
pub struct LegacyMigrationReport {
    pub imported_history: bool,
    pub imported_gui_state: bool,
    pub config_files: Vec<String>,
    pub cache_files: Vec<String>,
    pub relink_required: Vec<RelinkRequired>,
}

/// The record of the decision.
#[derive(Debug)]
pub struct LegacyMigrationMarker {
    pub schema_version: u32,
    pub decision: LegacyMigrationDecision,
    pub completed_at: Timestamp,
    pub report: Option<LegacyMigrationReport>,
}

/// What there is to take over.
#[derive(Debug, Clone, Copy, PartialEq, Eq, Structural)]
pub struct LegacyMigrationInventory {
    pub history_database: bool,
    pub gui_state_database: bool,
    pub config_file_count: usize,
    pub cache_file_count: usize,
}

impl LegacyMigrationInventory {
    /// Whether there is nothing to take over.
    pub open spec fn nothing(self) -> bool {
        !self.history_database && !self.gui_state_database && self.config_file_count == 0
            && self.cache_file_count == 0
    }

    /// Whether there is nothing to take over.
    pub fn is_empty(&self) -> (b: bool)
        ensures
            b == self.nothing(),
    {
        !self.history_database && !self.gui_state_database && self.config_file_count == 0
            && self.cache_file_count == 0
    }
}

/// Checks a marker's version.
pub fn check_marker(marker: &LegacyMigrationMarker) -> (r: Result<(), LegacyMigrationError>)
    ensures
        match r {
            Ok(_) => marker.schema_version <= MARKER_SCHEMA_VERSION,
            Err(e) => marker.schema_version > MARKER_SCHEMA_VERSION && e == (
            LegacyMigrationError::UnsupportedMarkerSchema {
                found: marker.schema_version,
                supported: MARKER_SCHEMA_VERSION,
            }),
        },
{
    if marker.schema_version > MARKER_SCHEMA_VERSION {
        return Err(
            LegacyMigrationError::UnsupportedMarkerSchema {
                found: marker.schema_version,
                supported: MARKER_SCHEMA_VERSION,
            },
        );
    }
    Ok(())
}

/// The files that have to be chosen again, by the record of the decision.
pub fn pending_relinks(marker: &Option<LegacyMigrationMarker>) -> (list: Option<
    &Vec<RelinkRequired>,
>)
    ensures
        match list {
            Some(items) => *marker matches Some(m) && m.report matches Some(report) && *items
                == report.relink_required,
            None => *marker is None || marker->0.report is None,
        },
{
    match marker {
        Some(m) => match &m.report {
            Some(report) => Some(&report.relink_required),
            None => None,
        },
        None => None,
    }
}

/// Whether an entry is about a media item of a draft.
pub open spec fn about(item: RelinkRequired, draft_id: Seq<char>, media_id: Seq<char>) -> bool {
    item.draft_id@ == draft_id && item.media_id@ == media_id
}

/// The entries that are about other items.
pub open spec fn about_others(
    list: Seq<RelinkRequired>,
    draft_id: Seq<char>,
    media_id: Seq<char>,
) -> Seq<RelinkRequired> {
    list.filter(|item: RelinkRequired| !about(item, draft_id, media_id))
}

/// Strikes a file that was chosen again off the list; `true` if it was on the list of an import.
pub fn acknowledge_relink(marker: &mut LegacyMigrationMarker, draft_id: &str, media_id: &str) -> (
    changed: bool)
    ensures
        final(marker).schema_version == old(marker).schema_version,
        final(marker).decision == old(marker).decision,
        final(marker).completed_at == old(marker).completed_at,
        match old(marker).report {
            Some(report) if old(marker).decision == LegacyMigrationDecision::Imported => {
                let kept = about_others(report.relink_required@, draft_id@, media_id@);
                &&& changed == (kept.len() < report.relink_required@.len())
                &&& final(marker).report matches Some(after)
                &&& after.relink_required@ == (if changed {
                    kept
                } else {
                    report.relink_required@
                })
                &&& after.imported_history == report.imported_history
                &&& after.imported_gui_state == report.imported_gui_state
                &&& after.config_files == report.config_files
                &&& after.cache_files == report.cache_files
            },
            _ => !changed && final(marker).report == old(marker).report,
        },
{
    if !matches!(marker.decision, LegacyMigrationDecision::Imported) {
        return false;
    }
    let taken = marker.report.take();
    let report = match taken {
        Some(report) => report,
        None => {
            return false;
        },
    };
    let LegacyMigrationReport {
        imported_history,
        imported_gui_state,
        config_files,
        cache_files,
        relink_required,
    } = report;
    let ghost all = relink_required@;
    let before: usize = relink_required.len();
    let mut kept = relink_required;
    let mut i: usize = 0;
    let ghost mut seen: int = 0;
    assert(all.take(0) =~= Seq::<RelinkRequired>::empty());
    assert(about_others(all.take(0), draft_id@, media_id@) =~= Seq::<RelinkRequired>::empty()) by {
        reveal(Seq::filter);
    }
    assert(kept@ =~= about_others(all.take(0), draft_id@, media_id@) + all.skip(0));
    while i < kept.len()
        invariant
            0 <= seen <= all.len(),
            all.len() == before,
            i == about_others(all.take(seen), draft_id@, media_id@).len(),
            kept@ == about_others(all.take(seen), draft_id@, media_id@) + all.skip(seen),
        decreases all.len() - seen,
    {
        let ghost done = about_others(all.take(seen), draft_id@, media_id@);
        proof {
            reveal(Seq::filter);
            assert(kept@[i as int] == all[seen]);
            assert(all.take(seen + 1).drop_last() =~= all.take(seen));
            assert(all.take(seen + 1).last() == all[seen]);
        }
        let same = same_text(kept[i].draft_id.as_str(), draft_id) && same_text(
            kept[i].media_id.as_str(),
            media_id,
        );
        if same {
            kept.remove(i);
            assert(kept@ =~= done + all.skip(seen + 1));
        } else {
            i = i + 1;
            assert(kept@ =~= done.push(all[seen]) + all.skip(seen + 1));
        }
        proof {
            seen = seen + 1;
        }
    }
    proof {
        assert(all.skip(seen).len() == 0);
        assert(all.take(all.len() as int) =~= all);
        assert(kept@ =~= about_others(all, draft_id@, media_id@));
    }
    proof {
        all.lemma_filter_len(|item: RelinkRequired| !about(item, draft_id@, media_id@));
    }
    let changed = kept.len() < before;
    proof {
        if !changed {
            filter_all(all, |item: RelinkRequired| !about(item, draft_id@, media_id@));
        }
    }
    marker.report = Some(
        LegacyMigrationReport {
            imported_history,
            imported_gui_state,
            config_files,
            cache_files,
            relink_required: kept,
        },
    );
    changed
}

proof fn filter_all<A>(s: Seq<A>, f: spec_fn(A) -> bool)
    requires
        s.filter(f).len() >= s.len(),
    ensures
        s.filter(f) == s,
    decreases s.len(),
{
    reveal(Seq::filter);
    if s.len() > 0 {
        s.drop_last().lemma_filter_len(f);
        filter_all(s.drop_last(), f);
    }
}

/// Once a file has been chosen again, the list does not ask for it any more.
pub proof fn acknowledged_files_are_not_asked_for(
    list: Seq<RelinkRequired>,
    draft_id: Seq<char>,
    media_id: Seq<char>,
)
    ensures
        forall|i: int|
            0 <= i < about_others(list, draft_id, media_id).len() ==> !about(
                #[trigger] about_others(list, draft_id, media_id)[i],
                draft_id,
                media_id,
            ),
{
    let f = |item: RelinkRequired| !about(item, draft_id, media_id);
    assert forall|i: int| 0 <= i < about_others(list, draft_id, media_id).len() implies !about(
        #[trigger] about_others(list, draft_id, media_id)[i],
        draft_id,
        media_id,
    ) by {
        list.lemma_filter_pred(f, i);
    }
}

/// An import from one set of directories into another.
#[derive(Debug)]
pub struct LegacyMigration {
    flatpak: bool,
    source: MigrationDirectories,
    target: MigrationDirectories,
    videos_dir: String,
    additional_accessible_roots: Vec<String>,
}

impl LegacyMigration {
    /// Whether this installation is a confined one.
    pub closed spec fn confined(self) -> bool {
        self.flatpak
    }

    /// The directories that are taken over.
    pub closed spec fn spec_source(self) -> MigrationDirectories {
        self.source
    }

    /// The directories that they are taken over into.
    pub closed spec fn spec_target(self) -> MigrationDirectories {
        self.target
    }

    /// The directory of finished videos.
    pub closed spec fn videos(self) -> Seq<char> {
        self.videos_dir@
    }

    /// The further directories that a confined installation can read.
    pub closed spec fn further_roots(self) -> Seq<Seq<char>> {
        crate::text::texts(self.additional_accessible_roots@)
    }

    /// The import between directories that are found in the usual places. `home` and `runtime` are
    /// the directories that the environment names, and `flatpak_id` its name for the confinement.
    pub fn discover(
        home: Option<String>,
        flatpak_id: Option<String>,
        runtime: Option<String>,
        target: &AppPaths,
    ) -> (r: Result<LegacyMigration, LegacyMigrationError>)
        ensures
            match home {
                Some(h) if h@.len() > 0 => {
                    &&& r matches Ok(migration)
                    &&& migration.confined() == (crate::domain::opt_view(flatpak_id) == Some(
                        FLATPAK_APP_ID@,
                    ))
                    &&& directories(migration.spec_source()) == legacy_directories(h@)
                    &&& directories(migration.spec_target()) == seq![
                        target.data_dir@,
                        target.cache_dir@,
                        target.config_dir@,
                    ]
                    &&& migration.videos() == target.videos_dir@
                    &&& migration.further_roots() == match runtime {
                        Some(dir) if dir@.len() > 0 => seq![
                            crate::paths::joined(dir@, "doc"@),
                        ],
                        _ => Seq::empty(),
                    }
                },
                _ => r == Err::<LegacyMigration, LegacyMigrationError>(
                    LegacyMigrationError::HomeUnavailable,
                ),
            },
    {
        let home = match home {
            Some(home) => home,
            None => {
                return Err(LegacyMigrationError::HomeUnavailable);
            },
        };
        if home.as_str().is_empty() {
            return Err(LegacyMigrationError::HomeUnavailable);
        }
        let flatpak = match &flatpak_id {
            Some(id) => same_text(id.as_str(), FLATPAK_APP_ID),
            None => false,
        };
        let mut roots: Vec<String> = Vec::new();
        if let Some(dir) = &runtime {
            if !dir.as_str().is_empty() {
                roots.push(join_path(dir.as_str(), "doc"));
            }
        }
        let migration = LegacyMigration {
            flatpak,
            source: MigrationDirectories::legacy_for_home(home.as_str()),
            target: MigrationDirectories::from_app_paths(target),
            videos_dir: target.videos_dir.clone(),
            additional_accessible_roots: roots,
        };
        proof {
            assert(directories(migration.spec_source()) =~= legacy_directories(home@));
            match runtime {
                Some(dir) if dir@.len() > 0 => {
                    assert(migration.further_roots() =~= seq![
                        crate::paths::joined(dir@, "doc"@),
                    ]);
                },
                _ => {
                    assert(migration.further_roots() =~= Seq::<Seq<char>>::empty());
                },
            }
        }
        Ok(migration)
    }

    /// The import between given directories.
    pub fn for_paths(
        flatpak: bool,
        source: MigrationDirectories,
        target: MigrationDirectories,
        videos_dir: String,
    ) -> (migration: LegacyMigration)
        ensures
            migration.confined() == flatpak,
            migration.spec_source() == source,
            migration.spec_target() == target,
            migration.videos() == videos_dir@,
            migration.further_roots() == Seq::<Seq<char>>::empty(),
    {
        let migration = LegacyMigration {
            flatpak,
            source,
            target,
            videos_dir,
            additional_accessible_roots: Vec::new(),
        };
        assert(migration.further_roots() =~= Seq::<Seq<char>>::empty());
        migration
    }

    /// The same import with one more directory that a confined installation can read.
    pub fn with_accessible_root(self, root: String) -> (migration: LegacyMigration)
        ensures
            migration.confined() == self.confined(),
            migration.spec_source() == self.spec_source(),
            migration.spec_target() == self.spec_target(),
            migration.videos() == self.videos(),
            migration.further_roots() == self.further_roots().push(root@),
    {
        let LegacyMigration { flatpak, source, target, videos_dir, additional_accessible_roots } =
            self;
        let mut roots = additional_accessible_roots;
        roots.push(root);
        let migration = LegacyMigration {
            flatpak,
            source,
            target,
            videos_dir,
            additional_accessible_roots: roots,
        };
        assert(migration.further_roots() =~= self.further_roots().push(root@));
        migration
    }

    /// The directories that are taken over.
    pub fn source(&self) -> (d: &MigrationDirectories)
        ensures
            *d == self.spec_source(),
    {
        &self.source
    }

    /// The directories that they are taken over into.
    pub fn target(&self) -> (d: &MigrationDirectories)
        ensures
            *d == self.spec_target(),
    {
        &self.target
    }

    /// Where the record of the decision stands.
    pub fn marker_path(&self) -> (path: String)
        ensures
            path@ == crate::paths::joined(
                self.spec_target().config_dir@,
                MIGRATION_MARKER_FILE@,
            ),
    {
        join_path(self.target.config_dir.as_str(), MIGRATION_MARKER_FILE)
    }

    /// Checks that what is taken over and what it is taken over into are apart.
    pub fn validate_separate_storage(&self) -> (r: Result<(), LegacyMigrationError>)
        ensures
            match r {
                Ok(_) => first_overlap(
                    directories(self.spec_source()),
                    directories(self.spec_target()),
                ) is None,
                Err(LegacyMigrationError::SourceTargetOverlap(path)) => first_overlap(
                    directories(self.spec_source()),
                    directories(self.spec_target()),
                ) == Some(path@),
                Err(_) => false,
            },
    {
        let sources = self.source.all();
        let targets = self.target.all();
        let ghost from = crate::text::texts(sources@);
        let ghost into = crate::text::texts(targets@);
        let mut i: usize = 0;
        assert(from.skip(0) =~= from);
        while i < sources.len()
            invariant
                i <= sources@.len(),
                from == crate::text::texts(sources@),
                into == crate::text::texts(targets@),
                from == directories(self.spec_source()),
                into == directories(self.spec_target()),
                first_overlap(from, into) == first_overlap(from.skip(i as int), into),
            decreases sources@.len() - i,
        {
            assert(from.skip(i as int)[0] == sources@[i as int]@);
            let mut k: usize = 0;
            while k < targets.len()
                invariant
                    i < sources@.len(),
                    k <= targets@.len(),
                    from == crate::text::texts(sources@),
                    into == crate::text::texts(targets@),
                    from == directories(self.spec_source()),
                    into == directories(self.spec_target()),
                    first_overlap(from, into) == first_overlap(from.skip(i as int), into),
                    from.skip(i as int)[0] == sources@[i as int]@,
                    forall|j: int|
                        0 <= j < k ==> !crate::paths::overlap(
                            sources@[i as int]@,
                            #[trigger] into[j],
                        ),
                decreases targets@.len() - k,
            {
                assert(into[k as int] == targets@[k as int]@);
                if paths_overlap(sources[i].as_str(), targets[k].as_str()) {
                    return Err(LegacyMigrationError::SourceTargetOverlap(sources[i].clone()));
                }
                k = k + 1;
            }
            assert(from.skip(i as int).skip(1) =~= from.skip(i + 1));
            i = i + 1;
        }
        Ok(())
    }

    /// The directories in which a confined installation can read files.
    pub fn accessible_roots(&self) -> (roots: Vec<String>)
        ensures
            crate::text::texts(roots@) == seq![self.videos()] + directories(self.spec_target()) + directories(
                self.spec_source(),
            ) + self.further_roots(),
    {
        let mut roots: Vec<String> = Vec::new();
        roots.push(self.videos_dir.clone());
        roots.push(self.target.data_dir.clone());
        roots.push(self.target.cache_dir.clone());
        roots.push(self.target.config_dir.clone());
        roots.push(self.source.data_dir.clone());
        roots.push(self.source.cache_dir.clone());
        roots.push(self.source.config_dir.clone());
        let ghost fixed = crate::text::texts(roots@);
        assert(fixed =~= seq![self.videos()] + directories(self.spec_target()) + directories(
            self.spec_source(),
        ));
        let mut i: usize = 0;
        assert(self.further_roots().take(0) =~= Seq::<Seq<char>>::empty());
        assert(fixed + Seq::<Seq<char>>::empty() =~= fixed);
        while i < self.additional_accessible_roots.len()
            invariant
                i <= self.additional_accessible_roots@.len(),
                crate::text::texts(roots@) == fixed + self.further_roots().take(i as int),
            decreases self.additional_accessible_roots@.len() - i,
        {
            let ghost before = crate::text::texts(roots@);
            roots.push(self.additional_accessible_roots[i].clone());
            assert(self.further_roots()[i as int] == self.additional_accessible_roots@[i as int]@);
            assert(crate::text::texts(roots@) =~= before.push(self.further_roots()[i as int]));
            assert(crate::text::texts(roots@) =~= fixed + self.further_roots().take(i + 1));
            i = i + 1;
        }
        assert(self.further_roots().take(self.further_roots().len() as int)
            =~= self.further_roots());
        roots
    }
}

/// The directories of an unconfined installation under a home directory.
pub open spec fn legacy_directories(home: Seq<char>) -> Seq<Seq<char>> {
    seq![
        crate::paths::joined(crate::paths::joined(home, ".local/share"@), LEGACY_APP_DIRECTORY@),
        crate::paths::joined(crate::paths::joined(home, ".cache"@), LEGACY_APP_DIRECTORY@),
        crate::paths::joined(crate::paths::joined(home, ".config"@), LEGACY_APP_DIRECTORY@),
    ]
}

/// Whether a path overlaps one of some others.
pub open spec fn overlaps_any(path: Seq<char>, others: Seq<Seq<char>>) -> bool {
    exists|j: int| 0 <= j < others.len() && crate::paths::overlap(path, #[trigger] others[j])
}

/// The first path that overlaps one of the others.
pub open spec fn first_overlap(sources: Seq<Seq<char>>, targets: Seq<Seq<char>>) -> Option<
    Seq<char>,
>
    decreases sources.len(),
{
    if sources.len() == 0 {
        None
    } else if overlaps_any(sources[0], targets) {
        Some(sources[0])
    } else {
        first_overlap(sources.skip(1), targets)
    }
}

/// Whether an import is offered.
#[derive(Debug)]
pub enum LegacyMigrationEligibility {
    NotFlatpak,
    AlreadyDecided(LegacyMigrationMarker),
    TargetContainsData(String),
    NoLegacyData,
    NeedsConsent(LegacyMigrationInventory),
}

/// Why an import was skipped.
#[derive(Debug)]
pub enum LegacyMigrationSkipReason {
    NotFlatpak,
    TargetContainsData(String),
    NoLegacyData,
}

/// What became of an import.
#[derive(Debug)]
pub enum LegacyMigrationOutcome {
    Skipped(LegacyMigrationSkipReason),
    AlreadyDecided(LegacyMigrationMarker),
    Declined(LegacyMigrationMarker),
    Imported(LegacyMigrationReport),
}

/// Where an import stands: which question is open.
#[derive(Debug, Clone, Copy, PartialEq, Eq, Structural)]
pub enum Phase {
    /// Is there a record of a decision?
    Marker,
    /// Is there anything in the target?
    Target,
    /// What is there to take over?
    Inventory,
    /// Is there a record of a decision by now?
    MarkerAgain,
    /// Is there anything in the target by now?
    TargetAgain,
}

/// The answer to a question.
#[derive(Debug)]
pub enum Answer {
    Marker(Option<LegacyMigrationMarker>),
    Target(Option<String>),
    Inventory(LegacyMigrationInventory),
}

/// What comes next.
#[derive(Debug)]
pub enum MigrationStep {
    Ask(Phase),
    /// Record that the import was declined.
    Decline,
    /// Stage the import.
    Import,
    /// There is something to take over, and the user is to be asked.
    Offer(LegacyMigrationInventory),
    Done(LegacyMigrationOutcome),
    Fail(LegacyMigrationError),
}

/// What is to be found out: whether to offer an import, or what to do as the user wants.
#[derive(Debug, Clone, Copy, PartialEq, Eq, Structural)]
pub enum Purpose {
    Assess,
    Run(LegacyMigrationConsent),
}

/// Whether an answer is one to the question.
pub open spec fn answers(phase: Phase, answer: Answer) -> bool {
    match phase {
        Phase::Marker => answer is Marker,
        Phase::MarkerAgain => answer is Marker,
        Phase::Target => answer is Target,
        Phase::TargetAgain => answer is Target,
        Phase::Inventory => answer is Inventory,
    }
}

/// What comes after an answer.
pub open spec fn after_answer(purpose: Purpose, phase: Phase, answer: Answer) -> MigrationStep {
    match answer {
        Answer::Marker(Some(marker)) => MigrationStep::Done(
            LegacyMigrationOutcome::AlreadyDecided(marker),
        ),
        Answer::Marker(None) => MigrationStep::Ask(
            if phase == Phase::Marker {
                Phase::Target
            } else {
                Phase::TargetAgain
            },
        ),
        Answer::Target(Some(path)) => MigrationStep::Done(
            LegacyMigrationOutcome::Skipped(
                LegacyMigrationSkipReason::TargetContainsData(path),
            ),
        ),
        Answer::Target(None) => if phase == Phase::TargetAgain {
            MigrationStep::Import
        } else if purpose == Purpose::Run(LegacyMigrationConsent::StartClean) {
            MigrationStep::Decline
        } else {
            MigrationStep::Ask(Phase::Inventory)
        },
        Answer::Inventory(inventory) => if inventory.nothing() {
            MigrationStep::Done(
                LegacyMigrationOutcome::Skipped(LegacyMigrationSkipReason::NoLegacyData),
            )
        } else if purpose == Purpose::Assess {
            MigrationStep::Offer(inventory)
        } else {
            MigrationStep::Ask(Phase::MarkerAgain)
        },
    }
}

impl LegacyMigration {
    /// What comes first.
    pub fn first_step(&self) -> (step: MigrationStep)
        ensures
            if !self.confined() {
                step == MigrationStep::Done(
                    LegacyMigrationOutcome::Skipped(LegacyMigrationSkipReason::NotFlatpak),
                )
            } else {
                match first_overlap(
                    directories(self.spec_source()),
                    directories(self.spec_target()),
                ) {
                    Some(path) => step matches MigrationStep::Fail(
                        LegacyMigrationError::SourceTargetOverlap(own),
                    ) && own@ == path,
                    None => step == MigrationStep::Ask(Phase::Marker),
                }
            },
    {
        if !self.flatpak {
            return MigrationStep::Done(
                LegacyMigrationOutcome::Skipped(LegacyMigrationSkipReason::NotFlatpak),
            );
        }
        match self.validate_separate_storage() {
            Ok(_) => MigrationStep::Ask(Phase::Marker),
            Err(e) => MigrationStep::Fail(e),
        }
    }
}

/// Decides what comes after an answer.
pub fn next_step(purpose: Purpose, phase: Phase, answer: Answer) -> (step: MigrationStep)
    requires
        answers(phase, answer),
    ensures
        step == after_answer(purpose, phase, answer),
{
    match answer {
        Answer::Marker(Some(marker)) => MigrationStep::Done(
            LegacyMigrationOutcome::AlreadyDecided(marker),
        ),
        Answer::Marker(None) => match phase {
            Phase::Marker => MigrationStep::Ask(Phase::Target),
            _ => MigrationStep::Ask(Phase::TargetAgain),
        },
        Answer::Target(Some(path)) => MigrationStep::Done(
            LegacyMigrationOutcome::Skipped(
                LegacyMigrationSkipReason::TargetContainsData(path),
            ),
        ),
        Answer::Target(None) => match phase {
            Phase::TargetAgain => MigrationStep::Import,
            _ => match purpose {
                Purpose::Run(LegacyMigrationConsent::StartClean) => MigrationStep::Decline,
                _ => MigrationStep::Ask(Phase::Inventory),
            },
        },
        Answer::Inventory(inventory) => {
            if inventory.is_empty() {
                return MigrationStep::Done(
                    LegacyMigrationOutcome::Skipped(LegacyMigrationSkipReason::NoLegacyData),
                );
            }
            match purpose {
                Purpose::Assess => MigrationStep::Offer(inventory),
                _ => MigrationStep::Ask(Phase::MarkerAgain),
            }
        },
    }
}

/// The questions that a run asks, in order, and the answers that it got.
pub open spec fn consistent_run(purpose: Purpose, phases: Seq<Phase>, given: Seq<Answer>) -> bool {
    &&& phases.len() == given.len()
    &&& phases.len() > 0 ==> phases[0] == Phase::Marker
    &&& forall|i: int| 0 <= i < phases.len() ==> answers(#[trigger] phases[i], given[i])
    &&& forall|i: int|
        1 <= i < phases.len() ==> MigrationStep::Ask(#[trigger] phases[i]) == after_answer(
            purpose,
            phases[i - 1],
            given[i - 1],
        )
}

/// Nothing is imported unless the user wants it, there is something to take over, and neither
/// before nor after the look at it was there a record of a decision or anything in the target.
pub proof fn imports_need_consent_and_an_empty_target(
    purpose: Purpose,
    phases: Seq<Phase>,
    given: Seq<Answer>,
)
    requires
        consistent_run(purpose, phases, given),
        phases.len() > 0,
        after_answer(purpose, phases.last(), given.last()) == MigrationStep::Import,
    ensures
        purpose == Purpose::Run(LegacyMigrationConsent::Import),
        phases == seq![
            Phase::Marker,
            Phase::Target,
            Phase::Inventory,
            Phase::MarkerAgain,
            Phase::TargetAgain,
        ],
        given[0] == Answer::Marker(None),
        given[1] == Answer::Target(None),
        given[2] matches Answer::Inventory(inventory) && !inventory.nothing(),
        given[3] == Answer::Marker(None),
        given[4] == Answer::Target(None),
{
    let n = phases.len() as int;
    assert(phases[n - 1] == Phase::TargetAgain);
    assert(n - 1 > 0);
    assert(MigrationStep::Ask(phases[n - 1]) == after_answer(purpose, phases[n - 2], given[n - 2]));
    assert(answers(phases[n - 2], given[n - 2]));
    assert(phases[n - 2] == Phase::MarkerAgain);
    assert(n - 2 > 0);
    assert(MigrationStep::Ask(phases[n - 2]) == after_answer(purpose, phases[n - 3], given[n - 3]));
    assert(answers(phases[n - 3], given[n - 3]));
    assert(phases[n - 3] == Phase::Inventory);
    assert(n - 3 > 0);
    assert(MigrationStep::Ask(phases[n - 3]) == after_answer(purpose, phases[n - 4], given[n - 4]));
    assert(answers(phases[n - 4], given[n - 4]));
    assert(phases[n - 4] == Phase::Target);
    assert(n - 4 > 0);
    assert(MigrationStep::Ask(phases[n - 4]) == after_answer(purpose, phases[n - 5], given[n - 5]));
    assert(answers(phases[n - 5], given[n - 5]));
    assert(phases[n - 5] == Phase::Marker);
    if n - 5 > 0 {
        assert(MigrationStep::Ask(phases[n - 5]) == after_answer(
            purpose,
            phases[n - 6],
            given[n - 6],
        ));
    }
    assert(phases =~= seq![
        Phase::Marker,
        Phase::Target,
        Phase::Inventory,
        Phase::MarkerAgain,
        Phase::TargetAgain,
    ]);
}

/// Whether an import is offered, by the step at which an assessment ended.
pub fn eligibility(step: MigrationStep) -> (r: Option<LegacyMigrationEligibility>)
    ensures
        r == match step {
            MigrationStep::Offer(inventory) => Some(
                LegacyMigrationEligibility::NeedsConsent(inventory),
            ),
            MigrationStep::Done(LegacyMigrationOutcome::AlreadyDecided(marker)) => Some(
                LegacyMigrationEligibility::AlreadyDecided(marker),
            ),
            MigrationStep::Done(LegacyMigrationOutcome::Skipped(reason)) => match reason {
                LegacyMigrationSkipReason::NotFlatpak => Some(
                    LegacyMigrationEligibility::NotFlatpak,
                ),
                LegacyMigrationSkipReason::TargetContainsData(path) => Some(
                    LegacyMigrationEligibility::TargetContainsData(path),
                ),
                LegacyMigrationSkipReason::NoLegacyData => Some(
                    LegacyMigrationEligibility::NoLegacyData,
                ),
            },
            _ => None,
        },
{
    match step {
        MigrationStep::Offer(inventory) => Some(
            LegacyMigrationEligibility::NeedsConsent(inventory),
        ),
        MigrationStep::Done(LegacyMigrationOutcome::AlreadyDecided(marker)) => Some(
            LegacyMigrationEligibility::AlreadyDecided(marker),
        ),
        MigrationStep::Done(LegacyMigrationOutcome::Skipped(reason)) => match reason {
            LegacyMigrationSkipReason::NotFlatpak => Some(LegacyMigrationEligibility::NotFlatpak),
            LegacyMigrationSkipReason::TargetContainsData(path) => Some(
                LegacyMigrationEligibility::TargetContainsData(path),
            ),
            LegacyMigrationSkipReason::NoLegacyData => Some(
                LegacyMigrationEligibility::NoLegacyData,
            ),
        },
        _ => None,
    }
}

/// The record of an import that was declined.
pub fn declined_marker(now: Timestamp) -> (marker: LegacyMigrationMarker)
    ensures
        marker.schema_version == MARKER_SCHEMA_VERSION,
        marker.decision == LegacyMigrationDecision::Declined,
        marker.completed_at == now,
        marker.report is None,
{
    LegacyMigrationMarker {
        schema_version: MARKER_SCHEMA_VERSION,
        decision: LegacyMigrationDecision::Declined,
        completed_at: now,
        report: None,
    }
}

/// What stands at a path.
#[derive(Debug, Clone, Copy, PartialEq, Eq, Structural)]
pub enum EntryKind {
    Absent,
    File,
    Directory,
    Symlink,
    Other,
}

/// Checks that a path leads to a plain file, if to anything.
pub fn known_regular_file(path: &str, kind: EntryKind) -> (r: Result<bool, LegacyMigrationError>)
    ensures
        match r {
            Ok(present) => if present {
                kind == EntryKind::File
            } else {
                kind == EntryKind::Absent
            },
            Err(LegacyMigrationError::UnsafeSource { path: p, reason }) => p@ == path@ && reason@
                == (if kind == EntryKind::Symlink {
                "file is a symbolic link"@
            } else {
                "path is not a regular file"@
            }) && kind != EntryKind::File && kind != EntryKind::Absent,
            Err(_) => false,
        },
{
    match kind {
        EntryKind::Absent => Ok(false),
        EntryKind::File => Ok(true),
        EntryKind::Symlink => Err(
            LegacyMigrationError::UnsafeSource {
                path: path.to_owned(),
                reason: "file is a symbolic link".to_owned(),
            },
        ),
        _ => Err(
            LegacyMigrationError::UnsafeSource {
                path: path.to_owned(),
                reason: "path is not a regular file".to_owned(),
            },
        ),
    }
}

/// What is looked at in a directory of the target.
#[derive(Debug)]
pub enum TargetLook {
    Absent,
    /// Something that is no plain directory.
    Obstacle,
    Empty,
    /// A directory with this entry.
    Holds(String),
}

/// The first thing in the target that is in the way.
pub open spec fn first_in_the_way(directories: Seq<Seq<char>>, looks: Seq<TargetLook>) -> Option<
    Seq<char>,
>
    decreases looks.len(),
{
    if looks.len() == 0 {
        None
    } else {
        match looks[0] {
            TargetLook::Obstacle => Some(directories[0]),
            TargetLook::Holds(entry) => Some(entry@),
            _ => first_in_the_way(directories.skip(1), looks.skip(1)),
        }
    }
}

/// Finds the first thing in the target that is in the way.
pub fn first_target_entry(directories: &Vec<String>, looks: &Vec<TargetLook>) -> (r: Option<String>)
    requires
        directories@.len() == looks@.len(),
    ensures
        crate::domain::opt_view(r) == first_in_the_way(crate::text::texts(directories@), looks@),
{
    let ghost dirs = crate::text::texts(directories@);
    let mut i: usize = 0;
    assert(dirs.skip(0) =~= dirs && looks@.skip(0) =~= looks@);
    while i < looks.len()
        invariant
            i <= looks@.len(),
            directories@.len() == looks@.len(),
            dirs == crate::text::texts(directories@),
            first_in_the_way(dirs, looks@) == first_in_the_way(
                dirs.skip(i as int),
                looks@.skip(i as int),
            ),
        decreases looks@.len() - i,
    {
        assert(dirs.skip(i as int)[0] == directories@[i as int]@);
        assert(looks@.skip(i as int)[0] == looks@[i as int]);
        match &looks[i] {
            TargetLook::Obstacle => {
                return Some(directories[i].clone());
            },
            TargetLook::Holds(entry) => {
                return Some(entry.clone());
            },
            _ => {},
        }
        assert(dirs.skip(i as int).skip(1) =~= dirs.skip(i + 1));
        assert(looks@.skip(i as int).skip(1) =~= looks@.skip(i + 1));
        i = i + 1;
    }
    None
}

/// Whether a name can be that of a provider's directory.
pub open spec fn provider_slug(value: Seq<char>) -> bool {
    0 < value.len() <= 64 && forall|i: int|
        0 <= i < value.len() ==> {
            let c = #[trigger] value[i];
            ('a' <= c && c <= 'z') || ('0' <= c && c <= '9') || c == '-'
        }
}

/// Whether a name can be that of a provider's directory.
pub fn valid_provider_slug(value: &str) -> (b: bool)
    ensures
        b == provider_slug(value@),
{
    let chars = chars_of(value);
    if chars.len() == 0 || chars.len() > 64 {
        return false;
    }
    let mut i: usize = 0;
    while i < chars.len()
        invariant
            i <= chars@.len(),
            chars@ == value@,
            forall|j: int|
                0 <= j < i ==> {
                    let c = #[trigger] value@[j];
                    ('a' <= c && c <= 'z') || ('0' <= c && c <= '9') || c == '-'
                },
        decreases chars@.len() - i,
    {
        let c: char = chars[i];
        if !(('a' <= c && c <= 'z') || ('0' <= c && c <= '9') || c == '-') {
            return false;
        }
        i = i + 1;
    }
    true
}

/// Which files are looked for.
#[derive(Debug, Clone, Copy, PartialEq, Eq, Structural)]
pub enum AssetClass {
    Config,
    Cache,
}

/// A settings or catalog file that is taken over.
#[derive(Debug)]
pub struct JsonAsset {
    pub source: String,
    pub relative: String,
    pub app_settings: bool,
}

/// The value of a file that is taken over.
pub struct AssetView {
    pub source: Seq<char>,
    pub relative: Seq<char>,
    pub app_settings: bool,
}

impl View for JsonAsset {
    type V = AssetView;

    open spec fn view(&self) -> AssetView {
        AssetView {
            source: self.source@,
            relative: self.relative@,
            app_settings: self.app_settings,
        }
    }
}

/// The values of files.
pub open spec fn assets_view(list: Seq<JsonAsset>) -> Seq<AssetView> {
    Seq::new(list.len(), |i: int| list[i]@)
}

/// The name of the file that is looked for.
pub open spec fn asset_name(class: AssetClass) -> Seq<char> {
    match class {
        AssetClass::Config => "model-settings.json"@,
        AssetClass::Cache => "video-models.json"@,
    }
}

/// The name of the file that is looked for.
pub fn root_name(class: AssetClass) -> (name: &'static str)
    ensures
        name@ == asset_name(class),
{
    match class {
        AssetClass::Config => "model-settings.json",
        AssetClass::Cache => "video-models.json",
    }
}

/// What was found in the directory of providers under a name: what it is, and what its file is.
#[derive(Debug)]
pub struct ProviderEntry {
    /// The name, where it is text.
    pub name: Option<String>,
    pub kind: EntryKind,
    pub file: EntryKind,
}

/// What was found in a directory that is taken over.
#[derive(Debug)]
pub struct Findings {
    pub root_file: EntryKind,
    pub app_settings: EntryKind,
    pub providers: EntryKind,
    pub entries: Vec<ProviderEntry>,
}

/// Whether an entry is a provider's directory.
pub open spec fn provider_directory(entry: ProviderEntry) -> bool {
    entry.name matches Some(name) && provider_slug(name@) && entry.kind == EntryKind::Directory
}

/// The file of a provider, which lies in the directory of providers under `root`.
pub open spec fn provider_asset(root: Seq<char>, slug: Seq<char>, file: Seq<char>) -> AssetView {
    AssetView {
        source: crate::paths::joined(
            crate::paths::joined(crate::paths::joined(root, "providers"@), slug),
            file,
        ),
        relative: crate::paths::joined(crate::paths::joined("providers"@, slug), file),
        app_settings: false,
    }
}

/// The files of the providers, in the order in which they were found, up to one that is no plain
/// file; that file's path then is the error.
pub open spec fn provider_assets(
    root: Seq<char>,
    class: AssetClass,
    entries: Seq<ProviderEntry>,
) -> Result<Seq<AssetView>, (Seq<char>, Seq<char>)>
    decreases entries.len(),
{
    if entries.len() == 0 {
        Ok(Seq::empty())
    } else {
        match provider_assets(root, class, entries.drop_last()) {
            Err(e) => Err(e),
            Ok(before) => {
                let entry = entries.last();
                if !provider_directory(entry) || entry.file == EntryKind::Absent {
                    Ok(before)
                } else {
                    let asset = provider_asset(root, entry.name->0@, asset_name(class));
                    if entry.file == EntryKind::File {
                        Ok(before.push(asset))
                    } else {
                        Err((asset.source, file_reason(entry.file)))
                    }
                }
            },
        }
    }
}

/// What is wrong with something that is no plain file.
pub open spec fn file_reason(kind: EntryKind) -> Seq<char> {
    if kind == EntryKind::Symlink {
        "file is a symbolic link"@
    } else {
        "path is not a regular file"@
    }
}

/// The files at the top of a directory.
pub open spec fn top_assets(root: Seq<char>, class: AssetClass, found: Findings) -> Seq<AssetView> {
    let first = if found.root_file == EntryKind::File {
        seq![
            AssetView {
                source: crate::paths::joined(root, asset_name(class)),
                relative: asset_name(class),
                app_settings: false,
            },
        ]
    } else {
        Seq::empty()
    };
    if class == AssetClass::Config && found.app_settings == EntryKind::File {
        first.push(
            AssetView {
                source: crate::paths::joined(root, "app-settings.json"@),
                relative: "app-settings.json"@,
                app_settings: true,
            },
        )
    } else {
        first
    }
}

/// A file put into its place among files in the order of their relative paths.
pub open spec fn asset_placed(list: Seq<AssetView>, asset: AssetView) -> Seq<AssetView>
    decreases list.len(),
{
    if list.len() == 0 || crate::paths::path_before(asset.relative, list[0].relative) {
        seq![asset] + list
    } else {
        seq![list[0]] + asset_placed(list.skip(1), asset)
    }
}

/// Files in the order of their relative paths.
pub open spec fn assets_in_order(list: Seq<AssetView>) -> Seq<AssetView>
    decreases list.len(),
{
    if list.len() == 0 {
        list
    } else {
        asset_placed(assets_in_order(list.drop_last()), list.last())
    }
}

/// The files of a directory that are taken over, or the path that must not be read and why.
pub open spec fn collected_assets(root: Seq<char>, class: AssetClass, found: Findings) -> Result<
    Seq<AssetView>,
    (Seq<char>, Seq<char>),
> {
    let providers = crate::paths::joined(root, "providers"@);
    if found.root_file != EntryKind::File && found.root_file != EntryKind::Absent {
        Err((crate::paths::joined(root, asset_name(class)), file_reason(found.root_file)))
    } else if class == AssetClass::Config && found.app_settings != EntryKind::File
        && found.app_settings != EntryKind::Absent {
        Err((crate::paths::joined(root, "app-settings.json"@), file_reason(found.app_settings)))
    } else if found.providers == EntryKind::Absent {
        Ok(top_assets(root, class, found))
    } else if found.providers == EntryKind::Symlink {
        Err((providers, "provider directory is a symbolic link"@))
    } else if found.providers != EntryKind::Directory {
        Err((providers, "provider path is not a directory"@))
    } else {
        match provider_assets(root, class, found.entries@) {
            Ok(more) => Ok(assets_in_order(top_assets(root, class, found) + more)),
            Err(e) => Err(e),
        }
    }
}

/// Whether a result is what was collected.
pub open spec fn collects(
    r: Result<Vec<JsonAsset>, LegacyMigrationError>,
    expected: Result<Seq<AssetView>, (Seq<char>, Seq<char>)>,
) -> bool {
    match r {
        Ok(list) => expected == Ok::<Seq<AssetView>, (Seq<char>, Seq<char>)>(assets_view(list@)),
        Err(LegacyMigrationError::UnsafeSource { path, reason }) => expected == Err::<
            Seq<AssetView>,
            (Seq<char>, Seq<char>),
        >((path@, reason@)),
        Err(_) => false,
    }
}

fn unsafe_source(path: String, reason: &str) -> (e: LegacyMigrationError)
    ensures
        e matches LegacyMigrationError::UnsafeSource { path: p, reason: r } && p@ == path@ && r@
            == reason@,
{
    LegacyMigrationError::UnsafeSource { path, reason: reason.to_owned() }
}

fn place_asset(list: &mut Vec<JsonAsset>, asset: JsonAsset)
    ensures
        assets_view(final(list)@) == asset_placed(assets_view(old(list)@), asset@),
{
    let ghost start = assets_view(list@);
    let mut i: usize = 0;
    assert(start.skip(0) =~= start);
    assert(start.take(0) =~= Seq::<AssetView>::empty());
    while i < list.len() && !path_comes_before(
        asset.relative.as_str(),
        list[i].relative.as_str(),
    )
        invariant
            i <= list@.len(),
            list@ == old(list)@,
            start == assets_view(list@),
            asset_placed(start, asset@) == start.take(i as int) + asset_placed(
                start.skip(i as int),
                asset@,
            ),
        decreases list@.len() - i,
    {
        proof {
            let rest = start.skip(i as int);
            assert(rest[0] == list@[i as int]@);
            assert(rest.skip(1) =~= start.skip(i + 1));
            assert(start.take(i as int) + (seq![rest[0]] + asset_placed(start.skip(i + 1), asset@))
                =~= start.take(i + 1) + asset_placed(start.skip(i + 1), asset@));
        }
        i = i + 1;
    }
    proof {
        let rest = start.skip(i as int);
        if i < list@.len() {
            assert(rest[0] == list@[i as int]@);
        }
        assert(asset_placed(rest, asset@) == seq![asset@] + rest);
    }
    list.insert(i, asset);
    assert(assets_view(list@) =~= start.take(i as int) + (seq![asset@] + start.skip(i as int)));
}

fn copy_asset(asset: &JsonAsset) -> (c: JsonAsset)
    ensures
        c@ == asset@,
{
    JsonAsset {
        source: asset.source.clone(),
        relative: asset.relative.clone(),
        app_settings: asset.app_settings,
    }
}

fn sort_assets(list: &Vec<JsonAsset>) -> (sorted: Vec<JsonAsset>)
    ensures
        assets_view(sorted@) == assets_in_order(assets_view(list@)),
{
    let ghost view = assets_view(list@);
    let mut sorted: Vec<JsonAsset> = Vec::new();
    let mut i: usize = 0;
    assert(view.take(0) =~= Seq::<AssetView>::empty());
    assert(assets_view(sorted@) =~= Seq::<AssetView>::empty());
    while i < list.len()
        invariant
            i <= list@.len(),
            view == assets_view(list@),
            assets_view(sorted@) == assets_in_order(view.take(i as int)),
        decreases list@.len() - i,
    {
        assert(view.take(i + 1).drop_last() =~= view.take(i as int));
        assert(view.take(i + 1).last() == list@[i as int]@);
        let asset = copy_asset(&list[i]);
        place_asset(&mut sorted, asset);
        i = i + 1;
    }
    assert(view.take(view.len() as int) =~= view);
    sorted
}

/// Collects the files of a directory that are taken over.
pub fn collect_json_assets(root: &str, class: AssetClass, found: &Findings) -> (r: Result<
    Vec<JsonAsset>,
    LegacyMigrationError,
>)
    ensures
        collects(r, collected_assets(root@, class, *found)),
{
    let name = root_name(class);
    let mut assets: Vec<JsonAsset> = Vec::new();
    let root_file = join_path(root, name);
    match known_regular_file(root_file.as_str(), found.root_file) {
        Ok(present) => {
            if present {
                assets.push(
                    JsonAsset {
                        source: root_file,
                        relative: name.to_owned(),
                        app_settings: false,
                    },
                );
            }
        },
        Err(e) => {
            return Err(e);
        },
    }
    if matches!(class, AssetClass::Config) {
        let settings = join_path(root, "app-settings.json");
        match known_regular_file(settings.as_str(), found.app_settings) {
            Ok(present) => {
                if present {
                    assets.push(
                        JsonAsset {
                            source: settings,
                            relative: "app-settings.json".to_owned(),
                            app_settings: true,
                        },
                    );
                }
            },
            Err(e) => {
                return Err(e);
            },
        }
    }
    let ghost top = top_assets(root@, class, *found);
    assert(assets_view(assets@) =~= top);
    let providers = join_path(root, "providers");
    match found.providers {
        EntryKind::Absent => {
            return Ok(assets);
        },
        EntryKind::Symlink => {
            return Err(unsafe_source(providers, "provider directory is a symbolic link"));
        },
        EntryKind::Directory => {},
        _ => {
            return Err(unsafe_source(providers, "provider path is not a directory"));
        },
    }
    let ghost entries = found.entries@;
    let mut i: usize = 0;
    assert(entries.take(0) =~= Seq::<ProviderEntry>::empty());
    assert(top + Seq::<AssetView>::empty() =~= top);
    while i < found.entries.len()
        invariant
            i <= found.entries@.len(),
            entries == found.entries@,
            name@ == asset_name(class),
            providers@ == crate::paths::joined(root@, "providers"@),
            provider_assets(root@, class, entries.take(i as int)) matches Ok(more)
                && assets_view(assets@) == top + more,
            collected_assets(root@, class, *found) == match provider_assets(
                root@,
                class,
                entries,
            ) {
                Ok(more) => Ok(assets_in_order(top + more)),
                Err(e) => Err(e),
            },
        decreases found.entries@.len() - i,
    {
        let ghost sofar = entries.take(i as int);
        assert(entries.take(i + 1).drop_last() =~= sofar);
        assert(entries.take(i + 1).last() == found.entries@[i as int]);
        let entry = &found.entries[i];
        if let Some(slug) = &entry.name {
            if valid_provider_slug(slug.as_str()) && matches!(entry.kind, EntryKind::Directory) {
                let directory = join_path(providers.as_str(), slug.as_str());
                let source = join_path(directory.as_str(), name);
                match known_regular_file(source.as_str(), entry.file) {
                    Ok(present) => {
                        if present {
                            let inner = join_path("providers", slug.as_str());
                            let relative = join_path(inner.as_str(), name);
                            let ghost before = assets_view(assets@);
                            let ghost more = provider_assets(root@, class, sofar)->Ok_0;
                            assets.push(JsonAsset { source, relative, app_settings: false });
                            proof {
                                let asset = provider_asset(root@, slug@, asset_name(class));
                                assert(assets_view(assets@) =~= before.push(asset));
                                assert(before.push(asset) =~= top + more.push(asset));
                            }
                        }
                    },
                    Err(e) => {
                        proof {
                            provider_error_stays(root@, class, entries, i + 1);
                        }
                        return Err(e);
                    },
                }
            }
        }
        i = i + 1;
    }
    assert(entries.take(entries.len() as int) =~= entries);
    Ok(sort_assets(&assets))
}

proof fn provider_error_stays(
    root: Seq<char>,
    class: AssetClass,
    entries: Seq<ProviderEntry>,
    n: int,
)
    requires
        0 <= n <= entries.len(),
        provider_assets(root, class, entries.take(n)) is Err,
    ensures
        provider_assets(root, class, entries) == provider_assets(root, class, entries.take(n)),
    decreases entries.len() - n,
{
    if n == entries.len() {
        assert(entries.take(n) =~= entries);
    } else {
        assert(entries.take(n + 1).drop_last() =~= entries.take(n));
        provider_error_stays(root, class, entries, n + 1);
    }
}

/// What there is to take over.
pub fn inventory(
    history: bool,
    gui_state: bool,
    config_files: &Vec<JsonAsset>,
    cache_files: &Vec<JsonAsset>,
) -> (i: LegacyMigrationInventory)
    ensures
        i == (LegacyMigrationInventory {
            history_database: history,
            gui_state_database: gui_state,
            config_file_count: config_files@.len() as usize,
            cache_file_count: cache_files@.len() as usize,
        }),
{
    LegacyMigrationInventory {
        history_database: history,
        gui_state_database: gui_state,
        config_file_count: config_files.len(),
        cache_file_count: cache_files.len(),
    }
}

/// A key's letters and digits, in small letters.
pub open spec fn key_letters(key: Seq<char>) -> Seq<char>
    decreases key.len(),
{
    if key.len() == 0 {
        key
    } else if letter_or_digit(key.last()) {
        key_letters(key.drop_last()).push(crate::text::lower(key.last()))
    } else {
        key_letters(key.drop_last())
    }
}

/// Whether a character is an ASCII letter or digit.
pub open spec fn letter_or_digit(c: char) -> bool {
    ('a' <= c && c <= 'z') || ('A' <= c && c <= 'Z') || ('0' <= c && c <= '9')
}

/// Whether a key names a credential.
pub open spec fn credential_key(key: Seq<char>) -> bool {
    let k = key_letters(key);
    k == "apikey"@ || k == "accesstoken"@ || k == "refreshtoken"@ || k == "authorization"@ || k
        == "bearertoken"@ || k == "secret"@ || k == "password"@ || k == "privatekey"@
}

/// Whether a key that names a credential stands anywhere in a document.
pub open spec fn holds_credential(value: JsonView) -> bool
    decreases value, 1nat,
{
    match value {
        JsonView::Object(members) => members_hold_credential(members),
        JsonView::Array(items) => items_hold_credential(items),
        _ => false,
    }
}

/// Whether one of the members names or holds a credential.
pub open spec fn members_hold_credential(members: Seq<(Seq<char>, JsonView)>) -> bool
    decreases members, 0nat,
{
    if members.len() == 0 {
        false
    } else {
        proof {
            assert(decreases_to!(members => members.last()));
            assert(decreases_to!(members.last() => members.last().1));
        }
        members_hold_credential(members.drop_last()) || credential_key(members.last().0)
            || holds_credential(members.last().1)
    }
}

/// Whether one of the items holds a credential.
pub open spec fn items_hold_credential(items: Seq<JsonView>) -> bool
    decreases items, 0nat,
{
    items.len() > 0 && (items_hold_credential(items.drop_last()) || holds_credential(items.last()))
}

fn is_credential_key(key: &str) -> (b: bool)
    ensures
        b == credential_key(key@),
{
    let chars = chars_of(key);
    let mut letters = String::new();
    let mut i: usize = 0;
    assert(key@.take(0) =~= Seq::<char>::empty());
    while i < chars.len()
        invariant
            i <= chars@.len(),
            chars@ == key@,
            letters@ == key_letters(key@.take(i as int)),
        decreases chars@.len() - i,
    {
        assert(key@.take(i + 1).drop_last() =~= key@.take(i as int));
        let c: char = chars[i];
        if ('a' <= c && c <= 'z') || ('A' <= c && c <= 'Z') || ('0' <= c && c <= '9') {
            letters.push(lower_char(c));
        }
        i = i + 1;
    }
    assert(key@.take(key@.len() as int) =~= key@);
    let k = letters.as_str();
    same_text(k, "apikey") || same_text(k, "accesstoken") || same_text(k, "refreshtoken")
        || same_text(k, "authorization") || same_text(k, "bearertoken") || same_text(k, "secret")
        || same_text(k, "password") || same_text(k, "privatekey")
}

/// Whether a key that names a credential stands anywhere in a document.
pub fn contains_credential_key(value: &Json) -> (b: bool)
    ensures
        b == holds_credential(value@),
    decreases value@, 1nat,
{
    broadcast use crate::json::array_view, crate::json::object_view;

    match value {
        Json::Object(members) => {
            let ghost view = crate::json::members_view(members@);
            let mut found = false;
            let mut i: usize = 0;
            assert(view.take(0) =~= Seq::<(Seq<char>, JsonView)>::empty());
            while i < members.len()
                invariant
                    i <= members@.len(),
                    view == crate::json::members_view(members@),
                    value@ == JsonView::Object(view),
                    found == members_hold_credential(view.take(i as int)),
                decreases members@.len() - i,
            {
                assert(decreases_to!(value@ => value@->Object_0));
                assert(decreases_to!(value@->Object_0 => view[i as int]));
                assert(decreases_to!(view[i as int] => view[i as int].1));
                assert(view.take(i + 1).drop_last() =~= view.take(i as int));
                assert(view.take(i + 1).last() == (
                    members@[i as int].key@,
                    members@[i as int].value@,
                ));
                found = found || is_credential_key(members[i].key.as_str())
                    || contains_credential_key(&members[i].value);
                i = i + 1;
            }
            assert(view.take(view.len() as int) =~= view);
            found
        },
        Json::Array(items) => {
            let ghost view = crate::json::items_view(items@);
            let mut found = false;
            let mut i: usize = 0;
            assert(view.take(0) =~= Seq::<JsonView>::empty());
            while i < items.len()
                invariant
                    i <= items@.len(),
                    view == crate::json::items_view(items@),
                    value@ == JsonView::Array(view),
                    found == items_hold_credential(view.take(i as int)),
                decreases items@.len() - i,
            {
                assert(decreases_to!(value@ => value@->Array_0));
                assert(decreases_to!(value@->Array_0 => view[i as int]));
                assert(view.take(i + 1).drop_last() =~= view.take(i as int));
                assert(view.take(i + 1).last() == items@[i as int]@);
                found = found || contains_credential_key(&items[i]);
                i = i + 1;
            }
            assert(view.take(view.len() as int) =~= view);
            found
        },
        _ => false,
    }
}

/// What is wrong with a file that is taken over.
pub enum AssetFault {
    TooLarge,
    Invalid(Seq<char>),
    Credential,
    Shape,
    Version(u32),
}

/// What is wrong with the document in a file. `settings` says whether the file is one of settings,
/// which must hold no credentials, and `version` is the version of the program's own settings, or
/// why they could not be read.
pub open spec fn document_fault(
    document: Result<JsonView, Seq<char>>,
    settings: bool,
    version: Option<Result<u32, Seq<char>>>,
    supported: u32,
) -> Option<AssetFault> {
    match document {
        Err(message) => Some(AssetFault::Invalid(message)),
        Ok(value) => if settings && holds_credential(value) {
            Some(AssetFault::Credential)
        } else if settings && !(value is Object) {
            Some(AssetFault::Shape)
        } else {
            match version {
                Some(Err(message)) => Some(AssetFault::Invalid(message)),
                Some(Ok(found)) => if found != supported {
                    Some(AssetFault::Version(found))
                } else {
                    None
                },
                None => None,
            }
        },
    }
}

/// What is wrong with a file of so many bytes.
pub open spec fn asset_fault(
    size: u64,
    document: Result<JsonView, Seq<char>>,
    settings: bool,
    version: Option<Result<u32, Seq<char>>>,
    supported: u32,
) -> Option<AssetFault> {
    if size > MAX_JSON_BYTES {
        Some(AssetFault::TooLarge)
    } else {
        document_fault(document, settings, version, supported)
    }
}

/// Whether an error reports what is wrong with a file.
pub open spec fn reports(
    e: LegacyMigrationError,
    fault: AssetFault,
    path: Seq<char>,
    supported: u32,
) -> bool {
    match fault {
        AssetFault::TooLarge => e matches LegacyMigrationError::JsonTooLarge { path: p } && p@
            == path,
        AssetFault::Invalid(message) => e matches LegacyMigrationError::InvalidJson {
            path: p,
            source,
        } && p@ == path && source@ == message,
        AssetFault::Credential => e matches LegacyMigrationError::CredentialInSettings { path: p }
            && p@ == path,
        AssetFault::Shape => e matches LegacyMigrationError::InvalidSettingsDocument { path: p }
            && p@ == path,
        AssetFault::Version(found) => e == (LegacyMigrationError::UnsupportedAppSettingsSchema {
            found: found as u64,
            supported,
        }),
    }
}

/// The mathematical value of a version that was read, or not.
pub open spec fn version_view(version: Option<Result<u32, String>>) -> Option<
    Result<u32, Seq<char>>,
> {
    match version {
        Some(Ok(n)) => Some(Ok(n)),
        Some(Err(message)) => Some(Err(message@)),
        None => None,
    }
}

/// Checks the document in a file that is taken over.
pub fn check_document(
    path: &str,
    document: Result<Json, String>,
    settings: bool,
    version: Option<Result<u32, String>>,
    supported: u32,
) -> (r: Result<(), LegacyMigrationError>)
    ensures
        ({
            let fault = document_fault(
                match document {
                    Ok(json) => Ok(json@),
                    Err(message) => Err(message@),
                },
                settings,
                version_view(version),
                supported,
            );
            match r {
                Ok(_) => fault is None,
                Err(e) => fault matches Some(f) && reports(e, f, path@, supported),
            }
        }),
{
    broadcast use crate::json::object_view;

    let value = match document {
        Ok(value) => value,
        Err(message) => {
            return Err(
                LegacyMigrationError::InvalidJson { path: path.to_owned(), source: message },
            );
        },
    };
    if settings && contains_credential_key(&value) {
        return Err(LegacyMigrationError::CredentialInSettings { path: path.to_owned() });
    }
    if settings && value.as_object().is_none() {
        return Err(LegacyMigrationError::InvalidSettingsDocument { path: path.to_owned() });
    }
    match version {
        Some(Err(message)) => Err(
            LegacyMigrationError::InvalidJson { path: path.to_owned(), source: message },
        ),
        Some(Ok(found)) => {
            if found != supported {
                return Err(
                    LegacyMigrationError::UnsupportedAppSettingsSchema {
                        found: found as u64,
                        supported,
                    },
                );
            }
            Ok(())
        },
        None => Ok(()),
    }
}

/// Checks a file that is taken over.
pub fn validate_json(
    path: &str,
    size: u64,
    bytes: &Vec<u8>,
    settings: bool,
    version: Option<Result<u32, String>>,
    supported: u32,
) -> (r: Result<(), LegacyMigrationError>)
    ensures
        ({
            let fault = asset_fault(
                size,
                crate::outside::document_of_bytes(bytes@),
                settings,
                version_view(version),
                supported,
            );
            match r {
                Ok(_) => fault is None,
                Err(e) => fault matches Some(f) && reports(e, f, path@, supported),
            }
        }),
{
    if size > MAX_JSON_BYTES {
        return Err(LegacyMigrationError::JsonTooLarge { path: path.to_owned() });
    }
    check_document(path, read_bytes(bytes.as_slice()), settings, version, supported)
}

/// No file of settings that names a credential is taken over.
pub proof fn imported_settings_hold_no_credential(
    size: u64,
    document: Result<JsonView, Seq<char>>,
    version: Option<Result<u32, Seq<char>>>,
    supported: u32,
)
    requires
        asset_fault(size, document, true, version, supported) is None,
    ensures
        document matches Ok(value) && !holds_credential(value) && value is Object,
{
}

/// Checks the version and the state of a database that is taken over. `state` is what the
/// database's own check says.
pub fn check_database(
    path: &str,
    database: &str,
    found: i64,
    supported: i64,
    state: &str,
) -> (r: Result<(), LegacyMigrationError>)
    ensures
        match r {
            Ok(_) => found <= supported && crate::text::lower_text(state@)
                == crate::text::lower_text("ok"@),
            Err(LegacyMigrationError::UnsupportedDatabaseSchema {
                database: d,
                found: f,
                supported: s,
            }) => found > supported && d@ == database@ && f == found && s == supported,
            Err(LegacyMigrationError::DatabaseIntegrity { path: p, detail }) => found <= supported
                && crate::text::lower_text(state@) != crate::text::lower_text("ok"@) && p@ == path@
                && detail@ == state@,
            Err(_) => false,
        },
{
    if found > supported {
        return Err(
            LegacyMigrationError::UnsupportedDatabaseSchema {
                database: database.to_owned(),
                found,
                supported,
            },
        );
    }
    if !eq_ignore_ascii_case(state, "ok") {
        return Err(
            LegacyMigrationError::DatabaseIntegrity {
                path: path.to_owned(),
                detail: state.to_owned(),
            },
        );
    }
    Ok(())
}

/// The name of a path's temporary neighbour.
pub open spec fn temporary_name(path: Seq<char>, label: Seq<char>, process: u32, counter: u16)
    -> Seq<char> {
    let name = match crate::paths::name_of(path) {
        Some(name) => name,
        None => "video-harness"@,
    };
    "."@ + name + "."@ + label + "-"@ + crate::text::numeral(process as nat) + "-"@
        + crate::text::numeral(counter as nat)
}

/// A path's temporary neighbour; `None` where the path has no directory above it.
pub fn temporary_sibling(path: &str, label: &str, process: u32, counter: u16) -> (r: Option<String>)
    ensures
        crate::domain::opt_view(r) == crate::paths::sibling_of(
            path@,
            temporary_name(path@, label@, process, counter),
        ),
{
    let name = match file_name(path) {
        Some(name) => name,
        None => "video-harness".to_owned(),
    };
    let p = decimal(process as u64);
    let c = decimal(counter as u64);
    let start = four(".", name.as_str(), ".", label);
    let middle = concat3(start.as_str(), "-", p.as_str());
    let full = concat3(middle.as_str(), "-", c.as_str());
    sibling(path, full.as_str())
}

/// A local file that a saved draft uses.
#[derive(Debug)]
pub struct LocalMedia {
    pub draft_id: String,
    pub media_id: String,
    pub path: String,
    pub exists: bool,
    /// The path as the file system resolves it, where it does.
    pub resolved: String,
}

/// Why a local file has to be chosen again.
pub open spec fn relink_reason_of(exists: bool, resolved: Seq<char>, roots: Seq<Seq<char>>)
    -> Option<RelinkReason> {
    if !exists {
        Some(RelinkReason::Missing)
    } else if !crate::paths::within_any(resolved, roots) {
        Some(RelinkReason::OutsideSandbox)
    } else {
        None
    }
}

/// Why a local file has to be chosen again. `roots` are the directories in which a confined
/// installation can read files, as the file system resolves them.
pub fn relink_reason(exists: bool, resolved: &str, roots: &Vec<String>) -> (r: Option<RelinkReason>)
    ensures
        r == relink_reason_of(exists, resolved@, crate::text::texts(roots@)),
{
    if !exists {
        Some(RelinkReason::Missing)
    } else if !path_is_within_any(resolved, roots) {
        Some(RelinkReason::OutsideSandbox)
    } else {
        None
    }
}

/// The value of an entry in the list of files that have to be chosen again.
pub struct RelinkView {
    pub draft_id: Seq<char>,
    pub media_id: Seq<char>,
    pub path: Seq<char>,
    pub reason: RelinkReason,
}

impl View for RelinkRequired {
    type V = RelinkView;

    open spec fn view(&self) -> RelinkView {
        RelinkView {
            draft_id: self.draft_id@,
            media_id: self.media_id@,
            path: self.path@,
            reason: self.reason,
        }
    }
}

/// The values of entries.
pub open spec fn relinks_view(list: Seq<RelinkRequired>) -> Seq<RelinkView> {
    Seq::new(list.len(), |i: int| list[i]@)
}

/// The files that have to be chosen again, in the order in which the drafts use them.
pub open spec fn relinks(media: Seq<LocalMedia>, roots: Seq<Seq<char>>) -> Seq<RelinkView>
    decreases media.len(),
{
    if media.len() == 0 {
        Seq::empty()
    } else {
        let before = relinks(media.drop_last(), roots);
        let item = media.last();
        match relink_reason_of(item.exists, item.resolved@, roots) {
            Some(reason) => before.push(
                RelinkView {
                    draft_id: item.draft_id@,
                    media_id: item.media_id@,
                    path: item.path@,
                    reason,
                },
            ),
            None => before,
        }
    }
}

/// Finds the files that have to be chosen again.
pub fn detect_relinks(media: &Vec<LocalMedia>, roots: &Vec<String>) -> (list: Vec<RelinkRequired>)
    ensures
        relinks_view(list@) == relinks(media@, crate::text::texts(roots@)),
{
    let mut list: Vec<RelinkRequired> = Vec::new();
    let mut i: usize = 0;
    assert(media@.take(0) =~= Seq::<LocalMedia>::empty());
    assert(relinks_view(list@) =~= Seq::<RelinkView>::empty());
    while i < media.len()
        invariant
            i <= media@.len(),
            relinks_view(list@) == relinks(media@.take(i as int), crate::text::texts(roots@)),
        decreases media@.len() - i,
    {
        assert(media@.take(i + 1).drop_last() =~= media@.take(i as int));
        let ghost before = relinks_view(list@);
        if let Some(reason) = relink_reason(media[i].exists, media[i].resolved.as_str(), roots) {
            let item = RelinkRequired {
                draft_id: media[i].draft_id.clone(),
                media_id: media[i].media_id.clone(),
                path: media[i].path.clone(),
                reason,
            };
            list.push(item);
            assert(relinks_view(list@) =~= before.push(item@));
        }
        i = i + 1;
    }
    assert(media@.take(media@.len() as int) =~= media@);
    list
}

/// Whether an entry comes before another one: by draft, by media item, by path.
pub open spec fn relink_before(a: RelinkView, b: RelinkView) -> bool {
    crate::text::precedes(a.draft_id, b.draft_id) || (a.draft_id == b.draft_id && (
    crate::text::precedes(a.media_id, b.media_id) || (a.media_id == b.media_id
        && crate::paths::path_before(a.path, b.path))))
}

/// An entry put into its place in a list that is in order.
pub open spec fn relink_placed(list: Seq<RelinkView>, item: RelinkView) -> Seq<RelinkView>
    decreases list.len(),
{
    if list.len() == 0 || relink_before(item, list[0]) {
        seq![item] + list
    } else {
        seq![list[0]] + relink_placed(list.skip(1), item)
    }
}

/// Entries in order.
pub open spec fn relinks_in_order(list: Seq<RelinkView>) -> Seq<RelinkView>
    decreases list.len(),
{
    if list.len() == 0 {
        list
    } else {
        relink_placed(relinks_in_order(list.drop_last()), list.last())
    }
}

fn relink_comes_before(a: &RelinkRequired, b: &RelinkRequired) -> (r: bool)
    ensures
        r == relink_before(a@, b@),
{
    comes_before(a.draft_id.as_str(), b.draft_id.as_str()) || (same_text(
        a.draft_id.as_str(),
        b.draft_id.as_str(),
    ) && (comes_before(a.media_id.as_str(), b.media_id.as_str()) || (same_text(
        a.media_id.as_str(),
        b.media_id.as_str(),
    ) && path_comes_before(a.path.as_str(), b.path.as_str()))))
}

fn place_relink(list: &mut Vec<RelinkRequired>, item: RelinkRequired)
    ensures
        relinks_view(final(list)@) == relink_placed(relinks_view(old(list)@), item@),
{
    let ghost start = relinks_view(list@);
    let mut i: usize = 0;
    assert(start.skip(0) =~= start);
    assert(start.take(0) =~= Seq::<RelinkView>::empty());
    while i < list.len() && !relink_comes_before(&item, &list[i])
        invariant
            i <= list@.len(),
            list@ == old(list)@,
            start == relinks_view(list@),
            relink_placed(start, item@) == start.take(i as int) + relink_placed(
                start.skip(i as int),
                item@,
            ),
        decreases list@.len() - i,
    {
        proof {
            let rest = start.skip(i as int);
            assert(rest[0] == list@[i as int]@);
            assert(rest.skip(1) =~= start.skip(i + 1));
            assert(start.take(i as int) + (seq![rest[0]] + relink_placed(start.skip(i + 1), item@))
                =~= start.take(i + 1) + relink_placed(start.skip(i + 1), item@));
        }
        i = i + 1;
    }
    proof {
        let rest = start.skip(i as int);
        if i < list@.len() {
            assert(rest[0] == list@[i as int]@);
        }
        assert(relink_placed(rest, item@) == seq![item@] + rest);
    }
    list.insert(i, item);
    assert(relinks_view(list@) =~= start.take(i as int) + (seq![item@] + start.skip(i as int)));
}

/// The relative paths of files.
pub open spec fn relative_paths(list: Seq<JsonAsset>) -> Seq<Seq<char>> {
    Seq::new(list.len(), |i: int| list[i].relative@)
}

fn relatives(list: &Vec<JsonAsset>) -> (paths: Vec<String>)
    ensures
        crate::text::texts(paths@) == relative_paths(list@),
{
    let mut paths: Vec<String> = Vec::new();
    let mut i: usize = 0;
    while i < list.len()
        invariant
            i <= list@.len(),
            paths@.len() == i,
            forall|j: int| 0 <= j < i ==> (#[trigger] paths@[j])@ == list@[j].relative@,
        decreases list@.len() - i,
    {
        paths.push(list[i].relative.clone());
        i = i + 1;
    }
    assert(crate::text::texts(paths@) =~= relative_paths(list@));
    paths
}

/// The record of an import.
pub fn imported_marker(
    inventory: &LegacyMigrationInventory,
    config_files: &Vec<JsonAsset>,
    cache_files: &Vec<JsonAsset>,
    media: &Vec<LocalMedia>,
    roots: &Vec<String>,
    now: Timestamp,
) -> (marker: LegacyMigrationMarker)
    ensures
        marker.schema_version == MARKER_SCHEMA_VERSION,
        marker.decision == LegacyMigrationDecision::Imported,
        marker.completed_at == now,
        marker.report matches Some(report) && {
            &&& report.imported_history == inventory.history_database
            &&& report.imported_gui_state == inventory.gui_state_database
            &&& crate::text::texts(report.config_files@) == crate::paths::paths_in_order(
                relative_paths(config_files@),
            )
            &&& crate::text::texts(report.cache_files@) == crate::paths::paths_in_order(
                relative_paths(cache_files@),
            )
            &&& relinks_view(report.relink_required@) == (if inventory.gui_state_database {
                relinks_in_order(relinks(media@, crate::text::texts(roots@)))
            } else {
                Seq::empty()
            })
        },
{
    let mut sorted: Vec<RelinkRequired> = Vec::new();
    assert(relinks_view(sorted@) =~= Seq::<RelinkView>::empty());
    if inventory.gui_state_database {
        let mut found = detect_relinks(media, roots);
        let ghost view = relinks_view(found@);
        let ghost mut n: int = 0;
        assert(view.take(0) =~= Seq::<RelinkView>::empty());
        assert(view.skip(0) =~= view);
        while found.len() > 0
            invariant
                0 <= n <= view.len(),
                relinks_view(found@) == view.skip(n),
                relinks_view(sorted@) == relinks_in_order(view.take(n)),
            decreases found@.len(),
        {
            proof {
                assert(relinks_view(found@).len() == found@.len());
                assert(view.skip(n).len() == view.len() - n);
                assert(view.skip(n)[0] == found@[0]@);
                assert(view.take(n + 1).drop_last() =~= view.take(n));
                assert(view.take(n + 1).last() == view[n]);
            }
            let ghost prior = found@;
            let item = found.remove(0);
            assert forall|k: int| 0 <= k < found@.len() implies relinks_view(found@)[k] == view.skip(
                n + 1,
            )[k] by {
                assert(found@[k] == prior[k + 1]);
                assert(relinks_view(prior)[k + 1] == view.skip(n)[k + 1]);
            }
            assert(relinks_view(found@) =~= view.skip(n + 1));
            place_relink(&mut sorted, item);
            proof {
                n = n + 1;
            }
        }
        proof {
            assert(relinks_view(found@).len() == 0);
            assert(view.skip(n).len() == view.len() - n);
            assert(view.take(n) =~= view);
        }
    }
    let config = relatives(config_files);
    let cache = relatives(cache_files);
    LegacyMigrationMarker {
        schema_version: MARKER_SCHEMA_VERSION,
        decision: LegacyMigrationDecision::Imported,
        completed_at: now,
        report: Some(
            LegacyMigrationReport {
                imported_history: inventory.history_database,
                imported_gui_state: inventory.gui_state_database,
                config_files: sort_paths(&config),
                cache_files: sort_paths(&cache),
                relink_required: sorted,
            },
        ),
    }
}

/// Checks once more, before a staged import is put in its place, that the target is as it was.
pub fn final_check(entry: Option<String>) -> (r: Result<(), LegacyMigrationError>)
    ensures
        match entry {
            None => r is Ok,
            Some(path) => r matches Err(LegacyMigrationError::TargetChanged(p)) && p == path,
        },
{
    match entry {
        None => Ok(()),
        Some(path) => Err(LegacyMigrationError::TargetChanged(path)),
    }
}

/// A renaming of a directory.
#[derive(Debug)]
pub struct Rename {
    pub from: String,
    pub to: String,
}

/// The value of a renaming.
pub type RenameView = (Seq<char>, Seq<char>);

/// The values of renamings.
pub open spec fn renames_view(list: Seq<Rename>) -> Seq<RenameView> {
    Seq::new(list.len(), |i: int| (list[i].from@, list[i].to@))
}

/// Directories and what they hold, by their paths.
pub type Tree = Map<Seq<char>, int>;

/// The tree after a renaming.
pub open spec fn renamed_tree(tree: Tree, r: RenameView) -> Tree {
    tree.remove(r.0).insert(r.1, tree[r.0])
}

/// Whether a renaming can be done without taking anything's place.
pub open spec fn possible(tree: Tree, r: RenameView) -> bool {
    tree.contains_key(r.0) && !tree.contains_key(r.1)
}

/// The tree after renamings in turn.
pub open spec fn tree_after(tree: Tree, list: Seq<RenameView>) -> Tree
    decreases list.len(),
{
    if list.len() == 0 {
        tree
    } else {
        renamed_tree(tree_after(tree, list.drop_last()), list.last())
    }
}

/// Whether renamings can be done in turn.
pub open spec fn all_possible(tree: Tree, list: Seq<RenameView>) -> bool
    decreases list.len(),
{
    list.len() == 0 || (all_possible(tree, list.drop_last()) && possible(
        tree_after(tree, list.drop_last()),
        list.last(),
    ))
}

/// The tree after the renamings of a list have been taken back, the last one first.
pub open spec fn tree_undone(tree: Tree, list: Seq<RenameView>) -> Tree
    decreases list.len(),
{
    if list.len() == 0 {
        tree
    } else {
        tree_undone(renamed_tree(tree, (list.last().1, list.last().0)), list.drop_last())
    }
}

/// Taking back what has been done, the last renaming first, restores what was there.
pub proof fn rollback_restores(tree: Tree, list: Seq<RenameView>)
    requires
        all_possible(tree, list),
    ensures
        tree_undone(tree_after(tree, list), list) == tree,
    decreases list.len(),
{
    if list.len() > 0 {
        let before = tree_after(tree, list.drop_last());
        let r = list.last();
        let after = renamed_tree(before, r);
        assert(renamed_tree(after, (r.1, r.0)) =~= before);
        rollback_restores(tree, list.drop_last());
    }
}

/// What stands in the place of a target directory.
#[derive(Debug)]
pub enum Reservation {
    /// Nothing.
    Free,
    /// An empty directory, and the path under which it is put aside.
    Empty(String),
    /// A directory that is not empty, or something else.
    Changed,
    /// It could not be found out.
    Failed(LegacyMigrationError),
}

/// What is done next to put a staged import in its place.
#[derive(Debug)]
pub enum CommitAction {
    /// Look at the target directory with this number.
    Look(usize),
    /// Rename.
    Move(Rename),
    /// Rename back; whatever comes of it, go on.
    Undo(Rename),
    Done(Result<(), LegacyMigrationError>),
}

/// A staged directory and the place that it is for.
#[derive(Debug)]
pub struct StagedPair {
    pub stage: String,
    pub target: String,
}

/// How far the work has got.
#[derive(Debug, Clone, Copy, PartialEq, Eq, Structural)]
pub enum CommitPhase {
    /// The target directory with this number is to be looked at.
    Looking(usize),
    /// The target directory with this number is being put aside.
    Reserving(usize),
    /// The staged directory with this number is being put in its place.
    Publishing(usize),
    /// So many renamings are still to be taken back.
    Undoing(usize),
    Finished,
}

/// Why the work failed.
#[derive(Debug)]
pub enum CommitFault {
    /// Before anything was put in its place.
    Reservation(LegacyMigrationError),
    /// A staged directory could not be put in its place.
    Publication(String),
}

/// Putting a staged import in its place: first every target directory is looked at and an empty one
/// put aside, then each staged directory is put in its place. Everything that was done is kept in a
/// journal, and after a failure taken back, the last step first.
#[derive(Debug)]
pub struct Commit {
    pairs: Vec<StagedPair>,
    phase: CommitPhase,
    journal: Vec<Rename>,
    /// The renaming that is being done.
    pending: Option<Rename>,
    fault: Option<CommitFault>,
    rollback_errors: Vec<String>,
}

impl Commit {
    /// How far the work has got.
    pub closed spec fn spec_phase(self) -> CommitPhase {
        self.phase
    }

    /// What has been done.
    pub closed spec fn done(self) -> Seq<RenameView> {
        renames_view(self.journal@)
    }

    /// The staged directories and their places.
    pub closed spec fn places(self) -> Seq<RenameView> {
        Seq::new(self.pairs@.len(), |i: int| (self.pairs@[i].stage@, self.pairs@[i].target@))
    }

    /// The renaming that is being done.
    pub closed spec fn under_way(self) -> Option<RenameView> {
        match self.pending {
            Some(r) => Some((r.from@, r.to@)),
            None => None,
        }
    }

    /// Why the work failed.
    pub closed spec fn failed(self) -> Option<CommitFault> {
        self.fault
    }

    /// What went wrong while the work was taken back.
    pub closed spec fn complaints(self) -> Seq<Seq<char>> {
        crate::text::texts(self.rollback_errors@)
    }

    /// Whether the numbers are within bounds.
    pub open spec fn well_formed(self) -> bool {
        &&& self.done().len() <= usize::MAX
        &&& self.places().len() <= usize::MAX
        &&& match self.spec_phase() {
            CommitPhase::Looking(i) => i < self.places().len() && self.failed() is None
                && self.under_way() is None,
            CommitPhase::Reserving(i) => i < self.places().len() && self.failed() is None && (
                self.under_way() matches Some(r) && r.0 == self.places()[i as int].1),
            CommitPhase::Publishing(i) => i < self.places().len() && self.failed() is None
                && self.under_way() == Some(self.places()[i as int]),
            CommitPhase::Undoing(n) => 0 < n <= self.done().len() && self.failed() is Some,
            CommitPhase::Finished => true,
        }
    }

    proof fn lengths_fit(self)
        ensures
            self.done().len() <= usize::MAX,
            self.places().len() <= usize::MAX,
    {
        assert(self.journal@.len() == self.journal.len());
        assert(self.pairs@.len() == self.pairs.len());
    }

    /// Starts the work.
    pub fn new(pairs: Vec<StagedPair>) -> (c: Commit)
        requires
            pairs@.len() > 0,
        ensures
            c.well_formed(),
            c.spec_phase() == CommitPhase::Looking(0),
            c.done() == Seq::<RenameView>::empty(),
            c.failed() is None,
            c.complaints() == Seq::<Seq<char>>::empty(),
            c.places() == Seq::new(
                pairs@.len(),
                |i: int| (pairs@[i].stage@, pairs@[i].target@),
            ),
    {
        let c = Commit {
            pairs,
            phase: CommitPhase::Looking(0),
            journal: Vec::new(),
            pending: None,
            fault: None,
            rollback_errors: Vec::new(),
        };
        assert(c.done() =~= Seq::<RenameView>::empty());
        assert(c.complaints() =~= Seq::<Seq<char>>::empty());
        proof {
            c.lengths_fit();
        }
        c
    }

    /// What is done next.
    pub fn action(&self) -> (action: CommitAction)
        requires
            self.well_formed(),
        ensures
            match self.spec_phase() {
                CommitPhase::Looking(i) => action == CommitAction::Look(i),
                CommitPhase::Reserving(_) => action matches CommitAction::Move(r)
                    && self.under_way() == Some((r.from@, r.to@)),
                CommitPhase::Publishing(_) => action matches CommitAction::Move(r)
                    && self.under_way() == Some((r.from@, r.to@)),
                CommitPhase::Undoing(n) => action matches CommitAction::Undo(r) && r.from@
                    == self.done()[n - 1].1 && r.to@ == self.done()[n - 1].0,
                CommitPhase::Finished => action matches CommitAction::Done(r) && ends(
                    r,
                    self.failed(),
                    self.complaints(),
                ),
            },
    {
        match self.phase {
            CommitPhase::Looking(i) => CommitAction::Look(i),
            CommitPhase::Undoing(n) => CommitAction::Undo(
                Rename {
                    from: self.journal[n - 1].to.clone(),
                    to: self.journal[n - 1].from.clone(),
                },
            ),
            CommitPhase::Finished => CommitAction::Done(self.outcome()),
            _ => match &self.pending {
                Some(r) => CommitAction::Move(Rename { from: r.from.clone(), to: r.to.clone() }),
                None => CommitAction::Done(self.outcome()),
            },
        }
    }

    /// How the work ended.
    pub fn outcome(&self) -> (r: Result<(), LegacyMigrationError>)
        ensures
            ends(r, self.failed(), self.complaints()),
    {
        match &self.fault {
            None => Ok(()),
            Some(CommitFault::Reservation(error)) => {
                if self.rollback_errors.len() == 0 {
                    return Err(copy_error(error));
                }
                Err(
                    LegacyMigrationError::Commit {
                        commit: error.message(),
                        rollback: list_errors(&self.rollback_errors),
                    },
                )
            },
            Some(CommitFault::Publication(what)) => Err(
                LegacyMigrationError::Commit {
                    commit: what.clone(),
                    rollback: if self.rollback_errors.len() == 0 {
                        "completed".to_owned()
                    } else {
                        list_errors(&self.rollback_errors)
                    },
                },
            ),
        }
    }

    /// Takes note of what stands in the place of the target directory that was looked at.
    pub fn looked(&mut self, found: Reservation)
        requires
            old(self).well_formed(),
            old(self).spec_phase() is Looking,
        ensures
            commit_step(*old(self), CommitEvent::Looked(found), *final(self)),
    {
        if let CommitPhase::Looking(i) = self.phase {
            match found {
                Reservation::Free => self.look_on(i),
                Reservation::Empty(aside) => {
                    let target = self.pairs[i].target.clone();
                    self.pending = Some(Rename { from: target, to: aside });
                    self.phase = CommitPhase::Reserving(i);
                },
                Reservation::Changed => {
                    let target = self.pairs[i].target.clone();
                    self.give_up(
                        CommitFault::Reservation(LegacyMigrationError::TargetChanged(target)),
                    );
                },
                Reservation::Failed(error) => self.give_up(CommitFault::Reservation(error)),
            }
        }
    }

    fn look_on(&mut self, i: usize)
        requires
            i < old(self).places().len(),
            old(self).failed() is None,
        ensures
            final(self).well_formed(),
            final(self).places() == old(self).places(),
            final(self).done() == old(self).done(),
            final(self).complaints() == old(self).complaints(),
            final(self).failed() is None,
            final(self).spec_phase() == after_look(i, old(self).places().len()),
    {
        assert(self.places().len() == self.pairs@.len());
        if i < self.pairs.len() - 1 {
            self.pending = None;
            self.phase = CommitPhase::Looking(i + 1);
        } else {
            let pair = &self.pairs[0];
            self.pending = Some(Rename { from: pair.stage.clone(), to: pair.target.clone() });
            self.phase = CommitPhase::Publishing(0);
        }
        proof {
            self.lengths_fit();
        }
    }

    fn give_up(&mut self, fault: CommitFault)
        ensures
            final(self).well_formed(),
            final(self).places() == old(self).places(),
            final(self).done() == old(self).done(),
            final(self).complaints() == old(self).complaints(),
            final(self).failed() == Some(fault),
            final(self).spec_phase() == undoing(old(self).done().len()),
    {
        self.fault = Some(fault);
        let n: usize = self.journal.len();
        self.phase = if n == 0 {
            CommitPhase::Finished
        } else {
            CommitPhase::Undoing(n)
        };
        proof {
            self.lengths_fit();
        }
    }

    /// Takes note of what came of a renaming; `error` says why it failed.
    pub fn moved(&mut self, error: Option<LegacyMigrationError>, reason: &str)
        requires
            old(self).well_formed(),
            old(self).spec_phase() is Reserving || old(self).spec_phase() is Publishing,
        ensures
            commit_step(*old(self), CommitEvent::Moved(error, reason@), *final(self)),
    {
        let ghost before = *self;
        match error {
            None => {
                if let Some(r) = self.pending.take() {
                    let ghost own = (r.from@, r.to@);
                    self.journal.push(r);
                    assert(self.done() =~= before.done().push(own));
                    proof {
                        self.lengths_fit();
                    }
                }
                match self.phase {
                    CommitPhase::Reserving(i) => self.look_on(i),
                    CommitPhase::Publishing(i) => {
                        assert(self.places().len() == self.pairs@.len());
                        if i < self.pairs.len() - 1 {
                            let pair = &self.pairs[i + 1];
                            self.pending = Some(
                                Rename { from: pair.stage.clone(), to: pair.target.clone() },
                            );
                            self.phase = CommitPhase::Publishing(i + 1);
                        } else {
                            self.phase = CommitPhase::Finished;
                        }
                    },
                    _ => {},
                }
            },
            Some(e) => match self.phase {
                CommitPhase::Publishing(i) => {
                    let head = four(
                        self.pairs[i].stage.as_str(),
                        " -> ",
                        self.pairs[i].target.as_str(),
                        ": ",
                    );
                    let what = concat(head.as_str(), reason);
                    self.give_up(CommitFault::Publication(what));
                },
                _ => self.give_up(CommitFault::Reservation(e)),
            },
        }
    }

    /// Takes note of what came of taking a renaming back.
    pub fn undone(&mut self, error: Option<String>)
        requires
            old(self).well_formed(),
            old(self).spec_phase() is Undoing,
        ensures
            commit_step(
                *old(self),
                CommitEvent::Undone(crate::domain::opt_view(error)),
                *final(self),
            ),
    {
        let ghost before = *self;
        if let CommitPhase::Undoing(n) = self.phase {
            if let Some(reason) = error {
                let head = four(
                    self.journal[n - 1].to.as_str(),
                    " -> ",
                    self.journal[n - 1].from.as_str(),
                    ": ",
                );
                let what = concat(head.as_str(), reason.as_str());
                let ghost text = what@;
                self.rollback_errors.push(what);
                assert(self.complaints() =~= before.complaints().push(text));
            }
            self.phase = if n == 1 {
                CommitPhase::Finished
            } else {
                CommitPhase::Undoing(n - 1)
            };
        }
    }
}

/// What came of an action, as the work takes note of it.
pub enum CommitEvent {
    Looked(Reservation),
    /// Why the renaming failed, if it did: the error and the reason.
    Moved(Option<LegacyMigrationError>, Seq<char>),
    /// Why taking the renaming back failed, if it did.
    Undone(Option<Seq<char>>),
}

/// Whether the work goes from one state to another when it takes note of an event.
pub open spec fn commit_step(before: Commit, event: CommitEvent, after: Commit) -> bool {
    &&& before.well_formed()
    &&& after.well_formed()
    &&& after.places() == before.places()
    &&& match event {
        CommitEvent::Looked(found) => before.spec_phase() matches CommitPhase::Looking(i)
            && looked_step(before, i, found, after),
        CommitEvent::Moved(error, reason) => (before.spec_phase() is Reserving
            || before.spec_phase() is Publishing) && moved_step(before, error, reason, after),
        CommitEvent::Undone(error) => before.spec_phase() matches CommitPhase::Undoing(n)
            && undone_step(before, n, error, after),
    }
}

/// What is noted of a target directory that was looked at.
pub open spec fn looked_step(before: Commit, i: usize, found: Reservation, after: Commit) -> bool {
    &&& after.done() == before.done()
    &&& after.complaints() == before.complaints()
    &&& match found {
        Reservation::Free => after.spec_phase() == after_look(i, before.places().len())
            && after.failed() is None,
        Reservation::Empty(aside) => {
            &&& after.spec_phase() == CommitPhase::Reserving(i)
            &&& after.failed() is None
            &&& after.under_way() == Some((before.places()[i as int].1, aside@))
        },
        Reservation::Changed => {
            &&& after.spec_phase() == undoing(before.done().len())
            &&& after.failed() matches Some(
                CommitFault::Reservation(LegacyMigrationError::TargetChanged(p)),
            ) && p@ == before.places()[i as int].1
        },
        Reservation::Failed(error) => {
            &&& after.spec_phase() == undoing(before.done().len())
            &&& after.failed() == Some(CommitFault::Reservation(error))
        },
    }
}

/// What is noted of a renaming.
pub open spec fn moved_step(
    before: Commit,
    error: Option<LegacyMigrationError>,
    reason: Seq<char>,
    after: Commit,
) -> bool {
    &&& after.complaints() == before.complaints()
    &&& match error {
        None => {
            &&& after.done() == before.done().push(before.under_way()->0)
            &&& after.failed() is None
            &&& after.spec_phase() == match before.spec_phase() {
                CommitPhase::Reserving(i) => after_look(i, before.places().len()),
                CommitPhase::Publishing(i) => if i + 1 < before.places().len() {
                    CommitPhase::Publishing((i + 1) as usize)
                } else {
                    CommitPhase::Finished
                },
                other => other,
            }
        },
        Some(e) => {
            &&& after.done() == before.done()
            &&& after.spec_phase() == undoing(before.done().len())
            &&& match before.spec_phase() {
                CommitPhase::Publishing(i) => after.failed() matches Some(
                    CommitFault::Publication(what),
                ) && what@ == before.places()[i as int].0 + " -> "@ + before.places()[i as int].1
                    + ": "@ + reason,
                _ => after.failed() == Some(CommitFault::Reservation(e)),
            }
        },
    }
}

/// What is noted of a renaming that was taken back.
pub open spec fn undone_step(before: Commit, n: usize, error: Option<Seq<char>>, after: Commit) -> bool {
    let r = before.done()[n - 1];
    &&& after.done() == before.done()
    &&& after.failed() == before.failed()
    &&& after.spec_phase() == undoing((n - 1) as nat)
    &&& after.complaints() == match error {
        None => before.complaints(),
        Some(reason) => before.complaints().push(r.1 + " -> "@ + r.0 + ": "@ + reason),
    }
}

/// The directories after an event: a renaming that succeeded has been done, and nothing else
/// changes them.
pub open spec fn tree_with(tree: Tree, before: Commit, event: CommitEvent) -> Tree {
    match event {
        CommitEvent::Moved(None, _) => renamed_tree(tree, before.under_way()->0),
        CommitEvent::Undone(None) => {
            let r = before.done()[before.spec_phase()->Undoing_0 - 1];
            renamed_tree(tree, (r.1, r.0))
        },
        _ => tree,
    }
}

/// A course of the work: the states that it goes through, what it takes note of between them, and
/// what the directories are. Nothing but the work renames any of them, and a renaming succeeds only
/// where it takes nothing's place.
pub struct Course {
    pub states: Seq<Commit>,
    pub events: Seq<CommitEvent>,
    pub trees: Seq<Tree>,
}

impl Course {
    /// Whether the work can go through this course from its start.
    pub open spec fn possible(self) -> bool {
        &&& self.states.len() == self.events.len() + 1
        &&& self.trees.len() == self.states.len()
        &&& self.states[0].spec_phase() == CommitPhase::Looking(0)
        &&& self.states[0].done().len() == 0
        &&& self.states[0].complaints().len() == 0
        &&& forall|i: int| 0 <= i < self.events.len() ==> #[trigger] self.steps(i)
    }

    /// Whether the event with this number leads to the next state.
    pub open spec fn steps(self, i: int) -> bool {
        &&& commit_step(self.states[i], self.events[i], self.states[i + 1])
        &&& self.trees[i + 1] == tree_with(self.trees[i], self.states[i], self.events[i])
        &&& self.events[i] matches CommitEvent::Moved(None, _) ==> possible(
            self.trees[i],
            self.states[i].under_way()->0,
        )
    }

    /// How the work stands at the end of the course.
    pub open spec fn end(self) -> Commit {
        self.states.last()
    }

    /// Whether the course ends with the work given up and nothing gone wrong while it was taken back.
    pub open spec fn taken_back(self) -> bool {
        &&& self.end().spec_phase() is Finished
        &&& self.end().failed() is Some
        &&& self.end().complaints().len() == 0
    }

    /// Whether the course ends with the work done.
    pub open spec fn successful(self) -> bool {
        self.end().spec_phase() is Finished && self.end().failed() is None
    }
}

/// How many of the renamings that were done are still in effect.
spec fn in_effect(c: Commit) -> int {
    match c.spec_phase() {
        CommitPhase::Undoing(n) => n as int,
        CommitPhase::Finished => if c.failed() is Some {
            0
        } else {
            c.done().len() as int
        },
        _ => c.done().len() as int,
    }
}

proof fn possible_before(tree: Tree, list: Seq<RenameView>, n: int)
    requires
        all_possible(tree, list),
        0 <= n <= list.len(),
    ensures
        all_possible(tree, list.take(n)),
    decreases list.len(),
{
    if n == list.len() {
        assert(list.take(n) =~= list);
    } else {
        possible_before(tree, list.drop_last(), n);
        assert(list.drop_last().take(n) =~= list.take(n));
    }
}

proof fn course_invariant(course: Course, i: int)
    requires
        course.possible(),
        0 <= i < course.states.len(),
    ensures
        course.states[i].complaints().len() == 0 ==> all_possible(
            course.trees[0],
            course.states[i].done(),
        ) && 0 <= in_effect(course.states[i]) <= course.states[i].done().len()
            && course.trees[i] == tree_after(
            course.trees[0],
            course.states[i].done().take(in_effect(course.states[i])),
        ),
    decreases i,
{
    let start = course.trees[0];
    let after = course.states[i];
    if i == 0 {
        assert(after.done().take(0) =~= after.done());
    } else {
        course_invariant(course, i - 1);
        assert(course.steps(i - 1));
        let before = course.states[i - 1];
        let tree = course.trees[i - 1];
        if after.complaints().len() == 0 {
            assert(before.complaints().len() == 0);
            match course.events[i - 1] {
                CommitEvent::Looked(_) => {
                    assert(before.done().take(before.done().len() as int) =~= before.done());
                },
                CommitEvent::Moved(None, _) => {
                    assert(before.done().take(before.done().len() as int) =~= before.done());
                    assert(after.done().drop_last() =~= before.done());
                    assert(after.done().take(after.done().len() as int) =~= after.done());
                },
                CommitEvent::Moved(Some(_), _) => {
                    assert(before.done().take(before.done().len() as int) =~= before.done());
                },
                CommitEvent::Undone(None) => {
                    let n = before.spec_phase()->Undoing_0 as int;
                    let list = before.done().take(n);
                    let r = list.last();
                    possible_before(start, before.done(), n);
                    assert(list.drop_last() =~= before.done().take(n - 1));
                    let earlier = tree_after(start, list.drop_last());
                    assert(renamed_tree(renamed_tree(earlier, r), (r.1, r.0)) =~= earlier);
                },
                CommitEvent::Undone(Some(_)) => {},
            }
        }
    }
}

/// An import that failed, and that was taken back without anything going wrong, leaves every
/// directory as it was before.
pub proof fn failed_imports_change_nothing(course: Course)
    requires
        course.possible(),
        course.taken_back(),
    ensures
        course.trees.last() == course.trees[0],
{
    let last = course.states.len() - 1;
    course_invariant(course, last);
    assert(course.end().done().take(0) =~= Seq::<RenameView>::empty());
}

/// Whether the work has been given up.
spec fn given_up(c: Commit) -> bool {
    c.failed() is Some && (c.spec_phase() is Undoing || c.spec_phase() is Finished)
}

proof fn faults_stay(course: Course, from: int, i: int)
    requires
        course.possible(),
        0 <= from <= i < course.states.len(),
        given_up(course.states[from]),
    ensures
        given_up(course.states[i]),
        course.states[i].failed() == course.states[from].failed(),
    decreases i,
{
    if from < i {
        faults_stay(course, from, i - 1);
        assert(course.steps(i - 1));
    }
}

/// A target that turns out to hold something, or to be no directory, ends the import with an error
/// that names it, where nothing went wrong while the work was taken back.
pub proof fn changed_targets_are_reported(
    course: Course,
    i: int,
    r: Result<(), LegacyMigrationError>,
)
    requires
        course.possible(),
        course.taken_back(),
        0 <= i < course.events.len(),
        course.events[i] matches CommitEvent::Looked(Reservation::Changed),
        ends(r, course.end().failed(), course.end().complaints()),
    ensures
        course.states[i].spec_phase() matches CommitPhase::Looking(k) && r matches Err(
            LegacyMigrationError::TargetChanged(path),
        ) && path@ == course.states[i].places()[k as int].1,
{
    assert(course.steps(i));
    faults_stay(course, i + 1, course.states.len() - 1);
}

/// Whether the staged directories are there, each in a place of its own that is no target.
pub open spec fn well_staged(tree: Tree, places: Seq<RenameView>) -> bool {
    &&& forall|i: int| 0 <= i < places.len() ==> tree.contains_key((#[trigger] places[i]).0)
    &&& forall|i: int, j: int|
        0 <= i < places.len() && 0 <= j < places.len() ==> (#[trigger] places[i]).0 != (
        #[trigger] places[j]).1
    &&& forall|i: int, j: int|
        0 <= i < j < places.len() ==> (#[trigger] places[i]).0 != (#[trigger] places[j]).0
}

/// How many staged directories have been put in their places.
spec fn published(c: Commit) -> int {
    match c.spec_phase() {
        CommitPhase::Publishing(i) => i as int,
        CommitPhase::Finished => c.places().len() as int,
        _ => 0,
    }
}

/// Whether the directories are as they should be so far: the published ones in their places, the
/// others where they were staged.
spec fn in_place(start: Tree, c: Commit, tree: Tree) -> bool {
    let n = published(c);
    &&& c.done().len() >= n
    &&& c.done().skip(c.done().len() - n) == c.places().take(n)
    &&& forall|k: int|
        0 <= k < n ==> tree.contains_key((#[trigger] c.places()[k]).1) && tree[c.places()[k].1]
            == start[c.places()[k].0]
    &&& forall|k: int|
        n <= k < c.places().len() ==> tree.contains_key((#[trigger] c.places()[k]).0)
            && tree[c.places()[k].0] == start[c.places()[k].0]
}

proof fn publishing_invariant(course: Course, i: int)
    requires
        course.possible(),
        well_staged(course.trees[0], course.states[0].places()),
        0 <= i < course.states.len(),
    ensures
        course.states[i].places() == course.states[0].places(),
        !given_up(course.states[i]) ==> in_place(
            course.trees[0],
            course.states[i],
            course.trees[i],
        ),
    decreases i,
{
    let start = course.trees[0];
    let after = course.states[i];
    let places = course.states[0].places();
    if i == 0 {
        assert(after.done().skip(0) =~= places.take(0));
    } else {
        publishing_invariant(course, i - 1);
        assert(course.steps(i - 1));
        let before = course.states[i - 1];
        let tree = course.trees[i - 1];
        if !given_up(after) {
            assert(!given_up(before));
            match course.events[i - 1] {
                CommitEvent::Looked(_) => {
                    assert(after.done().skip(after.done().len() as int) =~= places.take(0));
                },
                CommitEvent::Moved(None, _) => {
                    let n = published(before);
                    let r = before.under_way()->0;
                    if before.spec_phase() is Reserving {
                        assert(after.done().skip(after.done().len() as int) =~= places.take(0));
                    } else {
                        assert(published(after) == n + 1);
                        assert(r == places[n]);
                        let kept = before.done().len() - n;
                        assert(after.done().skip(kept) =~= before.done().skip(kept).push(r));
                        assert(places.take(n + 1) =~= places.take(n).push(r));
                    }
                },
                CommitEvent::Moved(Some(_), _) => {},
                CommitEvent::Undone(_) => {},
            }
        }
    }
}

/// A successful import puts every staged directory in its place, one after the other in the order
/// in which they are listed, and nothing is renamed after the last of them.
pub proof fn successful_imports_are_published_in_order(course: Course)
    requires
        course.possible(),
        course.successful(),
        well_staged(course.trees[0], course.states[0].places()),
    ensures
        ({
            let places = course.states[0].places();
            let done = course.end().done();
            &&& done.len() >= places.len()
            &&& done.skip(done.len() - places.len()) == places
            &&& forall|k: int|
                0 <= k < places.len() ==> course.trees.last().contains_key(
                    (#[trigger] places[k]).1,
                ) && course.trees.last()[places[k].1] == course.trees[0][places[k].0]
        }),
{
    let last = course.states.len() - 1;
    publishing_invariant(course, last);
    let places = course.states[0].places();
    assert(places.take(places.len() as int) =~= places);
}

/// The staged directories and their places, in the order in which they are published: the
/// configuration comes last, since it holds the record of the import's success.
pub fn staged_pairs(stages: &MigrationDirectories, target: &MigrationDirectories) -> (pairs: Vec<
    StagedPair,
>)
    ensures
        pairs@.len() == 3,
        pairs@[0].stage@ == stages.data_dir@ && pairs@[0].target@ == target.data_dir@,
        pairs@[1].stage@ == stages.cache_dir@ && pairs@[1].target@ == target.cache_dir@,
        pairs@[2].stage@ == stages.config_dir@ && pairs@[2].target@ == target.config_dir@,
{
    let mut pairs: Vec<StagedPair> = Vec::new();
    pairs.push(StagedPair { stage: stages.data_dir.clone(), target: target.data_dir.clone() });
    pairs.push(StagedPair { stage: stages.cache_dir.clone(), target: target.cache_dir.clone() });
    pairs.push(StagedPair { stage: stages.config_dir.clone(), target: target.config_dir.clone() });
    pairs
}

/// What comes after a target directory has been dealt with.
pub open spec fn after_look(i: usize, count: nat) -> CommitPhase {
    if i + 1 < count {
        CommitPhase::Looking((i + 1) as usize)
    } else {
        CommitPhase::Publishing(0)
    }
}

/// The phase in which so many renamings are still to be taken back.
pub open spec fn undoing(n: nat) -> CommitPhase {
    if n == 0 {
        CommitPhase::Finished
    } else {
        CommitPhase::Undoing(n as usize)
    }
}

/// Texts with a semicolon and a blank between them.
pub open spec fn with_semicolons(list: Seq<Seq<char>>) -> Seq<char> {
    crate::text::listed(list, "; "@)
}

fn list_errors(list: &Vec<String>) -> (s: String)
    ensures
        s@ == with_semicolons(crate::text::texts(list@)),
{
    list_texts(list, "; ")
}

/// Whether a result is how the work ends, given why it failed and what went wrong while it was
/// taken back.
pub open spec fn ends(
    r: Result<(), LegacyMigrationError>,
    fault: Option<CommitFault>,
    complaints: Seq<Seq<char>>,
) -> bool {
    match fault {
        None => r is Ok,
        Some(CommitFault::Reservation(error)) => if complaints.len() == 0 {
            r == Err::<(), LegacyMigrationError>(error)
        } else {
            r matches Err(LegacyMigrationError::Commit { commit, rollback }) && commit@
                == message_of(error) && rollback@ == with_semicolons(complaints)
        },
        Some(CommitFault::Publication(what)) => r matches Err(
            LegacyMigrationError::Commit { commit, rollback },
        ) && commit@ == what@ && rollback@ == (if complaints.len() == 0 {
            "completed"@
        } else {
            with_semicolons(complaints)
        }),
    }
}

fn copy_error(error: &LegacyMigrationError) -> (e: LegacyMigrationError)
    ensures
        e == *error,
{
    match error {
        LegacyMigrationError::HomeUnavailable => LegacyMigrationError::HomeUnavailable,
        LegacyMigrationError::SourceTargetOverlap(path) =>
            LegacyMigrationError::SourceTargetOverlap(path.clone()),
        LegacyMigrationError::UnsafeSource { path, reason } => LegacyMigrationError::UnsafeSource {
            path: path.clone(),
            reason: reason.clone(),
        },
        LegacyMigrationError::Io { action, path, source } => LegacyMigrationError::Io {
            action: action.clone(),
            path: path.clone(),
            source: source.clone(),
        },
        LegacyMigrationError::Database { path, source } => LegacyMigrationError::Database {
            path: path.clone(),
            source: source.clone(),
        },
        LegacyMigrationError::DatabaseIntegrity { path, detail } =>
            LegacyMigrationError::DatabaseIntegrity { path: path.clone(), detail: detail.clone() },
        LegacyMigrationError::UnsupportedDatabaseSchema { database, found, supported } =>
            LegacyMigrationError::UnsupportedDatabaseSchema {
            database: database.clone(),
            found: *found,
            supported: *supported,
        },
        LegacyMigrationError::InvalidJson { path, source } => LegacyMigrationError::InvalidJson {
            path: path.clone(),
            source: source.clone(),
        },
        LegacyMigrationError::JsonTooLarge { path } => LegacyMigrationError::JsonTooLarge {
            path: path.clone(),
        },
        LegacyMigrationError::CredentialInSettings { path } =>
            LegacyMigrationError::CredentialInSettings { path: path.clone() },
        LegacyMigrationError::InvalidSettingsDocument { path } =>
            LegacyMigrationError::InvalidSettingsDocument { path: path.clone() },
        LegacyMigrationError::UnsupportedAppSettingsSchema { found, supported } =>
            LegacyMigrationError::UnsupportedAppSettingsSchema {
            found: *found,
            supported: *supported,
        },
        LegacyMigrationError::InvalidMarker { path, source } =>
            LegacyMigrationError::InvalidMarker { path: path.clone(), source: source.clone() },
        LegacyMigrationError::UnsupportedMarkerSchema { found, supported } =>
            LegacyMigrationError::UnsupportedMarkerSchema {
            found: *found,
            supported: *supported,
        },
        LegacyMigrationError::TargetChanged(path) => LegacyMigrationError::TargetChanged(
            path.clone(),
        ),
        LegacyMigrationError::Commit { commit, rollback } => LegacyMigrationError::Commit {
            commit: commit.clone(),
            rollback: rollback.clone(),
        },
    }
}

} // verus!
