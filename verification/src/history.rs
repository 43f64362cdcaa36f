//! The history of generations: what a saved row becomes when a job is submitted, imported, updated
//! or taken over from the older table, and what is read back.

use crate::domain::{
    copy_text, JobLocator, LocatorView, ProviderId, ProviderJobKey, Timestamp, VideoJob,
    VideoRequest, OPENROUTER_PROVIDER_ID,
};
use crate::json::{insert_member, remove_member, Json, JsonView};
use crate::outside::{read_decimal, read_document, read_moment, render};
use crate::paths::{file_name, with_file_name};
use crate::text::{ascii_uppercase, comes_before, concat, concat3, decimal, same_text, trim_text};
use vstd::prelude::*;

verus! {

/// The version of the tables.
pub const SCHEMA_VERSION: i64 = 2;

/// The currency of a cost that names none.
pub const DEFAULT_CURRENCY: &'static str = "USD";

/// Why the history could not be used.
#[derive(Debug)]
pub enum HistoryError {
    /// A value of a row breaks the rules on such values.
    Domain(String),
    UnsupportedSchemaVersion { found: i64, supported: i64 },
    ProviderMismatch,
    IncompleteSubmittedJob,
    IncompleteImportedJob,
    MissingSavedRecord,
    /// A row's locator belongs to another provider than the row.
    InvalidRow,
}

/// The message of a failure.
pub open spec fn message_of(error: HistoryError) -> Seq<char> {
    match error {
        HistoryError::Domain(problem) => "invalid provider history value: "@ + problem@,
        HistoryError::UnsupportedSchemaVersion { found, supported } => "history schema version "@
            + crate::text::signed_numeral(found as int) + " is newer than supported version "@
            + crate::text::signed_numeral(supported as int),
        HistoryError::ProviderMismatch => "request, job, and history provider ids must match"@,
        HistoryError::IncompleteSubmittedJob =>
            "submitted jobs must include an id and valid polling locator"@,
        HistoryError::IncompleteImportedJob => "imported jobs must include an id"@,
        HistoryError::MissingSavedRecord => "history record disappeared after it was saved"@,
        HistoryError::InvalidRow => "could not access video history: Query is not read-only"@,
    }
}

impl HistoryError {
    /// The message of the failure.
    pub fn message(&self) -> (s: String)
        ensures
            s@ == message_of(*self),
    {
        match self {
            HistoryError::Domain(problem) => concat(
                "invalid provider history value: ",
                problem.as_str(),
            ),
            HistoryError::UnsupportedSchemaVersion { found, supported } => {
                let f = crate::text::signed_decimal(*found);
                let s = crate::text::signed_decimal(*supported);
                let head = concat3(
                    "history schema version ",
                    f.as_str(),
                    " is newer than supported version ",
                );
                concat(head.as_str(), s.as_str())
            },
            HistoryError::ProviderMismatch =>
                "request, job, and history provider ids must match".to_owned(),
            HistoryError::IncompleteSubmittedJob =>
                "submitted jobs must include an id and valid polling locator".to_owned(),
            HistoryError::IncompleteImportedJob => "imported jobs must include an id".to_owned(),
            HistoryError::MissingSavedRecord =>
                "history record disappeared after it was saved".to_owned(),
            HistoryError::InvalidRow =>
                "could not access video history: Query is not read-only".to_owned(),
        }
    }
}

/// Refuses tables that a newer version of the program made.
pub fn reject_newer_schema(version: i64) -> (r: Result<(), HistoryError>)
    ensures
        match r {
            Ok(_) => version <= SCHEMA_VERSION,
            Err(e) => version > SCHEMA_VERSION && e == (HistoryError::UnsupportedSchemaVersion {
                found: version,
                supported: SCHEMA_VERSION,
            }),
        },
{
    if version > SCHEMA_VERSION {
        Err(HistoryError::UnsupportedSchemaVersion { found: version, supported: SCHEMA_VERSION })
    } else {
        Ok(())
    }
}

/// Decides whether the tables are backed up before they are brought up to date. `version` is that
/// of tables that were there before.
pub fn needs_backups(version: Option<i64>) -> (r: Result<bool, HistoryError>)
    ensures
        match version {
            None => r == Ok::<bool, HistoryError>(false),
            Some(v) => if v > SCHEMA_VERSION {
                r == Err::<bool, HistoryError>(
                    HistoryError::UnsupportedSchemaVersion { found: v, supported: SCHEMA_VERSION },
                )
            } else {
                r == Ok::<bool, HistoryError>(v < SCHEMA_VERSION)
            },
        },
{
    match version {
        None => Ok(false),
        Some(v) => {
            if let Err(e) = reject_newer_schema(v) {
                return Err(e);
            }
            Ok(v < SCHEMA_VERSION)
        },
    }
}

/// What is done about a backup.
#[derive(Debug, Clone, Copy, PartialEq, Eq, Structural)]
pub enum BackupStep {
    /// There is nothing to back up.
    Nothing,
    /// The backup that there is stays.
    Keep,
    Make,
}

/// Decides what is done about a backup: one that exists is never written over.
pub fn backup_step(source_exists: bool, backup_exists: bool) -> (step: BackupStep)
    ensures
        step == (if !source_exists {
            BackupStep::Nothing
        } else if backup_exists {
            BackupStep::Keep
        } else {
            BackupStep::Make
        }),
{
    if !source_exists {
        BackupStep::Nothing
    } else if backup_exists {
        BackupStep::Keep
    } else {
        BackupStep::Make
    }
}

/// Where the backup of a database stands.
pub open spec fn backup_of(database: Seq<char>, label: Seq<char>) -> Seq<char> {
    let name = match crate::paths::name_of(database) {
        Some(name) => name,
        None => "history.sqlite3"@,
    };
    crate::paths::renamed(database, name + "."@ + label + ".bak"@)
}

/// Where the backup of a database stands.
pub fn backup_path(database: &str, label: &str) -> (path: String)
    ensures
        path@ == backup_of(database@, label@),
{
    let name = match file_name(database) {
        Some(name) => name,
        None => "history.sqlite3".to_owned(),
    };
    let head = concat3(name.as_str(), ".", label);
    let full = concat(head.as_str(), ".bak");
    with_file_name(database, full.as_str())
}

proof fn backup_name_is_plain(name: Seq<char>, label: Seq<char>)
    requires
        crate::paths::plain_part(name),
        !label.contains('/'),
    ensures
        crate::paths::plain_part(name + "."@ + label + ".bak"@),
        (name + "."@ + label + ".bak"@).len() == name.len() + label.len() + 5,
{
    reveal_strlit(".");
    reveal_strlit(".bak");
    let full = name + "."@ + label + ".bak"@;
    assert(".bak"@.len() == 4 && "."@.len() == 1);
    assert forall|i: int| 0 <= i < full.len() implies #[trigger] full[i] != '/' by {
        if i < name.len() {
            assert(full[i] == name[i] && name.contains(name[i]));
        } else if i == name.len() {
            assert(full[i] == "."@[0]);
        } else if i < name.len() + 1 + label.len() {
            let k = i - name.len() - 1;
            assert(full[i] == label[k] && label.contains(label[k]));
        } else {
            let k = i - name.len() - 1 - label.len();
            assert(full[i] == ".bak"@[k]);
        }
    }
}

/// A backup stands beside its database, under the database's name with its own behind it.
proof fn backup_is_a_sibling(database: Seq<char>, name: Seq<char>, label: Seq<char>)
    requires
        crate::paths::name_of(database) == Some(name),
        !label.contains('/'),
    ensures
        crate::paths::parent_parts(backup_of(database, label)) == crate::paths::parent_parts(
            database,
        ),
        crate::paths::rooted(backup_of(database, label)) == crate::paths::rooted(database),
        crate::paths::name_of(backup_of(database, label)) == Some(name + "."@ + label + ".bak"@),
        (name + "."@ + label + ".bak"@).len() == name.len() + label.len() + 5,
{
    crate::paths::names_are_plain(database);
    backup_name_is_plain(name, label);
    reveal_strlit(".");
    reveal_strlit("..");
    assert("."@.len() == 1 && ".."@.len() == 2);
    crate::paths::renamed_is_a_sibling(database, name + "."@ + label + ".bak"@);
}

/// The two snapshots are separate files beside the database: they lie in its directory, under its
/// name with their own behind it, and neither is the database or the other one.
pub proof fn backups_are_separate_siblings(database: Seq<char>, name: Seq<char>)
    requires
        crate::paths::name_of(database) == Some(name),
    ensures
        ({
            let first = backup_of(database, "pre-rust-v1"@);
            let second = backup_of(database, "pre-provider-v2"@);
            &&& crate::paths::parent_parts(first) == crate::paths::parent_parts(database)
            &&& crate::paths::parent_parts(second) == crate::paths::parent_parts(database)
            &&& crate::paths::rooted(first) == crate::paths::rooted(database)
            &&& crate::paths::rooted(second) == crate::paths::rooted(database)
            &&& crate::paths::name_of(first) == Some(name + ".pre-rust-v1.bak"@)
            &&& crate::paths::name_of(second) == Some(name + ".pre-provider-v2.bak"@)
            &&& first != database
            &&& second != database
            &&& first != second
        }),
{
    reveal_strlit("pre-rust-v1");
    reveal_strlit("pre-provider-v2");
    reveal_strlit(".");
    reveal_strlit(".bak");
    reveal_strlit(".pre-rust-v1.bak");
    reveal_strlit(".pre-provider-v2.bak");
    backup_is_a_sibling(database, name, "pre-rust-v1"@);
    backup_is_a_sibling(database, name, "pre-provider-v2"@);
    assert("pre-rust-v1"@.len() == 11 && "pre-provider-v2"@.len() == 15);
    assert(name + "."@ + "pre-rust-v1"@ + ".bak"@ =~= name + ".pre-rust-v1.bak"@);
    assert(name + "."@ + "pre-provider-v2"@ + ".bak"@ =~= name + ".pre-provider-v2.bak"@);
}

/// Where a backup is written before it is complete: the place with this number.
pub fn backup_temporary(backup: &str, process: u32, index: u32) -> (path: String)
    ensures
        path@ == crate::paths::renamed(
            backup@,
            match crate::paths::name_of(backup@) {
                Some(name) => name,
                None => "history.sqlite3.pre-provider-v2.bak"@,
            } + ".tmp-"@ + crate::text::numeral(process as nat) + "-"@ + crate::text::numeral(
                index as nat,
            ),
        ),
{
    let name = match file_name(backup) {
        Some(name) => name,
        None => "history.sqlite3.pre-provider-v2.bak".to_owned(),
    };
    let p = decimal(process as u64);
    let i = decimal(index as u64);
    let head = concat3(name.as_str(), ".tmp-", p.as_str());
    let full = concat3(head.as_str(), "-", i.as_str());
    with_file_name(backup, full.as_str())
}

/// The place of the history's database.
#[derive(Debug)]
pub struct HistoryStore {
    path: String,
}

impl HistoryStore {
    /// The place of the database.
    pub closed spec fn place(self) -> Seq<char> {
        self.path@
    }

    /// The history in the database at `path`.
    pub fn new(path: String) -> (store: HistoryStore)
        ensures
            store.place() == path@,
    {
        HistoryStore { path }
    }

    /// The place of the database.
    pub fn path(&self) -> (path: &str)
        ensures
            path@ == self.place(),
    {
        self.path.as_str()
    }

    /// Where the first rollback snapshot stands.
    pub fn pre_rust_backup_path(&self) -> (path: String)
        ensures
            path@ == backup_of(self.place(), "pre-rust-v1"@),
    {
        backup_path(self.path.as_str(), "pre-rust-v1")
    }

    /// Where the snapshot from before several providers stands.
    pub fn pre_provider_v2_backup_path(&self) -> (path: String)
        ensures
            path@ == backup_of(self.place(), "pre-provider-v2"@),
    {
        backup_path(self.path.as_str(), "pre-provider-v2")
    }

    /// What is done about the first rollback snapshot, and where it stands.
    pub fn ensure_pre_rust_backup(&self, source_exists: bool, backup_exists: bool) -> (r: (
        BackupStep,
        String,
    ))
        ensures
            r.1@ == backup_of(self.place(), "pre-rust-v1"@),
            r.0 == (if !source_exists {
                BackupStep::Nothing
            } else if backup_exists {
                BackupStep::Keep
            } else {
                BackupStep::Make
            }),
    {
        (backup_step(source_exists, backup_exists), self.pre_rust_backup_path())
    }

    /// What is done about the snapshot from before several providers, and where it stands.
    pub fn ensure_pre_provider_v2_backup(&self, source_exists: bool, backup_exists: bool) -> (r: (
        BackupStep,
        String,
    ))
        ensures
            r.1@ == backup_of(self.place(), "pre-provider-v2"@),
            r.0 == (if !source_exists {
                BackupStep::Nothing
            } else if backup_exists {
                BackupStep::Keep
            } else {
                BackupStep::Make
            }),
    {
        (backup_step(source_exists, backup_exists), self.pre_provider_v2_backup_path())
    }
}

/// Checks that a job, its request and its locator are the provider's. `problem` says what is wrong
/// with the job's key or its locator.
pub fn validate_provider_values(
    provider_id: &ProviderId,
    request: Option<&VideoRequest>,
    job: &VideoJob,
    problem: Option<String>,
) -> (r: Result<(), HistoryError>)
    ensures
        match r {
            Ok(_) => one_provider(provider_id@, request, *job) && problem is None,
            Err(HistoryError::ProviderMismatch) => !one_provider(provider_id@, request, *job),
            Err(HistoryError::Domain(text)) => one_provider(provider_id@, request, *job)
                && problem == Some(text),
            _ => false,
        },
{
    let foreign = match request {
        Some(request) => !request.provider_id.same(provider_id),
        None => false,
    };
    if !job.provider_id.same(provider_id) || foreign || !job.locator.provider_id().same(
        provider_id,
    ) {
        return Err(HistoryError::ProviderMismatch);
    }
    if let Some(text) = problem {
        return Err(HistoryError::Domain(text));
    }
    Ok(())
}

/// Whether a job, its request and its locator are all the provider's.
pub open spec fn one_provider(
    provider_id: Seq<char>,
    request: Option<&VideoRequest>,
    job: VideoJob,
) -> bool {
    &&& job.provider_id@ == provider_id
    &&& request matches Some(r) ==> r.provider_id@ == provider_id
    &&& job.locator@.provider() == provider_id
}

/// Whether a locator says where its job is; `problem` is what is wrong with it.
pub fn locator_is_complete(problem: &Option<String>) -> (b: bool)
    ensures
        b == problem is None,
{
    problem.is_none()
}

/// Whether a text is blank.
pub open spec fn blank(text: Seq<char>) -> bool {
    crate::text::trimmed(text).len() == 0
}

fn is_blank(text: &str) -> (b: bool)
    ensures
        b == blank(text@),
{
    trim_text(text).is_empty()
}

/// Checks a job that is saved together with its request. `problem` is what is wrong with its key
/// or its locator.
pub fn check_submitted(
    provider_id: &ProviderId,
    request: &VideoRequest,
    job: &VideoJob,
    problem: Option<String>,
) -> (r: Result<(), HistoryError>)
    ensures
        match r {
            Ok(_) => one_provider(provider_id@, Some(request), *job) && problem is None && !blank(
                job.id@,
            ),
            Err(HistoryError::ProviderMismatch) => !one_provider(
                provider_id@,
                Some(request),
                *job,
            ),
            Err(HistoryError::Domain(text)) => one_provider(provider_id@, Some(request), *job)
                && problem == Some(text),
            Err(HistoryError::IncompleteSubmittedJob) => one_provider(
                provider_id@,
                Some(request),
                *job,
            ) && problem is None && blank(job.id@),
            _ => false,
        },
{
    if let Err(e) = validate_provider_values(provider_id, Some(request), job, problem) {
        return Err(e);
    }
    if is_blank(job.id.as_str()) {
        return Err(HistoryError::IncompleteSubmittedJob);
    }
    Ok(())
}

/// Where an imported job is to be found: at its own place, or, where OpenRouter's answer names
/// none, at the usual one.
pub open spec fn imported_locator(provider_id: Seq<char>, job: VideoJob) -> LocatorView {
    if provider_id == OPENROUTER_PROVIDER_ID@ && job.polling_url@.len() == 0 {
        LocatorView::OpenRouter { polling_url: "/api/v1/videos/"@ + job.id@ }
    } else {
        job.locator@
    }
}

/// Finds out where an imported job is to be found.
pub fn import_locator(provider_id: &ProviderId, job: &VideoJob) -> (r: Result<
    JobLocator,
    HistoryError,
>)
    ensures
        match r {
            Ok(locator) => locator@ == imported_locator(provider_id@, *job) && locator@.provider()
                == provider_id@,
            Err(e) => e == HistoryError::ProviderMismatch && imported_locator(
                provider_id@,
                *job,
            ).provider() != provider_id@,
        },
{
    let locator = if provider_id.is(OPENROUTER_PROVIDER_ID) && job.polling_url.as_str().is_empty() {
        JobLocator::OpenRouter { polling_url: concat("/api/v1/videos/", job.id.as_str()) }
    } else {
        job.locator.copy()
    };
    if !locator.provider_id().same(provider_id) {
        return Err(HistoryError::ProviderMismatch);
    }
    Ok(locator)
}

/// Checks a job that is saved without its request, and finds out where it is to be found.
pub fn check_imported(provider_id: &ProviderId, job: &VideoJob) -> (r: Result<
    JobLocator,
    HistoryError,
>)
    ensures
        match r {
            Ok(locator) => {
                &&& !blank(job.id@)
                &&& job.provider_id@ == provider_id@
                &&& locator@ == imported_locator(provider_id@, *job)
                &&& locator@.provider() == provider_id@
            },
            Err(HistoryError::IncompleteImportedJob) => blank(job.id@),
            Err(HistoryError::ProviderMismatch) => !blank(job.id@) && (job.provider_id@
                != provider_id@ || imported_locator(provider_id@, *job).provider()
                != provider_id@),
            _ => false,
        },
{
    if is_blank(job.id.as_str()) {
        return Err(HistoryError::IncompleteImportedJob);
    }
    if !job.provider_id.same(provider_id) {
        return Err(HistoryError::ProviderMismatch);
    }
    import_locator(provider_id, job)
}

/// Where a job that is updated is to be found: at its own place where that is complete, else at
/// the saved one. `problem` is what is wrong with its own.
pub fn updated_locator(
    provider_id: &ProviderId,
    job: &VideoJob,
    problem: &Option<String>,
    saved: &JobLocator,
) -> (r: Result<JobLocator, HistoryError>)
    ensures
        match r {
            Ok(locator) => {
                &&& job.provider_id@ == provider_id@ && !blank(job.id@)
                &&& if problem is None {
                    job.locator@.provider() == provider_id@ && locator@ == job.locator@
                } else {
                    locator@ == saved@
                }
            },
            Err(e) => e == HistoryError::ProviderMismatch && (job.provider_id@ != provider_id@
                || blank(job.id@) || (problem is None && job.locator@.provider()
                != provider_id@)),
        },
{
    if !job.provider_id.same(provider_id) || is_blank(job.id.as_str()) {
        return Err(HistoryError::ProviderMismatch);
    }
    if locator_is_complete(problem) {
        if !job.locator.provider_id().same(provider_id) {
            return Err(HistoryError::ProviderMismatch);
        }
        Ok(job.locator.copy())
    } else {
        Ok(saved.copy())
    }
}

/// The one text that shows where a job is to be found.
pub open spec fn shown_url(locator: LocatorView) -> Seq<char> {
    match locator {
        LocatorView::OpenRouter { polling_url } => polling_url,
        LocatorView::Fal { endpoint_id, request_id, status_url, response_url } => match (
            status_url,
            response_url,
        ) {
            (Some(url), _) => url,
            (None, Some(url)) => url,
            _ => endpoint_id + "/requests/"@ + request_id,
        },
    }
}

/// The one text that shows where a job is to be found.
pub fn polling_url_for_locator(locator: &JobLocator) -> (url: String)
    ensures
        url@ == shown_url(locator@),
{
    match locator {
        JobLocator::OpenRouter { polling_url } => polling_url.clone(),
        JobLocator::Fal { endpoint_id, request_id, status_url, response_url } => match status_url {
            Some(url) => url.clone(),
            None => match response_url {
                Some(url) => url.clone(),
                None => concat3(endpoint_id.as_str(), "/requests/", request_id.as_str()),
            },
        },
    }
}

/// The currency of a job's cost: the one that its usage names, else the default where there is a
/// cost.
pub open spec fn currency_in(usage: JsonView, has_cost: bool) -> Option<Seq<char>> {
    match crate::json::text_field(usage, "currency"@) {
        Some(name) if !blank(name) => Some(
            crate::text::upper_text(crate::text::trimmed(name)),
        ),
        _ => if has_cost {
            Some(DEFAULT_CURRENCY@)
        } else {
            None
        },
    }
}

/// The currency of a job's cost.
pub fn currency_for_job(job: &VideoJob, has_cost: bool) -> (r: Option<String>)
    ensures
        crate::domain::opt_view(r) == currency_in(job.usage@, has_cost),
{
    if let Some(name) = job.usage.get_str("currency") {
        if !is_blank(name) {
            return Some(ascii_uppercase(trim_text(name)));
        }
    }
    if has_cost {
        Some(DEFAULT_CURRENCY.to_owned())
    } else {
        None
    }
}

/// A request's document as it is saved: under the names that hold for every provider.
pub open spec fn normalized_request(
    members: Seq<(Seq<char>, JsonView)>,
    provider_id: Seq<char>,
) -> Seq<(Seq<char>, JsonView)> {
    let moved = match crate::json::lookup(members, "provider"@) {
        Some(options) => crate::json::inserted(
            crate::json::without(members, "provider"@),
            "adapter_options"@,
            options,
        ),
        None => members,
    };
    crate::json::inserted(moved, "provider_id"@, JsonView::Text(provider_id))
}

/// Writes a request's document as it is saved. `None` where the document is no object.
pub fn normalized_request_json(payload: &Json, provider_id: &ProviderId) -> (r: Option<String>)
    ensures
        match payload@ {
            JsonView::Object(members) => crate::domain::opt_view(r) == Some(
                crate::outside::rendering_of(
                    JsonView::Object(normalized_request(members, provider_id@)),
                ),
            ),
            _ => r is None,
        },
{
    broadcast use crate::json::object_view;

    let whole = crate::json::copy_json(payload);
    let mut members = match whole {
        Json::Object(members) => members,
        _ => {
            return None;
        },
    };
    if let Some(options) = payload.get("provider") {
        remove_member(&mut members, "provider");
        insert_member(&mut members, "adapter_options".to_owned(), crate::json::copy_json(options));
    }
    insert_member(
        &mut members,
        "provider_id".to_owned(),
        Json::Text(provider_id.as_str().to_owned()),
    );
    Some(render(&Json::Object(members)))
}

/// A saved row of the table of generations.
#[derive(Debug)]
pub struct GenerationRow {
    pub provider_id: ProviderId,
    pub remote_job_id: String,
    pub locator: JobLocator,
    pub status: String,
    pub request_json: Option<String>,
    pub generation_id: Option<String>,
    pub output_path: Option<String>,
    pub cost: Option<String>,
    pub currency: Option<String>,
    pub error: Option<String>,
    pub created_at: String,
    pub updated_at: String,
}

/// The mathematical value of a row.
pub struct RowView {
    pub provider_id: Seq<char>,
    pub remote_job_id: Seq<char>,
    pub locator: LocatorView,
    pub status: Seq<char>,
    pub request_json: Option<Seq<char>>,
    pub generation_id: Option<Seq<char>>,
    pub output_path: Option<Seq<char>>,
    pub cost: Option<Seq<char>>,
    pub currency: Option<Seq<char>>,
    pub error: Option<Seq<char>>,
    pub created_at: Seq<char>,
    pub updated_at: Seq<char>,
}

impl View for GenerationRow {
    type V = RowView;

    open spec fn view(&self) -> RowView {
        RowView {
            provider_id: self.provider_id@,
            remote_job_id: self.remote_job_id@,
            locator: self.locator@,
            status: self.status@,
            request_json: crate::domain::opt_view(self.request_json),
            generation_id: crate::domain::opt_view(self.generation_id),
            output_path: crate::domain::opt_view(self.output_path),
            cost: crate::domain::opt_view(self.cost),
            currency: crate::domain::opt_view(self.currency),
            error: crate::domain::opt_view(self.error),
            created_at: self.created_at@,
            updated_at: self.updated_at@,
        }
    }
}

/// The first value that there is.
pub open spec fn coalesce(first: Option<Seq<char>>, second: Option<Seq<char>>) -> Option<
    Seq<char>,
> {
    match first {
        Some(value) => Some(value),
        None => second,
    }
}

fn first_of(first: &Option<String>, second: &Option<String>) -> (r: Option<String>)
    ensures
        crate::domain::opt_view(r) == coalesce(
            crate::domain::opt_view(*first),
            crate::domain::opt_view(*second),
        ),
{
    match first {
        Some(value) => Some(value.clone()),
        None => copy_text(second),
    }
}

/// What a job says of its row.
pub struct Report {
    pub locator: LocatorView,
    pub status: Seq<char>,
    pub generation_id: Option<Seq<char>>,
    pub cost: Option<Seq<char>>,
    pub currency: Option<Seq<char>>,
    pub error: Option<Seq<char>>,
}

/// What a job says of its row, given where it is to be found and what it cost.
pub open spec fn report(job: VideoJob, locator: LocatorView, cost: Option<Seq<char>>) -> Report {
    Report {
        locator,
        status: job.status@.name(),
        generation_id: crate::domain::opt_view(job.generation_id),
        cost,
        currency: currency_in(job.usage@, cost is Some),
        error: crate::domain::opt_view(job.error),
    }
}

/// The row of a job that is submitted or imported: a new one, or the saved one with what the job
/// says. What is known of the request, and of the output, stays.
pub open spec fn submitted_row(
    saved: Option<RowView>,
    provider_id: Seq<char>,
    remote_job_id: Seq<char>,
    said: Report,
    request_json: Option<Seq<char>>,
    now: Seq<char>,
) -> RowView {
    match saved {
        None => RowView {
            provider_id,
            remote_job_id,
            locator: said.locator,
            status: said.status,
            request_json,
            generation_id: said.generation_id,
            output_path: None,
            cost: said.cost,
            currency: said.currency,
            error: said.error,
            created_at: now,
            updated_at: now,
        },
        Some(row) => RowView {
            locator: said.locator,
            status: said.status,
            request_json: coalesce(row.request_json, request_json),
            generation_id: coalesce(said.generation_id, row.generation_id),
            cost: coalesce(said.cost, row.cost),
            currency: coalesce(said.currency, row.currency),
            error: said.error,
            updated_at: now,
            ..row
        },
    }
}

/// The saved row of a job that is updated.
pub open spec fn updated_row(
    row: RowView,
    said: Report,
    output_path: Option<Seq<char>>,
    now: Seq<char>,
) -> RowView {
    RowView {
        locator: said.locator,
        status: said.status,
        generation_id: coalesce(said.generation_id, row.generation_id),
        output_path: coalesce(output_path, row.output_path),
        cost: coalesce(said.cost, row.cost),
        currency: coalesce(said.currency, row.currency),
        error: said.error,
        updated_at: now,
        ..row
    }
}

/// Makes the row of a job that is submitted or imported.
pub fn upsert_generation(
    saved: Option<GenerationRow>,
    provider_id: &ProviderId,
    job: &VideoJob,
    locator: JobLocator,
    request_json: Option<String>,
    cost: Option<String>,
    now: &str,
) -> (row: GenerationRow)
    ensures
        row@ == submitted_row(
            match saved {
                Some(s) => Some(s@),
                None => None,
            },
            provider_id@,
            job.id@,
            report(*job, locator@, crate::domain::opt_view(cost)),
            crate::domain::opt_view(request_json),
            now@,
        ),
{
    let currency = currency_for_job(job, cost.is_some());
    let status = job.status.as_str().to_owned();
    match saved {
        None => GenerationRow {
            provider_id: provider_id.copy(),
            remote_job_id: job.id.clone(),
            locator,
            status,
            request_json,
            generation_id: copy_text(&job.generation_id),
            output_path: None,
            cost,
            currency,
            error: copy_text(&job.error),
            created_at: now.to_owned(),
            updated_at: now.to_owned(),
        },
        Some(row) => GenerationRow {
            provider_id: row.provider_id,
            remote_job_id: row.remote_job_id,
            locator,
            status,
            request_json: first_of(&row.request_json, &request_json),
            generation_id: first_of(&job.generation_id, &row.generation_id),
            output_path: row.output_path,
            cost: first_of(&cost, &row.cost),
            currency: first_of(&currency, &row.currency),
            error: copy_text(&job.error),
            created_at: row.created_at,
            updated_at: now.to_owned(),
        },
    }
}

/// Makes the row of a job that is updated.
pub fn update_generation(
    row: GenerationRow,
    job: &VideoJob,
    locator: JobLocator,
    output_path: Option<String>,
    cost: Option<String>,
    now: &str,
) -> (updated: GenerationRow)
    ensures
        updated@ == updated_row(
            row@,
            report(*job, locator@, crate::domain::opt_view(cost)),
            crate::domain::opt_view(output_path),
            now@,
        ),
{
    let currency = currency_for_job(job, cost.is_some());
    GenerationRow {
        provider_id: row.provider_id,
        remote_job_id: row.remote_job_id,
        locator,
        status: job.status.as_str().to_owned(),
        request_json: row.request_json,
        generation_id: first_of(&job.generation_id, &row.generation_id),
        output_path: first_of(&output_path, &row.output_path),
        cost: first_of(&cost, &row.cost),
        currency: first_of(&currency, &row.currency),
        error: copy_text(&job.error),
        created_at: row.created_at,
        updated_at: now.to_owned(),
    }
}

/// Whatever a job says later, its row keeps its key, the time of its creation and its request, and
/// does not lose an output, a cost or a generation's identifier that it had.
pub proof fn updates_lose_nothing(
    row: RowView,
    said: Report,
    request_json: Option<Seq<char>>,
    output_path: Option<Seq<char>>,
    now: Seq<char>,
)
    ensures
        ({
            let submitted = submitted_row(
                Some(row),
                row.provider_id,
                row.remote_job_id,
                said,
                request_json,
                now,
            );
            let updated = updated_row(row, said, output_path, now);
            &&& submitted.provider_id == row.provider_id && updated.provider_id == row.provider_id
            &&& submitted.remote_job_id == row.remote_job_id && updated.remote_job_id
                == row.remote_job_id
            &&& submitted.created_at == row.created_at && updated.created_at == row.created_at
            &&& updated.request_json == row.request_json
            &&& row.request_json is Some ==> submitted.request_json == row.request_json
            &&& submitted.output_path == row.output_path
            &&& row.output_path is Some ==> updated.output_path is Some
            &&& row.cost is Some ==> submitted.cost is Some && updated.cost is Some
            &&& row.generation_id is Some ==> submitted.generation_id is Some
                && updated.generation_id is Some
        }),
{
}

/// Saving the same report twice is saving it once.
pub proof fn updates_are_idempotent(
    row: RowView,
    said: Report,
    output_path: Option<Seq<char>>,
    now: Seq<char>,
)
    ensures
        updated_row(updated_row(row, said, output_path, now), said, output_path, now)
            == updated_row(row, said, output_path, now),
{
}

/// A row of the older table, which knows one provider.
#[derive(Debug)]
pub struct LegacyRow {
    pub job_id: String,
    pub polling_url: String,
    pub status: String,
    pub request_json: Option<String>,
    pub generation_id: Option<String>,
    pub output_path: Option<String>,
    pub cost: Option<String>,
    pub error: Option<String>,
    pub created_at: String,
    pub updated_at: String,
}

/// The mathematical value of an older row.
pub struct LegacyView {
    pub job_id: Seq<char>,
    pub polling_url: Seq<char>,
    pub status: Seq<char>,
    pub request_json: Option<Seq<char>>,
    pub generation_id: Option<Seq<char>>,
    pub output_path: Option<Seq<char>>,
    pub cost: Option<Seq<char>>,
    pub error: Option<Seq<char>>,
    pub created_at: Seq<char>,
    pub updated_at: Seq<char>,
}

impl View for LegacyRow {
    type V = LegacyView;

    open spec fn view(&self) -> LegacyView {
        LegacyView {
            job_id: self.job_id@,
            polling_url: self.polling_url@,
            status: self.status@,
            request_json: crate::domain::opt_view(self.request_json),
            generation_id: crate::domain::opt_view(self.generation_id),
            output_path: crate::domain::opt_view(self.output_path),
            cost: crate::domain::opt_view(self.cost),
            error: crate::domain::opt_view(self.error),
            created_at: self.created_at@,
            updated_at: self.updated_at@,
        }
    }
}

/// The older row of a job that is submitted or imported.
pub open spec fn submitted_legacy(
    saved: Option<LegacyView>,
    job_id: Seq<char>,
    polling_url: Seq<char>,
    said: Report,
    request_json: Option<Seq<char>>,
    now: Seq<char>,
) -> LegacyView {
    match saved {
        None => LegacyView {
            job_id,
            polling_url,
            status: said.status,
            request_json,
            generation_id: said.generation_id,
            output_path: None,
            cost: said.cost,
            error: said.error,
            created_at: now,
            updated_at: now,
        },
        Some(row) => LegacyView {
            polling_url,
            status: said.status,
            request_json: coalesce(row.request_json, request_json),
            generation_id: coalesce(said.generation_id, row.generation_id),
            cost: coalesce(said.cost, row.cost),
            error: said.error,
            updated_at: now,
            ..row
        },
    }
}

/// Makes the older row of a job that is submitted or imported.
pub fn upsert_legacy_job(
    saved: Option<LegacyRow>,
    job: &VideoJob,
    polling_url: &str,
    request_json: Option<String>,
    cost: Option<String>,
    now: &str,
) -> (row: LegacyRow)
    ensures
        row@ == submitted_legacy(
            match saved {
                Some(s) => Some(s@),
                None => None,
            },
            job.id@,
            polling_url@,
            report(*job, job.locator@, crate::domain::opt_view(cost)),
            crate::domain::opt_view(request_json),
            now@,
        ),
{
    let status = job.status.as_str().to_owned();
    match saved {
        None => LegacyRow {
            job_id: job.id.clone(),
            polling_url: polling_url.to_owned(),
            status,
            request_json,
            generation_id: copy_text(&job.generation_id),
            output_path: None,
            cost,
            error: copy_text(&job.error),
            created_at: now.to_owned(),
            updated_at: now.to_owned(),
        },
        Some(row) => LegacyRow {
            job_id: row.job_id,
            polling_url: polling_url.to_owned(),
            status,
            request_json: first_of(&row.request_json, &request_json),
            generation_id: first_of(&job.generation_id, &row.generation_id),
            output_path: row.output_path,
            cost: first_of(&cost, &row.cost),
            error: copy_text(&job.error),
            created_at: row.created_at,
            updated_at: now.to_owned(),
        },
    }
}

/// The older row of a job that is updated.
pub open spec fn updated_legacy(
    row: LegacyView,
    polling_url: Seq<char>,
    said: Report,
    output_path: Option<Seq<char>>,
    now: Seq<char>,
) -> LegacyView {
    LegacyView {
        polling_url,
        status: said.status,
        generation_id: coalesce(said.generation_id, row.generation_id),
        output_path: coalesce(output_path, row.output_path),
        cost: coalesce(said.cost, row.cost),
        error: said.error,
        updated_at: now,
        ..row
    }
}

/// Makes the older row of a job that is updated.
pub fn update_legacy_job(
    row: LegacyRow,
    job: &VideoJob,
    polling_url: &str,
    output_path: Option<String>,
    cost: Option<String>,
    now: &str,
) -> (updated: LegacyRow)
    ensures
        updated@ == updated_legacy(
            row@,
            polling_url@,
            report(*job, job.locator@, crate::domain::opt_view(cost)),
            crate::domain::opt_view(output_path),
            now@,
        ),
{
    LegacyRow {
        job_id: row.job_id,
        polling_url: polling_url.to_owned(),
        status: job.status.as_str().to_owned(),
        request_json: row.request_json,
        generation_id: first_of(&job.generation_id, &row.generation_id),
        output_path: first_of(&output_path, &row.output_path),
        cost: first_of(&cost, &row.cost),
        error: copy_text(&job.error),
        created_at: row.created_at,
        updated_at: now.to_owned(),
    }
}

/// The row that takes an older row over: the saved one stays unless the older row is newer.
/// `request_json` is the older row's request under the names that hold for every provider.
pub open spec fn reconciled(
    saved: Option<RowView>,
    row: LegacyView,
    request_json: Option<Seq<char>>,
) -> RowView {
    let currency = if row.cost is Some {
        Some(DEFAULT_CURRENCY@)
    } else {
        None
    };
    let locator = LocatorView::OpenRouter { polling_url: row.polling_url };
    match saved {
        None => RowView {
            provider_id: OPENROUTER_PROVIDER_ID@,
            remote_job_id: row.job_id,
            locator,
            status: row.status,
            request_json,
            generation_id: row.generation_id,
            output_path: row.output_path,
            cost: row.cost,
            currency,
            error: row.error,
            created_at: row.created_at,
            updated_at: row.updated_at,
        },
        Some(old_row) => if crate::text::precedes(old_row.updated_at, row.updated_at) {
            RowView {
                locator,
                status: row.status,
                request_json: coalesce(request_json, old_row.request_json),
                generation_id: coalesce(row.generation_id, old_row.generation_id),
                output_path: coalesce(row.output_path, old_row.output_path),
                cost: coalesce(row.cost, old_row.cost),
                currency: coalesce(currency, old_row.currency),
                error: row.error,
                updated_at: row.updated_at,
                ..old_row
            }
        } else {
            old_row
        },
    }
}

/// Takes an older row over.
pub fn reconcile_legacy_job(
    saved: Option<GenerationRow>,
    row: LegacyRow,
    request_json: Option<String>,
) -> (r: GenerationRow)
    ensures
        r@ == reconciled(
            match saved {
                Some(s) => Some(s@),
                None => None,
            },
            row@,
            crate::domain::opt_view(request_json),
        ),
{
    let currency = if row.cost.is_some() {
        Some(DEFAULT_CURRENCY.to_owned())
    } else {
        None
    };
    match saved {
        None => GenerationRow {
            provider_id: ProviderId::openrouter(),
            remote_job_id: row.job_id,
            locator: JobLocator::OpenRouter { polling_url: row.polling_url },
            status: row.status,
            request_json,
            generation_id: row.generation_id,
            output_path: row.output_path,
            cost: row.cost,
            currency,
            error: row.error,
            created_at: row.created_at,
            updated_at: row.updated_at,
        },
        Some(kept) => {
            if !comes_before(kept.updated_at.as_str(), row.updated_at.as_str()) {
                return kept;
            }
            GenerationRow {
                provider_id: kept.provider_id,
                remote_job_id: kept.remote_job_id,
                locator: JobLocator::OpenRouter { polling_url: row.polling_url },
                status: row.status,
                request_json: first_of(&request_json, &kept.request_json),
                generation_id: first_of(&row.generation_id, &kept.generation_id),
                output_path: first_of(&row.output_path, &kept.output_path),
                cost: first_of(&row.cost, &kept.cost),
                currency: first_of(&currency, &kept.currency),
                error: row.error,
                created_at: kept.created_at,
                updated_at: row.updated_at,
            }
        },
    }
}

/// Taking an older row over twice is taking it over once.
pub proof fn reconciling_is_idempotent(
    saved: Option<RowView>,
    row: LegacyView,
    request_json: Option<Seq<char>>,
)
    ensures
        reconciled(Some(reconciled(saved, row, request_json)), row, request_json) == reconciled(
            saved,
            row,
            request_json,
        ),
{
    crate::text::precedes_orders(row.updated_at, row.updated_at);
}

/// An older row never takes the place of a newer one.
pub proof fn newer_rows_survive(
    saved: RowView,
    row: LegacyView,
    request_json: Option<Seq<char>>,
)
    requires
        !crate::text::precedes(saved.updated_at, row.updated_at),
    ensures
        reconciled(Some(saved), row, request_json) == saved,
{
}

/// An older row's request as it is saved. `payload` is the request's document, where its text
/// could be read.
pub open spec fn legacy_request(text: Option<Seq<char>>, payload: Option<JsonView>) -> Option<
    Seq<char>,
> {
    match (text, payload) {
        (Some(_), Some(JsonView::Object(members))) => Some(
            crate::outside::rendering_of(
                JsonView::Object(normalized_request(members, OPENROUTER_PROVIDER_ID@)),
            ),
        ),
        _ => text,
    }
}

/// Brings an older row's request under the names that hold for every provider; one that cannot be
/// read stays as it is.
pub fn normalize_legacy_request(text: Option<String>, payload: Option<Json>) -> (r: Option<String>)
    ensures
        crate::domain::opt_view(r) == legacy_request(
            crate::domain::opt_view(text),
            match payload {
                Some(json) => Some(json@),
                None => None,
            },
        ),
{
    match text {
        Some(text) => match payload {
            Some(json) => match normalized_request_json(&json, &ProviderId::openrouter()) {
                Some(normal) => Some(normal),
                None => Some(text),
            },
            None => Some(text),
        },
        None => None,
    }
}

/// The cost that a job's usage states, as `rust_decimal` reads it: in a text, or in a value as it is
/// written.
pub open spec fn stated_cost(usage: JsonView) -> Option<Seq<char>> {
    match crate::json::field(usage, "cost"@) {
        Some(JsonView::Text(text)) => crate::outside::decimal_of(text),
        Some(value) => crate::outside::decimal_of(crate::outside::rendering_of(value)),
        None => None,
    }
}

/// What a job's usage says that it cost.
pub fn usage_cost(usage: &Json) -> (cost: Option<String>)
    ensures
        crate::domain::opt_view(cost) == stated_cost(usage@),
{
    match usage.get("cost") {
        Some(Json::Text(text)) => read_decimal(text.as_str()),
        Some(value) => {
            let text = render(value);
            read_decimal(text.as_str())
        },
        None => None,
    }
}

/// A generation as it is read back.
#[derive(Debug)]
pub struct JobRecord {
    pub provider_id: ProviderId,
    pub job_id: String,
    /// The one text that shows where the job is to be found.
    pub polling_url: String,
    pub locator: JobLocator,
    pub status: String,
    pub request: Option<VideoRequest>,
    pub generation_id: Option<String>,
    pub output_path: Option<String>,
    pub cost: Option<String>,
    pub currency: Option<String>,
    pub error: Option<String>,
    pub created_at: Timestamp,
    pub updated_at: Timestamp,
}

/// Whether a status says that nothing more will happen to the job.
pub open spec fn terminal_name(status: Seq<char>) -> bool {
    status == "completed"@ || status == "failed"@ || status == "cancelled"@ || status
        == "expired"@
}

fn is_terminal_name(status: &str) -> (b: bool)
    ensures
        b == terminal_name(status@),
{
    same_text(status, "completed") || same_text(status, "failed") || same_text(
        status,
        "cancelled",
    ) || same_text(status, "expired")
}

/// A status is saved as terminal if and only if it is terminal, unless a provider gives one of the
/// four names to a status of its own.
pub proof fn saved_status_keeps_finality(status: crate::domain::StatusView)
    requires
        status matches crate::domain::StatusView::Unknown(name) ==> !terminal_name(name),
    ensures
        terminal_name(status.name()) == status.terminal(),
{
    reveal_strlit("completed");
    reveal_strlit("failed");
    reveal_strlit("cancelled");
    reveal_strlit("expired");
    reveal_strlit("pending");
    reveal_strlit("in_progress");
    assert("pending"@.len() == 7 && "in_progress"@.len() == 11 && "completed"@.len() == 9);
    assert("failed"@.len() == 6 && "cancelled"@.len() == 9 && "expired"@.len() == 7);
    assert("pending"@[0] != "expired"@[0]);
}

impl JobRecord {
    /// The job's identifier at its provider.
    pub fn id(&self) -> (id: &str)
        ensures
            id@ == self.job_id@,
    {
        self.job_id.as_str()
    }

    /// The job's identifier at its provider.
    pub fn remote_id(&self) -> (id: &str)
        ensures
            id@ == self.job_id@,
    {
        self.job_id.as_str()
    }

    /// The provider and the identifier.
    pub fn key(&self) -> (key: ProviderJobKey)
        ensures
            key.provider_id@ == self.provider_id@,
            key.remote_job_id@ == self.job_id@,
    {
        ProviderJobKey {
            provider_id: self.provider_id.copy(),
            remote_job_id: self.job_id.clone(),
        }
    }

    /// Where the video was saved.
    pub fn path(&self) -> (path: Option<&str>)
        ensures
            match path {
                Some(p) => crate::domain::opt_view(self.output_path) == Some(p@),
                None => self.output_path is None,
            },
    {
        match &self.output_path {
            Some(path) => Some(path.as_str()),
            None => None,
        }
    }

    /// What the generation cost, as a decimal.
    pub fn actual_cost(&self) -> (cost: Option<&str>)
        ensures
            match cost {
                Some(c) => crate::domain::opt_view(self.cost) == Some(c@),
                None => self.cost is None,
            },
    {
        match &self.cost {
            Some(cost) => Some(cost.as_str()),
            None => None,
        }
    }

    /// Whether nothing more will happen to the job.
    pub fn terminal(&self) -> (b: bool)
        ensures
            b == terminal_name(self.status@),
    {
        is_terminal_name(self.status.as_str())
    }
}

/// The moment that a text denotes, or `now`.
pub open spec fn moment_or(text: Seq<char>, now: Timestamp) -> Timestamp {
    match crate::outside::moment_of(text) {
        Some(moment) => moment,
        None => now,
    }
}

/// The moment that a text denotes, or `now`.
pub fn parse_time(text: &str, now: Timestamp) -> (t: Timestamp)
    ensures
        t == moment_or(text@, now),
{
    match read_moment(text) {
        Some(moment) => moment,
        None => now,
    }
}

/// The decimal that an optional text denotes.
pub open spec fn amount_or_none(text: Option<Seq<char>>) -> Option<Seq<char>> {
    match text {
        Some(t) => crate::outside::decimal_of(t),
        None => None,
    }
}

/// The document that a row's request is kept as, where there is one that can be read.
pub open spec fn kept_payload(text: Option<Seq<char>>) -> Option<JsonView> {
    match text {
        Some(text) => match crate::outside::document_of(text) {
            Ok(document) => Some(document),
            Err(_) => None,
        },
        None => None,
    }
}

/// Reads the document of a row's request.
pub fn row_payload(row: &GenerationRow) -> (r: Option<Json>)
    ensures
        crate::json::json_option(r) == kept_payload(row@.request_json),
{
    match &row.request_json {
        Some(text) => match read_document(text.as_str()) {
            Ok(document) => Some(document),
            Err(_) => None,
        },
        None => None,
    }
}

/// Reads a row back. `request` is the request in it, where the document could be read as one.
pub fn row_to_record(row: GenerationRow, request: Option<VideoRequest>, now: Timestamp) -> (r:
    Result<JobRecord, HistoryError>)
    ensures
        match r {
            Ok(record) => {
                &&& row@.locator.provider() == row@.provider_id
                &&& record.provider_id@ == row@.provider_id
                &&& record.job_id@ == row@.remote_job_id
                &&& record.locator@ == row@.locator
                &&& record.polling_url@ == shown_url(row@.locator)
                &&& record.status@ == row@.status
                &&& crate::domain::opt_view(record.generation_id) == row@.generation_id
                &&& crate::domain::opt_view(record.output_path) == row@.output_path
                &&& crate::domain::opt_view(record.cost) == amount_or_none(row@.cost)
                &&& crate::domain::opt_view(record.currency) == row@.currency
                &&& crate::domain::opt_view(record.error) == row@.error
                &&& record.created_at == moment_or(row@.created_at, now)
                &&& record.updated_at == moment_or(row@.updated_at, now)
                &&& match request {
                    Some(q) => record.request matches Some(own) && own.provider_id@
                        == row@.provider_id && own == (VideoRequest {
                        provider_id: own.provider_id,
                        ..q
                    }),
                    None => record.request is None,
                }
            },
            Err(e) => e == HistoryError::InvalidRow && row@.locator.provider()
                != row@.provider_id,
        },
{
    if !row.locator.provider_id().same(&row.provider_id) {
        return Err(HistoryError::InvalidRow);
    }
    let own = match request {
        Some(q) => Some(VideoRequest { provider_id: row.provider_id.copy(), ..q }),
        None => None,
    };
    let cost = match &row.cost {
        Some(text) => read_decimal(text.as_str()),
        None => None,
    };
    let polling_url = polling_url_for_locator(&row.locator);
    let created_at = parse_time(row.created_at.as_str(), now);
    let updated_at = parse_time(row.updated_at.as_str(), now);
    Ok(
        JobRecord {
            provider_id: row.provider_id,
            job_id: row.remote_job_id,
            polling_url,
            locator: row.locator,
            status: row.status,
            request: own,
            generation_id: row.generation_id,
            output_path: row.output_path,
            cost,
            currency: row.currency,
            error: row.error,
            created_at,
            updated_at,
        },
    )
}

/// How many rows are listed at most: at least one, and no more than five thousand.
pub fn safe_limit(limit: usize) -> (n: i64)
    ensures
        n == (if limit < 1 {
            1int
        } else if limit > 5000 {
            5000
        } else {
            limit as int
        }),
{
    if limit < 1 {
        1
    } else if limit > 5000 {
        5000
    } else {
        limit as i64
    }
}

/// The positions of the rows that are wanted, in order: those of a provider, or all; those that
/// are still going on, or all.
pub open spec fn wanted(
    rows: Seq<GenerationRow>,
    provider_id: Option<Seq<char>>,
    pending_only: bool,
) -> Seq<nat>
    decreases rows.len(),
{
    if rows.len() == 0 {
        Seq::empty()
    } else {
        let before = wanted(rows.drop_last(), provider_id, pending_only);
        if wanted_row(rows.last(), provider_id, pending_only) {
            before.push((rows.len() - 1) as nat)
        } else {
            before
        }
    }
}

/// Whether a row is wanted.
pub open spec fn wanted_row(
    row: GenerationRow,
    provider_id: Option<Seq<char>>,
    pending_only: bool,
) -> bool {
    (provider_id matches Some(id) ==> row.provider_id@ == id) && (pending_only ==> !terminal_name(
        row.status@,
    ))
}

/// A position put into a list so that later rows come first; among rows of the same time the one
/// that was there stays before.
pub open spec fn ranked(rows: Seq<GenerationRow>, list: Seq<nat>, at: nat) -> Seq<nat>
    decreases list.len(),
{
    if list.len() == 0 || crate::text::precedes(
        rows[list[0] as int].created_at@,
        rows[at as int].created_at@,
    ) {
        seq![at] + list
    } else {
        seq![list[0]] + ranked(rows, list.skip(1), at)
    }
}

/// Positions in the order in which they are listed: the latest row first.
pub open spec fn newest_first(rows: Seq<GenerationRow>, list: Seq<nat>) -> Seq<nat>
    decreases list.len(),
{
    if list.len() == 0 {
        list
    } else {
        ranked(rows, newest_first(rows, list.drop_last()), list.last())
    }
}

/// At most so many of them.
pub open spec fn limited(list: Seq<nat>, limit: Option<nat>) -> Seq<nat> {
    match limit {
        Some(n) if n < list.len() => list.take(n as int),
        _ => list,
    }
}

/// The positions of a list of machine integers.
pub open spec fn positions(list: Seq<usize>) -> Seq<nat> {
    Seq::new(list.len(), |i: int| list[i] as nat)
}

/// Whether no row of a list is earlier than one that stands behind it.
pub open spec fn in_order(rows: Seq<GenerationRow>, list: Seq<nat>) -> bool {
    forall|i: int, j: int|
        0 <= i < j < list.len() ==> !crate::text::precedes(
            rows[#[trigger] list[i] as int].created_at@,
            rows[#[trigger] list[j] as int].created_at@,
        )
}

proof fn not_before(a: Seq<char>, b: Seq<char>, c: Seq<char>)
    requires
        !crate::text::precedes(a, b),
        !crate::text::precedes(b, c),
    ensures
        !crate::text::precedes(a, c),
{
    crate::text::precedes_orders(a, b);
    crate::text::precedes_orders(b, c);
    if crate::text::precedes(a, c) && b != c {
        crate::text::precedes_transitive(a, c, b);
    }
}

proof fn ranked_in_order(rows: Seq<GenerationRow>, list: Seq<nat>, at: nat)
    requires
        in_order(rows, list),
    ensures
        in_order(rows, ranked(rows, list, at)),
        forall|i: int|
            0 <= i < ranked(rows, list, at).len() ==> (#[trigger] ranked(rows, list, at)[i]) == at
                || exists|j: int| 0 <= j < list.len() && list[j] == ranked(rows, list, at)[i],
    decreases list.len(),
{
    let after = ranked(rows, list, at);
    if list.len() == 0 {
    } else if crate::text::precedes(
        rows[list[0] as int].created_at@,
        rows[at as int].created_at@,
    ) {
        crate::text::precedes_orders(
            rows[list[0] as int].created_at@,
            rows[at as int].created_at@,
        );
        assert forall|i: int, j: int| 0 <= i < j < after.len() implies !crate::text::precedes(
            rows[#[trigger] after[i] as int].created_at@,
            rows[#[trigger] after[j] as int].created_at@,
        ) by {
            assert(after[j] == list[j - 1]);
            if i == 0 {
                if j > 1 {
                    assert(list[0] == list[0] && list[j - 1] == list[j - 1]);
                    not_before(
                        rows[at as int].created_at@,
                        rows[list[0] as int].created_at@,
                        rows[list[j - 1] as int].created_at@,
                    );
                }
            } else {
                assert(after[i] == list[i - 1]);
            }
        }
        assert forall|i: int| 0 <= i < after.len() implies (#[trigger] after[i]) == at || exists|
            j: int,
        | 0 <= j < list.len() && list[j] == after[i] by {
            if i > 0 {
                assert(list[i - 1] == after[i]);
            }
        }
    } else {
        let rest = list.skip(1);
        assert forall|i: int, j: int| 0 <= i < j < rest.len() implies !crate::text::precedes(
            rows[#[trigger] rest[i] as int].created_at@,
            rows[#[trigger] rest[j] as int].created_at@,
        ) by {
            assert(rest[i] == list[i + 1] && rest[j] == list[j + 1]);
        }
        ranked_in_order(rows, rest, at);
        let deeper = ranked(rows, rest, at);
        assert forall|i: int, j: int| 0 <= i < j < after.len() implies !crate::text::precedes(
            rows[#[trigger] after[i] as int].created_at@,
            rows[#[trigger] after[j] as int].created_at@,
        ) by {
            assert(after[j] == deeper[j - 1]);
            if i == 0 {
                if deeper[j - 1] != at {
                    let k = choose|k: int| 0 <= k < rest.len() && rest[k] == deeper[j - 1];
                    assert(list[k + 1] == after[j]);
                }
            } else {
                assert(after[i] == deeper[i - 1]);
            }
        }
        assert forall|i: int| 0 <= i < after.len() implies (#[trigger] after[i]) == at || exists|
            j: int,
        | 0 <= j < list.len() && list[j] == after[i] by {
            if i == 0 {
                assert(list[0] == after[0]);
            } else {
                assert(after[i] == deeper[i - 1]);
                if deeper[i - 1] != at {
                    let k = choose|k: int| 0 <= k < rest.len() && rest[k] == deeper[i - 1];
                    assert(list[k + 1] == after[i]);
                }
            }
        }
    }
}

/// A listing shows the latest generation first.
pub proof fn listings_are_newest_first(rows: Seq<GenerationRow>, list: Seq<nat>, limit: Option<nat>)
    ensures
        in_order(rows, limited(newest_first(rows, list), limit)),
    decreases list.len(),
{
    if list.len() > 0 {
        listings_are_newest_first(rows, list.drop_last(), None);
        ranked_in_order(rows, newest_first(rows, list.drop_last()), list.last());
    }
    let all = newest_first(rows, list);
    let shown = limited(all, limit);
    assert forall|i: int, j: int| 0 <= i < j < shown.len() implies !crate::text::precedes(
        rows[#[trigger] shown[i] as int].created_at@,
        rows[#[trigger] shown[j] as int].created_at@,
    ) by {
        assert(shown[i] == all[i] && shown[j] == all[j]);
    }
}

fn rank(rows: &Vec<GenerationRow>, list: &mut Vec<usize>, at: usize)
    requires
        at < rows@.len(),
        forall|i: int| 0 <= i < old(list)@.len() ==> #[trigger] old(list)@[i] < rows@.len(),
    ensures
        positions(final(list)@) == ranked(rows@, positions(old(list)@), at as nat),
        forall|i: int| 0 <= i < final(list)@.len() ==> #[trigger] final(list)@[i] < rows@.len(),
{
    let ghost start = positions(list@);
    let mut i: usize = 0;
    assert(start.skip(0) =~= start);
    assert(start.take(0) =~= Seq::<nat>::empty());
    while i < list.len() && !comes_before(
        rows[list[i]].created_at.as_str(),
        rows[at].created_at.as_str(),
    )
        invariant
            i <= list@.len(),
            at < rows@.len(),
            list@ == old(list)@,
            start == positions(list@),
            forall|k: int| 0 <= k < list@.len() ==> #[trigger] list@[k] < rows@.len(),
            ranked(rows@, start, at as nat) == start.take(i as int) + ranked(
                rows@,
                start.skip(i as int),
                at as nat,
            ),
        decreases list@.len() - i,
    {
        proof {
            let rest = start.skip(i as int);
            assert(rest[0] == list@[i as int] as nat);
            assert(rest.skip(1) =~= start.skip(i + 1));
            assert(start.take(i as int) + (seq![rest[0]] + ranked(
                rows@,
                start.skip(i + 1),
                at as nat,
            )) =~= start.take(i + 1) + ranked(rows@, start.skip(i + 1), at as nat));
        }
        i = i + 1;
    }
    proof {
        let rest = start.skip(i as int);
        if i < list@.len() {
            assert(rest[0] == list@[i as int] as nat);
        }
        assert(ranked(rows@, rest, at as nat) == seq![at as nat] + rest);
    }
    list.insert(i, at);
    assert(positions(list@) =~= start.take(i as int) + (seq![at as nat] + start.skip(i as int)));
}

/// Chooses the rows that are listed and the order in which they are: the positions of the wanted
/// ones, the latest first, and at most `limit` of them.
pub fn select_rows(
    rows: &Vec<GenerationRow>,
    provider_id: Option<&ProviderId>,
    pending_only: bool,
    limit: Option<usize>,
) -> (r: Vec<usize>)
    ensures
        positions(r@) == limited(
            newest_first(
                rows@,
                wanted(
                    rows@,
                    match provider_id {
                        Some(id) => Some(id@),
                        None => None,
                    },
                    pending_only,
                ),
            ),
            match limit {
                Some(n) => Some(n as nat),
                None => None,
            },
        ),
        forall|i: int| 0 <= i < r@.len() ==> #[trigger] r@[i] < rows@.len(),
{
    let ghost id = match provider_id {
        Some(id) => Some(id@),
        None => None,
    };
    let mut list: Vec<usize> = Vec::new();
    let mut i: usize = 0;
    assert(rows@.take(0) =~= Seq::<GenerationRow>::empty());
    assert(positions(list@) =~= Seq::<nat>::empty());
    while i < rows.len()
        invariant
            i <= rows@.len(),
            id == (match provider_id {
                Some(id) => Some(id@),
                None => None,
            }),
            positions(list@) == newest_first(
                rows@,
                wanted(rows@.take(i as int), id, pending_only),
            ),
            forall|k: int| 0 <= k < list@.len() ==> #[trigger] list@[k] < rows@.len(),
        decreases rows@.len() - i,
    {
        assert(rows@.take(i + 1).drop_last() =~= rows@.take(i as int));
        let ghost before = wanted(rows@.take(i as int), id, pending_only);
        let own = match provider_id {
            Some(id) => rows[i].provider_id.same(id),
            None => true,
        };
        if own && (!pending_only || !is_terminal_name(rows[i].status.as_str())) {
            rank(rows, &mut list, i);
            assert(before.push(i as nat).drop_last() =~= before);
        }
        i = i + 1;
    }
    assert(rows@.take(rows@.len() as int) =~= rows@);
    if let Some(n) = limit {
        if n < list.len() {
            let ghost all = positions(list@);
            list.truncate(n);
            assert(positions(list@) =~= all.take(n as int));
        }
    }
    list
}

} // verus!
