//! The service between the window and the providers: which command may run, what each task does
//! next and what is reported.

use crate::domain::{
    CostQuote, JobLocator, JobStatus, LocatorView, ProviderDescriptor, ProviderId, ProviderJobKey,
    VideoCatalog, VideoJob, VideoRequest, FAL_PROVIDER_ID, OPENROUTER_PROVIDER_ID,
};
use crate::history::{HistoryError, JobRecord};
use crate::json::{point, Json, JsonView};
use crate::providers::{ProviderAccount, ProviderError, ProviderErrorKind};
use crate::table::Table;
use crate::text::{concat, concat3, decimal, trim_text};
use vstd::prelude::*;

verus! {

/// How the service works. The interval between checks is in milliseconds.
#[derive(Debug, Clone, Copy, PartialEq, Eq, Structural)]
pub struct ServiceConfig {
    pub poll_interval: u64,
    pub max_poll_attempts: usize,
    /// Whether keys are kept in the system's keyring.
    pub use_system_credentials: bool,
}

impl Default for ServiceConfig {
    fn default() -> (config: ServiceConfig)
        ensures
            config == (ServiceConfig {
                poll_interval: 30_000,
                max_poll_attempts: 60,
                use_system_credentials: true,
            }),
    {
        ServiceConfig {
            poll_interval: 30_000,
            max_poll_attempts: 60,
            use_system_credentials: true,
        }
    }
}

/// What a failure is about.
#[derive(Debug, Clone, Copy, PartialEq, Eq, Structural)]
pub enum ServiceScope {
    Startup,
    Credential,
    Catalog,
    Quote,
    Settings,
    Generation,
    Import,
    History,
    OpenVideo,
}

/// Why the service cannot start.
#[derive(Debug)]
pub enum ServiceError {
    Config(String),
}

/// Where a key is kept.
#[derive(Debug)]
pub struct CredentialStatus {
    pub backend: String,
    pub available: bool,
    pub persistent: bool,
    pub message: String,
}

/// A provider and whether there is a key for it.
#[derive(Debug)]
pub struct ProviderConnection {
    pub descriptor: ProviderDescriptor,
    pub connected: bool,
    pub credential_status: CredentialStatus,
}

/// What the service is asked to do.
pub enum ServiceCommand {
    ConnectApiKey { op_id: u64, provider_id: ProviderId, key: String, persist_on_success: bool },
    ForgetApiKey { op_id: u64, provider_id: ProviderId },
    RefreshCatalog { op_id: u64, provider_id: ProviderId },
    Quote { op_id: u64, provider_id: ProviderId, request: VideoRequest },
    SaveModelSettings { op_id: u64, provider_id: ProviderId, model_id: String, settings_json: Json },
    SaveDefaultProvider { op_id: u64, provider_id: ProviderId },
    Generate { op_id: u64, provider_id: ProviderId, request: VideoRequest },
    Resume { op_id: u64, key: ProviderJobKey },
    Import { op_id: u64, provider_id: ProviderId, locator: JobLocator },
    CancelCurrent { op_id: u64 },
    LoadHistory { op_id: u64, limit: usize },
    OpenVideo { op_id: u64, path: String },
    Shutdown,
}

/// A name and the number of the operation that it stands for.
pub open spec fn numbered(name: Seq<char>, op_id: u64) -> Seq<char> {
    name + " #"@ + crate::text::numeral(op_id as nat)
}

fn number_text(name: &str, op_id: u64) -> (s: String)
    ensures
        s@ == numbered(name@, op_id),
{
    let number = decimal(op_id);
    concat3(name, " #", number.as_str())
}

impl ServiceCommand {
    /// The command as it may be logged: what it is and for which operation.
    pub open spec fn spec_debug_text(self) -> Seq<char> {
        match self {
            ServiceCommand::ConnectApiKey { op_id, .. } => numbered("ConnectApiKey"@, op_id),
            ServiceCommand::ForgetApiKey { op_id, .. } => numbered("ForgetApiKey"@, op_id),
            ServiceCommand::RefreshCatalog { op_id, .. } => numbered("RefreshCatalog"@, op_id),
            ServiceCommand::Quote { op_id, .. } => numbered("Quote"@, op_id),
            ServiceCommand::SaveModelSettings { op_id, .. } => numbered("SaveModelSettings"@, op_id),
            ServiceCommand::SaveDefaultProvider { op_id, .. } => numbered("SaveDefaultProvider"@, op_id),
            ServiceCommand::Generate { op_id, .. } => numbered("Generate"@, op_id),
            ServiceCommand::Resume { op_id, .. } => numbered("Resume"@, op_id),
            ServiceCommand::Import { op_id, .. } => numbered("Import"@, op_id),
            ServiceCommand::CancelCurrent { op_id, .. } => numbered("CancelCurrent"@, op_id),
            ServiceCommand::LoadHistory { op_id, .. } => numbered("LoadHistory"@, op_id),
            ServiceCommand::OpenVideo { op_id, .. } => numbered("OpenVideo"@, op_id),
            ServiceCommand::Shutdown => "Shutdown"@,
        }
    }

    /// The command as it may be logged. What it carries is left out, a key above all.
    pub fn debug_text(&self) -> (s: String)
        ensures
            s@ == self.spec_debug_text(),
    {
        match self {
            ServiceCommand::ConnectApiKey { op_id, .. } => number_text("ConnectApiKey", *op_id),
            ServiceCommand::ForgetApiKey { op_id, .. } => number_text("ForgetApiKey", *op_id),
            ServiceCommand::RefreshCatalog { op_id, .. } => number_text("RefreshCatalog", *op_id),
            ServiceCommand::Quote { op_id, .. } => number_text("Quote", *op_id),
            ServiceCommand::SaveModelSettings { op_id, .. } => number_text("SaveModelSettings", *op_id),
            ServiceCommand::SaveDefaultProvider { op_id, .. } => number_text("SaveDefaultProvider", *op_id),
            ServiceCommand::Generate { op_id, .. } => number_text("Generate", *op_id),
            ServiceCommand::Resume { op_id, .. } => number_text("Resume", *op_id),
            ServiceCommand::Import { op_id, .. } => number_text("Import", *op_id),
            ServiceCommand::CancelCurrent { op_id, .. } => number_text("CancelCurrent", *op_id),
            ServiceCommand::LoadHistory { op_id, .. } => number_text("LoadHistory", *op_id),
            ServiceCommand::OpenVideo { op_id, .. } => number_text("OpenVideo", *op_id),
            ServiceCommand::Shutdown => "Shutdown".to_owned(),
        }
    }
}

/// A failure as it is reported.
#[derive(Debug)]
pub struct ServiceFailure {
    pub op_id: u64,
    pub provider_id: Option<ProviderId>,
    pub scope: ServiceScope,
    pub message: String,
    pub recoverable: bool,
    pub job_id: Option<String>,
}

/// The mathematical value of a failure.
pub struct FailureView {
    pub op_id: u64,
    pub provider_id: Option<Seq<char>>,
    pub scope: ServiceScope,
    pub message: Seq<char>,
    pub recoverable: bool,
    pub job_id: Option<Seq<char>>,
}

/// The name of an optional provider.
pub open spec fn provider_view(provider_id: Option<ProviderId>) -> Option<Seq<char>> {
    match provider_id {
        Some(id) => Some(id@),
        None => None,
    }
}

impl View for ServiceFailure {
    type V = FailureView;

    open spec fn view(&self) -> FailureView {
        FailureView {
            op_id: self.op_id,
            provider_id: provider_view(self.provider_id),
            scope: self.scope,
            message: self.message@,
            recoverable: self.recoverable,
            job_id: crate::domain::opt_view(self.job_id),
        }
    }
}

/// What the service reports.
#[derive(Debug)]
pub enum ServiceEvent {
    Ready { providers: Vec<ProviderConnection>, default_provider: ProviderId },
    ApiKeyConnected {
        op_id: u64,
        provider_id: ProviderId,
        info: ProviderAccount,
        credential_status: CredentialStatus,
    },
    ApiKeyForgotten { op_id: u64, provider_id: ProviderId, credential_status: CredentialStatus },
    /// `remembered_settings` holds the saved settings of each model by its identifier.
    CatalogLoaded {
        op_id: u64,
        provider_id: ProviderId,
        catalog: VideoCatalog,
        remembered_settings: Json,
    },
    QuoteReady { op_id: u64, provider_id: ProviderId, model_id: String, quote: CostQuote },
    SettingsSaved { op_id: u64, provider_id: ProviderId, model_id: String },
    DefaultProviderSaved { op_id: u64, provider_id: ProviderId },
    SubmissionStarted { op_id: u64, provider_id: ProviderId },
    /// Reported without a record right after the paid request, so that the remote identifier is
    /// known even if the record cannot be saved.
    JobAccepted { op_id: u64, provider_id: ProviderId, job: VideoJob, record: Option<JobRecord> },
    JobUpdated { op_id: u64, provider_id: ProviderId, job: VideoJob, record: JobRecord },
    /// `next_in` is in milliseconds.
    PollWaiting { op_id: u64, provider_id: ProviderId, job_id: String, attempt: usize, next_in: u64 },
    DownloadProgress {
        op_id: u64,
        provider_id: ProviderId,
        job_id: String,
        written: u64,
        total: Option<u64>,
    },
    Downloaded {
        op_id: u64,
        provider_id: ProviderId,
        job: VideoJob,
        record: JobRecord,
        path: String,
    },
    HistoryLoaded { op_id: u64, records: Vec<JobRecord> },
    Imported { op_id: u64, provider_id: ProviderId, job: VideoJob, record: JobRecord },
    Cancelled {
        op_id: u64,
        provider_id: Option<ProviderId>,
        job_id: Option<String>,
        remote_continues: bool,
    },
    VideoOpened { op_id: u64, path: String },
    Error(ServiceFailure),
    ShutdownComplete,
}

/// What a provider is called; one that is not known counts as OpenRouter.
pub open spec fn display_name(provider_id: Seq<char>) -> Seq<char> {
    if provider_id == "fal"@ {
        "fal.ai"@
    } else {
        "OpenRouter"@
    }
}

/// What a provider is called; one that is not known counts as OpenRouter.
pub fn descriptor(provider_id: &ProviderId) -> (d: ProviderDescriptor)
    ensures
        d.display_name@ == display_name(provider_id@),
        d.id@ == (if provider_id@ == "fal"@ {
            FAL_PROVIDER_ID@
        } else {
            OPENROUTER_PROVIDER_ID@
        }),
        d.website@ == (if provider_id@ == "fal"@ {
            "https://fal.ai"@
        } else {
            "https://openrouter.ai"@
        }),
{
    if provider_id.is("fal") {
        crate::providers::fal_transfer::descriptor()
    } else {
        crate::providers::openrouter::descriptor()
    }
}

/// The status of a key that is kept in memory alone.
pub fn memory_status() -> (status: CredentialStatus)
    ensures
        status.backend@ == "memory"@,
        !status.available,
        !status.persistent,
        status.message@ == "API key is kept in memory for this session only"@,
{
    CredentialStatus {
        backend: "memory".to_owned(),
        available: false,
        persistent: false,
        message: "API key is kept in memory for this session only".to_owned(),
    }
}

/// A provider and whether there is a key for it.
pub fn connection(
    provider_id: &ProviderId,
    connected: bool,
    credential_status: CredentialStatus,
) -> (c: ProviderConnection)
    ensures
        c.descriptor.display_name@ == display_name(provider_id@),
        c.descriptor.id@ == (if provider_id@ == "fal"@ {
            FAL_PROVIDER_ID@
        } else {
            OPENROUTER_PROVIDER_ID@
        }),
        c.descriptor.website@ == (if provider_id@ == "fal"@ {
            "https://fal.ai"@
        } else {
            "https://openrouter.ai"@
        }),
        c.connected == connected,
        c.credential_status == credential_status,
{
    ProviderConnection { descriptor: descriptor(provider_id), connected, credential_status }
}

/// The providers that there are.
#[derive(Debug, Clone, Copy, PartialEq, Eq, Structural)]
pub enum KnownProvider {
    OpenRouter,
    Fal,
}

/// Finds out which provider an identifier stands for.
pub fn known_provider(provider_id: &ProviderId) -> (r: Result<KnownProvider, ProviderError>)
    ensures
        match r {
            Ok(KnownProvider::OpenRouter) => provider_id@ == "openrouter"@,
            Ok(KnownProvider::Fal) => provider_id@ == "fal"@,
            Err(e) => provider_id@ != "openrouter"@ && provider_id@ != "fal"@ && e@
                == crate::providers::plain_failure(
                provider_id@,
                ProviderErrorKind::Configuration,
                "Unsupported video provider "@ + provider_id@,
            ),
        },
{
    if provider_id.is("openrouter") {
        Ok(KnownProvider::OpenRouter)
    } else if provider_id.is("fal") {
        Ok(KnownProvider::Fal)
    } else {
        Err(
            ProviderError::new(
                provider_id.copy(),
                ProviderErrorKind::Configuration,
                concat("Unsupported video provider ", provider_id.as_str()),
            ),
        )
    }
}

/// The report of a provider's error.
pub open spec fn provider_failure(
    op_id: u64,
    scope: ServiceScope,
    error: ProviderError,
    job_id: Option<Seq<char>>,
) -> FailureView {
    FailureView {
        op_id,
        provider_id: Some(error.provider_id@),
        scope,
        message: error.message@,
        recoverable: crate::providers::kind_retryable(error.kind),
        job_id,
    }
}

/// Reports a provider's error.
pub fn report_provider_error(
    op_id: u64,
    scope: ServiceScope,
    error: ProviderError,
    job_id: Option<String>,
) -> (failure: ServiceFailure)
    ensures
        failure@ == provider_failure(op_id, scope, error, crate::domain::opt_view(job_id)),
{
    let recoverable = error.retryable();
    ServiceFailure {
        op_id,
        provider_id: Some(error.provider_id),
        scope,
        message: error.message,
        recoverable,
        job_id,
    }
}

/// The report that a provider has no key.
pub open spec fn missing_key(
    op_id: u64,
    provider_id: Seq<char>,
    scope: ServiceScope,
    job_id: Option<Seq<char>>,
) -> FailureView {
    FailureView {
        op_id,
        provider_id: Some(provider_id),
        scope,
        message: "Connect a "@ + display_name(provider_id) + " API key first"@,
        recoverable: true,
        job_id,
    }
}

/// Reports that a provider has no key.
pub fn report_missing_key(
    op_id: u64,
    provider_id: &ProviderId,
    scope: ServiceScope,
    job_id: Option<String>,
) -> (failure: ServiceFailure)
    ensures
        failure@ == missing_key(op_id, provider_id@, scope, crate::domain::opt_view(job_id)),
{
    let called = descriptor(provider_id);
    ServiceFailure {
        op_id,
        provider_id: Some(provider_id.copy()),
        scope,
        message: concat3("Connect a ", called.display_name.as_str(), " API key first"),
        recoverable: true,
        job_id,
    }
}

/// The report that a provider is not known.
pub open spec fn unknown_provider(op_id: u64, provider_id: Seq<char>, scope: ServiceScope) -> FailureView {
    FailureView {
        op_id,
        provider_id: Some(provider_id),
        scope,
        message: "Unsupported video provider "@ + provider_id,
        recoverable: false,
        job_id: None,
    }
}

/// Reports that a provider is not known.
pub fn report_unknown_provider(op_id: u64, provider_id: &ProviderId, scope: ServiceScope) -> (
failure: ServiceFailure)
    ensures
        failure@ == unknown_provider(op_id, provider_id@, scope),
{
    ServiceFailure {
        op_id,
        provider_id: Some(provider_id.copy()),
        scope,
        message: concat("Unsupported video provider ", provider_id.as_str()),
        recoverable: false,
        job_id: None,
    }
}

/// The report of a plain failure of an operation at a provider.
pub open spec fn refusal_view(
    op_id: u64,
    provider_id: Seq<char>,
    scope: ServiceScope,
    message: Seq<char>,
    recoverable: bool,
    job_id: Option<Seq<char>>,
) -> FailureView {
    FailureView { op_id, provider_id: Some(provider_id), scope, message, recoverable, job_id }
}

fn refuse(
    op_id: u64,
    provider_id: &ProviderId,
    scope: ServiceScope,
    message: &str,
    recoverable: bool,
    job_id: Option<String>,
) -> (failure: ServiceFailure)
    ensures
        failure@ == refusal_view(
            op_id,
            provider_id@,
            scope,
            message@,
            recoverable,
            crate::domain::opt_view(job_id),
        ),
{
    ServiceFailure {
        op_id,
        provider_id: Some(provider_id.copy()),
        scope,
        message: message.to_owned(),
        recoverable,
        job_id,
    }
}

/// What the service does next.
pub enum ServiceStep {
    /// Ask the provider whether it accepts the key.
    Validate { op_id: u64, provider_id: ProviderId, key: String, persist_on_success: bool },
    /// Delete the key from where it is kept.
    Forget { op_id: u64, provider_id: ProviderId },
    /// Load the catalog, with the provider's key where there is one.
    Refresh { op_id: u64, provider_id: ProviderId, with_key: bool },
    Quote { op_id: u64, provider_id: ProviderId, request: VideoRequest },
    SaveModelSettings { op_id: u64, provider_id: ProviderId, model_id: String, settings_json: Json },
    SaveDefaultProvider { op_id: u64, provider_id: ProviderId },
    ReadHistory { op_id: u64, limit: usize },
    Open { op_id: u64, path: String },
    /// Start a paid generation.
    Generate { op_id: u64, provider_id: ProviderId, request: VideoRequest },
    /// Take up a saved job.
    Resume { op_id: u64, key: ProviderJobKey },
    /// Take up a job that was started elsewhere.
    Import { op_id: u64, provider_id: ProviderId, locator: JobLocator },
    /// Tell the running operation to stop.
    Cancel,
    /// Report that there is nothing to cancel.
    ReportIdle { op_id: u64 },
    Fail(ServiceFailure),
    /// Tell the running operation to stop, take no more commands and wait for it.
    Wait,
    /// Report that the service is done, and stop.
    Stop,
}

impl ServiceStep {
    /// The step as it may be logged: what it is and for which operation.
    pub open spec fn spec_debug_text(self) -> Seq<char> {
        match self {
            ServiceStep::Validate { op_id, .. } => numbered("Validate"@, op_id),
            ServiceStep::Forget { op_id, .. } => numbered("Forget"@, op_id),
            ServiceStep::Refresh { op_id, .. } => numbered("Refresh"@, op_id),
            ServiceStep::Quote { op_id, .. } => numbered("Quote"@, op_id),
            ServiceStep::SaveModelSettings { op_id, .. } => numbered("SaveModelSettings"@, op_id),
            ServiceStep::SaveDefaultProvider { op_id, .. } => numbered("SaveDefaultProvider"@, op_id),
            ServiceStep::ReadHistory { op_id, .. } => numbered("ReadHistory"@, op_id),
            ServiceStep::Open { op_id, .. } => numbered("Open"@, op_id),
            ServiceStep::Generate { op_id, .. } => numbered("Generate"@, op_id),
            ServiceStep::Resume { op_id, .. } => numbered("Resume"@, op_id),
            ServiceStep::Import { op_id, .. } => numbered("Import"@, op_id),
            ServiceStep::ReportIdle { op_id, .. } => numbered("ReportIdle"@, op_id),
            ServiceStep::Fail(failure) => numbered("Fail"@, failure.op_id),
            ServiceStep::Cancel => "Cancel"@,
            ServiceStep::Wait => "Wait"@,
            ServiceStep::Stop => "Stop"@,
        }
    }

    /// The step as it may be logged. What it carries is left out, a key above all.
    pub fn debug_text(&self) -> (s: String)
        ensures
            s@ == self.spec_debug_text(),
    {
        match self {
            ServiceStep::Validate { op_id, .. } => number_text("Validate", *op_id),
            ServiceStep::Forget { op_id, .. } => number_text("Forget", *op_id),
            ServiceStep::Refresh { op_id, .. } => number_text("Refresh", *op_id),
            ServiceStep::Quote { op_id, .. } => number_text("Quote", *op_id),
            ServiceStep::SaveModelSettings { op_id, .. } => number_text("SaveModelSettings", *op_id),
            ServiceStep::SaveDefaultProvider { op_id, .. } => number_text("SaveDefaultProvider", *op_id),
            ServiceStep::ReadHistory { op_id, .. } => number_text("ReadHistory", *op_id),
            ServiceStep::Open { op_id, .. } => number_text("Open", *op_id),
            ServiceStep::Generate { op_id, .. } => number_text("Generate", *op_id),
            ServiceStep::Resume { op_id, .. } => number_text("Resume", *op_id),
            ServiceStep::Import { op_id, .. } => number_text("Import", *op_id),
            ServiceStep::ReportIdle { op_id, .. } => number_text("ReportIdle", *op_id),
            ServiceStep::Fail(failure) => number_text("Fail", failure.op_id),
            ServiceStep::Cancel => "Cancel".to_owned(),
            ServiceStep::Wait => "Wait".to_owned(),
            ServiceStep::Stop => "Stop".to_owned(),
        }
    }
}

/// What is logged of a command or a step that carries a key is the same whatever the key.
pub proof fn logged_texts_hide_keys(
    op_id: u64,
    provider_id: ProviderId,
    key: String,
    other: String,
    persist_on_success: bool,
)
    ensures
        (ServiceCommand::ConnectApiKey {
            op_id,
            provider_id,
            key,
            persist_on_success,
        }).spec_debug_text() == (ServiceCommand::ConnectApiKey {
            op_id,
            provider_id,
            key: other,
            persist_on_success,
        }).spec_debug_text(),
        (ServiceStep::Validate {
            op_id,
            provider_id,
            key,
            persist_on_success,
        }).spec_debug_text() == (ServiceStep::Validate {
            op_id,
            provider_id,
            key: other,
            persist_on_success,
        }).spec_debug_text(),
{
}

/// What the service knows: which providers it has sessions for and whether there is a key for
/// each, the operation that is running, and whether it is to stop.
#[derive(Debug)]
pub struct Service {
    sessions: Table<ProviderId, bool>,
    active: Option<u64>,
    cancelled: bool,
    shutting_down: bool,
}

/// The mathematical value of a service.
pub struct ServiceView {
    pub connected: Map<Seq<char>, bool>,
    pub active: Option<u64>,
    pub cancelled: bool,
    pub shutting_down: bool,
}

impl View for Service {
    type V = ServiceView;

    closed spec fn view(&self) -> ServiceView {
        ServiceView {
            connected: self.sessions@,
            active: self.active,
            cancelled: self.cancelled,
            shutting_down: self.shutting_down,
        }
    }
}

impl ServiceView {
    /// Whether there is a key for a provider.
    pub open spec fn has_key(self, provider_id: Seq<char>) -> bool {
        self.connected.contains_key(provider_id) && self.connected[provider_id]
    }

    /// The service once it is told to stop.
    pub open spec fn stopping(self) -> ServiceView {
        ServiceView { shutting_down: true, cancelled: self.cancelled || self.active is Some, ..self }
    }
}

/// Why a task that needs the provider's key cannot start, if it cannot.
pub open spec fn start_refusal(
    service: ServiceView,
    op_id: u64,
    provider_id: Seq<char>,
    scope: ServiceScope,
    busy: Seq<char>,
    job_id: Option<Seq<char>>,
) -> Option<FailureView> {
    if service.active is Some {
        Some(refusal_view(op_id, provider_id, scope, busy, true, job_id))
    } else if !service.has_key(provider_id) {
        Some(missing_key(op_id, provider_id, ServiceScope::Credential, job_id))
    } else {
        None
    }
}

/// Why an import cannot start, if it cannot.
pub open spec fn import_refusal(
    service: ServiceView,
    op_id: u64,
    provider_id: Seq<char>,
    locator: LocatorView,
) -> Option<FailureView> {
    let job_id = Some(locator.job_id());
    if service.active is Some {
        Some(
            refusal_view(
                op_id,
                provider_id,
                ServiceScope::Import,
                "Another job is already active"@,
                true,
                job_id,
            ),
        )
    } else if locator.provider() != provider_id {
        Some(
            refusal_view(
                op_id,
                provider_id,
                ServiceScope::Import,
                "Import locator belongs to a different provider"@,
                false,
                job_id,
            ),
        )
    } else if !service.has_key(provider_id) {
        Some(missing_key(op_id, provider_id, ServiceScope::Credential, job_id))
    } else {
        None
    }
}

/// The service after a command.
pub open spec fn after_command(service: ServiceView, command: ServiceCommand) -> ServiceView {
    match command {
        ServiceCommand::ForgetApiKey { provider_id, .. } if service.connected.contains_key(
            provider_id@,
        ) => ServiceView { connected: service.connected.insert(provider_id@, false), ..service },
        ServiceCommand::CancelCurrent { .. } => ServiceView {
            cancelled: service.cancelled || service.active is Some,
            ..service
        },
        ServiceCommand::Shutdown => service.stopping(),
        _ => service,
    }
}

/// Whether a step is the one that the service takes on a command.
pub open spec fn fitting_step(
    service: ServiceView,
    command: ServiceCommand,
    step: ServiceStep,
) -> bool {
    match command {
        ServiceCommand::ConnectApiKey { op_id, provider_id, key, persist_on_success } => step
            matches ServiceStep::Validate { op_id: o, provider_id: p, key: k, persist_on_success: s }
            && o == op_id && p@ == provider_id@ && k@ == crate::text::trimmed(key@) && s
            == persist_on_success,
        ServiceCommand::ForgetApiKey { op_id, provider_id } => if service.connected.contains_key(
            provider_id@,
        ) {
            step matches ServiceStep::Forget { op_id: o, provider_id: p } && o == op_id && p@
                == provider_id@
        } else {
            step matches ServiceStep::Fail(failure) && failure@ == unknown_provider(
                op_id,
                provider_id@,
                ServiceScope::Credential,
            )
        },
        ServiceCommand::RefreshCatalog { op_id, provider_id } => step matches ServiceStep::Refresh {
            op_id: o,
            provider_id: p,
            with_key,
        } && o == op_id && p@ == provider_id@ && with_key == service.has_key(provider_id@),
        ServiceCommand::Quote { op_id, provider_id, request } => if service.has_key(provider_id@) {
            step == (ServiceStep::Quote { op_id, provider_id, request })
        } else {
            step matches ServiceStep::Fail(failure) && failure@ == missing_key(
                op_id,
                provider_id@,
                ServiceScope::Quote,
                None,
            )
        },
        ServiceCommand::SaveModelSettings { op_id, provider_id, model_id, settings_json } => step
            == (ServiceStep::SaveModelSettings { op_id, provider_id, model_id, settings_json }),
        ServiceCommand::SaveDefaultProvider { op_id, provider_id } =>
            if service.connected.contains_key(provider_id@) {
            step == (ServiceStep::SaveDefaultProvider { op_id, provider_id })
        } else {
            step matches ServiceStep::Fail(failure) && failure@ == unknown_provider(
                op_id,
                provider_id@,
                ServiceScope::Settings,
            )
        },
        ServiceCommand::LoadHistory { op_id, limit } => step == (ServiceStep::ReadHistory {
            op_id,
            limit,
        }),
        ServiceCommand::OpenVideo { op_id, path } => step == (ServiceStep::Open { op_id, path }),
        ServiceCommand::CancelCurrent { op_id } => if service.active is Some {
            step is Cancel
        } else {
            step == (ServiceStep::ReportIdle { op_id })
        },
        ServiceCommand::Generate { op_id, provider_id, request } => match start_refusal(
            service,
            op_id,
            provider_id@,
            ServiceScope::Generation,
            "Another generation is already active"@,
            None,
        ) {
            Some(refusal) => step matches ServiceStep::Fail(failure) && failure@ == refusal,
            None => step matches ServiceStep::Generate { op_id: o, provider_id: p, request: r }
                && o == op_id && p == provider_id && r.provider_id@ == provider_id@ && r == (
            VideoRequest { provider_id: r.provider_id, ..request }),
        },
        ServiceCommand::Resume { op_id, key } => match start_refusal(
            service,
            op_id,
            key.provider_id@,
            ServiceScope::Generation,
            "Another job is already active"@,
            Some(key.remote_job_id@),
        ) {
            Some(refusal) => step matches ServiceStep::Fail(failure) && failure@ == refusal,
            None => step == (ServiceStep::Resume { op_id, key }),
        },
        ServiceCommand::Import { op_id, provider_id, locator } => match import_refusal(
            service,
            op_id,
            provider_id@,
            locator@,
        ) {
            Some(refusal) => step matches ServiceStep::Fail(failure) && failure@ == refusal,
            None => step == (ServiceStep::Import { op_id, provider_id, locator }),
        },
        ServiceCommand::Shutdown => if service.active is Some {
            step is Wait
        } else {
            step is Stop
        },
    }
}

impl Service {
    /// A service with sessions for both providers and no operation running.
    pub fn new(openrouter_key: bool, fal_key: bool) -> (service: Service)
        ensures
            service@.connected == Map::<Seq<char>, bool>::empty().insert(
                OPENROUTER_PROVIDER_ID@,
                openrouter_key,
            ).insert(FAL_PROVIDER_ID@, fal_key),
            service@.active is None,
            !service@.cancelled,
            !service@.shutting_down,
    {
        let mut sessions: Table<ProviderId, bool> = Table::new();
        sessions.insert(ProviderId::openrouter(), openrouter_key);
        sessions.insert(ProviderId::fal(), fal_key);
        Service { sessions, active: None, cancelled: false, shutting_down: false }
    }

    /// Whether commands are still taken.
    pub fn accepts(&self) -> (b: bool)
        ensures
            b == !self@.shutting_down,
    {
        !self.shutting_down
    }

    /// Whether the running operation was told to stop.
    pub fn is_cancelled(&self) -> (b: bool)
        ensures
            b == self@.cancelled,
    {
        self.cancelled
    }

    fn has_key(&self, provider_id: &ProviderId) -> (b: bool)
        ensures
            b == self@.has_key(provider_id@),
    {
        match self.sessions.get(provider_id) {
            Some(connected) => *connected,
            None => false,
        }
    }

    fn refuse_start(
        &self,
        op_id: u64,
        provider_id: &ProviderId,
        busy: &str,
        job_id: Option<String>,
    ) -> (r: Option<ServiceFailure>)
        ensures
            match r {
                Some(failure) => start_refusal(
                    self@,
                    op_id,
                    provider_id@,
                    ServiceScope::Generation,
                    busy@,
                    crate::domain::opt_view(job_id),
                ) == Some(failure@),
                None => start_refusal(
                    self@,
                    op_id,
                    provider_id@,
                    ServiceScope::Generation,
                    busy@,
                    crate::domain::opt_view(job_id),
                ) is None,
            },
    {
        if self.active.is_some() {
            return Some(refuse(op_id, provider_id, ServiceScope::Generation, busy, true, job_id));
        }
        if !self.has_key(provider_id) {
            return Some(report_missing_key(op_id, provider_id, ServiceScope::Credential, job_id));
        }
        None
    }

    fn refuse_import(
        &self,
        op_id: u64,
        provider_id: &ProviderId,
        locator: &JobLocator,
    ) -> (r: Option<ServiceFailure>)
        ensures
            match r {
                Some(failure) => import_refusal(self@, op_id, provider_id@, locator@) == Some(
                    failure@,
                ),
                None => import_refusal(self@, op_id, provider_id@, locator@) is None,
            },
    {
        let job_id = Some(locator.remote_job_id());
        if self.active.is_some() {
            return Some(
                refuse(
                    op_id,
                    provider_id,
                    ServiceScope::Import,
                    "Another job is already active",
                    true,
                    job_id,
                ),
            );
        }
        if !locator.provider_id().same(provider_id) {
            return Some(
                refuse(
                    op_id,
                    provider_id,
                    ServiceScope::Import,
                    "Import locator belongs to a different provider",
                    false,
                    job_id,
                ),
            );
        }
        if !self.has_key(provider_id) {
            return Some(report_missing_key(op_id, provider_id, ServiceScope::Credential, job_id));
        }
        None
    }

    fn stop(&mut self) -> (step: ServiceStep)
        ensures
            final(self)@ == old(self)@.stopping(),
            if old(self)@.active is Some {
                step is Wait
            } else {
                step is Stop
            },
    {
        self.shutting_down = true;
        if self.active.is_some() {
            self.cancelled = true;
            ServiceStep::Wait
        } else {
            ServiceStep::Stop
        }
    }

    /// Decides what a command leads to. One operation runs at a time.
    pub fn handle_command(&mut self, command: ServiceCommand) -> (step: ServiceStep)
        requires
            !old(self)@.shutting_down,
        ensures
            final(self)@ == after_command(old(self)@, command),
            fitting_step(old(self)@, command, step),
    {
        match command {
            ServiceCommand::ConnectApiKey { op_id, provider_id, key, persist_on_success } => {
                let key = trim_text(key.as_str()).to_owned();
                ServiceStep::Validate { op_id, provider_id, key, persist_on_success }
            },
            ServiceCommand::ForgetApiKey { op_id, provider_id } => {
                if self.sessions.contains(&provider_id) {
                    self.sessions.insert(provider_id.copy(), false);
                    ServiceStep::Forget { op_id, provider_id }
                } else {
                    ServiceStep::Fail(
                        report_unknown_provider(op_id, &provider_id, ServiceScope::Credential),
                    )
                }
            },
            ServiceCommand::RefreshCatalog { op_id, provider_id } => {
                let with_key = self.has_key(&provider_id);
                ServiceStep::Refresh { op_id, provider_id, with_key }
            },
            ServiceCommand::Quote { op_id, provider_id, request } => {
                if self.has_key(&provider_id) {
                    ServiceStep::Quote { op_id, provider_id, request }
                } else {
                    ServiceStep::Fail(
                        report_missing_key(op_id, &provider_id, ServiceScope::Quote, None),
                    )
                }
            },
            ServiceCommand::SaveModelSettings { op_id, provider_id, model_id, settings_json } =>
                ServiceStep::SaveModelSettings { op_id, provider_id, model_id, settings_json },
            ServiceCommand::SaveDefaultProvider { op_id, provider_id } => {
                if self.sessions.contains(&provider_id) {
                    ServiceStep::SaveDefaultProvider { op_id, provider_id }
                } else {
                    ServiceStep::Fail(
                        report_unknown_provider(op_id, &provider_id, ServiceScope::Settings),
                    )
                }
            },
            ServiceCommand::LoadHistory { op_id, limit } => ServiceStep::ReadHistory {
                op_id,
                limit,
            },
            ServiceCommand::OpenVideo { op_id, path } => ServiceStep::Open { op_id, path },
            ServiceCommand::CancelCurrent { op_id } => {
                if self.active.is_some() {
                    self.cancelled = true;
                    ServiceStep::Cancel
                } else {
                    ServiceStep::ReportIdle { op_id }
                }
            },
            ServiceCommand::Generate { op_id, provider_id, request } => {
                match self.refuse_start(
                    op_id,
                    &provider_id,
                    "Another generation is already active",
                    None,
                ) {
                    Some(failure) => ServiceStep::Fail(failure),
                    None => {
                        let request = VideoRequest { provider_id: provider_id.copy(), ..request };
                        ServiceStep::Generate { op_id, provider_id, request }
                    },
                }
            },
            ServiceCommand::Resume { op_id, key } => {
                match self.refuse_start(
                    op_id,
                    &key.provider_id,
                    "Another job is already active",
                    Some(key.remote_job_id.clone()),
                ) {
                    Some(failure) => ServiceStep::Fail(failure),
                    None => ServiceStep::Resume { op_id, key },
                }
            },
            ServiceCommand::Import { op_id, provider_id, locator } => {
                match self.refuse_import(op_id, &provider_id, &locator) {
                    Some(failure) => ServiceStep::Fail(failure),
                    None => ServiceStep::Import { op_id, provider_id, locator },
                }
            },
            ServiceCommand::Shutdown => self.stop(),
        }
    }

    /// Decides what the end of all commands leads to: the same as the command to shut down.
    pub fn commands_ended(&mut self) -> (step: ServiceStep)
        ensures
            final(self)@ == old(self)@.stopping(),
            if old(self)@.active is Some {
                step is Wait
            } else {
                step is Stop
            },
    {
        self.stop()
    }

    /// Notes that a provider accepts a key; a provider without a session is refused.
    pub fn key_accepted(&mut self, op_id: u64, provider_id: &ProviderId) -> (r: Result<
        (),
        ServiceFailure,
    >)
        ensures
            match r {
                Ok(_) => old(self)@.connected.contains_key(provider_id@) && final(self)@ == (
                ServiceView {
                    connected: old(self)@.connected.insert(provider_id@, true),
                    ..old(self)@
                }),
                Err(failure) => !old(self)@.connected.contains_key(provider_id@) && final(self)@
                    == old(self)@ && failure@ == unknown_provider(
                    op_id,
                    provider_id@,
                    ServiceScope::Credential,
                ),
            },
    {
        if self.sessions.contains(provider_id) {
            self.sessions.insert(provider_id.copy(), true);
            Ok(())
        } else {
            Err(report_unknown_provider(op_id, provider_id, ServiceScope::Credential))
        }
    }

    /// Notes that an operation is running.
    pub fn started(&mut self, op_id: u64)
        requires
            old(self)@.active is None,
        ensures
            final(self)@ == (ServiceView {
                active: Some(op_id),
                cancelled: false,
                ..old(self)@
            }),
    {
        self.active = Some(op_id);
        self.cancelled = false;
    }

    /// Notes that an operation has ended, and says whether the service stops now.
    pub fn finished(&mut self, op_id: u64) -> (stop: bool)
        ensures
            final(self)@ == (ServiceView {
                active: if old(self)@.active == Some(op_id) {
                    None
                } else {
                    old(self)@.active
                },
                ..old(self)@
            }),
            stop == (old(self)@.shutting_down && final(self)@.active is None),
    {
        if let Some(active) = self.active {
            if active == op_id {
                self.active = None;
            }
        }
        self.shutting_down && self.active.is_none()
    }
}

/// While an operation runs, no other one starts.
pub proof fn one_operation_at_a_time(service: ServiceView, command: ServiceCommand, step: ServiceStep)
    requires
        service.active is Some,
        fitting_step(service, command, step),
    ensures
        !(step is Generate),
        !(step is Resume),
        !(step is Import),
        after_command(service, command).active == service.active,
{
}

/// Nothing that costs or watches a job starts without the provider's key.
pub proof fn tasks_need_a_key(service: ServiceView, command: ServiceCommand, step: ServiceStep)
    requires
        fitting_step(service, command, step),
    ensures
        step matches ServiceStep::Generate { provider_id, .. } ==> service.has_key(provider_id@),
        step matches ServiceStep::Resume { key, .. } ==> service.has_key(key.provider_id@),
        step matches ServiceStep::Import { provider_id, .. } ==> service.has_key(provider_id@),
        step matches ServiceStep::Quote { provider_id, .. } ==> service.has_key(provider_id@),
{
}

/// The catalog that is shown: the live one, or a cached copy of the same provider's where the live
/// one cannot be had, or else the provider's error.
pub fn catalog_at_hand(
    live: Result<VideoCatalog, ProviderError>,
    cached: Option<VideoCatalog>,
    provider_id: &ProviderId,
) -> (r: Result<VideoCatalog, ProviderError>)
    ensures
        match live {
            Ok(catalog) => r == Ok::<VideoCatalog, ProviderError>(catalog),
            Err(error) => match cached {
                Some(copy) => if copy.provider_id@ == provider_id@ {
                    r == Ok::<VideoCatalog, ProviderError>(copy)
                } else {
                    r == Err::<VideoCatalog, ProviderError>(error)
                },
                None => r == Err::<VideoCatalog, ProviderError>(error),
            },
        },
{
    match live {
        Ok(catalog) => Ok(catalog),
        Err(error) => match cached {
            Some(copy) => if copy.provider_id.same(provider_id) {
                Ok(copy)
            } else {
                Err(error)
            },
            None => Err(error),
        },
    }
}

/// Why a task came to nothing.
#[derive(Debug)]
pub struct TaskFailure {
    pub provider_id: ProviderId,
    pub scope: ServiceScope,
    pub message: String,
    pub recoverable: bool,
    pub job_id: Option<String>,
}

/// The mathematical value of a task's failure.
pub struct TaskFailureView {
    pub provider_id: Seq<char>,
    pub scope: ServiceScope,
    pub message: Seq<char>,
    pub recoverable: bool,
    pub job_id: Option<Seq<char>>,
}

impl View for TaskFailure {
    type V = TaskFailureView;

    open spec fn view(&self) -> TaskFailureView {
        TaskFailureView {
            provider_id: self.provider_id@,
            scope: self.scope,
            message: self.message@,
            recoverable: self.recoverable,
            job_id: crate::domain::opt_view(self.job_id),
        }
    }
}

/// What of the history a task was about when it broke off.
#[derive(Debug, Clone, Copy, PartialEq, Eq, Structural)]
pub enum HistoryTask {
    Create,
    Import,
    Lookup,
    Update,
}

/// What is said of a history task that broke off. A job that was accepted but not saved cannot be
/// taken up again.
pub open spec fn broken_task(task: HistoryTask) -> (Seq<char>, bool) {
    match task {
        HistoryTask::Create => ("History task failed after the provider accepted the job"@, false),
        HistoryTask::Import => ("History import task failed"@, true),
        HistoryTask::Lookup => ("History lookup task failed"@, true),
        HistoryTask::Update => ("History update task failed"@, true),
    }
}

impl TaskFailure {
    /// A provider's error.
    pub fn provider(scope: ServiceScope, error: ProviderError, job_id: Option<String>) -> (failure:
        TaskFailure)
        ensures
            failure@ == (TaskFailureView {
                provider_id: error.provider_id@,
                scope,
                message: error.message@,
                recoverable: crate::providers::kind_retryable(error.kind),
                job_id: crate::domain::opt_view(job_id),
            }),
    {
        let recoverable = error.retryable();
        TaskFailure {
            provider_id: error.provider_id,
            scope,
            message: error.message,
            recoverable,
            job_id,
        }
    }

    /// An error of the history.
    pub fn history(
        provider_id: ProviderId,
        scope: ServiceScope,
        error: HistoryError,
        job_id: Option<String>,
    ) -> (failure: TaskFailure)
        ensures
            failure@ == (TaskFailureView {
                provider_id: provider_id@,
                scope,
                message: crate::history::message_of(error),
                recoverable: false,
                job_id: crate::domain::opt_view(job_id),
            }),
    {
        TaskFailure { provider_id, scope, message: error.message(), recoverable: false, job_id }
    }

    /// A history task that broke off.
    pub fn broken(provider_id: ProviderId, task: HistoryTask, job_id: String) -> (failure:
        TaskFailure)
        ensures
            failure@ == (TaskFailureView {
                provider_id: provider_id@,
                scope: ServiceScope::History,
                message: broken_task(task).0,
                recoverable: broken_task(task).1,
                job_id: Some(job_id@),
            }),
    {
        let (message, recoverable) = match task {
            HistoryTask::Create => (
                "History task failed after the provider accepted the job",
                false,
            ),
            HistoryTask::Import => ("History import task failed", true),
            HistoryTask::Lookup => ("History lookup task failed", true),
            HistoryTask::Update => ("History update task failed", true),
        };
        TaskFailure {
            provider_id,
            scope: ServiceScope::History,
            message: message.to_owned(),
            recoverable,
            job_id: Some(job_id),
        }
    }

    /// A job that was to be resumed but is not in the history.
    pub fn not_saved(key: &ProviderJobKey) -> (failure: TaskFailure)
        ensures
            failure@ == (TaskFailureView {
                provider_id: key.provider_id@,
                scope: ServiceScope::History,
                message: "No saved "@ + key.provider_id@ + " job named "@ + (key.remote_job_id@
                    + " was found"@),
                recoverable: true,
                job_id: Some(key.remote_job_id@),
            }),
    {
        let head = concat3("No saved ", key.provider_id.as_str(), " job named ");
        let tail = concat(key.remote_job_id.as_str(), " was found");
        TaskFailure {
            provider_id: key.provider_id.copy(),
            scope: ServiceScope::History,
            message: concat(head.as_str(), tail.as_str()),
            recoverable: true,
            job_id: Some(key.remote_job_id.clone()),
        }
    }

    /// The failure as it is reported for an operation.
    pub fn report(self, op_id: u64) -> (failure: ServiceFailure)
        ensures
            failure@ == (FailureView {
                op_id,
                provider_id: Some(self@.provider_id),
                scope: self@.scope,
                message: self@.message,
                recoverable: self@.recoverable,
                job_id: self@.job_id,
            }),
    {
        ServiceFailure {
            op_id,
            provider_id: Some(self.provider_id),
            scope: self.scope,
            message: self.message,
            recoverable: self.recoverable,
            job_id: self.job_id,
        }
    }
}

/// What follows in the course of a generation, a resumption or an import.
#[derive(Debug)]
pub enum TaskStep {
    /// Report the accepted job.
    Announce,
    /// Save the accepted job.
    Save,
    /// Save the imported job, then report it.
    SaveImported,
    /// Ask the provider how the job stands.
    Check,
    /// Save how the job stands.
    Update,
    /// Watch the job.
    Monitor,
    /// Report that the video is already there.
    Present,
    Fail(TaskFailure),
}

/// Where a task stands: what it has done, up to the point at which the job is watched. A task is
/// told to stop only from there on.
#[derive(Debug, Clone, Copy, PartialEq, Eq, Structural)]
pub enum TaskPhase {
    /// A generation starts with the paid request.
    Submitting,
    Announcing,
    Saving,
    /// An import starts with asking the provider for the job.
    Fetching,
    SavingImported,
    /// A resumption starts with looking the job up in the history.
    LookingUp,
    Checking,
    Updating,
    Watching,
    Ended,
}

/// What came of a step.
#[derive(Debug)]
pub enum TaskResult {
    Done,
    ProviderRefused(ProviderError),
    HistoryRefused(HistoryError),
    HistoryBroke,
    /// The job is not in the history.
    Missing,
    /// The job's video is already on this machine.
    AlreadySaved,
}

/// The phase after a result.
pub open spec fn next_phase(phase: TaskPhase, result: TaskResult) -> TaskPhase {
    match (phase, result) {
        (TaskPhase::Submitting, TaskResult::Done) => TaskPhase::Announcing,
        (TaskPhase::Announcing, TaskResult::Done) => TaskPhase::Saving,
        (TaskPhase::Saving, TaskResult::Done) => TaskPhase::Watching,
        (TaskPhase::Fetching, TaskResult::Done) => TaskPhase::SavingImported,
        (TaskPhase::SavingImported, TaskResult::Done) => TaskPhase::Watching,
        (TaskPhase::LookingUp, TaskResult::Done) => TaskPhase::Checking,
        (TaskPhase::Checking, TaskResult::Done) => TaskPhase::Updating,
        (TaskPhase::Updating, TaskResult::Done) => TaskPhase::Watching,
        _ => TaskPhase::Ended,
    }
}

/// What a provider's refusal is about in a phase, and whether the job's identifier is known.
pub open spec fn refused_in(phase: TaskPhase) -> (ServiceScope, bool) {
    match phase {
        TaskPhase::Submitting => (ServiceScope::Generation, false),
        TaskPhase::Fetching => (ServiceScope::Import, true),
        _ => (ServiceScope::Generation, true),
    }
}

/// Which history task a phase does.
pub open spec fn history_task_of(phase: TaskPhase) -> HistoryTask {
    match phase {
        TaskPhase::Saving => HistoryTask::Create,
        TaskPhase::SavingImported => HistoryTask::Import,
        TaskPhase::LookingUp => HistoryTask::Lookup,
        _ => HistoryTask::Update,
    }
}

/// Whether a phase can have a result.
pub open spec fn possible(phase: TaskPhase, result: TaskResult) -> bool {
    match result {
        TaskResult::Done => phase != TaskPhase::Watching && phase != TaskPhase::Ended,
        TaskResult::ProviderRefused(_) => phase == TaskPhase::Submitting || phase
            == TaskPhase::Fetching || phase == TaskPhase::Checking,
        TaskResult::HistoryRefused(_) | TaskResult::HistoryBroke => phase == TaskPhase::Saving
            || phase == TaskPhase::SavingImported || phase == TaskPhase::LookingUp || phase
            == TaskPhase::Updating,
        TaskResult::Missing => phase == TaskPhase::LookingUp,
        TaskResult::AlreadySaved => phase == TaskPhase::Updating,
    }
}

/// Whether a step follows a result.
pub open spec fn follows(
    phase: TaskPhase,
    result: TaskResult,
    key: ProviderJobKey,
    step: TaskStep,
) -> bool {
    match result {
        TaskResult::Done => match phase {
            TaskPhase::Submitting => step is Announce,
            TaskPhase::Announcing => step is Save,
            TaskPhase::Fetching => step is SaveImported,
            TaskPhase::LookingUp => step is Check,
            TaskPhase::Checking => step is Update,
            _ => step is Monitor,
        },
        TaskResult::ProviderRefused(error) => step matches TaskStep::Fail(failure) && failure@ == (
        TaskFailureView {
            provider_id: error.provider_id@,
            scope: refused_in(phase).0,
            message: error.message@,
            recoverable: crate::providers::kind_retryable(error.kind),
            job_id: if refused_in(phase).1 {
                Some(key.remote_job_id@)
            } else {
                None
            },
        }),
        TaskResult::HistoryRefused(error) => step matches TaskStep::Fail(failure) && failure@ == (
        TaskFailureView {
            provider_id: key.provider_id@,
            scope: ServiceScope::History,
            message: crate::history::message_of(error),
            recoverable: false,
            job_id: Some(key.remote_job_id@),
        }),
        TaskResult::HistoryBroke => step matches TaskStep::Fail(failure) && failure@ == (
        TaskFailureView {
            provider_id: key.provider_id@,
            scope: ServiceScope::History,
            message: broken_task(history_task_of(phase)).0,
            recoverable: broken_task(history_task_of(phase)).1,
            job_id: Some(key.remote_job_id@),
        }),
        TaskResult::Missing => step matches TaskStep::Fail(failure) && failure@ == (
        TaskFailureView {
            provider_id: key.provider_id@,
            scope: ServiceScope::History,
            message: "No saved "@ + key.provider_id@ + " job named "@ + (key.remote_job_id@
                + " was found"@),
            recoverable: true,
            job_id: Some(key.remote_job_id@),
        }),
        TaskResult::AlreadySaved => step is Present,
    }
}

/// Decides what follows a result, for the job that the task is about. Before a paid request is
/// answered the job's identifier is not known and may be empty.
pub fn after_result(phase: TaskPhase, result: TaskResult, key: &ProviderJobKey) -> (r: (
    TaskPhase,
    TaskStep,
))
    requires
        possible(phase, result),
    ensures
        r.0 == next_phase(phase, result),
        follows(phase, result, *key, r.1),
{
    match result {
        TaskResult::Done => match phase {
            TaskPhase::Submitting => (TaskPhase::Announcing, TaskStep::Announce),
            TaskPhase::Announcing => (TaskPhase::Saving, TaskStep::Save),
            TaskPhase::Fetching => (TaskPhase::SavingImported, TaskStep::SaveImported),
            TaskPhase::LookingUp => (TaskPhase::Checking, TaskStep::Check),
            TaskPhase::Checking => (TaskPhase::Updating, TaskStep::Update),
            TaskPhase::Saving | TaskPhase::SavingImported | TaskPhase::Updating
            | TaskPhase::Watching | TaskPhase::Ended => (TaskPhase::Watching, TaskStep::Monitor),
        },
        TaskResult::ProviderRefused(error) => {
            let failure = match phase {
                TaskPhase::Submitting => TaskFailure::provider(
                    ServiceScope::Generation,
                    error,
                    None,
                ),
                TaskPhase::Fetching => TaskFailure::provider(
                    ServiceScope::Import,
                    error,
                    Some(key.remote_job_id.clone()),
                ),
                _ => TaskFailure::provider(
                    ServiceScope::Generation,
                    error,
                    Some(key.remote_job_id.clone()),
                ),
            };
            (TaskPhase::Ended, TaskStep::Fail(failure))
        },
        TaskResult::HistoryRefused(error) => {
            let failure = TaskFailure::history(
                key.provider_id.copy(),
                ServiceScope::History,
                error,
                Some(key.remote_job_id.clone()),
            );
            (TaskPhase::Ended, TaskStep::Fail(failure))
        },
        TaskResult::HistoryBroke => {
            let task = match phase {
                TaskPhase::Saving => HistoryTask::Create,
                TaskPhase::SavingImported => HistoryTask::Import,
                TaskPhase::LookingUp => HistoryTask::Lookup,
                _ => HistoryTask::Update,
            };
            let failure = TaskFailure::broken(
                key.provider_id.copy(),
                task,
                key.remote_job_id.clone(),
            );
            (TaskPhase::Ended, TaskStep::Fail(failure))
        },
        TaskResult::Missing => (TaskPhase::Ended, TaskStep::Fail(TaskFailure::not_saved(key))),
        TaskResult::AlreadySaved => (TaskPhase::Ended, TaskStep::Present),
    }
}

/// An accepted job is reported before anything is done to save it, and whatever saving comes to.
pub proof fn accepted_jobs_are_announced_first(
    submitted: TaskResult,
    key: ProviderJobKey,
    step: TaskStep,
)
    requires
        possible(TaskPhase::Submitting, submitted),
        follows(TaskPhase::Submitting, submitted, key, step),
    ensures
        submitted is Done <==> step is Announce,
        !(step is Save),
        next_phase(TaskPhase::Submitting, submitted) != TaskPhase::Saving,
{
}

/// A job is watched, and the task can be told to stop, only after the provider accepted it, it was
/// reported and its record was saved: a paid request leads there through these alone.
pub proof fn jobs_are_saved_before_they_are_watched(
    submitted: TaskResult,
    announced: TaskResult,
    saved: TaskResult,
)
    ensures
        ({
            let accepted = next_phase(TaskPhase::Submitting, submitted);
            let reported = next_phase(accepted, announced);
            &&& accepted != TaskPhase::Watching
            &&& reported != TaskPhase::Watching
            &&& next_phase(reported, saved) == TaskPhase::Watching ==> submitted is Done
                && announced is Done && saved is Done
        }),
{
}

/// What a task that watches a job does next.
#[derive(Debug)]
pub enum MonitorStep {
    /// Report that the job is no longer watched; it goes on at the provider.
    Stop,
    /// Wait, then check for this time.
    Wait { attempt: usize },
    /// The job has a video to download.
    Collect,
    Fail(TaskFailure),
}

/// Whether a step is the one that a task takes that watches a job.
pub open spec fn monitors(
    job: VideoJob,
    provider_id: Seq<char>,
    attempts: usize,
    max_attempts: usize,
    cancelled: bool,
    step: MonitorStep,
) -> bool {
    if cancelled {
        step is Stop
    } else if !job.status@.terminal() {
        if attempts < max_attempts {
            step == (MonitorStep::Wait { attempt: (attempts + 1) as usize })
        } else {
            step matches MonitorStep::Fail(failure) && failure@ == (TaskFailureView {
                provider_id,
                scope: ServiceScope::Generation,
                message:
                    "Monitoring reached its local limit. The remote job was not cancelled; open History later to resume checking it."@,
                recoverable: true,
                job_id: Some(job.id@),
            })
        }
    } else if job.status is Completed {
        step is Collect
    } else {
        step matches MonitorStep::Fail(failure) && failure@ == (TaskFailureView {
            provider_id,
            scope: ServiceScope::Generation,
            message: match job.error {
                Some(message) => message@,
                None => "The provider marked the job "@ + job.status@.name() + "."@,
            },
            recoverable: false,
            job_id: Some(job.id@),
        })
    }
}

/// Decides what follows a check of a job: a task that was told to stop stops, a job that is not
/// done is checked again for a limited number of times, and a job that failed is reported.
pub fn monitor_step(
    job: &VideoJob,
    provider_id: &ProviderId,
    attempts: usize,
    max_attempts: usize,
    cancelled: bool,
) -> (step: MonitorStep)
    ensures
        monitors(*job, provider_id@, attempts, max_attempts, cancelled, step),
{
    if cancelled {
        return MonitorStep::Stop;
    }
    if !job.status.terminal() {
        if attempts < max_attempts {
            return MonitorStep::Wait { attempt: attempts + 1 };
        }
        return MonitorStep::Fail(
            TaskFailure {
                provider_id: provider_id.copy(),
                scope: ServiceScope::Generation,
                message:
                    "Monitoring reached its local limit. The remote job was not cancelled; open History later to resume checking it.".to_owned(),
                recoverable: true,
                job_id: Some(job.id.clone()),
            },
        );
    }
    if let JobStatus::Completed = job.status {
        return MonitorStep::Collect;
    }
    let message = match &job.error {
        Some(message) => message.clone(),
        None => concat3("The provider marked the job ", job.status.as_str(), "."),
    };
    MonitorStep::Fail(
        TaskFailure {
            provider_id: provider_id.copy(),
            scope: ServiceScope::Generation,
            message,
            recoverable: false,
            job_id: Some(job.id.clone()),
        },
    )
}

/// A job is checked no more often than the limit says, and is collected only when it is completed.
pub proof fn checks_are_limited(
    job: VideoJob,
    provider_id: Seq<char>,
    attempts: usize,
    max_attempts: usize,
    cancelled: bool,
    step: MonitorStep,
)
    requires
        monitors(job, provider_id, attempts, max_attempts, cancelled, step),
    ensures
        step matches MonitorStep::Wait { attempt } ==> attempt <= max_attempts && attempt
            == attempts + 1 && !cancelled && !job.status@.terminal(),
        step is Collect ==> job.status is Completed && !cancelled,
{
}

/// What a task with a completed job does next.
#[derive(Debug)]
pub enum CollectStep {
    Stop,
    /// Download the job's first video.
    Download { url: String },
    Fail(TaskFailure),
}

/// Decides what follows the completion of a job.
pub fn collect_step(job: &VideoJob, provider_id: &ProviderId, cancelled: bool) -> (step:
    CollectStep)
    ensures
        if cancelled {
            step is Stop
        } else if job.artifacts@.len() == 0 {
            step matches CollectStep::Fail(failure) && failure@ == (TaskFailureView {
                provider_id: provider_id@,
                scope: ServiceScope::Generation,
                message: "The provider completed without a video artifact"@,
                recoverable: true,
                job_id: Some(job.id@),
            })
        } else {
            step matches CollectStep::Download { url } && url@ == job.artifacts@[0].url@
        },
{
    if cancelled {
        return CollectStep::Stop;
    }
    if job.artifacts.len() == 0 {
        return CollectStep::Fail(
            TaskFailure {
                provider_id: provider_id.copy(),
                scope: ServiceScope::Generation,
                message: "The provider completed without a video artifact".to_owned(),
                recoverable: true,
                job_id: Some(job.id.clone()),
            },
        );
    }
    CollectStep::Download { url: job.artifacts[0].url.clone() }
}

/// What follows a download.
#[derive(Debug)]
pub enum DownloadedStep {
    /// Delete the partial file and report that the job is no longer watched.
    Discard,
    /// Save where the video is.
    Record { path: String },
    Fail(TaskFailure),
}

/// Decides what follows a download; none has a result when the task was told to stop.
pub fn after_download(result: Option<Result<String, ProviderError>>, job_id: &str) -> (step:
    DownloadedStep)
    ensures
        match result {
            None => step is Discard,
            Some(Ok(path)) => step == (DownloadedStep::Record { path }),
            Some(Err(error)) => step matches DownloadedStep::Fail(failure) && failure@ == (
            TaskFailureView {
                provider_id: error.provider_id@,
                scope: ServiceScope::Generation,
                message: error.message@,
                recoverable: crate::providers::kind_retryable(error.kind),
                job_id: Some(job_id@),
            }),
        },
{
    match result {
        None => DownloadedStep::Discard,
        Some(Ok(path)) => DownloadedStep::Record { path },
        Some(Err(error)) => DownloadedStep::Fail(
            TaskFailure::provider(ServiceScope::Generation, error, Some(job_id.to_owned())),
        ),
    }
}

/// The next stretch of a wait: a second, or what is left of it. Times are in milliseconds.
pub open spec fn stretch(remaining: u64) -> u64 {
    if remaining < 1000 {
        remaining
    } else {
        1000
    }
}

/// The waits that are announced before a check: the time that is left, stretch by stretch.
pub open spec fn announced(remaining: u64) -> Seq<u64>
    decreases remaining,
{
    if remaining == 0 {
        Seq::empty()
    } else {
        seq![remaining] + announced((remaining - stretch(remaining)) as u64)
    }
}

/// How long the stretches of a wait last together.
pub open spec fn waited(remaining: u64) -> nat
    decreases remaining,
{
    if remaining == 0 {
        0
    } else {
        (stretch(remaining) + waited((remaining - stretch(remaining)) as u64)) as nat
    }
}

/// The stretches of a wait last as long as the wait.
pub proof fn stretches_add_up(remaining: u64)
    ensures
        waited(remaining) == remaining,
    decreases remaining,
{
    if remaining > 0 {
        stretches_add_up((remaining - stretch(remaining)) as u64);
    }
}

/// Splits what is left of a wait into its next stretch and the rest; nothing where it is over.
pub fn countdown_step(remaining: u64) -> (r: Option<(u64, u64)>)
    ensures
        match r {
            None => remaining == 0,
            Some((step, rest)) => remaining > 0 && step == stretch(remaining) && rest == remaining
                - step && announced(remaining) == seq![remaining] + announced(rest),
        },
{
    if remaining == 0 {
        return None;
    }
    let step: u64 = if remaining < 1000 {
        remaining
    } else {
        1000
    };
    Some((step, remaining - step))
}

/// How long to sleep before looking again whether the task was told to stop; nothing where the
/// time is over.
pub fn sleep_slice(left: u64) -> (r: Option<u64>)
    ensures
        r == (if left == 0 {
            None
        } else if left < 100 {
            Some(left)
        } else {
            Some(100u64)
        }),
{
    if left == 0 {
        None
    } else if left < 100 {
        Some(left)
    } else {
        Some(100)
    }
}

/// A text of a job's answer: under its name, or else in the result; a fallback where what is there
/// is no text.
pub open spec fn raw_text(
    raw: JsonView,
    key: Seq<char>,
    pointer: Seq<char>,
    fallback: Seq<char>,
) -> Seq<char> {
    let value = match crate::json::field(raw, key) {
        Some(value) => Some(value),
        None => crate::json::pointed(raw, pointer),
    };
    match value {
        Some(JsonView::Text(text)) => text,
        _ => fallback,
    }
}

fn find_raw_text(raw: &Json, key: &str, pointer: &str, fallback: &str) -> (s: String)
    ensures
        s@ == raw_text(raw@, key@, pointer@, fallback@),
{
    let value = match raw.get(key) {
        Some(value) => Some(value),
        None => point(raw, pointer),
    };
    match value {
        Some(value) => match value.as_str() {
            Some(text) => text.to_owned(),
            None => fallback.to_owned(),
        },
        None => fallback.to_owned(),
    }
}

/// The model and the prompt that a job's answer tells.
pub fn request_texts(job: &VideoJob) -> (r: (String, String))
    ensures
        r.0@ == raw_text(job.raw@, "model"@, "/result/model"@, "imported-video-job"@),
        r.1@ == raw_text(job.raw@, "prompt"@, "/result/prompt"@, "Imported video"@),
{
    (
        find_raw_text(&job.raw, "model", "/result/model", "imported-video-job"),
        find_raw_text(&job.raw, "prompt", "/result/prompt", "Imported video"),
    )
}

/// A request with a model and a prompt and nothing else.
pub fn bare_request(provider_id: &ProviderId, model: String, prompt: String) -> (request:
    VideoRequest)
    ensures
        request.provider_id@ == provider_id@,
        request.model == model,
        request.prompt == prompt,
        request.duration is None,
        request.resolution is None,
        request.aspect_ratio is None,
        request.size is None,
        request.generate_audio is None,
        request.seed is None,
        request.frame_images@.len() == 0,
        request.input_references@.len() == 0,
        request.adapter_options is None,
{
    VideoRequest {
        provider_id: provider_id.copy(),
        model,
        prompt,
        duration: None,
        resolution: None,
        aspect_ratio: None,
        size: None,
        generate_audio: None,
        seed: None,
        frame_images: Vec::new(),
        input_references: Vec::new(),
        adapter_options: None,
    }
}

/// The request that a job without a saved one is taken to have had: the model and prompt of its
/// answer, or fixed ones where those are refused.
pub fn request_from_job(provider_id: &ProviderId, job: &VideoJob, refused: bool) -> (request:
    VideoRequest)
    ensures
        request.provider_id@ == provider_id@,
        request.model@ == (if refused {
            "imported-video-job"@
        } else {
            raw_text(job.raw@, "model"@, "/result/model"@, "imported-video-job"@)
        }),
        request.prompt@ == (if refused {
            "Imported video"@
        } else {
            raw_text(job.raw@, "prompt"@, "/result/prompt"@, "Imported video"@)
        }),
        request.duration is None,
        request.resolution is None,
        request.aspect_ratio is None,
        request.size is None,
        request.generate_audio is None,
        request.seed is None,
        request.frame_images@.len() == 0,
        request.input_references@.len() == 0,
        request.adapter_options is None,
{
    if refused {
        return bare_request(
            provider_id,
            "imported-video-job".to_owned(),
            "Imported video".to_owned(),
        );
    }
    let (model, prompt) = request_texts(job);
    bare_request(provider_id, model, prompt)
}

/// What is said of a video that cannot be opened because it is gone.
pub fn missing_video(op_id: u64, path: &str) -> (failure: ServiceFailure)
    ensures
        failure@ == (FailureView {
            op_id,
            provider_id: None,
            scope: ServiceScope::OpenVideo,
            message: "Video file no longer exists: "@ + path@,
            recoverable: true,
            job_id: None,
        }),
{
    ServiceFailure {
        op_id,
        provider_id: None,
        scope: ServiceScope::OpenVideo,
        message: concat("Video file no longer exists: ", path),
        recoverable: true,
        job_id: None,
    }
}

/// What is said when the video player cannot be started.
pub fn player_failed(op_id: u64, reason: &str) -> (failure: ServiceFailure)
    ensures
        failure@ == (FailureView {
            op_id,
            provider_id: None,
            scope: ServiceScope::OpenVideo,
            message: "Could not start the default video player: "@ + reason@,
            recoverable: true,
            job_id: None,
        }),
{
    ServiceFailure {
        op_id,
        provider_id: None,
        scope: ServiceScope::OpenVideo,
        message: concat("Could not start the default video player: ", reason),
        recoverable: true,
        job_id: None,
    }
}

} // verus!
